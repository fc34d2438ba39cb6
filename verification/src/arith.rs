//! Arithmetic on ranks and files, and comparisons between them.
//!
//! A sum or a difference must name a rank or a file of the board; the
//! operators ask for that of their caller.
use crate::file::File;
use crate::rank::Rank;
use vstd::prelude::*;
use vstd::std_specs::ops::{AddSpecImpl, SubSpecImpl};

verus! {

impl core::ops::Add<i8> for Rank {
    type Output = Rank;

    fn add(self, rhs: i8) -> (r: Rank) {
        proof {
            use_type_invariant(&self);
        }
        Rank((self.0 as i8 + rhs) as u8)
    }
}

impl AddSpecImpl<i8> for Rank {
    open spec fn obeys_add_spec() -> bool {
        true
    }

    open spec fn add_req(self, rhs: i8) -> bool {
        0 <= self@ + rhs <= 7
    }

    open spec fn add_spec(self, rhs: i8) -> Rank {
        Rank::at(self@ + rhs)
    }
}

impl core::ops::Add for Rank {
    type Output = Rank;

    fn add(self, rhs: Rank) -> (r: Rank) {
        proof {
            use_type_invariant(&self);
            use_type_invariant(&rhs);
        }
        Rank(self.0 + rhs.0)
    }
}

impl AddSpecImpl for Rank {
    open spec fn obeys_add_spec() -> bool {
        true
    }

    open spec fn add_req(self, rhs: Rank) -> bool {
        self@ + rhs@ <= 7
    }

    open spec fn add_spec(self, rhs: Rank) -> Rank {
        Rank::at(self@ + rhs@)
    }
}

impl core::ops::Sub<i8> for Rank {
    type Output = Rank;

    fn sub(self, rhs: i8) -> (r: Rank) {
        proof {
            use_type_invariant(&self);
        }
        Rank((self.0 as i8 - rhs) as u8)
    }
}

impl SubSpecImpl<i8> for Rank {
    open spec fn obeys_sub_spec() -> bool {
        true
    }

    open spec fn sub_req(self, rhs: i8) -> bool {
        0 <= self@ - rhs <= 7
    }

    open spec fn sub_spec(self, rhs: i8) -> Rank {
        Rank::at(self@ - rhs)
    }
}

impl core::ops::Sub for Rank {
    type Output = Rank;

    fn sub(self, rhs: Rank) -> (r: Rank) {
        proof {
            use_type_invariant(&self);
            use_type_invariant(&rhs);
        }
        Rank(self.0 - rhs.0)
    }
}

impl SubSpecImpl for Rank {
    open spec fn obeys_sub_spec() -> bool {
        true
    }

    open spec fn sub_req(self, rhs: Rank) -> bool {
        self@ - rhs@ >= 0
    }

    open spec fn sub_spec(self, rhs: Rank) -> Rank {
        Rank::at(self@ - rhs@)
    }
}

impl core::ops::Add<i8> for File {
    type Output = File;

    fn add(self, rhs: i8) -> (r: File) {
        proof {
            use_type_invariant(&self);
        }
        File((self.0 as i8 + rhs) as u8)
    }
}

impl AddSpecImpl<i8> for File {
    open spec fn obeys_add_spec() -> bool {
        true
    }

    open spec fn add_req(self, rhs: i8) -> bool {
        0 <= self@ + rhs <= 7
    }

    open spec fn add_spec(self, rhs: i8) -> File {
        File::at(self@ + rhs)
    }
}

impl core::ops::Add for File {
    type Output = File;

    fn add(self, rhs: File) -> (r: File) {
        proof {
            use_type_invariant(&self);
            use_type_invariant(&rhs);
        }
        File(self.0 + rhs.0)
    }
}

impl AddSpecImpl for File {
    open spec fn obeys_add_spec() -> bool {
        true
    }

    open spec fn add_req(self, rhs: File) -> bool {
        self@ + rhs@ <= 7
    }

    open spec fn add_spec(self, rhs: File) -> File {
        File::at(self@ + rhs@)
    }
}

impl core::ops::Sub<i8> for File {
    type Output = File;

    fn sub(self, rhs: i8) -> (r: File) {
        proof {
            use_type_invariant(&self);
        }
        File((self.0 as i8 - rhs) as u8)
    }
}

impl SubSpecImpl<i8> for File {
    open spec fn obeys_sub_spec() -> bool {
        true
    }

    open spec fn sub_req(self, rhs: i8) -> bool {
        0 <= self@ - rhs <= 7
    }

    open spec fn sub_spec(self, rhs: i8) -> File {
        File::at(self@ - rhs)
    }
}

impl core::ops::Sub for File {
    type Output = File;

    fn sub(self, rhs: File) -> (r: File) {
        proof {
            use_type_invariant(&self);
            use_type_invariant(&rhs);
        }
        File(self.0 - rhs.0)
    }
}

impl SubSpecImpl for File {
    open spec fn obeys_sub_spec() -> bool {
        true
    }

    open spec fn sub_req(self, rhs: File) -> bool {
        self@ - rhs@ >= 0
    }

    open spec fn sub_spec(self, rhs: File) -> File {
        File::at(self@ - rhs@)
    }
}

impl PartialEq<File> for Rank {
    fn eq(&self, other: &File) -> (r: bool) {
        self.0 == other.0
    }
}

impl vstd::std_specs::cmp::PartialEqSpecImpl<File> for Rank {
    open spec fn obeys_eq_spec() -> bool {
        true
    }

    open spec fn eq_spec(&self, other: &File) -> bool {
        self@ == other@
    }
}

impl PartialEq<u8> for Rank {
    fn eq(&self, other: &u8) -> (r: bool) {
        self.0 == *other
    }
}

impl vstd::std_specs::cmp::PartialEqSpecImpl<u8> for Rank {
    open spec fn obeys_eq_spec() -> bool {
        true
    }

    open spec fn eq_spec(&self, other: &u8) -> bool {
        self@ == *other
    }
}

impl PartialEq<Rank> for File {
    fn eq(&self, other: &Rank) -> (r: bool) {
        self.0 == other.0
    }
}

impl vstd::std_specs::cmp::PartialEqSpecImpl<Rank> for File {
    open spec fn obeys_eq_spec() -> bool {
        true
    }

    open spec fn eq_spec(&self, other: &Rank) -> bool {
        self@ == other@
    }
}

impl PartialEq<u8> for File {
    fn eq(&self, other: &u8) -> (r: bool) {
        self.0 == *other
    }
}

impl vstd::std_specs::cmp::PartialEqSpecImpl<u8> for File {
    open spec fn obeys_eq_spec() -> bool {
        true
    }

    open spec fn eq_spec(&self, other: &u8) -> bool {
        self@ == *other
    }
}

} // verus!
