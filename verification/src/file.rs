//! Files: the vertical columns of the board.
use crate::piece::CastlingSide;
use crate::rank::{distance, signed_byte};
use vstd::prelude::*;

verus! {

/// A file is a vertical column of squares, numbered 0 to 7 from the left.
#[derive(Copy, Clone, Debug, PartialEq, Eq, PartialOrd, Ord, Hash, Structural)]
pub struct File(pub(crate) u8);

impl View for File {
    type V = int;

    /// The number of the file, 0 for the `a` file.
    open(crate) spec fn view(&self) -> int {
        self.0 as int
    }
}

/// Whether a character names a file: a letter from `a` to `h` in either case.
pub open spec fn is_file_char(c: char) -> bool {
    'a' <= c <= 'h' || 'A' <= c <= 'H'
}

/// The number of the file that a character names.
pub open spec fn file_char_index(c: char) -> int {
    if 'a' <= c <= 'h' {
        c as int - 'a' as int
    } else {
        c as int - 'A' as int
    }
}

impl File {
    /// Every file that exists at run time is one of the eight files.
    #[verifier::type_invariant]
    pub open(crate) spec fn wf(self) -> bool {
        self.0 < 8
    }

    /// The file with the given number.
    pub open(crate) spec fn at(n: int) -> File {
        File(n as u8)
    }

    /// The castling side that a file number lies on: the left four files are
    /// the queen's.
    pub open spec fn castling_side_of(n: int) -> CastlingSide {
        if n < 4 {
            CastlingSide::Queen
        } else {
            CastlingSide::King
        }
    }

    /// The leftmost file, `a`.
    pub fn leftmost() -> (r: File)
        ensures
            r@ == 0,
    {
        File(0)
    }

    /// The rightmost file, `h`.
    pub fn rightmost() -> (r: File)
        ensures
            r@ == 7,
    {
        File(7)
    }

    /// The file that the kings start on, `e`.
    pub fn king() -> (r: File)
        ensures
            r@ == 4,
    {
        File(4)
    }

    /// The file that the queens start on, `d`.
    pub fn queen() -> (r: File)
        ensures
            r@ == 3,
    {
        File(3)
    }

    /// The file that the rook of the given side starts on.
    pub fn rook(side: CastlingSide) -> (r: File)
        ensures
            r@ == (if side == CastlingSide::King { 7int } else { 0int }),
    {
        match side {
            CastlingSide::King => File(7),
            CastlingSide::Queen => File(0),
        }
    }

    /// The file that the king ends on when it castles to the given side.
    pub fn castle_destination(side: CastlingSide) -> (r: File)
        ensures
            r@ == (if side == CastlingSide::King { 6int } else { 2int }),
    {
        match side {
            CastlingSide::King => File(6),
            CastlingSide::Queen => File(2),
        }
    }

    /// Get the index of the file: its number, from 0 to 7.
    pub fn get_index(&self) -> (r: u8)
        ensures
            r == self@,
            r < 8,
    {
        proof {
            use_type_invariant(self);
        }
        self.0
    }

    /// Is this file within N files of the other file?
    pub fn is_within(&self, other: File, n: u8) -> (r: bool)
        ensures
            r == (distance(self@, other@) <= signed_byte(n)),
    {
        proof {
            use_type_invariant(self);
            use_type_invariant(&other);
        }
        let a: i16 = self.0 as i16;
        let b: i16 = other.0 as i16;
        let d: i16 = if a <= b {
            b - a
        } else {
            a - b
        };
        n < 128 && d <= n as i16
    }

    /// Get the direction of castling, given that this is the file of the rook.
    pub fn get_castling_side(&self) -> (r: CastlingSide)
        ensures
            r == File::castling_side_of(self@),
    {
        if self.0 < 4 {
            CastlingSide::Queen
        } else {
            CastlingSide::King
        }
    }

    /// Create a new file from a character, which must be a letter from a to h
    /// in either case.
    pub fn from_char(c: char) -> (r: File)
        requires
            is_file_char(c),
        ensures
            r@ == file_char_index(c),
    {
        if 'a' <= c && c <= 'h' {
            File((c as u32 - 'a' as u32) as u8)
        } else {
            File((c as u32 - 'A' as u32) as u8)
        }
    }

    /// Reads a file from its letter; `None` for any character but `a` to `h`
    /// in either case.
    pub fn parse_char(c: char) -> (r: Option<File>)
        ensures
            r is Some <==> is_file_char(c),
            r matches Some(file) ==> file@ == file_char_index(c),
    {
        if ('a' <= c && c <= 'h') || ('A' <= c && c <= 'H') {
            Some(File::from_char(c))
        } else {
            None
        }
    }

    /// The lower-case letter that names the file.
    pub fn to_char(&self) -> (c: char)
        ensures
            c as int == self@ + 'a' as int,
    {
        proof {
            use_type_invariant(self);
        }
        match self.0 {
            0 => 'a',
            1 => 'b',
            2 => 'c',
            3 => 'd',
            4 => 'e',
            5 => 'f',
            6 => 'g',
            _ => 'h',
        }
    }

    /// Create a new file from a number, which must be from 0 to 7.
    pub fn from_index(n: u8) -> (r: File)
        requires
            n < 8,
        ensures
            r@ == n,
            r == File::at(n as int),
    {
        File(n)
    }
}

} // verus!
