use vstd::prelude::*;

verus! {

/// A logical or screen position: `(row, col)`.
#[derive(Debug, Copy, Clone, Eq, PartialEq, Hash, Structural)]
pub struct Coordinate(pub u8, pub u8);

impl Coordinate {
    pub fn row(&self) -> (r: u8)
        ensures
            r == self.0,
    {
        self.0
    }

    pub fn col(&self) -> (c: u8)
        ensures
            c == self.1,
    {
        self.1
    }

    /// Translate by the given row and column offsets; a `None` offset leaves
    /// that component unchanged.
    pub fn shift(&self, rows: Option<u8>, cols: Option<u8>) -> (r: Coordinate)
        requires
            self.0 + (match rows {
                Some(d) => d as int,
                None => 0,
            }) <= u8::MAX,
            self.1 + (match cols {
                Some(d) => d as int,
                None => 0,
            }) <= u8::MAX,
        ensures
            r.0 == self.0 + (match rows {
                Some(d) => d as int,
                None => 0,
            }),
            r.1 == self.1 + (match cols {
                Some(d) => d as int,
                None => 0,
            }),
    {
        Coordinate(
            self.0 + (match rows {
                Some(d) => d,
                None => 0,
            }),
            self.1 + (match cols {
                Some(d) => d,
                None => 0,
            }),
        )
    }

    /// Component-wise translation, used to add a screen origin to a
    /// grid-relative screen position.
    pub fn plus(&self, other: Coordinate) -> (r: Coordinate)
        requires
            self.0 + other.0 <= u8::MAX,
            self.1 + other.1 <= u8::MAX,
        ensures
            r.0 == self.0 + other.0,
            r.1 == self.1 + other.1,
    {
        Coordinate(self.0 + other.0, self.1 + other.1)
    }
}

} // verus!
