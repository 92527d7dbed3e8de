//! Type-safe 1-based positions: [`Index1`].
use vstd::prelude::*;
use vstd::std_specs::convert::FromSpecImpl;

verus! {

/// A 1-based position index: `Index1::new(1)` is the first element.
///
/// Any `usize` can be stored; the position `0` is simply invalid when used to
/// index a container.
#[derive(Debug, Clone, Copy, PartialEq, Eq, Structural, PartialOrd, Ord, Hash, Default)]
pub struct Index1(usize);

impl View for Index1 {
    type V = usize;

    closed spec fn view(&self) -> usize {
        self.0
    }
}

/// The decimal digit character of `d` (`0 <= d < 10`).
pub open spec fn digit_char(d: nat) -> char {
    (48 + d) as char
}

/// The decimal representation of `n`, most significant digit first, without
/// leading zeros (`0` is written `"0"`).
pub open spec fn decimal(n: nat) -> Seq<char>
    decreases n,
{
    if n < 10 {
        seq![digit_char(n)]
    } else {
        decimal(n / 10).push(digit_char(n % 10))
    }
}

/// The one-character string of the decimal digit `d`.
fn digit_str(d: usize) -> (r: &'static str)
    requires
        d < 10,
    ensures
        r@ == seq![digit_char(d as nat)],
{
    match d {
        0 => {
            proof {
                reveal_strlit("0");
            }
            "0"
        },
        1 => {
            proof {
                reveal_strlit("1");
            }
            "1"
        },
        2 => {
            proof {
                reveal_strlit("2");
            }
            "2"
        },
        3 => {
            proof {
                reveal_strlit("3");
            }
            "3"
        },
        4 => {
            proof {
                reveal_strlit("4");
            }
            "4"
        },
        5 => {
            proof {
                reveal_strlit("5");
            }
            "5"
        },
        6 => {
            proof {
                reveal_strlit("6");
            }
            "6"
        },
        7 => {
            proof {
                reveal_strlit("7");
            }
            "7"
        },
        8 => {
            proof {
                reveal_strlit("8");
            }
            "8"
        },
        _ => {
            proof {
                reveal_strlit("9");
            }
            "9"
        },
    }
}

/// Appends the decimal digits of `n` to `out`.
fn write_decimal(n: usize, out: &mut String)
    ensures
        final(out)@ == old(out)@ + decimal(n as nat),
    decreases n,
{
    if n >= 10 {
        write_decimal(n / 10, out);
    }
    out.append(digit_str(n % 10));
}

impl Index1 {
    /// Constructs from a 1-based position; `0` is accepted but invalid.
    pub fn new(index: usize) -> (r: Self)
        ensures
            r@ == index,
    {
        Index1(index)
    }

    /// Constructs from a 1-based position (same as [`Index1::new`]).
    pub fn from_one_based(index: usize) -> (r: Self)
        ensures
            r@ == index,
    {
        Index1(index)
    }

    /// Returns the 1-based position value.
    pub fn get(self) -> (r: usize)
        ensures
            r == self@,
    {
        self.0
    }

    /// Converts to the 0-based subscript: position `p >= 1` maps to `p - 1`;
    /// the invalid position `0` gives `None`.
    pub fn to_zero_based(self) -> (r: Option<usize>)
        ensures
            r == (if self@ >= 1 { Some((self@ - 1) as usize) } else { None::<usize> }),
    {
        self.0.checked_sub(1)
    }

    /// Moves the position `rhs` steps toward the tail, saturating at
    /// `usize::MAX`.
    pub fn saturating_add(self, rhs: usize) -> (r: Self)
        ensures
            r@ == (if self@ + rhs <= usize::MAX { (self@ + rhs) as usize } else { usize::MAX }),
    {
        Index1(self.0.saturating_add(rhs))
    }

    /// Moves the position `rhs` steps toward the head, never below `1`.
    pub fn saturating_sub(self, rhs: usize) -> (r: Self)
        ensures
            r@ == (if self@ - rhs >= 1 { (self@ - rhs) as usize } else { 1usize }),
    {
        let v = self.0.saturating_sub(rhs);
        Index1(if v < 1 { 1 } else { v })
    }

    /// The position written in decimal, e.g. `"42"`.
    pub fn to_string(&self) -> (s: String)
        ensures
            s@ == decimal(self@ as nat),
    {
        let mut s = String::new();
        write_decimal(self.0, &mut s);
        proof {
            assert(s@ =~= decimal(self@ as nat));
        }
        s
    }
}

impl From<Index1> for usize {
    fn from(i: Index1) -> (r: usize)
        ensures
            r == i@,
    {
        i.0
    }
}

impl FromSpecImpl<Index1> for usize {
    open spec fn obeys_from_spec() -> bool {
        true
    }

    closed spec fn from_spec(v: Index1) -> usize {
        v.0
    }
}

} // verus!
