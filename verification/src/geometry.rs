use vstd::prelude::*;
use crate::number::{chars_of, parse_decimal, parse_u32_range, NumberError};

verus! {

/// A pair of coordinates of one type: a point of the plane, or the width and
/// height of a grid.
#[derive(Clone, Copy, Debug, PartialEq, Eq, Structural)]
pub struct Vec2<T> {
    pub x: T,
    pub y: T,
}

/// Why a text is not a size.
#[derive(Clone, Copy, Debug, PartialEq, Eq, Structural)]
pub enum SizeError {
    /// One of the two numbers cannot be read.
    Number(NumberError),
    /// The first number is there, and no comma after it.
    MissingComponent,
    /// Both numbers are there, and the width or the height is zero.
    NotPositive,
}

/// The place of the first comma of `s` at or after `from`, or the length of
/// `s` if there is none.
pub open spec fn first_comma(s: Seq<char>, from: int) -> int
    decreases s.len() - from,
{
    if from >= s.len() {
        s.len() as int
    } else if s[from] == ',' {
        from
    } else {
        first_comma(s, from + 1)
    }
}

/// What `s` stands for as a size: two decimal numbers with a comma between
/// them, the width first. What follows a second comma is not read. The first
/// number is read before the comma after it is looked for.
pub open spec fn parse_size(s: Seq<char>) -> Result<Vec2<u32>, SizeError> {
    let c0 = first_comma(s, 0);
    match parse_decimal(s.subrange(0, c0)) {
        Err(e) => Err(SizeError::Number(e)),
        Ok(x) => if c0 == s.len() {
            Err(SizeError::MissingComponent)
        } else {
            match parse_decimal(s.subrange(c0 + 1, first_comma(s, c0 + 1))) {
                Err(e) => Err(SizeError::Number(e)),
                Ok(y) => Ok(Vec2 { x, y }),
            }
        },
    }
}

/// `first_comma` finds a comma, and the first one: nothing between `from`
/// and its result is a comma.
pub proof fn lemma_first_comma(s: Seq<char>, from: int)
    requires
        0 <= from <= s.len(),
    ensures
        from <= first_comma(s, from) <= s.len(),
        first_comma(s, from) < s.len() ==> s[first_comma(s, from)] == ',',
        forall|k: int| from <= k < first_comma(s, from) ==> s[k] != ',',
    decreases s.len() - from,
{
    if from < s.len() && s[from] != ',' {
        lemma_first_comma(s, from + 1);
    }
}

/// The place of the first comma of `chars` at or after `from`.
fn find_comma(chars: &Vec<char>, from: usize) -> (r: usize)
    requires
        from <= chars@.len(),
    ensures
        r == first_comma(chars@, from as int),
        from <= r <= chars@.len(),
{
    let mut i: usize = from;
    while i < chars.len() && chars[i] != ','
        invariant
            from <= i <= chars@.len(),
            first_comma(chars@, from as int) == first_comma(chars@, i as int),
        decreases chars@.len() - i,
    {
        i += 1;
    }
    i
}

impl<T> Vec2<T> {
    /// The pair `(x, y)`.
    pub fn new(x: T, y: T) -> (r: Self)
        ensures
            r.x == x,
            r.y == y,
    {
        Vec2 { x, y }
    }
}

impl Vec2<u32> {
    /// The size that `s` stands for: its width, a comma, its height.
    pub fn from_str(s: &str) -> (r: Result<Vec2<u32>, SizeError>)
        ensures
            r == parse_size(s@),
    {
        let chars = chars_of(s);
        let n: usize = chars.len();
        let c0: usize = find_comma(&chars, 0);
        let x: u32 = match parse_u32_range(&chars, 0, c0) {
            Ok(x) => x,
            Err(e) => {
                return Err(SizeError::Number(e));
            },
        };
        if c0 == n {
            return Err(SizeError::MissingComponent);
        }
        let c1: usize = find_comma(&chars, c0 + 1);
        match parse_u32_range(&chars, c0 + 1, c1) {
            Ok(y) => Ok(Vec2::new(x, y)),
            Err(e) => Err(SizeError::Number(e)),
        }
    }
}

} // verus!
