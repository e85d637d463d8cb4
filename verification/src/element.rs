//! The capability that a matrix element type must offer: a zero value for
//! fresh cells, addition for the `add` and `calculate_trace` operations, an
//! equality test, and a decimal rendering for the diagnostic text form.

use vstd::prelude::*;

verus! {

use vstd::string::StringExecFns;

/// Capability constraint on matrix element types.
///
/// `zero_spec` is the value every cell of a fresh matrix holds, `add_spec`
/// says what `add_el` returns on inputs admitted by `add_ok`, and
/// `text_spec` is the character sequence `to_text` renders.
pub trait MatrixElement: Sized + Copy {
    spec fn zero_spec() -> Self;

    spec fn add_spec(a: Self, b: Self) -> Self;

    spec fn add_ok(a: Self, b: Self) -> bool;

    spec fn text_spec(v: Self) -> Seq<char>;

    fn zero() -> (r: Self)
        ensures
            r == Self::zero_spec(),
    ;

    fn add_el(&self, other: &Self) -> (r: Self)
        requires
            Self::add_ok(*self, *other),
        ensures
            r == Self::add_spec(*self, *other),
    ;

    fn eq_el(&self, other: &Self) -> (r: bool)
        ensures
            r == (*self == *other),
    ;

    fn to_text(&self) -> (r: String)
        ensures
            r@ == Self::text_spec(*self),
    ;
}

impl MatrixElement for u32 {
    open spec fn zero_spec() -> u32 {
        0u32
    }

    open spec fn add_spec(a: u32, b: u32) -> u32 {
        (a + b) as u32
    }

    open spec fn add_ok(a: u32, b: u32) -> bool {
        a + b <= u32::MAX
    }

    open spec fn text_spec(v: u32) -> Seq<char> {
        decimal_text(v as int)
    }

    fn zero() -> (r: u32) {
        0
    }

    fn add_el(&self, other: &u32) -> (r: u32) {
        *self + *other
    }

    fn eq_el(&self, other: &u32) -> (r: bool) {
        *self == *other
    }

    fn to_text(&self) -> (r: String) {
        unsigned_text(*self as u64)
    }
}

impl MatrixElement for u64 {
    open spec fn zero_spec() -> u64 {
        0u64
    }

    open spec fn add_spec(a: u64, b: u64) -> u64 {
        (a + b) as u64
    }

    open spec fn add_ok(a: u64, b: u64) -> bool {
        a + b <= u64::MAX
    }

    open spec fn text_spec(v: u64) -> Seq<char> {
        decimal_text(v as int)
    }

    fn zero() -> (r: u64) {
        0
    }

    fn add_el(&self, other: &u64) -> (r: u64) {
        *self + *other
    }

    fn eq_el(&self, other: &u64) -> (r: bool) {
        *self == *other
    }

    fn to_text(&self) -> (r: String) {
        unsigned_text(*self)
    }
}

impl MatrixElement for i32 {
    open spec fn zero_spec() -> i32 {
        0i32
    }

    open spec fn add_spec(a: i32, b: i32) -> i32 {
        (a + b) as i32
    }

    open spec fn add_ok(a: i32, b: i32) -> bool {
        i32::MIN <= a + b <= i32::MAX
    }

    open spec fn text_spec(v: i32) -> Seq<char> {
        if v < 0 {
            seq!['-'] + decimal_text(-v as int)
        } else {
            decimal_text(v as int)
        }
    }

    fn zero() -> (r: i32) {
        0
    }

    fn add_el(&self, other: &i32) -> (r: i32) {
        *self + *other
    }

    fn eq_el(&self, other: &i32) -> (r: bool) {
        *self == *other
    }

    fn to_text(&self) -> (r: String) {
        if *self < 0 {
            let magnitude = (-(*self as i64)) as u64;
            let mut s = String::from_str("-");
            s.append(unsigned_text(magnitude).as_str());
            proof {
                reveal_strlit("-");
                assert(s@ =~= Self::text_spec(*self));
            }
            s
        } else {
            unsigned_text(*self as u64)
        }
    }
}

impl MatrixElement for i64 {
    open spec fn zero_spec() -> i64 {
        0i64
    }

    open spec fn add_spec(a: i64, b: i64) -> i64 {
        (a + b) as i64
    }

    open spec fn add_ok(a: i64, b: i64) -> bool {
        i64::MIN <= a + b <= i64::MAX
    }

    open spec fn text_spec(v: i64) -> Seq<char> {
        if v < 0 {
            seq!['-'] + decimal_text(-v as int)
        } else {
            decimal_text(v as int)
        }
    }

    fn zero() -> (r: i64) {
        0
    }

    fn add_el(&self, other: &i64) -> (r: i64) {
        *self + *other
    }

    fn eq_el(&self, other: &i64) -> (r: bool) {
        *self == *other
    }

    fn to_text(&self) -> (r: String) {
        if *self < 0 {
            let magnitude = (-(*self as i128)) as u64;
            let mut s = String::from_str("-");
            s.append(unsigned_text(magnitude).as_str());
            proof {
                reveal_strlit("-");
                assert(s@ =~= Self::text_spec(*self));
            }
            s
        } else {
            unsigned_text(*self as u64)
        }
    }
}

/// The character for one decimal digit value.
pub open spec fn decimal_digit(d: int) -> char {
    if d == 0 {
        '0'
    } else if d == 1 {
        '1'
    } else if d == 2 {
        '2'
    } else if d == 3 {
        '3'
    } else if d == 4 {
        '4'
    } else if d == 5 {
        '5'
    } else if d == 6 {
        '6'
    } else if d == 7 {
        '7'
    } else if d == 8 {
        '8'
    } else {
        '9'
    }
}

/// The decimal rendering of a non-negative integer, most significant digit
/// first.
pub open spec fn decimal_text(n: int) -> Seq<char>
    decreases n,
{
    if n < 10 {
        seq![decimal_digit(n)]
    } else {
        decimal_text(n / 10).push(decimal_digit(n % 10))
    }
}

/// The text for a single decimal digit.
fn decimal_digit_str(d: u64) -> (s: &'static str)
    requires
        d < 10,
    ensures
        s@ == seq![decimal_digit(d as int)],
{
    let s: &'static str = match d {
        0 => "0",
        1 => "1",
        2 => "2",
        3 => "3",
        4 => "4",
        5 => "5",
        6 => "6",
        7 => "7",
        8 => "8",
        _ => "9",
    };
    proof {
        reveal_strlit("0");
        reveal_strlit("1");
        reveal_strlit("2");
        reveal_strlit("3");
        reveal_strlit("4");
        reveal_strlit("5");
        reveal_strlit("6");
        reveal_strlit("7");
        reveal_strlit("8");
        reveal_strlit("9");
        assert(s@ =~= seq![decimal_digit(d as int)]);
    }
    s
}

/// Renders an unsigned value in decimal.
fn unsigned_text(n: u64) -> (s: String)
    ensures
        s@ == decimal_text(n as int),
    decreases n,
{
    if n < 10 {
        String::from_str(decimal_digit_str(n))
    } else {
        let mut s = unsigned_text(n / 10);
        s.append(decimal_digit_str(n % 10));
        proof {
            assert(s@ =~= decimal_text((n / 10) as int).push(decimal_digit((n % 10) as int)));
        }
        s
    }
}

} // verus!
