//! The one-line report of a total.

use crate::stats::Stats;
use vstd::prelude::*;
use vstd::string::StringExecFns;

verus! {

/// The character of one decimal digit.
pub open spec fn digit_char(d: int) -> char {
    if d == 0 {
        '0'
    } else if d == 1 {
        '1'
    } else if d == 2 {
        '2'
    } else if d == 3 {
        '3'
    } else if d == 4 {
        '4'
    } else if d == 5 {
        '5'
    } else if d == 6 {
        '6'
    } else if d == 7 {
        '7'
    } else if d == 8 {
        '8'
    } else {
        '9'
    }
}

/// A natural number in decimal, without leading zeros.
pub open spec fn decimal(n: nat) -> Seq<char>
    decreases n,
{
    if n < 10 {
        seq![digit_char(n as int)]
    } else {
        decimal(n / 10).push(digit_char((n % 10) as int))
    }
}

/// An integer in decimal, with a minus sign where it is negative.
pub open spec fn signed_decimal(n: int) -> Seq<char> {
    if n < 0 {
        seq!['-'] + decimal((-n) as nat)
    } else {
        decimal(n as nat)
    }
}

/// The report of `size` bytes in `count` items, where `scaled` is the size
/// in a scaled unit.
pub open spec fn report_text(size: u64, scaled: Seq<char>, count: i32) -> Seq<char> {
    decimal(size as nat) + " bytes ("@ + scaled + ") across "@ + signed_decimal(count as int)
        + " items"@
}

/// What `size::Size` displays for a number of bytes.
pub uninterp spec fn size_text(bytes: u64) -> Seq<char>;

/// `size::Size::from_bytes` and its `Display`: the number of bytes in a
/// scaled unit, as the crate prints it by default. The text is a function of
/// the number alone.
#[verifier::external_body]
pub(crate) fn scaled_size(bytes: u64) -> (text: String)
    ensures
        text@ == size_text(bytes),
{
    size::Size::from_bytes(bytes).to_string()
}

fn digit_str(d: u64) -> (r: &'static str)
    requires
        d < 10,
    ensures
        r@ == seq![digit_char(d as int)],
{
    proof {
        reveal_strlit("0");
        reveal_strlit("1");
        reveal_strlit("2");
        reveal_strlit("3");
        reveal_strlit("4");
        reveal_strlit("5");
        reveal_strlit("6");
        reveal_strlit("7");
        reveal_strlit("8");
        reveal_strlit("9");
    }
    let r = if d == 0 {
        "0"
    } else if d == 1 {
        "1"
    } else if d == 2 {
        "2"
    } else if d == 3 {
        "3"
    } else if d == 4 {
        "4"
    } else if d == 5 {
        "5"
    } else if d == 6 {
        "6"
    } else if d == 7 {
        "7"
    } else if d == 8 {
        "8"
    } else {
        "9"
    };
    assert(r@ =~= seq![digit_char(d as int)]);
    r
}

/// Writes a number in decimal.
pub fn decimal_text(n: u64) -> (r: String)
    ensures
        r@ == decimal(n as nat),
    decreases n,
{
    if n < 10 {
        String::from_str(digit_str(n))
    } else {
        let mut r = decimal_text(n / 10);
        let last = digit_str(n % 10);
        r.append(last);
        assert(r@ =~= decimal((n / 10) as nat).push(digit_char((n % 10) as int)));
        r
    }
}

/// Writes a signed number in decimal.
pub fn signed_decimal_text(n: i32) -> (r: String)
    ensures
        r@ == signed_decimal(n as int),
{
    if n < 0 {
        let magnitude: u64 = (-(n as i64)) as u64;
        let digits = decimal_text(magnitude);
        proof {
            reveal_strlit("-");
            assert("-"@ =~= seq!['-']);
        }
        String::from_str("-").concat(digits.as_str())
    } else {
        decimal_text(n as u64)
    }
}

/// Puts the report together from the raw counts and the scaled size.
pub fn compose(size: u64, scaled: &str, count: i32) -> (r: String)
    ensures
        r@ == report_text(size, scaled@, count),
{
    let mut r = decimal_text(size);
    r.append(" bytes (");
    r.append(scaled);
    r.append(") across ");
    r.append(signed_decimal_text(count).as_str());
    r.append(" items");
    r
}

impl Stats {
    /// The report of this total: the raw byte count, the same in a scaled
    /// unit, and the item count.
    pub fn render(&self) -> (r: String)
        ensures
            r@ == report_text(self.size, size_text(self.size), self.count),
    {
        let scaled = scaled_size(self.size);
        compose(self.size, scaled.as_str(), self.count)
    }
}

} // verus!
