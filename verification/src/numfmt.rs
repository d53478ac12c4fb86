//! Decimal formatting of integers and fixed-point quantities.
//!
//! The graph builder prints times in seconds with three decimals (stored
//! as milliseconds), normalized coordinates with four decimals (stored as
//! ten-thousandths), and plain integers. Each formatter is specified
//! against a spec-level sequence of characters.

use vstd::prelude::*;

verus! {

/// The single decimal digit `d` as a one-character sequence.
pub open spec fn digit_seq(d: int) -> Seq<char> {
    if d == 0 {
        "0"@
    } else if d == 1 {
        "1"@
    } else if d == 2 {
        "2"@
    } else if d == 3 {
        "3"@
    } else if d == 4 {
        "4"@
    } else if d == 5 {
        "5"@
    } else if d == 6 {
        "6"@
    } else if d == 7 {
        "7"@
    } else if d == 8 {
        "8"@
    } else {
        "9"@
    }
}

/// The decimal writing of `n`, without sign or padding.
pub open spec fn dec_seq(n: int) -> Seq<char>
    decreases n,
{
    if n < 10 {
        digit_seq(n)
    } else {
        dec_seq(n / 10) + digit_seq(n % 10)
    }
}

/// The decimal writing of `n`, with a leading minus sign when negative.
pub open spec fn int_seq(n: int) -> Seq<char> {
    if n < 0 {
        "-"@ + dec_seq(-n)
    } else {
        dec_seq(n)
    }
}

/// A fraction of a second in milliseconds, written with exactly three
/// digits.
pub open spec fn frac3_seq(f: int) -> Seq<char> {
    let pad = if f < 10 {
        "00"@
    } else if f < 100 {
        "0"@
    } else {
        Seq::<char>::empty()
    };
    pad + dec_seq(f)
}

/// A count of ten-thousandths, written with exactly four digits.
pub open spec fn frac4_seq(f: int) -> Seq<char> {
    let pad = if f < 10 {
        "000"@
    } else if f < 100 {
        "00"@
    } else if f < 1000 {
        "0"@
    } else {
        Seq::<char>::empty()
    };
    pad + dec_seq(f)
}

pub open spec fn ms_abs_seq(ms: int) -> Seq<char> {
    dec_seq(ms / 1000) + "."@ + frac3_seq(ms % 1000)
}

/// A time in milliseconds written as seconds with three decimals, as the
/// encoder's filter language expects.
pub open spec fn ms_seq(ms: int) -> Seq<char> {
    if ms < 0 {
        "-"@ + ms_abs_seq(-ms)
    } else {
        ms_abs_seq(ms)
    }
}

pub open spec fn fp4_abs_seq(v: int) -> Seq<char> {
    dec_seq(v / 10000) + "."@ + frac4_seq(v % 10000)
}

/// A count of ten-thousandths written as a fraction with four decimals.
pub open spec fn fp4_seq(v: int) -> Seq<char> {
    if v < 0 {
        "-"@ + fp4_abs_seq(-v)
    } else {
        fp4_abs_seq(v)
    }
}

/// A whole number of seconds written with two zero decimals.
pub open spec fn sec2_seq(s: int) -> Seq<char> {
    dec_seq(s) + ".00"@
}

fn digit_string(d: u64) -> (r: String)
    requires
        d < 10,
    ensures
        r@ == digit_seq(d as int),
{
    match d {
        0 => "0".to_owned(),
        1 => "1".to_owned(),
        2 => "2".to_owned(),
        3 => "3".to_owned(),
        4 => "4".to_owned(),
        5 => "5".to_owned(),
        6 => "6".to_owned(),
        7 => "7".to_owned(),
        8 => "8".to_owned(),
        _ => "9".to_owned(),
    }
}

/// `n` in decimal.
pub fn u64_string(n: u64) -> (r: String)
    ensures
        r@ == dec_seq(n as int),
    decreases n,
{
    if n < 10 {
        digit_string(n)
    } else {
        let head = u64_string(n / 10);
        let tail = digit_string(n % 10);
        head.concat(tail.as_str())
    }
}

/// `n` in decimal, with a minus sign when negative.
pub fn i64_string(n: i64) -> (r: String)
    ensures
        r@ == int_seq(n as int),
{
    if n < 0 {
        let mag: u64 = if n == i64::MIN {
            9223372036854775808u64
        } else {
            (-n) as u64
        };
        let head = "-".to_owned();
        let tail = u64_string(mag);
        head.concat(tail.as_str())
    } else {
        u64_string(n as u64)
    }
}

/// `n` in decimal (index values).
pub fn usize_string(n: usize) -> (r: String)
    ensures
        r@ == dec_seq(n as int),
{
    u64_string(n as u64)
}

fn frac3_string(f: u64) -> (r: String)
    requires
        f < 1000,
    ensures
        r@ == frac3_seq(f as int),
{
    let pad: String = if f < 10 {
        "00".to_owned()
    } else if f < 100 {
        "0".to_owned()
    } else {
        "".to_owned()
    };
    let digits = u64_string(f);
    let r = pad.concat(digits.as_str());
    proof {
        if f >= 100 {
            reveal_strlit("");
            assert(r@ =~= frac3_seq(f as int));
        }
    }
    r
}

fn frac4_string(f: u64) -> (r: String)
    requires
        f < 10000,
    ensures
        r@ == frac4_seq(f as int),
{
    let pad: String = if f < 10 {
        "000".to_owned()
    } else if f < 100 {
        "00".to_owned()
    } else if f < 1000 {
        "0".to_owned()
    } else {
        "".to_owned()
    };
    let digits = u64_string(f);
    let r = pad.concat(digits.as_str());
    proof {
        if f >= 1000 {
            reveal_strlit("");
            assert(r@ =~= frac4_seq(f as int));
        }
    }
    r
}

/// A time in milliseconds as seconds with three decimals: 1234 becomes
/// "1.234".
pub fn ms_string(ms: u64) -> (r: String)
    ensures
        r@ == ms_seq(ms as int),
{
    let whole = u64_string(ms / 1000);
    let frac = frac3_string(ms % 1000);
    let r = whole.concat(".").concat(frac.as_str());
    proof {
        assert(r@ =~= ms_seq(ms as int));
    }
    r
}

/// A signed time in milliseconds as seconds with three decimals.
pub fn ms_i64_string(ms: i64) -> (r: String)
    ensures
        r@ == ms_seq(ms as int),
{
    if ms < 0 {
        let mag: u64 = if ms == i64::MIN {
            9223372036854775808u64
        } else {
            (-ms) as u64
        };
        let tail = ms_string(mag);
        let r = "-".to_owned().concat(tail.as_str());
        r
    } else {
        ms_string(ms as u64)
    }
}

/// A count of ten-thousandths as a fraction with four decimals: 5000
/// becomes "0.5000".
pub fn fp4_string(v: u32) -> (r: String)
    ensures
        r@ == fp4_seq(v as int),
{
    let whole = u64_string((v as u64) / 10000);
    let frac = frac4_string((v as u64) % 10000);
    let r = whole.concat(".").concat(frac.as_str());
    proof {
        assert(r@ =~= fp4_seq(v as int));
    }
    r
}

/// A signed count of ten-thousandths as a fraction with four decimals.
pub fn fp4_i64_string(v: i64) -> (r: String)
    ensures
        r@ == fp4_seq(v as int),
{
    if v < 0 {
        let mag: u64 = if v == i64::MIN {
            9223372036854775808u64
        } else {
            (-v) as u64
        };
        let whole = u64_string(mag / 10000);
        let frac = frac4_string(mag % 10000);
        let r = "-".to_owned().concat(whole.as_str()).concat(".").concat(frac.as_str());
        proof {
            assert(r@ =~= fp4_seq(v as int));
        }
        r
    } else {
        let r = fp4_string32(v as u64);
        r
    }
}

fn fp4_string32(v: u64) -> (r: String)
    ensures
        r@ == fp4_seq(v as int),
{
    let whole = u64_string(v / 10000);
    let frac = frac4_string(v % 10000);
    let r = whole.concat(".").concat(frac.as_str());
    proof {
        assert(r@ =~= fp4_seq(v as int));
    }
    r
}

/// A whole number of seconds with two zero decimals: 7 becomes "7.00".
pub fn sec2_string(s: u64) -> (r: String)
    ensures
        r@ == sec2_seq(s as int),
{
    let whole = u64_string(s);
    whole.concat(".00")
}

} // verus!
