//! Compact byte formatting for the ambient indicator: a value scaled to
//! the largest binary unit it reaches, rounded to two decimals (ties to
//! even), and suffixed with the unit.

use vstd::prelude::*;

verus! {

use vstd::string::StringExecFns;

/// One kibibyte, in bytes.
pub const KB_BYTES: u64 = 1024;

/// One mebibyte, in bytes.
pub const MB_BYTES: u64 = 1048576;

/// One gibibyte, in bytes.
pub const GB_BYTES: u64 = 1073741824;

/// One tebibyte, in bytes.
pub const TB_BYTES: u64 = 1099511627776;

/// The decimal digit `d` as a character.
pub open spec fn digit_char(d: int) -> char {
    if d == 0 {
        '0'
    } else if d == 1 {
        '1'
    } else if d == 2 {
        '2'
    } else if d == 3 {
        '3'
    } else if d == 4 {
        '4'
    } else if d == 5 {
        '5'
    } else if d == 6 {
        '6'
    } else if d == 7 {
        '7'
    } else if d == 8 {
        '8'
    } else {
        '9'
    }
}

/// The decimal digits of `n`, most significant first.
pub open spec fn dec_str(n: int) -> Seq<char>
    decreases n,
{
    if n < 10 {
        seq![digit_char(n)]
    } else {
        dec_str(n / 10).push(digit_char(n % 10))
    }
}

/// One decimal digit as a string slice.
fn digit_str(d: u64) -> (r: &'static str)
    requires
        d < 10,
    ensures
        r@ == seq![digit_char(d as int)],
{
    proof {
        reveal_strlit("0");
        reveal_strlit("1");
        reveal_strlit("2");
        reveal_strlit("3");
        reveal_strlit("4");
        reveal_strlit("5");
        reveal_strlit("6");
        reveal_strlit("7");
        reveal_strlit("8");
        reveal_strlit("9");
    }
    let r = if d == 0 {
        "0"
    } else if d == 1 {
        "1"
    } else if d == 2 {
        "2"
    } else if d == 3 {
        "3"
    } else if d == 4 {
        "4"
    } else if d == 5 {
        "5"
    } else if d == 6 {
        "6"
    } else if d == 7 {
        "7"
    } else if d == 8 {
        "8"
    } else {
        "9"
    };
    proof {
        assert(r@ =~= seq![digit_char(d as int)]);
    }
    r
}

/// The decimal representation of `n`.
pub fn u64_to_string(n: u64) -> (r: String)
    ensures
        r@ == dec_str(n as int),
    decreases n,
{
    if n < 10 {
        digit_str(n).to_owned()
    } else {
        let rest = u64_to_string(n / 10);
        rest.concat(digit_str(n % 10))
    }
}

/// The divisor of the unit a byte count is displayed in.
pub open spec fn unit_divisor(bytes: int) -> int {
    if bytes >= TB_BYTES {
        TB_BYTES as int
    } else if bytes >= GB_BYTES {
        GB_BYTES as int
    } else if bytes >= MB_BYTES {
        MB_BYTES as int
    } else if bytes >= KB_BYTES {
        KB_BYTES as int
    } else {
        1
    }
}

/// The unit suffix a byte count is displayed with.
pub open spec fn unit_suffix(bytes: int) -> Seq<char> {
    if bytes >= TB_BYTES {
        "TB"@
    } else if bytes >= GB_BYTES {
        "GB"@
    } else if bytes >= MB_BYTES {
        "MB"@
    } else if bytes >= KB_BYTES {
        "KB"@
    } else {
        "B"@
    }
}

/// `bytes / d` in hundredths, rounded to the nearest with ties to even,
/// as the display rounds an exactly-representable binary fraction.
pub open spec fn rounded_centi(bytes: int, d: int) -> int {
    let q = (bytes * 100) / d;
    let rem = (bytes * 100) % d;
    if 2 * rem > d {
        q + 1
    } else if 2 * rem == d && q % 2 == 1 {
        q + 1
    } else {
        q
    }
}

/// What `format_bytes_compact` produces: the scaled value with two
/// decimals and its unit.
pub open spec fn format_bytes_spec(bytes: int) -> Seq<char> {
    let c = rounded_centi(bytes, unit_divisor(bytes));
    dec_str(c / 100) + seq!['.'] + seq![digit_char((c / 10) % 10)] + seq![digit_char(c % 100 % 10)]
        + unit_suffix(bytes)
}

/// Formats a byte count compactly, scaled to the largest binary unit it
/// reaches, with two decimals.
#[verifier::rlimit(100)]
pub fn format_bytes_compact(bytes: u64) -> (r: String)
    ensures
        r@ == format_bytes_spec(bytes as int),
{
    proof {
        reveal_strlit(".");
    }
    let divisor: u64 = if bytes >= TB_BYTES {
        TB_BYTES
    } else if bytes >= GB_BYTES {
        GB_BYTES
    } else if bytes >= MB_BYTES {
        MB_BYTES
    } else if bytes >= KB_BYTES {
        KB_BYTES
    } else {
        1
    };
    let unit: &'static str = if bytes >= TB_BYTES {
        "TB"
    } else if bytes >= GB_BYTES {
        "GB"
    } else if bytes >= MB_BYTES {
        "MB"
    } else if bytes >= KB_BYTES {
        "KB"
    } else {
        "B"
    };
    let scaled: u128 = (bytes as u128) * 100;
    let d: u128 = divisor as u128;
    let q: u128 = scaled / d;
    let rem: u128 = scaled % d;
    let c: u128 = if 2 * rem > d {
        q + 1
    } else if 2 * rem == d && q % 2 == 1 {
        q + 1
    } else {
        q
    };
    assert(c == rounded_centi(bytes as int, divisor as int));
    assert(c <= scaled) by {
        assert(q * d + rem == scaled) by {
            vstd::arithmetic::div_mod::lemma_fundamental_div_mod(scaled as int, d as int);
        }
        assert(q <= scaled);
        if c == q + 1 {
            assert(rem > 0 || (2 * rem == d && q % 2 == 1));
            assert(d >= 1);
        }
    }
    proof {
        vstd::arithmetic::div_mod::lemma_div_is_ordered(c as int, scaled as int, 100);
        vstd::arithmetic::div_mod::lemma_div_by_multiple(bytes as int, 100);
        assert(scaled == (bytes as int) * 100);
        assert(c / 100 <= bytes);
    }
    let ipart: u64 = (c / 100) as u64;
    let frac: u64 = (c % 100) as u64;
    let d1: u64 = frac / 10;
    let d2: u64 = frac % 10;
    let r = u64_to_string(ipart).concat(".").concat(digit_str(d1)).concat(digit_str(d2)).concat(
        unit,
    );
    proof {
        assert(ipart == rounded_centi(bytes as int, unit_divisor(bytes as int)) / 100);
        assert(r@ =~= format_bytes_spec(bytes as int));
    }
    r
}

} // verus!
