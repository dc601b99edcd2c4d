//! Decimal and hexadecimal numerals.

use vstd::prelude::*;
use vstd::slice::slice_subrange;

verus! {

pub open spec fn digit_char(d: nat) -> char {
    ((48 + d) as u8) as char
}

/// The decimal numeral of `n`, without leading zeros.
pub open spec fn decimal(n: nat) -> Seq<char>
    decreases n,
{
    if n < 10 {
        seq![digit_char(n)]
    } else {
        decimal(n / 10).push(digit_char(n % 10))
    }
}

/// The decimal numeral of `i`, with a minus sign in front of a negative number.
pub open spec fn signed_decimal(i: int) -> Seq<char> {
    if i < 0 {
        seq!['-'] + decimal((-i) as nat)
    } else {
        decimal(i as nat)
    }
}

pub fn push_decimal(out: &mut String, n: u64)
    ensures
        final(out)@ == old(out)@ + decimal(n as nat),
    decreases n,
{
    if n >= 10 {
        push_decimal(out, n / 10);
    }
    let ghost before = out@;
    let d = (48 + (n % 10) as u8) as char;
    out.push(d);
    proof {
        if n >= 10 {
            assert(out@ =~= old(out)@ + decimal(n as nat));
        } else {
            assert(out@ =~= old(out)@ + decimal(n as nat));
        }
    }
}

pub fn push_signed_decimal(out: &mut String, i: i64)
    ensures
        final(out)@ == old(out)@ + signed_decimal(i as int),
{
    if i < 0 {
        out.push('-');
        let magnitude: u64 = (-(i as i128)) as u64;
        push_decimal(out, magnitude);
        assert(out@ =~= old(out)@ + signed_decimal(i as int));
    } else {
        push_decimal(out, i as u64);
    }
}

/// The value of a run of decimal digits; no value for an empty run or for one
/// that holds anything else.
pub open spec fn digits_value(s: Seq<char>) -> Option<nat>
    decreases s.len(),
{
    if s.len() == 0 {
        None
    } else if !('0' <= s.last() <= '9') {
        None
    } else if s.len() == 1 {
        Some((s.last() as u32 - 48) as nat)
    } else {
        match digits_value(s.drop_last()) {
            Some(v) => Some(10 * v + (s.last() as u32 - 48) as nat),
            None => None,
        }
    }
}

proof fn lemma_digits_prefix(s: Seq<char>, n: int)
    requires
        0 < n <= s.len(),
        digits_value(s) is Some,
    ensures
        digits_value(s.take(n)) is Some,
        digits_value(s.take(n))->0 <= digits_value(s)->0,
    decreases s.len(),
{
    if n < s.len() {
        lemma_digits_prefix(s.drop_last(), n);
        assert(s.drop_last().take(n) =~= s.take(n));
    } else {
        assert(s.take(n) =~= s);
    }
}

/// A decimal numeral has only digits, at least one, and reads back as the
/// number.
pub proof fn lemma_decimal_reads_back(n: nat)
    ensures
        digits_value(decimal(n)) == Some(n),
        decimal(n).len() > 0,
        forall|i: int| 0 <= i < decimal(n).len() ==> '0' <= #[trigger] decimal(n)[i] <= '9',
    decreases n,
{
    if n >= 10 {
        lemma_decimal_reads_back(n / 10);
        assert(decimal(n).drop_last() =~= decimal(n / 10));
        assert forall|i: int| 0 <= i < decimal(n).len() implies '0' <= #[trigger] decimal(n)[i]
            <= '9' by {
            if i < decimal(n / 10).len() {
                assert(decimal(n)[i] == decimal(n / 10)[i]);
            }
        }
    }
}

/// Different numbers have different numerals.
pub proof fn lemma_signed_decimal_injective(a: int, b: int)
    requires
        signed_decimal(a) == signed_decimal(b),
    ensures
        a == b,
{
    lemma_signed_decimal_chars(a);
    lemma_signed_decimal_chars(b);
    let ma = if a < 0 {
        (-a) as nat
    } else {
        a as nat
    };
    let mb = if b < 0 {
        (-b) as nat
    } else {
        b as nat
    };
    lemma_decimal_reads_back(ma);
    lemma_decimal_reads_back(mb);
    if a < 0 {
        assert(signed_decimal(a)[0] == '-');
        assert(signed_decimal(a).drop_first() =~= decimal(ma));
    } else {
        assert('0' <= signed_decimal(a)[0]);
    }
    if b < 0 {
        assert(signed_decimal(b)[0] == '-');
        assert(signed_decimal(b).drop_first() =~= decimal(mb));
    } else {
        assert('0' <= signed_decimal(b)[0]);
    }
}

/// The characters of a signed numeral: digits, and perhaps a minus sign.
pub proof fn lemma_signed_decimal_chars(a: int)
    ensures
        signed_decimal(a).len() > 0,
        forall|i: int|
            0 <= i < signed_decimal(a).len() ==> #[trigger] signed_decimal(a)[i] == '-' || '0'
                <= signed_decimal(a)[i] <= '9',
{
    let m = if a < 0 {
        (-a) as nat
    } else {
        a as nat
    };
    lemma_decimal_reads_back(m);
    if a < 0 {
        assert forall|i: int| 0 <= i < signed_decimal(a).len() implies #[trigger] signed_decimal(
            a,
        )[i] == '-' || '0' <= signed_decimal(a)[i] <= '9' by {
            if i > 0 {
                assert(signed_decimal(a)[i] == decimal(m)[i - 1]);
            }
        }
    }
}

/// What an unsigned integer type with the given maximum reads from `s`: digits,
/// after an optional plus sign, with a value of at most `max`.
pub open spec fn parse_unsigned_spec(s: Seq<char>, max: nat) -> Option<nat> {
    let body = if s.len() > 0 && s[0] == '+' {
        s.drop_first()
    } else {
        s
    };
    match digits_value(body) {
        Some(v) => if v <= max {
            Some(v)
        } else {
            None
        },
        None => None,
    }
}

/// What a signed integer type reads from `s`: digits, after an optional sign,
/// with a value between `min` and `max`.
pub open spec fn parse_signed_spec(s: Seq<char>, min: int, max: int) -> Option<int> {
    let negative = s.len() > 0 && s[0] == '-';
    let body = if s.len() > 0 && (s[0] == '+' || s[0] == '-') {
        s.drop_first()
    } else {
        s
    };
    match digits_value(body) {
        Some(v) => {
            let i = if negative {
                -(v as int)
            } else {
                v as int
            };
            if min <= i <= max {
                Some(i)
            } else {
                None
            }
        },
        None => None,
    }
}

/// Numerals are read back as the numbers they were written for.
pub proof fn lemma_numerals_parse(n: nat, i: int, max: nat, low: int, high: int)
    ensures
        n <= max ==> parse_unsigned_spec(decimal(n), max) == Some(n),
        low <= i <= high ==> parse_signed_spec(signed_decimal(i), low, high) == Some(i),
{
    lemma_decimal_reads_back(n);
    let m = if i < 0 {
        (-i) as nat
    } else {
        i as nat
    };
    lemma_decimal_reads_back(m);
    assert('0' <= decimal(n)[0]);
    assert('0' <= decimal(m)[0]);
    if i < 0 {
        assert(signed_decimal(i)[0] == '-');
        assert(signed_decimal(i).drop_first() =~= decimal(m));
    }
}

/// Reads a run of digits with a value of at most `max`.
fn read_digits(v: &[char], max: u64) -> (r: Option<u64>)
    requires
        max <= 0xffff_ffff,
    ensures
        r matches Some(x) ==> digits_value(v@) == Some(x as nat) && x <= max,
        r is None ==> digits_value(v@) is None || digits_value(v@)->0 > max,
{
    if v.len() == 0 {
        return None;
    }
    let mut acc: u64 = 0;
    let mut i: usize = 0;
    while i < v.len()
        invariant
            i <= v.len(),
            max <= 0xffff_ffff,
            acc <= max,
            i > 0 ==> digits_value(v@.take(i as int)) == Some(acc as nat),
            i == 0 ==> acc == 0,
        decreases v.len() - i,
    {
        let c = v[i];
        let ghost head = v@.take(i + 1);
        proof {
            assert(head.last() == c);
            assert(head.drop_last() =~= v@.take(i as int));
        }
        if !('0' <= c && c <= '9') {
            proof {
                if digits_value(v@) is Some {
                    lemma_digits_prefix(v@, i + 1);
                }
            }
            return None;
        }
        let next: u64 = 10 * acc + (c as u32 - 48) as u64;
        assert(digits_value(head) == Some(next as nat));
        if next > max {
            proof {
                if digits_value(v@) is Some {
                    lemma_digits_prefix(v@, i + 1);
                }
            }
            return None;
        }
        acc = next;
        i += 1;
    }
    assert(v@.take(i as int) =~= v@);
    Some(acc)
}

pub fn parse_unsigned(v: &[char], max: u32) -> (r: Option<u32>)
    ensures
        r is Some <==> parse_unsigned_spec(v@, max as nat) is Some,
        r matches Some(x) ==> parse_unsigned_spec(v@, max as nat) == Some(x as nat),
{
    let body = if v.len() > 0 && v[0] == '+' {
        slice_subrange(v, 1, v.len())
    } else {
        v
    };
    assert(v.len() > 0 ==> v@.subrange(1, v.len() as int) =~= v@.drop_first());
    match read_digits(body, max as u64) {
        Some(x) => Some(x as u32),
        None => None,
    }
}

pub fn parse_i32(v: &[char]) -> (r: Option<i32>)
    ensures
        r is Some <==> parse_signed_spec(v@, i32::MIN as int, i32::MAX as int) is Some,
        r matches Some(x) ==> parse_signed_spec(v@, i32::MIN as int, i32::MAX as int) == Some(
            x as int,
        ),
{
    let negative = v.len() > 0 && v[0] == '-';
    let body = if v.len() > 0 && (v[0] == '+' || v[0] == '-') {
        slice_subrange(v, 1, v.len())
    } else {
        v
    };
    assert(v.len() > 0 ==> v@.subrange(1, v.len() as int) =~= v@.drop_first());
    let max: u64 = if negative {
        2147483648
    } else {
        2147483647
    };
    match read_digits(body, max) {
        Some(x) => if negative {
            Some((-(x as i64)) as i32)
        } else {
            Some(x as i32)
        },
        None => None,
    }
}

pub open spec fn hex_char(d: nat) -> char {
    if d < 10 {
        ((48 + d) as u8) as char
    } else {
        ((87 + d) as u8) as char
    }
}

/// The lower case hexadecimal numeral of `n`, without leading zeros.
pub open spec fn hex(n: nat) -> Seq<char>
    decreases n,
{
    if n < 16 {
        seq![hex_char(n)]
    } else {
        hex(n / 16).push(hex_char(n % 16))
    }
}

/// The hexadecimal numeral of `n`, filled up with zeros to two digits.
pub open spec fn hex_two(n: nat) -> Seq<char> {
    if n < 16 {
        seq!['0'] + hex(n)
    } else {
        hex(n)
    }
}

/// The last `width` hexadecimal digits of `n`.
pub open spec fn hex_fixed(n: nat, width: nat) -> Seq<char>
    decreases width,
{
    if width == 0 {
        Seq::empty()
    } else {
        hex_fixed(n / 16, (width - 1) as nat).push(hex_char(n % 16))
    }
}

/// How many numbers `width` hexadecimal digits can tell apart.
pub open spec fn hex_limit(width: nat) -> nat
    decreases width,
{
    if width == 0 {
        1
    } else {
        16 * hex_limit((width - 1) as nat)
    }
}

pub proof fn lemma_hex_fixed_len(n: nat, width: nat)
    ensures
        hex_fixed(n, width).len() == width,
    decreases width,
{
    if width > 0 {
        lemma_hex_fixed_len(n / 16, (width - 1) as nat);
    }
}

/// Numbers with the same last digits agree up to a multiple of the limit.
pub proof fn lemma_hex_fixed_injective(a: nat, b: nat, width: nat)
    requires
        hex_fixed(a, width) == hex_fixed(b, width),
    ensures
        a % hex_limit(width) == b % hex_limit(width),
        hex_limit(width) > 0,
    decreases width,
{
    if width > 0 {
        let sa = hex_fixed(a, width);
        let sb = hex_fixed(b, width);
        let w = (width - 1) as nat;
        assert(sa.drop_last() =~= hex_fixed(a / 16, w));
        assert(sb.drop_last() =~= hex_fixed(b / 16, w));
        assert(sa.last() == sb.last());
        assert(a % 16 == b % 16);
        lemma_hex_fixed_injective(a / 16, b / 16, w);
        vstd::arithmetic::div_mod::lemma_mod_breakdown(a as int, 16, hex_limit(w) as int);
        vstd::arithmetic::div_mod::lemma_mod_breakdown(b as int, 16, hex_limit(w) as int);
    }
}

pub fn hex_digit(d: u8) -> (c: char)
    requires
        d < 16,
    ensures
        c == hex_char(d as nat),
{
    if d < 10 {
        (48 + d) as char
    } else {
        (87 + d) as char
    }
}

pub fn push_hex(out: &mut String, n: u32)
    ensures
        final(out)@ == old(out)@ + hex(n as nat),
    decreases n,
{
    if n >= 16 {
        push_hex(out, n / 16);
    }
    out.push(hex_digit((n % 16) as u8));
    assert(out@ =~= old(out)@ + hex(n as nat));
}

pub fn push_hex_two(out: &mut String, n: u32)
    ensures
        final(out)@ == old(out)@ + hex_two(n as nat),
{
    if n < 16 {
        out.push('0');
    }
    push_hex(out, n);
    assert(out@ =~= old(out)@ + hex_two(n as nat));
}

/// A numeral ends in the digit of the ones, with the numeral of the tens in
/// front of it; the digits are the characters from zero to nine.
pub proof fn law_numerals_are_decimal(n: nat)
    ensures
        decimal(0) == seq!['0'],
        n < 10 ==> decimal(n).len() == 1 && decimal(n)[0] as u32 == '0' as u32 + n,
        n >= 10 ==> decimal(n).drop_last() == decimal(n / 10),
        decimal(n).last() as u32 == '0' as u32 + n % 10,
        n > 0 ==> signed_decimal(-(n as int)) == seq!['-'] + decimal(n),
        signed_decimal(n as int) == decimal(n),
{
    if n >= 10 {
        assert(decimal(n).drop_last() =~= decimal(n / 10));
    }
    assert(decimal(0) =~= seq!['0']);
}

/// A number is read by its decimal digits, the last one counting once and each
/// other ten times as much as the one behind it; a plus sign in front does not
/// count, and nothing but digits is read.
pub proof fn law_digits_are_read_as_decimal(s: Seq<char>, c: char, max: nat)
    ensures
        '0' <= c <= '9' ==> digits_value(seq![c]) == Some((c as u32 - '0' as u32) as nat),
        '0' <= c <= '9' && digits_value(s) is Some ==> digits_value(s.push(c)) == Some(
            10 * digits_value(s)->0 + (c as u32 - '0' as u32) as nat,
        ),
        !('0' <= c <= '9') ==> digits_value(s.push(c)) is None,
        s.len() > 0 && '0' <= s[0] <= '9' ==> parse_unsigned_spec(seq!['+'] + s, max)
            == parse_unsigned_spec(s, max),
        parse_unsigned_spec(Seq::empty(), max) is None,
{
    assert(s.push(c).drop_last() =~= s);
    assert((seq!['+'] + s).drop_first() =~= s);
}

/// The hexadecimal digits are the characters from zero to nine and from a to f.
pub proof fn law_hexadecimal_digits(d: nat)
    requires
        d < 16,
    ensures
        d < 10 ==> hex_char(d) as u32 == '0' as u32 + d,
        d >= 10 ==> hex_char(d) as u32 == 'a' as u32 + (d - 10),
{
}

/// A hexadecimal numeral of fixed width ends in the digit of the ones, with that
/// of the sixteens in front of it.
pub proof fn law_hexadecimal_places(n: nat, width: nat)
    requires
        width > 0,
    ensures
        hex_fixed(n, width).last() == hex_char(n % 16),
        hex_fixed(n, width).drop_last() == hex_fixed(n / 16, (width - 1) as nat),
{
    assert(hex_fixed(n, width).drop_last() =~= hex_fixed(n / 16, (width - 1) as nat));
}

/// Numerals, with or without a sign, are read as the numbers they were written
/// for, where those are in range, and refused where they are not.
pub proof fn law_numerals_read_back(n: nat, i: int, max: nat, low: int, high: int)
    ensures
        n <= max ==> parse_unsigned_spec(decimal(n), max) == Some(n),
        n > max ==> parse_unsigned_spec(decimal(n), max) is None,
        low <= i <= high ==> parse_signed_spec(signed_decimal(i), low, high) == Some(i),
        i > high || i < low ==> parse_signed_spec(signed_decimal(i), low, high) is None,
{
    lemma_numerals_parse(n, i, n, i, i);
    lemma_numerals_parse(n, i, max, low, high);
}

} // verus!
