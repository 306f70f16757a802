//! Decimal text: rendering unsigned and signed integers as strings, parsing
//! them back, and character-wise string equality. The VM's call results and
//! the host ABI both speak decimal strings, so their contracts are stated over
//! the spec functions here.

use vstd::prelude::*;
use vstd::string::StrSliceExecFns;
use vstd::string::StringExecFns;
use vstd::arithmetic::div_mod::lemma_fundamental_div_mod;

verus! {

/// Whether `c` is one of the characters `'0'` through `'9'`.
pub open spec fn is_dec_digit(c: char) -> bool {
    '0' <= c && c <= '9'
}

/// The numeric value of a decimal digit character.
pub open spec fn digit_val(c: char) -> int {
    c as int - 48
}

/// The decimal digit character for a value below ten.
pub open spec fn digit_char(d: int) -> char {
    if d == 0 {
        '0'
    } else if d == 1 {
        '1'
    } else if d == 2 {
        '2'
    } else if d == 3 {
        '3'
    } else if d == 4 {
        '4'
    } else if d == 5 {
        '5'
    } else if d == 6 {
        '6'
    } else if d == 7 {
        '7'
    } else if d == 8 {
        '8'
    } else {
        '9'
    }
}

/// The canonical decimal rendering of a natural number: no sign, no leading
/// zeros (except for zero itself).
pub open spec fn dec_str(n: nat) -> Seq<char>
    decreases n,
{
    if n < 10 {
        seq![digit_char(n as int)]
    } else {
        dec_str(n / 10) + seq![digit_char((n % 10) as int)]
    }
}

/// The canonical decimal rendering of an integer, with a leading `'-'` when
/// negative.
pub open spec fn int_str(n: int) -> Seq<char> {
    if n < 0 {
        seq!['-'] + dec_str((-n) as nat)
    } else {
        dec_str(n as nat)
    }
}

/// Whether every character of `s` is a decimal digit.
pub open spec fn all_dec_digits(s: Seq<char>) -> bool {
    forall|i: int| 0 <= i < s.len() ==> is_dec_digit(#[trigger] s[i])
}

/// The integer denoted by a sequence of decimal digits (most significant
/// first); leading zeros are allowed.
pub open spec fn dec_val(s: Seq<char>) -> int
    decreases s.len(),
{
    if s.len() == 0 {
        0
    } else {
        dec_val(s.drop_last()) * 10 + digit_val(s.last())
    }
}

/// The digit part of an unsigned decimal literal: a leading `'+'` is
/// tolerated, as the standard unsigned parsers tolerate it.
pub open spec fn unsigned_body(s: Seq<char>) -> Seq<char> {
    if s.len() > 0 && s[0] == '+' {
        s.subrange(1, s.len() as int)
    } else {
        s
    }
}

/// Whether `s` is a well-formed decimal literal for a `u64`: an optional
/// `'+'`, then at least one digit, denoting a value within range.
pub open spec fn parses_as_u64(s: Seq<char>) -> bool {
    let d = unsigned_body(s);
    d.len() > 0 && all_dec_digits(d) && dec_val(d) <= u64::MAX
}

/// The value a `u64` parse of `s` yields, with the silent fallback the VM
/// inherits: anything malformed reads as zero.
pub open spec fn parse_u64_or_zero(s: Seq<char>) -> u64 {
    if parses_as_u64(s) {
        dec_val(unsigned_body(s)) as u64
    } else {
        0
    }
}

/// The digit part and sign of a signed decimal literal.
pub open spec fn signed_is_negative(s: Seq<char>) -> bool {
    s.len() > 0 && s[0] == '-'
}

/// The digit part of a signed decimal literal: an optional `'+'` or `'-'`,
/// then the digits.
pub open spec fn signed_body(s: Seq<char>) -> Seq<char> {
    if s.len() > 0 && (s[0] == '-' || s[0] == '+') {
        s.subrange(1, s.len() as int)
    } else {
        s
    }
}

/// Whether `s` is a well-formed decimal literal for an `i32`.
pub open spec fn parses_as_i32(s: Seq<char>) -> bool {
    let d = signed_body(s);
    d.len() > 0 && all_dec_digits(d) && (if signed_is_negative(s) {
        dec_val(d) <= 0x8000_0000
    } else {
        dec_val(d) <= 0x7fff_ffff
    })
}

/// The value an `i32` parse of `s` yields, malformed input reading as zero.
pub open spec fn parse_i32_or_zero(s: Seq<char>) -> i32 {
    if parses_as_i32(s) {
        if signed_is_negative(s) {
            (-dec_val(signed_body(s))) as i32
        } else {
            dec_val(signed_body(s)) as i32
        }
    } else {
        0
    }
}

/// A digit sequence denotes a non-negative value.
pub proof fn lemma_dec_val_nonneg(s: Seq<char>)
    requires
        all_dec_digits(s),
    ensures
        dec_val(s) >= 0,
    decreases s.len(),
{
    if s.len() > 0 {
        assert(all_dec_digits(s.drop_last()));
        lemma_dec_val_nonneg(s.drop_last());
        assert(is_dec_digit(s.last()));
    }
}

/// Extending a digit sequence never decreases its value.
pub proof fn lemma_dec_val_prefix_le(s: Seq<char>, i: int)
    requires
        all_dec_digits(s),
        0 <= i <= s.len(),
    ensures
        dec_val(s.subrange(0, i)) <= dec_val(s),
    decreases s.len(),
{
    if i == s.len() {
        assert(s.subrange(0, i) =~= s);
    } else {
        let dl = s.drop_last();
        assert(all_dec_digits(dl));
        assert(s.subrange(0, i) =~= dl.subrange(0, i));
        lemma_dec_val_prefix_le(dl, i);
        lemma_dec_val_nonneg(dl);
        assert(is_dec_digit(s.last()));
    }
}

/// The rendering of a natural number consists of digits.
pub proof fn lemma_dec_str_digits(n: nat)
    ensures
        dec_str(n).len() >= 1,
        all_dec_digits(dec_str(n)),
    decreases n,
{
    if n >= 10 {
        lemma_dec_str_digits(n / 10);
        assert forall|i: int| 0 <= i < dec_str(n).len() implies is_dec_digit(
            #[trigger] dec_str(n)[i],
        ) by {
            if i < dec_str(n / 10).len() {
                assert(dec_str(n)[i] == dec_str(n / 10)[i]);
            }
        }
    }
}

/// A digit character reads back as the digit it was made from.
pub proof fn lemma_digit_char_val(d: int)
    requires
        0 <= d < 10,
    ensures
        digit_val(digit_char(d)) == d,
        is_dec_digit(digit_char(d)),
{
}

/// Rendering then reading a natural number is the identity.
pub proof fn lemma_dec_val_of_dec_str(n: nat)
    ensures
        dec_val(dec_str(n)) == n,
    decreases n,
{
    if n < 10 {
        lemma_digit_char_val(n as int);
        assert(dec_str(n).drop_last() =~= Seq::<char>::empty());
        assert(dec_val(Seq::<char>::empty()) == 0);
        assert(dec_str(n).last() == digit_char(n as int));
    } else {
        lemma_dec_val_of_dec_str(n / 10);
        lemma_digit_char_val((n % 10) as int);
        assert(dec_str(n).drop_last() =~= dec_str(n / 10));
        assert(dec_val(dec_str(n)) == dec_val(dec_str(n / 10)) * 10 + digit_val(
            dec_str(n).last(),
        ));
    }
}

/// Rendering a number and reading it back yields the number: the decimal
/// form is canonical and never mistaken for anything else.
pub proof fn lemma_dec_round_trip(n: u64)
    ensures
        parse_u64_or_zero(dec_str(n as nat)) == n,
{
    lemma_dec_str_digits(n as nat);
    lemma_dec_val_of_dec_str(n as nat);
    assert(is_dec_digit(dec_str(n as nat)[0]));
    assert(unsigned_body(dec_str(n as nat)) =~= dec_str(n as nat));
}

/// Relies on `String::push`: appends exactly the one character.
#[verifier::external_body]
fn string_push(s: &mut String, c: char)
    ensures
        final(s)@ == old(s)@.push(c),
{
    s.push(c);
}

/// The decimal digit character for `d`, executable form.
fn digit_to_char(d: u64) -> (c: char)
    requires
        d < 10,
    ensures
        c == digit_char(d as int),
        is_dec_digit(c),
        digit_val(c) == d as int,
{
    match d {
        0 => '0',
        1 => '1',
        2 => '2',
        3 => '3',
        4 => '4',
        5 => '5',
        6 => '6',
        7 => '7',
        8 => '8',
        _ => '9',
    }
}

/// Renders `n` in decimal.
pub fn u128_to_string(n: u128) -> (s: String)
    ensures
        s@ == dec_str(n as nat),
    decreases n,
{
    if n < 10 {
        let mut s = String::new();
        string_push(&mut s, digit_to_char(n as u64));
        proof {
            assert(s@ =~= dec_str(n as nat));
        }
        s
    } else {
        let mut s = u128_to_string(n / 10);
        string_push(&mut s, digit_to_char((n % 10) as u64));
        proof {
            assert(s@ =~= dec_str(n as nat));
        }
        s
    }
}

/// Renders `n` in decimal.
pub fn u64_to_string(n: u64) -> (s: String)
    ensures
        s@ == dec_str(n as nat),
{
    u128_to_string(n as u128)
}

/// Renders `n` in decimal, with a leading `'-'` when negative.
pub fn i64_to_string(n: i64) -> (s: String)
    ensures
        s@ == int_str(n as int),
{
    if n >= 0 {
        u128_to_string(n as u128)
    } else {
        let magnitude: u128 = (-(n as i128)) as u128;
        let mut s = String::new();
        string_push(&mut s, '-');
        let digits = u128_to_string(magnitude);
        s.append(digits.as_str());
        proof {
            assert(s@ =~= int_str(n as int));
        }
        s
    }
}

/// Renders `n` in decimal, with a leading `'-'` when negative.
pub fn i32_to_string(n: i32) -> (s: String)
    ensures
        s@ == int_str(n as int),
{
    i64_to_string(n as i64)
}

/// Character-wise string equality, `r == (a@ == b@)`.
pub fn str_eq(a: &str, b: &str) -> (r: bool)
    ensures
        r == (a@ == b@),
{
    let a_len = a.unicode_len();
    let b_len = b.unicode_len();
    if a_len != b_len {
        return false;
    }
    let mut i: usize = 0;
    while i < a_len
        invariant
            a_len == a@.len(),
            b_len == b@.len(),
            a_len == b_len,
            i <= a_len,
            forall|j: int| 0 <= j < i ==> a@[j] == b@[j],
        decreases a_len - i,
    {
        if a.get_char(i) != b.get_char(i) {
            return false;
        }
        i = i + 1;
    }
    proof {
        assert(a@ =~= b@);
    }
    true
}

/// Reads `s` as a `u64`, yielding zero for anything malformed or out of
/// range, exactly as the silent numeric fallback demands.
pub fn parse_u64(s: &str) -> (n: u64)
    ensures
        n == parse_u64_or_zero(s@),
{
    let len = s.unicode_len();
    if len == 0 {
        return 0;
    }
    let start: usize = if s.get_char(0) == '+' {
        1
    } else {
        0
    };
    let ghost body = unsigned_body(s@);
    proof {
        assert(body =~= s@.subrange(start as int, len as int));
    }
    if start == len {
        return 0;
    }
    let mut acc: u64 = 0;
    let mut i: usize = start;
    while i < len
        invariant
            len == s@.len(),
            start <= i <= len,
            start < len,
            body == unsigned_body(s@),
            body == s@.subrange(start as int, len as int),
            all_dec_digits(s@.subrange(start as int, i as int)),
            acc as int == dec_val(s@.subrange(start as int, i as int)),
        decreases len - i,
    {
        let c = s.get_char(i);
        let ghost prefix = s@.subrange(start as int, i as int);
        let ghost extended = s@.subrange(start as int, i as int + 1);
        proof {
            assert(extended.drop_last() =~= prefix);
        }
        if !('0' <= c && c <= '9') {
            proof {
                assert(body[i - start] == c);
                assert(!all_dec_digits(body));
            }
            return 0;
        }
        let d = (c as u32 - 48) as u64;
        if acc > (u64::MAX - d) / 10 {
            proof {
                lemma_fundamental_div_mod(u64::MAX - d, 10);
                assert(dec_val(extended) > u64::MAX);
                if all_dec_digits(body) {
                    lemma_dec_val_prefix_le(body, i - start + 1);
                    assert(extended =~= body.subrange(0, i - start + 1));
                    assert(dec_val(body) > u64::MAX);
                }
            }
            return 0;
        }
        proof {
            lemma_fundamental_div_mod(u64::MAX - d, 10);
        }
        acc = acc * 10 + d;
        i = i + 1;
    }
    proof {
        assert(s@.subrange(start as int, len as int) =~= body);
        assert(parses_as_u64(s@));
    }
    acc
}

/// Reads `s` as an `i32`, yielding zero for anything malformed or out of
/// range.
pub fn parse_i32(s: &str) -> (n: i32)
    ensures
        n == parse_i32_or_zero(s@),
{
    let len = s.unicode_len();
    if len == 0 {
        return 0;
    }
    let first = s.get_char(0);
    let negative = first == '-';
    let start: usize = if first == '-' || first == '+' {
        1
    } else {
        0
    };
    let ghost body = signed_body(s@);
    proof {
        assert(body =~= s@.subrange(start as int, len as int));
    }
    if start == len {
        return 0;
    }
    let mut acc: u64 = 0;
    let mut i: usize = start;
    while i < len
        invariant
            len == s@.len(),
            start <= i <= len,
            start < len,
            body == signed_body(s@),
            negative == signed_is_negative(s@),
            body == s@.subrange(start as int, len as int),
            all_dec_digits(s@.subrange(start as int, i as int)),
            acc as int == dec_val(s@.subrange(start as int, i as int)),
            acc <= 0x8000_0000,
        decreases len - i,
    {
        let c = s.get_char(i);
        let ghost prefix = s@.subrange(start as int, i as int);
        let ghost extended = s@.subrange(start as int, i as int + 1);
        proof {
            assert(extended.drop_last() =~= prefix);
        }
        if !('0' <= c && c <= '9') {
            proof {
                assert(body[i - start] == c);
                assert(!all_dec_digits(body));
            }
            return 0;
        }
        let d = (c as u32 - 48) as u64;
        acc = acc * 10 + d;
        i = i + 1;
        if acc > 0x8000_0000 {
            proof {
                assert(dec_val(extended) > 0x8000_0000);
                if all_dec_digits(body) {
                    lemma_dec_val_prefix_le(body, i - start);
                    assert(extended =~= body.subrange(0, i - start));
                    assert(dec_val(body) > 0x8000_0000);
                }
            }
            return 0;
        }
    }
    proof {
        assert(s@.subrange(start as int, len as int) =~= body);
    }
    if negative {
        proof {
            assert(parses_as_i32(s@));
        }
        (-(acc as i64)) as i32
    } else {
        if acc > 0x7fff_ffff {
            proof {
                assert(dec_val(body) == acc as int);
                assert(!parses_as_i32(s@));
            }
            return 0;
        }
        proof {
            assert(parses_as_i32(s@));
        }
        acc as i32
    }
}

} // verus!
