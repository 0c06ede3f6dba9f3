use crate::text::push_char;
use vstd::prelude::*;
use vstd::arithmetic::div_mod::{lemma_basic_div, lemma_div_denominator};

verus! {

/// Sixteen to the power `k`.
pub open spec fn pow16(k: nat) -> nat
    decreases k,
{
    if k == 0 {
        1
    } else {
        16 * pow16((k - 1) as nat)
    }
}

/// The lower-case hexadecimal digit for a value below sixteen.
pub open spec fn hex_digit(d: nat) -> char {
    if d < 10 {
        ((48 + d) as u8) as char
    } else {
        ((87 + d) as u8) as char
    }
}

/// The digit of `id` that stands at place `i`, counted from the left, of its 32 digits.
pub open spec fn id_digit(id: u128, i: int) -> nat {
    ((id as nat) / pow16((31 - i) as nat)) % 16
}

/// An identifier at the boundary: exactly 32 lower-case hexadecimal digits, padded
/// with zeros on the left.
pub open spec fn id_text(id: u128) -> Seq<char> {
    Seq::new(32, |i: int| hex_digit(id_digit(id, i)))
}

/// The value of one hexadecimal digit, of either case.
pub open spec fn hex_value(c: char) -> Option<nat> {
    if '0' <= c <= '9' {
        Some((c as nat - 48) as nat)
    } else if 'a' <= c <= 'f' {
        Some((c as nat - 87) as nat)
    } else if 'A' <= c <= 'F' {
        Some((c as nat - 55) as nat)
    } else {
        None
    }
}

/// The number that a run of hexadecimal digits writes, if every character is a
/// digit and the number fits in 128 bits. The empty run writes zero.
pub open spec fn digits_value(digits: Seq<char>) -> Option<u128>
    decreases digits.len(),
{
    if digits.len() == 0 {
        Some(0u128)
    } else {
        match (digits_value(digits.drop_last()), hex_value(digits.last())) {
            (Some(high), Some(low)) => if high * 16 + low <= u128::MAX {
                Some((high * 16 + low) as u128)
            } else {
                None
            },
            _ => None,
        }
    }
}

/// The digits of a number's text: the text without a leading plus sign.
pub open spec fn unsigned_part(text: Seq<char>) -> Seq<char> {
    if text.len() > 0 && text[0] == '+' {
        text.subrange(1, text.len() as int)
    } else {
        text
    }
}

/// The number that a hexadecimal text writes: an optional plus sign, then at least
/// one digit, and nothing else.
pub open spec fn hex_number(text: Seq<char>) -> Option<u128> {
    if unsigned_part(text).len() == 0 {
        None
    } else {
        digits_value(unsigned_part(text))
    }
}

/// A text with every hyphen taken out.
pub open spec fn without_hyphens(text: Seq<char>) -> Seq<char>
    decreases text.len(),
{
    if text.len() == 0 {
        Seq::empty()
    } else if text.last() == '-' {
        without_hyphens(text.drop_last())
    } else {
        without_hyphens(text.drop_last()).push(text.last())
    }
}

/// The identifier that a text writes once its hyphens are set aside.
pub open spec fn uuid_number(text: Seq<char>) -> Option<u128> {
    hex_number(without_hyphens(text))
}

fn digit_char(d: u8) -> (c: char)
    requires
        d < 16,
    ensures
        c == hex_digit(d as nat),
{
    if d < 10 {
        (48 + d) as char
    } else {
        (87 + d) as char
    }
}

fn digit_value(c: char) -> (value: Option<u8>)
    ensures
        match value {
            Some(d) => hex_value(c) == Some(d as nat) && d < 16,
            None => hex_value(c) is None,
        },
{
    if '0' <= c && c <= '9' {
        Some((c as u32 - 48) as u8)
    } else if 'a' <= c && c <= 'f' {
        Some((c as u32 - 87) as u8)
    } else if 'A' <= c && c <= 'F' {
        Some((c as u32 - 55) as u8)
    } else {
        None
    }
}

/// Writes an identifier as 32 lower-case hexadecimal digits.
pub fn format_id(id: u128) -> (text: String)
    ensures
        text@ == id_text(id),
{
    let mut low: Vec<u8> = Vec::new();
    let mut rest: u128 = id;
    let mut k: usize = 0;
    assert(pow16(0) == 1);
    while k < 32
        invariant
            k <= 32,
            low@.len() == k,
            rest as nat == (id as nat) / pow16(k as nat),
            forall|j: int| 0 <= j < k ==> low@[j] as nat == ((id as nat) / pow16(j as nat)) % 16,
        decreases 32 - k,
    {
        proof {
            lemma_pow16_positive(k as nat);
            lemma_div_denominator(id as int, pow16(k as nat) as int, 16);
        }
        low.push((rest % 16) as u8);
        rest = rest / 16;
        k += 1;
    }
    let mut text = String::new();
    let mut i: usize = 0;
    while i < 32
        invariant
            i <= 32,
            low@.len() == 32,
            forall|j: int| 0 <= j < 32 ==> low@[j] as nat == ((id as nat) / pow16(j as nat)) % 16,
            text@.len() == i,
            forall|j: int| 0 <= j < i ==> text@[j] == hex_digit(id_digit(id, j)),
        decreases 32 - i,
    {
        let d = low[31 - i];
        push_char(&mut text, digit_char(d));
        i += 1;
    }
    assert(text@ =~= id_text(id));
    text
}

/// The characters that count when a text is read as a number: all of them, or all
/// but the hyphens.
pub open spec fn counted(text: Seq<char>, skip_hyphens: bool) -> Seq<char> {
    if skip_hyphens {
        without_hyphens(text)
    } else {
        text
    }
}

/// One more digit `low` behind the number `high`, unless the result leaves 128 bits.
fn shift_in(high: u128, low: u8) -> (value: Option<u128>)
    requires
        low < 16,
    ensures
        value == (if high * 16 + low <= u128::MAX {
            Some((high * 16 + low) as u128)
        } else {
            None
        }),
{
    if high > (u128::MAX - low as u128) / 16 {
        None
    } else {
        Some(high * 16 + low as u128)
    }
}

fn scan_number(text: &str, skip_hyphens: bool) -> (number: Option<u128>)
    ensures
        number == hex_number(counted(text@, skip_hyphens)),
{
    let mut empty = true;
    let mut any_digit = false;
    let mut value: Option<u128> = Some(0);
    let ghost mut read: Seq<char> = Seq::empty();
    for c in it: text.chars()
        invariant
            it.seq() == text@,
            read == text@.take(it.index()),
            empty == (counted(read, skip_hyphens).len() == 0),
            any_digit == (unsigned_part(counted(read, skip_hyphens)).len() > 0),
            value == digits_value(unsigned_part(counted(read, skip_hyphens))),
    {
        let ghost before = counted(read, skip_hyphens);
        proof {
            let next = read.push(c);
            assert(next.drop_last() =~= read);
            assert(next =~= text@.take(it.index() + 1));
            read = next;
        }
        if skip_hyphens && c == '-' {
            assert(counted(read, skip_hyphens) == before);
        } else {
            assert(counted(read, skip_hyphens) == before.push(c));
            if empty && c == '+' {
                assert(unsigned_part(before.push(c)) =~= Seq::<char>::empty());
                empty = false;
            } else {
                assert(unsigned_part(before.push(c)) =~= unsigned_part(before).push(c));
                assert(unsigned_part(before).push(c).drop_last() =~= unsigned_part(before));
                value = match (value, digit_value(c)) {
                    (Some(high), Some(low)) => shift_in(high, low),
                    _ => None,
                };
                empty = false;
                any_digit = true;
            }
        }
    }
    assert(read =~= text@);
    if any_digit {
        value
    } else {
        None
    }
}

/// Reads a hexadecimal number: an optional plus sign and at least one digit of
/// either case. A text with any other character, without a digit, or whose number
/// does not fit in 128 bits, has no number.
pub fn parse_hex(text: &str) -> (number: Option<u128>)
    ensures
        number == hex_number(text@),
{
    scan_number(text, false)
}

/// Reads an identifier as `parse_hex` does, passing over hyphens wherever they stand.
pub fn parse_uuid(text: &str) -> (number: Option<u128>)
    ensures
        number == uuid_number(text@),
{
    scan_number(text, true)
}

/// Sixteen to any power is positive.
pub proof fn lemma_pow16_positive(k: nat)
    ensures
        pow16(k) > 0,
    decreases k,
{
    if k > 0 {
        lemma_pow16_positive((k - 1) as nat);
    }
}


/// The number that the first `k` of an identifier's 32 digits write.
pub open spec fn leading_value(id: u128, k: nat) -> nat {
    (id as nat) / pow16((32 - k) as nat)
}

/// Does `s` come before `t` in dictionary order?
pub open spec fn text_before(s: Seq<char>, t: Seq<char>) -> bool {
    ||| (s.len() < t.len() && s == t.take(s.len() as int))
    ||| exists|k: int|
        0 <= k < s.len() && k < t.len() && s.take(k) == t.take(k) && (s[k] as nat) < (
        t[k] as nat)
}

/// Sixteen to the power 32 is two to the power 128.
pub proof fn lemma_pow16_32()
    ensures
        pow16(32) == 0x1_0000_0000_0000_0000_0000_0000_0000_0000,
{
    reveal_with_fuel(pow16, 9);
    assert(pow16(8) == 0x1_0000_0000);
    assert(pow16(16) == 0x1_0000_0000_0000_0000);
    assert(pow16(24) == 0x1_0000_0000_0000_0000_0000_0000);
}

/// One digit more: the first `k + 1` digits write sixteen times what the first `k`
/// write, plus the digit at place `k`.
pub proof fn lemma_leading_step(id: u128, k: nat)
    requires
        k < 32,
    ensures
        leading_value(id, k + 1) == leading_value(id, k) * 16 + id_digit(id, k as int),
        leading_value(id, k + 1) <= id,
{
    let unit = pow16((31 - k) as nat);
    lemma_pow16_positive((31 - k) as nat);
    assert(pow16((32 - k) as nat) == 16 * unit);
    lemma_div_denominator(id as int, unit as int, 16);
    assert(unit * 16 == 16 * unit) by (nonlinear_arith);
    let x = (id as nat) / unit;
    assert(x / 16 == leading_value(id, k));
    assert(x <= id) by (nonlinear_arith)
        requires
            x == (id as nat) / unit,
            unit > 0,
    ;
}

/// A digit's character is read back as the digit.
pub proof fn lemma_hex_digit_value(d: nat)
    requires
        d < 16,
    ensures
        hex_value(hex_digit(d)) == Some(d),
        hex_digit(d) != '+',
        hex_digit(d) != '-',
{
}

/// Reading the first `k` digits of an identifier's text gives the number that they
/// write.
pub proof fn lemma_digits_of_prefix(id: u128, k: nat)
    requires
        k <= 32,
    ensures
        digits_value(id_text(id).take(k as int)) == Some(leading_value(id, k) as u128),
        leading_value(id, k) <= id,
    decreases k,
{
    let text = id_text(id);
    if k == 0 {
        lemma_pow16_32();
        assert(text.take(0).len() == 0);
        lemma_basic_div(id as int, pow16(32) as int);
        assert(leading_value(id, 0) == 0);
    } else {
        let j = (k - 1) as nat;
        lemma_digits_of_prefix(id, j);
        lemma_leading_step(id, j);
        let prefix = text.take(k as int);
        assert(prefix.drop_last() =~= text.take(j as int));
        assert(prefix.last() == hex_digit(id_digit(id, j as int)));
        lemma_hex_digit_value(id_digit(id, j as int));
        assert(digits_value(prefix.drop_last()) == Some(leading_value(id, j) as u128));
        assert(hex_value(prefix.last()) == Some(id_digit(id, j as int)));
        assert(leading_value(id, j) * 16 + id_digit(id, j as int) == leading_value(id, k));
        assert(digits_value(prefix) == Some(leading_value(id, k) as u128));
    }
}

/// An identifier that is written and read back is the same identifier, by either
/// reader.
pub proof fn lemma_id_round_trip(id: u128)
    ensures
        hex_number(id_text(id)) == Some(id),
        uuid_number(id_text(id)) == Some(id),
{
    let text = id_text(id);
    lemma_digits_of_prefix(id, 32);
    assert(text.take(32) =~= text);
    assert(pow16(0) == 1);
    assert((id as nat) / 1 == id as nat);
    assert(leading_value(id, 32) == id as nat);
    lemma_hex_digit_value(id_digit(id, 0));
    assert(text[0] == hex_digit(id_digit(id, 0)));
    assert(unsigned_part(text) == text);
    assert(digits_value(text) == Some(id));
    lemma_no_hyphen_in_id(id, 32);
    assert(without_hyphens(text) == text);
}

/// The text of an identifier holds no hyphen, so that taking hyphens out changes
/// nothing.
pub proof fn lemma_no_hyphen_in_id(id: u128, k: nat)
    requires
        k <= 32,
    ensures
        without_hyphens(id_text(id).take(k as int)) == id_text(id).take(k as int),
    decreases k,
{
    let text = id_text(id);
    if k == 0 {
        assert(text.take(0) =~= Seq::<char>::empty());
    } else {
        let j = (k - 1) as nat;
        lemma_no_hyphen_in_id(id, j);
        assert(text.take(k as int).drop_last() =~= text.take(j as int));
        lemma_hex_digit_value(id_digit(id, j as int));
        assert(text.take(k as int).last() == hex_digit(id_digit(id, j as int)));
        assert(text.take(j as int).push(text.take(k as int).last()) =~= text.take(k as int));
    }
    if k == 32 {
        assert(text.take(32) =~= text);
    }
}


/// Digits are written in the order of their values.
pub proof fn lemma_hex_digit_order(c: nat, d: nat)
    requires
        c < d < 16,
    ensures
        (hex_digit(c) as nat) < (hex_digit(d) as nat),
{
}

/// The first `k` digits of a smaller identifier never write a larger number.
pub proof fn lemma_leading_monotone(a: u128, b: u128, k: nat)
    requires
        a <= b,
        k <= 32,
    ensures
        leading_value(a, k) <= leading_value(b, k),
{
    lemma_pow16_positive((32 - k) as nat);
    vstd::arithmetic::div_mod::lemma_div_is_ordered(
        a as int,
        b as int,
        pow16((32 - k) as nat) as int,
    );
}

proof fn lemma_first_difference(a: u128, b: u128, k: nat)
    requires
        a < b,
        k <= 32,
        leading_value(a, k) == leading_value(b, k),
        id_text(a).take(k as int) == id_text(b).take(k as int),
    ensures
        text_before(id_text(a), id_text(b)),
    decreases 32 - k,
{
    let s = id_text(a);
    let t = id_text(b);
    if k == 32 {
        assert(pow16(0) == 1);
        assert((a as nat) / 1 == a as nat);
        assert((b as nat) / 1 == b as nat);
        assert(false);
    } else {
        lemma_leading_step(a, k);
        lemma_leading_step(b, k);
        lemma_leading_monotone(a, b, k + 1);
        let c = id_digit(a, k as int);
        let d = id_digit(b, k as int);
        if c == d {
            assert(s.take((k + 1) as int) =~= s.take(k as int).push(s[k as int]));
            assert(t.take((k + 1) as int) =~= t.take(k as int).push(t[k as int]));
            lemma_first_difference(a, b, k + 1);
        } else {
            lemma_hex_digit_order(c, d);
            assert(s[k as int] == hex_digit(c));
            assert(t[k as int] == hex_digit(d));
        }
    }
}

/// Dictionary order never holds both ways round.
pub proof fn lemma_text_before_asymmetric(s: Seq<char>, t: Seq<char>)
    requires
        text_before(s, t),
    ensures
        !text_before(t, s),
{
    if text_before(t, s) {
        if s.len() < t.len() && s == t.take(s.len() as int) {
            let k = choose|k: int|
                0 <= k < t.len() && k < s.len() && t.take(k) == s.take(k) && (t[k] as nat) < (
                s[k] as nat);
            assert(s[k] == t.take(s.len() as int)[k]);
        } else if t.len() < s.len() && t == s.take(t.len() as int) {
            let k = choose|k: int|
                0 <= k < s.len() && k < t.len() && s.take(k) == t.take(k) && (s[k] as nat) < (
                t[k] as nat);
            assert(t[k] == s.take(t.len() as int)[k]);
        } else {
            let i = choose|k: int|
                0 <= k < s.len() && k < t.len() && s.take(k) == t.take(k) && (s[k] as nat) < (
                t[k] as nat);
            let j = choose|k: int|
                0 <= k < t.len() && k < s.len() && t.take(k) == s.take(k) && (t[k] as nat) < (
                s[k] as nat);
            if i < j {
                assert(t.take(j)[i] == s.take(j)[i]);
            } else if j < i {
                assert(s.take(i)[j] == t.take(i)[j]);
            }
        }
    }
}

/// The texts of two identifiers stand in dictionary order exactly as the
/// identifiers stand in numeric order.
pub proof fn lemma_id_text_order(a: u128, b: u128)
    ensures
        a < b <==> text_before(id_text(a), id_text(b)),
{
    if a < b {
        lemma_pow16_32();
        lemma_basic_div(a as int, pow16(32) as int);
        lemma_basic_div(b as int, pow16(32) as int);
        assert(id_text(a).take(0) =~= id_text(b).take(0));
        lemma_first_difference(a, b, 0);
    } else if b < a {
        lemma_pow16_32();
        lemma_basic_div(a as int, pow16(32) as int);
        lemma_basic_div(b as int, pow16(32) as int);
        assert(id_text(b).take(0) =~= id_text(a).take(0));
        lemma_first_difference(b, a, 0);
        lemma_text_before_asymmetric(id_text(b), id_text(a));
    } else {
        let s = id_text(a);
        if text_before(s, s) {
            assert(s.take(s.len() as int) =~= s);
        }
    }
}


/// Does `id` carry the marks of a random identifier: version 4 and the standard
/// variant?
pub open spec fn is_random_id(id: u128) -> bool {
    id & 0x0000_0000_0000_f000_c000_0000_0000_0000 == 0x0000_0000_0000_4000_8000_0000_0000_0000
}

/// `uuid::Uuid::new_v4`, read as a big-endian number. The identifier is random but
/// for the six bits that mark its version and variant.
#[verifier::external_body]
pub fn new_id() -> (id: u128)
    ensures
        is_random_id(id),
{
    u128::from_be_bytes(*uuid::Uuid::new_v4().as_bytes())
}

} // verus!
