//! Exact text for messages: decimal numbers, hexadecimal bytes and concatenation.

use vstd::prelude::*;
use vstd::string::*;
use vstd::utf8::*;

verus! {

/// The decimal digit `d`.
pub open spec fn digit_char(d: nat) -> char {
    (48 + d) as char
}

/// Decimal notation of `n`, without leading zeros.
pub open spec fn decimal(n: nat) -> Seq<char>
    decreases n,
{
    if n < 10 {
        seq![digit_char(n)]
    } else {
        decimal(n / 10).push(digit_char(n % 10))
    }
}

/// The lower-case hexadecimal digit for `d`.
pub open spec fn hex_char(d: u8) -> char {
    if d < 10 {
        (48 + d) as char
    } else {
        (87 + d) as char
    }
}

/// Lower-case hexadecimal notation: two digits per byte, the high half first.
pub open spec fn hex_text(bytes: Seq<u8>) -> Seq<char> {
    Seq::new(
        2 * bytes.len(),
        |i: int|
            if i % 2 == 0 {
                hex_char(bytes[i / 2] / 16)
            } else {
                hex_char(bytes[i / 2] % 16)
            },
    )
}

/// `hex::encode`: two lower-case hexadecimal digits for each byte, the high half first, in the
/// order of the bytes.
#[verifier::external_body]
pub(crate) fn hex_encode(bytes: &[u8]) -> (text: String)
    requires
        2 * bytes@.len() <= isize::MAX,
    ensures
        text@ == hex_text(bytes@),
{
    hex::encode(bytes)
}

/// `std::str::from_utf8`: the text that the bytes encode, exactly where they are valid UTF-8.
#[verifier::external_body]
pub(crate) fn utf8_text<'a>(bytes: &'a [u8]) -> (text: Option<&'a str>)
    ensures
        match text {
            Some(text) => valid_utf8(bytes@) && text@ == decode_utf8(bytes@),
            None => !valid_utf8(bytes@),
        },
{
    std::str::from_utf8(bytes).ok()
}

/// The literal for one decimal digit.
fn digit_literal(d: u64) -> (text: &'static str)
    requires
        d < 10,
    ensures
        text@ == seq![digit_char(d as nat)],
{
    proof {
        reveal_strlit("0");
        reveal_strlit("1");
        reveal_strlit("2");
        reveal_strlit("3");
        reveal_strlit("4");
        reveal_strlit("5");
        reveal_strlit("6");
        reveal_strlit("7");
        reveal_strlit("8");
        reveal_strlit("9");
    }
    let text = match d {
        0 => "0",
        1 => "1",
        2 => "2",
        3 => "3",
        4 => "4",
        5 => "5",
        6 => "6",
        7 => "7",
        8 => "8",
        _ => "9",
    };
    assert(text@ =~= seq![digit_char(d as nat)]);
    text
}

/// Appends `n` in decimal.
pub fn push_decimal(out: &mut String, n: u64)
    ensures
        final(out)@ == old(out)@ + decimal(n as nat),
    decreases n,
{
    if n >= 10 {
        push_decimal(out, n / 10);
    }
    out.append(digit_literal(n % 10));
    assert(out@ =~= old(out)@ + decimal(n as nat));
}

/// `prefix`, then `n` in decimal, then `suffix`.
pub fn numbered(prefix: &str, n: u64, suffix: &str) -> (text: String)
    ensures
        text@ == prefix@ + decimal(n as nat) + suffix@,
{
    let mut text = String::from_str(prefix);
    push_decimal(&mut text, n);
    text.append(suffix);
    text
}

/// `prefix`, `a` in decimal, `middle`, `b` in decimal, `suffix`.
pub fn numbered_pair(prefix: &str, a: u64, middle: &str, b: u64, suffix: &str) -> (text: String)
    ensures
        text@ == prefix@ + decimal(a as nat) + middle@ + decimal(b as nat) + suffix@,
{
    let mut text = numbered(prefix, a, middle);
    push_decimal(&mut text, b);
    text.append(suffix);
    text
}

/// `prefix`, then `n` in decimal.
pub fn labelled(prefix: &str, n: u64) -> (text: String)
    ensures
        text@ == prefix@ + decimal(n as nat),
{
    let mut text = String::from_str(prefix);
    push_decimal(&mut text, n);
    text
}

/// `prefix`, `a` in decimal, `middle`, `b` in decimal.
pub fn labelled_pair(prefix: &str, a: u64, middle: &str, b: u64) -> (text: String)
    ensures
        text@ == prefix@ + decimal(a as nat) + middle@ + decimal(b as nat),
{
    let mut text = numbered(prefix, a, middle);
    push_decimal(&mut text, b);
    text
}

/// `prefix`, then `tail`.
pub fn prefixed(prefix: &str, tail: &str) -> (text: String)
    ensures
        text@ == prefix@ + tail@,
{
    let mut text = String::from_str(prefix);
    text.append(tail);
    text
}

/// `prefix`, `middle` and `suffix` in a row.
pub fn joined(prefix: &str, middle: &str, suffix: &str) -> (text: String)
    ensures
        text@ == prefix@ + middle@ + suffix@,
{
    let mut text = String::from_str(prefix);
    text.append(middle);
    text.append(suffix);
    text
}

/// The number that decimal digits stand for.
pub open spec fn decimal_value(text: Seq<char>) -> int
    decreases text.len(),
{
    if text.len() == 0 {
        0
    } else {
        10 * decimal_value(text.drop_last()) + (text.last() as int - '0' as int)
    }
}

/// A number is written in decimal digits that stand for it, without a leading zero.
pub proof fn decimal_reads_back(n: nat)
    ensures
        decimal_value(decimal(n)) == n,
        decimal(n).len() > 0,
        n > 0 ==> decimal(n)[0] != '0',
        forall|i: int|
            0 <= i < decimal(n).len() ==> 0x30 <= (#[trigger] decimal(n)[i]) as int <= 0x39,
    decreases n,
{
    if n < 10 {
        let text = seq![digit_char(n)];
        assert(text.drop_last() =~= Seq::<char>::empty());
        assert(decimal_value(text.drop_last()) == 0);
    } else {
        decimal_reads_back(n / 10);
        let front = decimal(n / 10);
        assert(front.push(digit_char(n % 10)).drop_last() =~= front);
    }
}

/// A byte is written in two lower-case hexadecimal digits that stand for it.
pub proof fn hex_digits_stand_for_their_byte(bytes: Seq<u8>, i: int)
    requires
        0 <= i < bytes.len(),
    ensures
        hex_text(bytes).len() == 2 * bytes.len(),
        ({
            let high = hex_text(bytes)[2 * i] as int;
            let low = hex_text(bytes)[2 * i + 1] as int;
            let value = |c: int|
                if c >= 0x61 {
                    c - 0x61 + 10
                } else {
                    c - 0x30
                };
            &&& 0x30 <= high <= 0x39 || 0x61 <= high <= 0x66
            &&& 0x30 <= low <= 0x39 || 0x61 <= low <= 0x66
            &&& value(high) * 16 + value(low) == bytes[i]
        }),
{
    let byte = bytes[i];
    assert(byte / 16 < 16 && byte % 16 < 16);
    assert((2 * i) / 2 == i && (2 * i + 1) / 2 == i);
}

} // verus!
