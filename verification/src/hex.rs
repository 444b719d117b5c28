//! Hexadecimal text for byte strings.

use vstd::prelude::*;
use vstd::utf8::*;
use crate::text;

verus! {

/// The two hexadecimal digits of each byte, in lower case.
pub open spec fn hex_text(data: Seq<u8>) -> Seq<char> {
    Seq::new(
        2 * data.len(),
        |i: int|
            if i % 2 == 0 {
                text::digit_char((data[i / 2] / 16) as nat)
            } else {
                text::digit_char((data[i / 2] % 16) as nat)
            },
    )
}

/// The value of a hexadecimal digit of either case, if the byte is one.
pub open spec fn digit_value(b: u8) -> Option<u8> {
    if 0x30 <= b <= 0x39 {
        Some((b - 0x30) as u8)
    } else if 0x61 <= b <= 0x66 {
        Some((b - 0x61 + 10) as u8)
    } else if 0x41 <= b <= 0x46 {
        Some((b - 0x41 + 10) as u8)
    } else {
        None
    }
}

/// The byte that two digits stand for.
pub open spec fn pair_value(hi: u8, lo: u8) -> Option<u8> {
    match (digit_value(hi), digit_value(lo)) {
        (Some(h), Some(l)) => Some((16 * h + l) as u8),
        _ => None,
    }
}

/// Whether every pair of bytes of `s` stands for a byte.
pub open spec fn is_hex(s: Seq<u8>) -> bool {
    &&& s.len() % 2 == 0
    &&& forall|i: int| 0 <= i < s.len() / 2 ==> (#[trigger] pair_at(s, i)) is Some
}

/// The byte that pair number `i` of `s` stands for.
pub open spec fn pair_at(s: Seq<u8>, i: int) -> Option<u8> {
    pair_value(s[2 * i], s[2 * i + 1])
}

/// The bytes that a hexadecimal text stands for.
pub open spec fn unhexed(digits: Seq<char>) -> Option<Seq<u8>> {
    let s = encode_utf8(digits);
    if is_hex(s) {
        Some(Seq::new((s.len() / 2) as nat, |i: int| pair_at(s, i)->Some_0))
    } else {
        None
    }
}

/// The bytes that a hexadecimal text of 32 bytes stands for.
pub open spec fn unhexed32(digits: Seq<char>) -> Option<Seq<u8>> {
    if encode_utf8(digits).len() == 64 {
        unhexed(digits)
    } else {
        None
    }
}

/// Reading back what `hex` wrote gives the bytes.
pub proof fn unhex_of_hex(data: Seq<u8>)
    ensures
        unhexed(hex_text(data)) == Some(data),
        data.len() == 32 ==> unhexed32(hex_text(data)) == Some(data),
{
    let digits = hex_text(data);
    let s = encode_utf8(digits);
    assert(is_ascii_chars(digits));
    is_ascii_chars_encode_utf8(digits);
    assert forall|i: int| 0 <= i < s.len() / 2 implies (#[trigger] pair_at(s, i)) == Some(
        data[i],
    ) by {
        assert(s[2 * i] == digits[2 * i] as u8);
        assert(s[2 * i + 1] == digits[2 * i + 1] as u8);
        assert((2 * i) / 2 == i && (2 * i) % 2 == 0);
        assert((2 * i + 1) / 2 == i && (2 * i + 1) % 2 == 1);
    }
    assert(Seq::new((s.len() / 2) as nat, |i: int| pair_at(s, i)->Some_0) =~= data);
}

/// Different byte strings have different hexadecimal texts.
pub proof fn hex_injective(a: Seq<u8>, b: Seq<u8>)
    requires
        hex_text(a) == hex_text(b),
    ensures
        a == b,
{
    unhex_of_hex(a);
    unhex_of_hex(b);
}

/// The hexadecimal text of a byte string.
pub fn hex(data: &[u8]) -> (out: String)
    ensures
        out@ == hex_text(data@),
{
    let mut out: String = String::new();
    let mut i: usize = 0;
    while i < data.len()
        invariant
            i <= data@.len(),
            out@ == hex_text(data@.take(i as int)),
        decreases data@.len() - i,
    {
        let ghost before = out@;
        let b: u8 = data[i];
        out.append(text::digit_str(b / 16));
        out.append(text::digit_str(b % 16));
        i = i + 1;
        proof {
            let next = hex_text(data@.take(i as int));
            assert forall|k: int| 0 <= k < next.len() implies next[k] == out@[k] by {
                if k < before.len() {
                    assert(k / 2 < i - 1);
                } else {
                    assert(k / 2 == i - 1);
                }
            }
            assert(out@ =~= next);
        }
    }
    assert(data@.take(data@.len() as int) =~= data@);
    out
}

fn digit_of(b: u8) -> (out: Option<u8>)
    ensures
        out == digit_value(b),
{
    if 0x30 <= b && b <= 0x39 {
        Some(b - 0x30)
    } else if 0x61 <= b && b <= 0x66 {
        Some(b - 0x61 + 10)
    } else if 0x41 <= b && b <= 0x46 {
        Some(b - 0x41 + 10)
    } else {
        None
    }
}

fn pair_of(hi: u8, lo: u8) -> (out: Option<u8>)
    ensures
        out == pair_value(hi, lo),
{
    match (digit_of(hi), digit_of(lo)) {
        (Some(h), Some(l)) => Some(16 * h + l),
        _ => None,
    }
}

/// The bytes that a hexadecimal text stands for; `None` when its length is odd
/// or a character of it is no digit.
pub fn unhex(digits: &str) -> (out: Option<Vec<u8>>)
    ensures
        match out {
            Some(v) => unhexed(digits@) == Some(v@),
            None => unhexed(digits@) is None,
        },
{
    let s: &[u8] = digits.as_bytes();
    if s.len() % 2 != 0 {
        return None;
    }
    let mut out: Vec<u8> = Vec::new();
    let mut i: usize = 0;
    let half: usize = s.len() / 2;
    while i < half
        invariant
            i <= half,
            s@ == encode_utf8(digits@),
            s@.len() == 2 * half,
            s@.len() <= usize::MAX,
            out@.len() == i,
            forall|k: int| 0 <= k < i ==> #[trigger] pair_at(s@, k) == Some(out@[k]),
        decreases half - i,
    {
        match pair_of(s[2 * i], s[2 * i + 1]) {
            Some(b) => {
                assert(pair_at(s@, i as int) == Some(b));
                out.push(b);
            },
            None => {
                assert(pair_at(s@, i as int) is None);
                return None;
            },
        }
        i = i + 1;
    }
    assert(out@ =~= Seq::new((s@.len() / 2) as nat, |i: int| pair_at(s@, i)->Some_0));
    Some(out)
}

/// The bytes of a vector of 32 as an array.
pub(crate) fn to_array32(v: &[u8]) -> (out: [u8; 32])
    requires
        v@.len() == 32,
    ensures
        out@ == v@,
{
    let mut out: [u8; 32] = [0u8;32];
    let mut i: usize = 0;
    while i < 32
        invariant
            i <= 32,
            v@.len() == 32,
            forall|k: int| 0 <= k < i ==> out@[k] == v@[k],
        decreases 32 - i,
    {
        out[i] = v[i];
        i = i + 1;
    }
    assert(out@ =~= v@);
    out
}

/// The 32 bytes that a hexadecimal text stands for; `None` when its length or
/// a character of it is wrong.
pub fn unhex32(digits: &str) -> (out: Option<[u8; 32]>)
    ensures
        match out {
            Some(v) => unhexed32(digits@) == Some(v@),
            None => unhexed32(digits@) is None,
        },
{
    if digits.as_bytes().len() != 64 {
        return None;
    }
    match unhex(digits) {
        Some(v) => Some(to_array32(v.as_slice())),
        None => None,
    }
}

/// The text of a byte string is two characters for each byte: the digit of its high
/// half, then that of its low half, each one of 0 to 9 or a to f.
pub proof fn two_digits_for_each_byte(data: &[u8], out: String, i: int)
    requires
        call_ensures(hex, (data,), out),
        0 <= i < data@.len(),
    ensures
        out@.len() == 2 * data@.len(),
        ({
            let high = (data@[i] / 16) as int;
            let low = (data@[i] % 16) as int;
            &&& out@[2 * i] as int == if high < 10 {
                '0' as int + high
            } else {
                'a' as int + high - 10
            }
            &&& out@[2 * i + 1] as int == if low < 10 {
                '0' as int + low
            } else {
                'a' as int + low - 10
            }
        }),
{
    assert((2 * i) / 2 == i && (2 * i) % 2 == 0);
    assert((2 * i + 1) / 2 == i && (2 * i + 1) % 2 == 1);
    text::digits_follow_each_other((data@[i] / 16) as nat);
    text::digits_follow_each_other((data@[i] % 16) as nat);
}

/// Whether a byte is the character of a hexadecimal digit of either case.
pub open spec fn is_digit_byte(b: u8) -> bool {
    '0' as int <= b <= '9' as int || 'a' as int <= b <= 'f' as int || 'A' as int <= b <= 'F' as int
}

/// A text is read where it has an even number of bytes and every byte is a digit, and
/// nowhere else. What comes out has one byte for each two digits.
pub proof fn digits_and_nothing_else_are_read(digits: Seq<char>)
    ensures
        unhexed(digits) is Some <==> encode_utf8(digits).len() % 2 == 0 && (forall|i: int|
            0 <= i < encode_utf8(digits).len() ==> is_digit_byte(#[trigger] encode_utf8(digits)[i])),
        unhexed(digits) matches Some(v) ==> 2 * v.len() == encode_utf8(digits).len(),
        unhexed32(digits) is Some <==> unhexed(digits) is Some && encode_utf8(digits).len() == 64,
        unhexed32(digits) is Some ==> unhexed32(digits) == unhexed(digits),
{
    let s = encode_utf8(digits);
    if is_hex(s) {
        assert forall|i: int| 0 <= i < s.len() implies is_digit_byte(#[trigger] s[i]) by {
            assert(pair_at(s, i / 2) is Some);
            assert(i == 2 * (i / 2) || i == 2 * (i / 2) + 1);
        }
    }
    if s.len() % 2 == 0 && (forall|i: int| 0 <= i < s.len() ==> is_digit_byte(#[trigger] s[i])) {
        assert forall|i: int| 0 <= i < s.len() / 2 implies (#[trigger] pair_at(s, i)) is Some by {
            assert(is_digit_byte(s[2 * i]));
            assert(is_digit_byte(s[2 * i + 1]));
        }
    }
}

/// A digit counts for its value, in either case, and of two the first counts sixteen
/// times.
pub proof fn digits_have_their_values(b: u8, high: u8, low: u8)
    ensures
        digit_value(b) is Some <==> is_digit_byte(b),
        '0' as int <= b <= '9' as int ==> digit_value(b) == Some((b - '0' as int) as u8),
        'a' as int <= b <= 'f' as int ==> digit_value(b) == Some((b - 'a' as int + 10) as u8),
        'A' as int <= b <= 'F' as int ==> digit_value(b) == Some((b - 'A' as int + 10) as u8),
        is_digit_byte(high) && is_digit_byte(low) ==> pair_value(high, low) == Some(
            (16 * digit_value(high)->Some_0 + digit_value(low)->Some_0) as u8,
        ),
{
}

/// The bytes of a text that is read are those of its pairs of digits, in their order.
pub proof fn pairs_are_read_in_order(digits: Seq<char>, v: Seq<u8>, i: int)
    requires
        unhexed(digits) == Some(v),
        0 <= i < v.len(),
    ensures
        pair_value(encode_utf8(digits)[2 * i], encode_utf8(digits)[2 * i + 1]) == Some(v[i]),
{
    assert(pair_at(encode_utf8(digits), i) is Some);
}

/// Reading what was written gives the bytes back, and what is read is what the digits stand
/// for; a key is read from 64 digits only.
pub proof fn written_bytes_are_read_back(
    data: &[u8],
    text: String,
    digits: &str,
    out: Option<Vec<u8>>,
    key: Option<[u8; 32]>,
)
    requires
        call_ensures(hex, (data,), text),
        call_ensures(unhex, (digits,), out),
        call_ensures(unhex32, (digits,), key),
    ensures
        digits@ == text@ ==> (out matches Some(v) && v@ == data@),
        digits@ == text@ && data@.len() == 32 ==> (key matches Some(k) && k@ == data@),
        key is Some <==> out is Some && encode_utf8(digits@).len() == 64,
        key matches Some(k) ==> k@ == out->Some_0@,
        out is Some <==> encode_utf8(digits@).len() % 2 == 0 && (forall|i: int|
            0 <= i < encode_utf8(digits@).len() ==> is_digit_byte(
                #[trigger] encode_utf8(digits@)[i],
            )),
{
    unhex_of_hex(data@);
    digits_and_nothing_else_are_read(digits@);
}

} // verus!
