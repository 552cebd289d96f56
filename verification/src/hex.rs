//! Lowercase hexadecimal text and big-endian byte order.

use vstd::prelude::*;

verus! {

/// The lowercase digit of a value below sixteen.
pub open spec fn hex_digit(nibble: int) -> char {
    if nibble < 10 {
        ('0' as int + nibble) as char
    } else {
        ('a' as int + nibble - 10) as char
    }
}

/// Two digits for each byte, the high one first.
pub open spec fn hex_text(bytes: Seq<u8>) -> Seq<char> {
    Seq::new(
        2 * bytes.len(),
        |i: int|
            if i % 2 == 0 {
                hex_digit(bytes[i / 2] as int / 16)
            } else {
                hex_digit(bytes[i / 2] as int % 16)
            },
    )
}

/// The `width` low bytes of `value`, the most significant first.
pub open spec fn be_bytes(value: nat, width: nat) -> Seq<u8>
    decreases width,
{
    if width == 0 {
        Seq::empty()
    } else {
        be_bytes(value / 256, (width - 1) as nat).push((value % 256) as u8)
    }
}

/// Whether a character is a lowercase digit.
pub open spec fn is_lower_digit(c: char) -> bool {
    '0' <= c <= '9' || 'a' <= c <= 'f'
}

/// The value of a lowercase digit.
pub open spec fn digit_value(c: char) -> int {
    if '0' <= c <= '9' {
        c as int - '0' as int
    } else {
        c as int - 'a' as int + 10
    }
}

/// The bytes that a text of lowercase digits stands for, two digits for each,
/// the high one first.
pub open spec fn hex_bytes(text: Seq<char>) -> Seq<u8> {
    Seq::new(
        text.len() / 2,
        |i: int| (16 * digit_value(text[2 * i]) + digit_value(text[2 * i + 1])) as u8,
    )
}

fn digit_text(nibble: u8) -> (text: &'static str)
    requires
        nibble < 16,
    ensures
        text@ == seq![hex_digit(nibble as int)],
{
    proof {
        reveal_strlit("0");
        reveal_strlit("1");
        reveal_strlit("2");
        reveal_strlit("3");
        reveal_strlit("4");
        reveal_strlit("5");
        reveal_strlit("6");
        reveal_strlit("7");
        reveal_strlit("8");
        reveal_strlit("9");
        reveal_strlit("a");
        reveal_strlit("b");
        reveal_strlit("c");
        reveal_strlit("d");
        reveal_strlit("e");
        reveal_strlit("f");
    }
    match nibble {
        0 => "0",
        1 => "1",
        2 => "2",
        3 => "3",
        4 => "4",
        5 => "5",
        6 => "6",
        7 => "7",
        8 => "8",
        9 => "9",
        10 => "a",
        11 => "b",
        12 => "c",
        13 => "d",
        14 => "e",
        _ => "f",
    }
}

/// Writes bytes as lowercase hexadecimal text.
pub fn hex_string(bytes: &[u8]) -> (text: String)
    ensures
        text@ == hex_text(bytes@),
{
    let mut text: String = String::new();
    let mut i: usize = 0;
    while i < bytes.len()
        invariant
            i <= bytes@.len(),
            text@ == hex_text(bytes@.take(i as int)),
        decreases bytes@.len() - i,
    {
        let byte: u8 = bytes[i];
        text.append(digit_text(byte / 16));
        text.append(digit_text(byte % 16));
        proof {
            let next = bytes@.take(i + 1);
            assert forall|j: int| 0 <= j < text@.len() implies text@[j] == hex_text(next)[j] by {
                if j < 2 * i {
                    assert(bytes@.take(i as int)[j / 2] == next[j / 2]);
                }
            }
        }
        i = i + 1;
    }
    proof {
        assert(bytes@.take(i as int) =~= bytes@);
    }
    text
}

/// The value of a lowercase digit in ASCII.
fn read_digit(byte: u8) -> (value: Option<u8>)
    requires
        byte < 128,
    ensures
        value is Some <==> is_lower_digit(byte as char),
        value matches Some(value) ==> value == digit_value(byte as char) && value < 16,
{
    if 48 <= byte && byte <= 57 {
        Some(byte - 48)
    } else if 97 <= byte && byte <= 102 {
        Some(byte - 87)
    } else {
        None
    }
}

/// Reads two lowercase digits in ASCII as one byte.
pub fn read_pair(high: u8, low: u8) -> (value: Option<u8>)
    requires
        high < 128,
        low < 128,
    ensures
        value is Some <==> is_lower_digit(high as char) && is_lower_digit(low as char),
        value matches Some(value) ==> value == 16 * digit_value(high as char) + digit_value(
            low as char,
        ),
{
    match (read_digit(high), read_digit(low)) {
        (Some(h), Some(l)) => Some(16 * h + l),
        _ => None,
    }
}

/// Writes the `width` low bytes of a number at `start`, the most significant
/// first.
pub fn put_be<const N: usize>(bytes: &mut [u8; N], start: usize, width: usize, value: u64)
    requires
        start + width <= N,
    ensures
        final(bytes)@ == old(bytes)@.take(start as int) + be_bytes(value as nat, width as nat) + old(
            bytes,
        )@.skip(start + width),
{
    let ghost before = bytes@;
    let mut rest: u64 = value;
    let mut i: usize = width;
    while i > 0
        invariant
            i <= width,
            start + width <= N,
            before.len() == N,
            bytes@ =~= before.take(start + i) + bytes@.skip(start + i),
            before.take(start as int) + be_bytes(value as nat, width as nat) + before.skip(start + width)
                == before.take(start as int) + be_bytes(rest as nat, i as nat) + bytes@.skip(start + i),
        decreases i,
    {
        let ghost tail = bytes@.skip(start + i);
        i = i - 1;
        let byte: u8 = (rest % 256) as u8;
        bytes[start + i] = byte;
        proof {
            assert(bytes@.skip(start + i) =~= seq![byte] + tail);
            assert(be_bytes(rest as nat, (i + 1) as nat) == be_bytes(
                (rest / 256) as nat,
                i as nat,
            ).push(byte));
            assert(before.take(start as int) + be_bytes((rest / 256) as nat, i as nat).push(byte) + tail
                =~= before.take(start as int) + be_bytes((rest / 256) as nat, i as nat) + bytes@.skip(
                start + i,
            ));
        }
        rest = rest / 256;
    }
    proof {
        assert(before.take(start as int) + be_bytes(rest as nat, 0) + bytes@.skip(start as int)
            =~= bytes@);
    }
}

/// Whether a text holds lowercase digits alone.
pub open spec fn is_lower_hex(text: Seq<char>) -> bool {
    forall|i: int| 0 <= i < text.len() ==> is_lower_digit(#[trigger] text[i])
}

/// The two digits of a byte stand for that byte.
pub proof fn lemma_pair_of_digits(byte: u8)
    ensures
        is_lower_digit(hex_digit(byte as int / 16)),
        is_lower_digit(hex_digit(byte as int % 16)),
        16 * digit_value(hex_digit(byte as int / 16)) + digit_value(hex_digit(byte as int % 16))
            == byte,
{
}

/// To read the text of bytes gives the bytes back.
pub proof fn lemma_bytes_of_text(bytes: Seq<u8>)
    ensures
        hex_bytes(hex_text(bytes)) == bytes,
{
    assert forall|i: int| 0 <= i < bytes.len() implies hex_bytes(hex_text(bytes))[i]
        == bytes[i] by {
        lemma_pair_of_digits(bytes[i]);
    }
    assert(hex_bytes(hex_text(bytes)) =~= bytes);
}

/// To write the bytes of a text of lowercase digits gives the text back.
pub proof fn lemma_text_of_bytes(text: Seq<char>)
    requires
        text.len() % 2 == 0,
        is_lower_hex(text),
    ensures
        hex_text(hex_bytes(text)) == text,
{
    let bytes = hex_bytes(text);
    assert forall|j: int| 0 <= j < text.len() implies hex_text(bytes)[j] == text[j] by {
        let i = j / 2;
        assert(is_lower_digit(text[2 * i]) && is_lower_digit(text[2 * i + 1]));
        assert(bytes[i] == 16 * digit_value(text[2 * i]) + digit_value(text[2 * i + 1]));
    }
    assert(hex_text(bytes) =~= text);
}

/// Hexadecimal text holds lowercase digits, and no two byte sequences share
/// one.
pub proof fn lemma_hex_text(a: Seq<u8>, b: Seq<u8>)
    ensures
        is_lower_hex(hex_text(a)),
        hex_text(a).len() == 2 * a.len(),
        hex_text(a) == hex_text(b) ==> a == b,
{
    lemma_bytes_of_text(a);
    lemma_bytes_of_text(b);
}

/// Two numbers that fit into `width` bytes and have the same bytes are equal.
pub proof fn lemma_be_bytes_injective(a: nat, b: nat, width: nat)
    requires
        a < vstd::arithmetic::power::pow(256, width),
        b < vstd::arithmetic::power::pow(256, width),
        be_bytes(a, width) == be_bytes(b, width),
    ensures
        a == b,
    decreases width,
{
    vstd::arithmetic::power::lemma_pow0(256);
    if width > 0 {
        let w = (width - 1) as nat;
        let pa = be_bytes(a / 256, w);
        let pb = be_bytes(b / 256, w);
        assert(pa.push((a % 256) as u8).drop_last() =~= pa);
        assert(pb.push((b % 256) as u8).drop_last() =~= pb);
        assert(pa.push((a % 256) as u8).last() == pb.push((b % 256) as u8).last());
        reveal(vstd::arithmetic::power::pow);
        assert(vstd::arithmetic::power::pow(256, width) == 256 * vstd::arithmetic::power::pow(256, w));
        lemma_be_bytes_injective(a / 256, b / 256, w);
    }
}

pub proof fn lemma_be_bytes_len(value: nat, width: nat)
    ensures
        be_bytes(value, width).len() == width,
    decreases width,
{
    if width > 0 {
        lemma_be_bytes_len(value / 256, (width - 1) as nat);
    }
}

} // verus!
