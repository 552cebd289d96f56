//! Byte strings in which every part can be told from what follows it.

use vstd::prelude::*;
#[allow(unused_imports)]
use vstd::utf8::{encode_utf8, encode_utf8_decode_utf8};

verus! {

/// The views of a list of strings.
pub open spec fn texts(strings: Seq<String>) -> Seq<Seq<char>> {
    strings.map_values(|s: String| s@)
}

/// A length as bytes: seven bits in each, the lowest first, and the top bit in
/// all but the last.
pub open spec fn length_code(length: nat) -> Seq<u8>
    decreases length,
{
    if length < 128 {
        seq![length as u8]
    } else {
        seq![(128 + length % 128) as u8] + length_code(length / 128)
    }
}

/// Bytes with their length before them.
pub open spec fn framed(bytes: Seq<u8>) -> Seq<u8> {
    length_code(bytes.len()) + bytes
}

/// A text with its length before it.
pub open spec fn framed_text(text: Seq<char>) -> Seq<u8> {
    framed(encode_utf8(text))
}

/// A text, or a mark that it is absent.
pub open spec fn optional(text: Option<Seq<char>>) -> Seq<u8> {
    match text {
        Some(text) => seq![1u8] + framed_text(text),
        None => seq![0u8],
    }
}

/// Texts one after another.
pub open spec fn framed_all(fields: Seq<Seq<char>>) -> Seq<u8>
    decreases fields.len(),
{
    if fields.len() == 0 {
        Seq::empty()
    } else {
        framed_text(fields[0]) + framed_all(fields.drop_first())
    }
}

/// Texts one after another, with their number before them.
pub open spec fn counted(fields: Seq<Seq<char>>) -> Seq<u8> {
    length_code(fields.len()) + framed_all(fields)
}

fn append_length(payload: &mut Vec<u8>, length: usize)
    ensures
        final(payload)@ == old(payload)@ + length_code(length as nat),
{
    let ghost before = payload@;
    let mut rest: usize = length;
    while rest >= 128
        invariant
            payload@ + length_code(rest as nat) == before + length_code(length as nat),
        decreases rest,
    {
        let ghost written = payload@;
        payload.push((128 + rest % 128) as u8);
        proof {
            assert(payload@ + length_code((rest / 128) as nat) =~= written + length_code(
                rest as nat,
            ));
        }
        rest = rest / 128;
    }
    payload.push(rest as u8);
    proof {
        assert(payload@ =~= before + length_code(length as nat));
    }
}

/// Appends bytes with their length before them.
pub fn append_framed(payload: &mut Vec<u8>, bytes: &[u8])
    ensures
        final(payload)@ == old(payload)@ + framed(bytes@),
{
    append_length(payload, bytes.len());
    payload.extend_from_slice(bytes);
    proof {
        assert(payload@ =~= old(payload)@ + framed(bytes@));
    }
}

/// Appends a text, or a mark that it is absent.
pub fn append_optional(payload: &mut Vec<u8>, text: Option<&str>)
    ensures
        final(payload)@ == old(payload)@ + optional(
            match text {
                Some(text) => Some(text@),
                None => None,
            },
        ),
{
    match text {
        Some(text) => {
            payload.push(1);
            append_framed(payload, text.as_bytes());
            proof {
                assert(payload@ =~= old(payload)@ + optional(Some(text@)));
            }
        },
        None => {
            payload.push(0);
            proof {
                assert(payload@ =~= old(payload)@ + optional(None));
            }
        },
    }
}

/// Appends texts with their number before them.
pub fn append_texts(payload: &mut Vec<u8>, strings: &Vec<String>)
    ensures
        final(payload)@ == old(payload)@ + counted(texts(strings@)),
{
    let ghost fields = texts(strings@);
    append_length(payload, strings.len());
    let ghost goal = payload@ + framed_all(fields);
    let mut i: usize = 0;
    proof {
        assert(fields.skip(0) =~= fields);
    }
    while i < strings.len()
        invariant
            i <= strings@.len(),
            fields == texts(strings@),
            payload@ + framed_all(fields.skip(i as int)) == goal,
        decreases strings@.len() - i,
    {
        let ghost written = payload@;
        append_framed(payload, strings[i].as_str().as_bytes());
        proof {
            let rest = fields.skip(i as int);
            assert(rest[0] == strings@[i as int]@);
            assert(rest.drop_first() =~= fields.skip(i + 1));
            assert(payload@ + framed_all(fields.skip(i + 1)) =~= written + framed_all(rest));
        }
        i = i + 1;
    }
    proof {
        assert(payload@ + framed_all(fields.skip(i as int)) =~= payload@);
        assert(payload@ =~= old(payload)@ + counted(fields));
    }
}

/// Where two byte strings agree, so do their beginnings of one length, and what
/// follows these.
pub proof fn lemma_same_prefix(a: Seq<u8>, x: Seq<u8>, b: Seq<u8>, y: Seq<u8>)
    requires
        a.len() == b.len(),
        a + x == b + y,
    ensures
        a == b,
        x == y,
{
    assert(a =~= (a + x).take(a.len() as int));
    assert(b =~= (b + y).take(a.len() as int));
    assert(x =~= (a + x).skip(a.len() as int));
    assert(y =~= (b + y).skip(a.len() as int));
}

/// A length can be told from what follows it.
proof fn lemma_length(a: nat, x: Seq<u8>, b: nat, y: Seq<u8>)
    requires
        length_code(a) + x == length_code(b) + y,
    ensures
        a == b,
        x == y,
    decreases a,
{
    assert((length_code(a) + x)[0] == length_code(a)[0]);
    assert((length_code(b) + y)[0] == length_code(b)[0]);
    if a < 128 || b < 128 {
        lemma_same_prefix(length_code(a), x, length_code(b), y);
    } else {
        let (head_a, head_b) = (seq![(128 + a % 128) as u8], seq![(128 + b % 128) as u8]);
        assert(length_code(a) + x =~= head_a + (length_code(a / 128) + x));
        assert(length_code(b) + y =~= head_b + (length_code(b / 128) + y));
        lemma_same_prefix(
            head_a,
            length_code(a / 128) + x,
            head_b,
            length_code(b / 128) + y,
        );
        lemma_length(a / 128, x, b / 128, y);
    }
}

/// Framed bytes can be told from what follows them.
pub proof fn lemma_framed(a: Seq<u8>, x: Seq<u8>, b: Seq<u8>, y: Seq<u8>)
    requires
        framed(a) + x == framed(b) + y,
    ensures
        a == b,
        x == y,
{
    assert(framed(a) + x =~= length_code(a.len()) + (a + x));
    assert(framed(b) + y =~= length_code(b.len()) + (b + y));
    lemma_length(a.len(), a + x, b.len(), b + y);
    lemma_same_prefix(a, x, b, y);
}

/// A framed text can be told from what follows it.
pub proof fn lemma_framed_text(a: Seq<char>, x: Seq<u8>, b: Seq<char>, y: Seq<u8>)
    requires
        framed_text(a) + x == framed_text(b) + y,
    ensures
        a == b,
        x == y,
{
    lemma_framed(encode_utf8(a), x, encode_utf8(b), y);
    encode_utf8_decode_utf8(a);
    encode_utf8_decode_utf8(b);
}

/// A text that may be absent can be told from what follows it.
pub proof fn lemma_optional(
    a: Option<Seq<char>>,
    x: Seq<u8>,
    b: Option<Seq<char>>,
    y: Seq<u8>,
)
    requires
        optional(a) + x == optional(b) + y,
    ensures
        a == b,
        x == y,
{
    assert((optional(a) + x)[0] == optional(a)[0]);
    assert((optional(b) + y)[0] == optional(b)[0]);
    match (a, b) {
        (Some(s), Some(t)) => {
            assert(optional(a) + x =~= seq![1u8] + (framed_text(s) + x));
            assert(optional(b) + y =~= seq![1u8] + (framed_text(t) + y));
            lemma_same_prefix(seq![1u8], framed_text(s) + x, seq![1u8], framed_text(t) + y);
            lemma_framed_text(s, x, t, y);
        },
        (None, None) => {
            lemma_same_prefix(seq![0u8], x, seq![0u8], y);
        },
        _ => {},
    }
}

/// Counted texts can be told from what follows them.
pub proof fn lemma_counted(
    a: Seq<Seq<char>>,
    x: Seq<u8>,
    b: Seq<Seq<char>>,
    y: Seq<u8>,
)
    requires
        counted(a) + x == counted(b) + y,
    ensures
        a == b,
        x == y,
{
    assert(counted(a) + x =~= length_code(a.len()) + (framed_all(a) + x));
    assert(counted(b) + y =~= length_code(b.len()) + (framed_all(b) + y));
    lemma_length(a.len(), framed_all(a) + x, b.len(), framed_all(b) + y);
    lemma_framed_all(a, x, b, y);
}

proof fn lemma_framed_all(a: Seq<Seq<char>>, x: Seq<u8>, b: Seq<Seq<char>>, y: Seq<u8>)
    requires
        a.len() == b.len(),
        framed_all(a) + x == framed_all(b) + y,
    ensures
        a == b,
        x == y,
    decreases a.len(),
{
    if a.len() == 0 {
        assert(a =~= b);
        assert(framed_all(a) + x =~= x);
        assert(framed_all(b) + y =~= y);
    } else {
        let (rest_a, rest_b) = (a.drop_first(), b.drop_first());
        assert(framed_all(a) + x =~= framed_text(a[0]) + (framed_all(rest_a) + x));
        assert(framed_all(b) + y =~= framed_text(b[0]) + (framed_all(rest_b) + y));
        lemma_framed_text(a[0], framed_all(rest_a) + x, b[0], framed_all(rest_b) + y);
        lemma_framed_all(rest_a, x, rest_b, y);
        assert(a =~= seq![a[0]] + rest_a);
        assert(b =~= seq![b[0]] + rest_b);
    }
}

} // verus!
