//! Operation identity.

use crate::hex::{hex_string, put_be, read_pair};
#[allow(unused_imports)]
use crate::hex::{
    be_bytes, hex_bytes, hex_text, is_lower_hex, lemma_be_bytes_injective, lemma_be_bytes_len,
    lemma_bytes_of_text, lemma_hex_text, lemma_text_of_bytes,
};
use vstd::prelude::*;

verus! {

/// Correlation, idempotency, and event-tracing identity of one control
/// request. It is not a lease, a session, or a lock: it never grants ownership
/// and never blocks another operation.
#[derive(Debug, Clone, Copy, PartialEq, Eq, Hash)]
pub struct OperationId([u8; 16]);

impl View for OperationId {
    type V = Seq<u8>;

    closed spec fn view(&self) -> Seq<u8> {
        self.0@
    }
}

/// A text that is not an operation id.
#[derive(Debug, Clone, Copy, PartialEq, Eq)]
pub struct ParseOperationIdError;

/// The bytes of an id made from a clock reading, a process, and a counter.
pub open spec fn generated_bytes(nanos: nat, process_id: nat, counter: nat) -> Seq<u8> {
    be_bytes(nanos % 0x1_0000_0000_0000_0000, 8) + be_bytes(process_id, 4) + be_bytes(counter, 4)
}

impl OperationId {
    pub fn from_bytes(bytes: [u8; 16]) -> (id: Self)
        ensures
            id@ == bytes@,
    {
        OperationId(bytes)
    }

    pub fn as_bytes(&self) -> (bytes: &[u8; 16])
        ensures
            bytes@ == self@,
    {
        &self.0
    }

    /// An id for local callers that do not carry their own.
    ///
    /// Uniqueness comes from the three arguments: the nanoseconds since the
    /// Unix epoch, of which the low eight bytes are kept, the process id, and
    /// a counter of the process. This is an identity for the bounded operation
    /// registry, not a cryptographic token.
    pub fn generate(nanos: u128, process_id: u32, counter: u32) -> (id: Self)
        ensures
            id@ == generated_bytes(nanos as nat, process_id as nat, counter as nat),
    {
        let low: u64 = (nanos % 0x1_0000_0000_0000_0000u128) as u64;
        let mut bytes: [u8; 16] = [0u8; 16];
        put_be(&mut bytes, 0, 8, low);
        put_be(&mut bytes, 8, 4, process_id as u64);
        put_be(&mut bytes, 12, 4, counter as u64);
        proof {
            lemma_be_bytes_len(low as nat, 8);
            lemma_be_bytes_len(process_id as nat, 4);
            lemma_be_bytes_len(counter as nat, 4);
            assert(bytes@ =~= generated_bytes(nanos as nat, process_id as nat, counter as nat));
        }
        OperationId(bytes)
    }

    /// The id as text: two lowercase hexadecimal digits for each byte.
    pub fn to_string(&self) -> (text: String)
        ensures
            text@ == hex_text(self@),
            text@.len() == 32,
    {
        hex_string(self.0.as_slice())
    }

    /// Reads an id from text: exactly thirty-two lowercase hexadecimal digits,
    /// which are then the text of the id.
    pub fn from_str(value: &str) -> (res: Result<Self, ParseOperationIdError>)
        ensures
            res is Ok <==> value@.len() == 32 && is_lower_hex(value@),
            res matches Ok(id) ==> id@ == hex_bytes(value@) && hex_text(id@) == value@,
    {
        if !value.is_ascii() {
            proof {
                if is_lower_hex(value@) {
                    assert forall|i: int| 0 <= i < value@.len() implies '\0' <= #[trigger] value@[i]
                        <= '\u{7f}' by {
                        assert(crate::hex::is_lower_digit(value@[i]));
                    }
                }
            }
            return Err(ParseOperationIdError);
        }
        proof {
            vstd::utf8::is_ascii_chars_encode_utf8(value@);
        }
        let text: &[u8] = value.as_bytes();
        if text.len() != 32 {
            return Err(ParseOperationIdError);
        }
        let mut bytes: [u8; 16] = [0u8; 16];
        let mut i: usize = 0;
        while i < 16
            invariant
                i <= 16,
                value@.len() == 32,
                text@.len() == 32,
                vstd::utf8::is_ascii_chars(value@),
                forall|j: int| 0 <= j < 32 ==> #[trigger] value@[j] as u8 == text@[j],
                forall|j: int| 0 <= j < 2 * i ==> crate::hex::is_lower_digit(#[trigger] value@[j]),
                forall|j: int| 0 <= j < i ==> #[trigger] bytes@[j] == hex_bytes(value@)[j],
            decreases 16 - i,
        {
            proof {
                assert('\0' <= value@[2 * i] <= '\u{7f}');
                assert('\0' <= value@[2 * i + 1] <= '\u{7f}');
            }
            match read_pair(text[2 * i], text[2 * i + 1]) {
                Some(byte) => {
                    bytes[i] = byte;
                },
                None => {
                    return Err(ParseOperationIdError);
                },
            }
            i = i + 1;
        }
        proof {
            assert(bytes@ =~= hex_bytes(value@));
            lemma_text_of_bytes(value@);
        }
        Ok(OperationId(bytes))
    }

    /// The id as a number, by which the registry finds an operation again.
    pub fn key(&self) -> (key: u128)
        ensures
            key == self.spec_key(),
    {
        vstd::bytes::u128_from_le_bytes(self.0.as_slice())
    }

    pub open spec fn spec_key(self) -> u128 {
        vstd::bytes::spec_u128_from_le_bytes(self@)
    }
}

impl ParseOperationIdError {
    pub fn to_string(&self) -> (text: String)
        ensures
            text@ == "an operation id is exactly 32 lowercase hex characters"@,
    {
        "an operation id is exactly 32 lowercase hex characters".to_owned()
    }
}

/// An id has sixteen bytes, and no two ids share them.
pub proof fn lemma_id_bytes(a: OperationId, b: OperationId)
    ensures
        a@.len() == 16,
        a@ == b@ ==> a == b,
{
    if a@ == b@ {
        assert forall|i: int| 0 <= i < 16 implies a.0[i] == b.0[i] by {
            assert(a.0@[i] == b.0@[i]);
        }
        assert(a.0 =~= b.0);
    }
}

/// Reading the text of an id gives the id back: the text is one that is read,
/// and it stands for the bytes of this id alone.
pub proof fn law_id_survives_its_text(id: OperationId, other: OperationId)
    ensures
        hex_text(id@).len() == 32,
        is_lower_hex(hex_text(id@)),
        hex_bytes(hex_text(id@)) == id@,
        hex_text(other@) == hex_text(id@) ==> other == id,
{
    lemma_id_bytes(id, other);
    lemma_hex_text(id@, other@);
    lemma_bytes_of_text(id@);
}

/// Thirty-two lowercase digits are the text of the id that they stand for.
pub proof fn law_canonical_text_survives_reading(text: Seq<char>)
    requires
        text.len() == 32,
        is_lower_hex(text),
    ensures
        hex_bytes(text).len() == 16,
        hex_text(hex_bytes(text)) == text,
{
    lemma_text_of_bytes(text);
}

/// Two generated ids are equal only where the kept part of the clock reading,
/// the process, and the counter all are.
pub proof fn law_generated_ids_differ(
    nanos: nat,
    process_id: u32,
    counter: u32,
    other_nanos: nat,
    other_process_id: u32,
    other_counter: u32,
)
    requires
        generated_bytes(nanos, process_id as nat, counter as nat) == generated_bytes(
            other_nanos,
            other_process_id as nat,
            other_counter as nat,
        ),
    ensures
        nanos % 0x1_0000_0000_0000_0000 == other_nanos % 0x1_0000_0000_0000_0000,
        process_id == other_process_id,
        counter == other_counter,
{
    let low = nanos % 0x1_0000_0000_0000_0000;
    let other_low = other_nanos % 0x1_0000_0000_0000_0000;
    let a = generated_bytes(nanos, process_id as nat, counter as nat);
    let b = generated_bytes(other_nanos, other_process_id as nat, other_counter as nat);
    lemma_be_bytes_len(low, 8);
    lemma_be_bytes_len(other_low, 8);
    lemma_be_bytes_len(process_id as nat, 4);
    lemma_be_bytes_len(other_process_id as nat, 4);
    lemma_be_bytes_len(counter as nat, 4);
    lemma_be_bytes_len(other_counter as nat, 4);
    assert(a.subrange(0, 8) =~= be_bytes(low, 8));
    assert(b.subrange(0, 8) =~= be_bytes(other_low, 8));
    assert(a.subrange(8, 12) =~= be_bytes(process_id as nat, 4));
    assert(b.subrange(8, 12) =~= be_bytes(other_process_id as nat, 4));
    assert(a.subrange(12, 16) =~= be_bytes(counter as nat, 4));
    assert(b.subrange(12, 16) =~= be_bytes(other_counter as nat, 4));
    assert(vstd::arithmetic::power::pow(256, 8) == 0x1_0000_0000_0000_0000
        && vstd::arithmetic::power::pow(256, 4) == 0x1_0000_0000) by {
        reveal_with_fuel(vstd::arithmetic::power::pow, 9);
    }
    lemma_be_bytes_injective(low, other_low, 8);
    lemma_be_bytes_injective(process_id as nat, other_process_id as nat, 4);
    lemma_be_bytes_injective(counter as nat, other_counter as nat, 4);
}

/// No two ids share a key.
pub proof fn lemma_key_injective(a: OperationId, b: OperationId)
    ensures
        a.spec_key() == b.spec_key() ==> a == b,
{
    vstd::bytes::lemma_auto_spec_u128_to_from_le_bytes();
    lemma_id_bytes(a, b);
    if a.spec_key() == b.spec_key() {
        assert(vstd::bytes::spec_u128_to_le_bytes(a.spec_key()) == a@);
        assert(vstd::bytes::spec_u128_to_le_bytes(b.spec_key()) == b@);
    }
}

} // verus!
