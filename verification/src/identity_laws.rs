//! What holds of ids, digests, and the identity of commands.

#[allow(unused_imports)]
use crate::command::{command_payload, ConfigInput, CoreCommand, ReconcileRequest};
#[allow(unused_imports)]
use crate::command::law_equal_payloads_mean_equal_work;
#[allow(unused_imports)]
use crate::digest::{digest_text, fnv1a};
#[allow(unused_imports)]
use crate::framing::texts;
#[allow(unused_imports)]
use crate::hex::{be_bytes, hex_digit, hex_text, is_lower_hex, lemma_be_bytes_len};
#[allow(unused_imports)]
use crate::operation_id::generated_bytes;
use vstd::prelude::*;

verus! {

/// Each byte is written as the two of the sixteen digits that its quotient and
/// remainder by sixteen count off.
pub proof fn law_bytes_are_written_digit_by_digit(bytes: Seq<u8>, i: int)
    requires
        0 <= i < bytes.len(),
    ensures
        hex_text(bytes).len() == 2 * bytes.len(),
        hex_text(bytes)[2 * i] == "0123456789abcdef"@[bytes[i] as int / 16],
        hex_text(bytes)[2 * i + 1] == "0123456789abcdef"@[bytes[i] as int % 16],
{
    lemma_digit(bytes[i] as int / 16);
    lemma_digit(bytes[i] as int % 16);
}

proof fn lemma_digit(n: int)
    requires
        0 <= n < 16,
    ensures
        hex_digit(n) == "0123456789abcdef"@[n],
{
    reveal_strlit("0123456789abcdef");
    if n < 8 {
        if n < 4 {
            assert(n == 0 || n == 1 || n == 2 || n == 3);
        } else {
            assert(n == 4 || n == 5 || n == 6 || n == 7);
        }
    } else {
        if n < 12 {
            assert(n == 8 || n == 9 || n == 10 || n == 11);
        } else {
            assert(n == 12 || n == 13 || n == 14 || n == 15);
        }
    }
}

/// A text is of lowercase digits where each character is one of the ten
/// numerals or of the first six small letters.
pub proof fn law_lowercase_digits(text: Seq<char>)
    ensures
        is_lower_hex(text) <==> forall|i: int|
            0 <= i < text.len() ==> '0' <= #[trigger] text[i] <= '9' || 'a' <= text[i] <= 'f',
{
}

/// Eight bytes, weighed by their places, make the number that they were taken
/// from.
pub proof fn law_eight_bytes_make_the_number(value: nat)
    requires
        value < 0x1_0000_0000_0000_0000,
    ensures
        be_bytes(value, 8).len() == 8,
        ({
            let b = be_bytes(value, 8);
            b[0] * 0x100_0000_0000_0000 + b[1] * 0x1_0000_0000_0000 + b[2] * 0x100_0000_0000 + b[3]
                * 0x1_0000_0000 + b[4] * 0x100_0000 + b[5] * 0x1_0000 + b[6] * 0x100 + b[7]
        }) == value,
{
    reveal_with_fuel(be_bytes, 9);
}

/// Four bytes, weighed by their places, make the number that they were taken
/// from.
pub proof fn law_four_bytes_make_the_number(value: nat)
    requires
        value < 0x1_0000_0000,
    ensures
        be_bytes(value, 4).len() == 4,
        ({
            let b = be_bytes(value, 4);
            b[0] * 0x100_0000 + b[1] * 0x1_0000 + b[2] * 0x100 + b[3]
        }) == value,
{
    reveal_with_fuel(be_bytes, 5);
}

/// A generated id is, in this order, the low eight bytes of the clock reading,
/// the process, and the counter, the most significant byte first in each.
pub proof fn law_generated_id_in_parts(nanos: nat, process_id: u32, counter: u32)
    ensures
        ({
            let b = generated_bytes(nanos, process_id as nat, counter as nat);
            &&& b.len() == 16
            &&& b[0] * 0x100_0000_0000_0000 + b[1] * 0x1_0000_0000_0000 + b[2] * 0x100_0000_0000
                + b[3] * 0x1_0000_0000 + b[4] * 0x100_0000 + b[5] * 0x1_0000 + b[6] * 0x100 + b[7]
                == nanos % 0x1_0000_0000_0000_0000
            &&& b[8] * 0x100_0000 + b[9] * 0x1_0000 + b[10] * 0x100 + b[11] == process_id
            &&& b[12] * 0x100_0000 + b[13] * 0x1_0000 + b[14] * 0x100 + b[15] == counter
        }),
{
    law_eight_bytes_make_the_number(nanos % 0x1_0000_0000_0000_0000);
    law_four_bytes_make_the_number(process_id as nat);
    law_four_bytes_make_the_number(counter as nat);
}

/// The digest runs over every byte of a payload, however long: one more byte is
/// mixed into the hash and multiplied, and the hash is written in full.
pub proof fn law_every_byte_is_digested(bytes: Seq<u8>, byte: u8)
    ensures
        fnv1a(Seq::empty()) == 0xcbf2_9ce4_8422_2325,
        fnv1a(bytes.push(byte)) as int == ((fnv1a(bytes) ^ (byte as u64)) * 0x100_0000_01b3)
            % 0x1_0000_0000_0000_0000,
        digest_text(bytes).len() == 16,
        digest_text(bytes) == hex_text(be_bytes(fnv1a(bytes) as nat, 8)),
{
    assert(bytes.push(byte).drop_last() =~= bytes);
    lemma_be_bytes_len(fnv1a(bytes) as nat, 8);
}

/// A config holds the bytes that it was made from, all of them, and declares
/// the digest that it was given.
pub proof fn law_config_is_what_it_was_made_from(bytes: Vec<u8>, expected_digest: Option<String>)
    ensures
        (ConfigInput::Inline { bytes, expected_digest }).bytes() == bytes@,
        match expected_digest {
            Some(digest) => (ConfigInput::Inline { bytes, expected_digest }).declared_digest()
                == Some(digest@),
            None => (ConfigInput::Inline { bytes, expected_digest }).declared_digest() is None,
        },
{
}

/// Two reconciles have one payload exactly where every part of the desired
/// core, the token, and every config byte agree.
pub proof fn law_requests_are_told_apart(a: ReconcileRequest, b: ReconcileRequest)
    ensures
        command_payload(CoreCommand::Reconcile(Box::new(a))) == command_payload(
            CoreCommand::Reconcile(Box::new(b)),
        ) <==> {
            &&& a.core.kind@ == b.core.kind@
            &&& a.core.binary_path@ == b.core.binary_path@
            &&& match (a.core.version, b.core.version) {
                (Some(x), Some(y)) => x@ == y@,
                (None, None) => true,
                _ => false,
            }
            &&& a.core.features@.len() == b.core.features@.len()
            &&& forall|i: int|
                0 <= i < a.core.features@.len() ==> (#[trigger] a.core.features@[i])@
                    == b.core.features@[i]@
            &&& match (a.expected_applied, b.expected_applied) {
                (Some(x), Some(y)) => x.name@ == y.name@,
                (None, None) => true,
                _ => false,
            }
            &&& match (a.config, b.config) {
                (ConfigInput::Inline { bytes: x, .. }, ConfigInput::Inline { bytes: y, .. }) => x@
                    == y@,
            }
        },
{
    let (x, y) = (CoreCommand::Reconcile(Box::new(a)), CoreCommand::Reconcile(Box::new(b)));
    law_equal_payloads_mean_equal_work(x, y);
    let (f, g) = (texts(a.core.features@), texts(b.core.features@));
    if command_payload(x) == command_payload(y) {
        assert(a.identity() == b.identity());
        assert(f == g);
        assert forall|i: int| 0 <= i < a.core.features@.len() implies (
        #[trigger] a.core.features@[i])@ == b.core.features@[i]@ by {
            assert(f[i] == g[i]);
        }
    }
    if a.core.features@.len() == b.core.features@.len() && (forall|i: int|
        0 <= i < a.core.features@.len() ==> (#[trigger] a.core.features@[i])@
            == b.core.features@[i]@) {
        assert(f =~= g);
    }
}

/// Whatever differs between two reconciles in the config, the core, or the
/// token, at any place and of any length, parts their payloads.
pub proof fn law_any_difference_parts_payloads(a: ReconcileRequest, b: ReconcileRequest)
    ensures
        a.config.bytes() != b.config.bytes() || a.core.kind@ != b.core.kind@
            || a.core.binary_path@ != b.core.binary_path@ || (a.core.version is Some)
            != (b.core.version is Some) || a.core.features@.len() != b.core.features@.len() || (
        a.expected_applied is Some) != (b.expected_applied is Some) || (a.core.version is Some
            && b.core.version is Some && a.core.version->0@ != b.core.version->0@) || (
        a.expected_applied is Some && b.expected_applied is Some && a.expected_applied->0.name@
            != b.expected_applied->0.name@) ==> command_payload(
            CoreCommand::Reconcile(Box::new(a)),
        ) != command_payload(CoreCommand::Reconcile(Box::new(b))),
{
    law_requests_are_told_apart(a, b);
}

/// Commands of different sorts never share a payload.
pub proof fn law_sorts_of_commands_are_told_apart(a: CoreCommand, b: CoreCommand)
    requires
        command_payload(a) == command_payload(b),
    ensures
        a is Reconcile <==> b is Reconcile,
        a is Stop <==> b is Stop,
        a is Recover <==> b is Recover,
        a is Shutdown <==> b is Shutdown,
{
    law_equal_payloads_mean_equal_work(a, b);
}

} // verus!
