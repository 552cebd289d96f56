//! Commands, the requests that they carry, and their identity.

use crate::digest::payload_digest;
#[allow(unused_imports)]
use crate::digest::{digest_text, law_one_byte_changes_the_digest};
use crate::framing::{append_framed, append_optional, append_texts};
#[allow(unused_imports)]
use crate::framing::{
    counted, framed, framed_text, lemma_counted, lemma_framed, lemma_framed_text, lemma_optional,
    lemma_same_prefix, length_code, optional, texts,
};
use crate::instance::{CoreSpec, InstanceOptions, RevisionId};
use crate::operation_id::OperationId;
use vstd::prelude::*;
#[allow(unused_imports)]
use vstd::utf8::encode_utf8;

verus! {

/// Portable configuration payload. The control plane never reads caller
/// filesystem paths; a host that has a path performs read, digest, and
/// `Inline` at its own boundary.
#[derive(Debug, Clone, PartialEq, Eq)]
pub enum ConfigInput {
    Inline {
        bytes: Vec<u8>,
        /// [`payload_digest`] of `bytes` as the caller computed it, verified
        /// on receipt when present.
        expected_digest: Option<String>,
    },
}

impl ConfigInput {
    pub open spec fn bytes(self) -> Seq<u8> {
        match self {
            ConfigInput::Inline { bytes, .. } => bytes@,
        }
    }

    pub open spec fn declared_digest(self) -> Option<Seq<char>> {
        match self {
            ConfigInput::Inline { expected_digest, .. } => match expected_digest {
                Some(digest) => Some(digest@),
                None => None,
            },
        }
    }

    /// A payload without a declared digest.
    pub fn inline(bytes: Vec<u8>) -> (config: Self)
        ensures
            config == (ConfigInput::Inline { bytes, expected_digest: None }),
    {
        ConfigInput::Inline { bytes, expected_digest: None }
    }
}

/// The single mutating convergence command: make the runtime match this
/// desired core and config. Start, restart, apply, and switch are
/// classifications the orchestrator derives internally, not caller choices.
#[derive(Debug, Clone)]
pub struct ReconcileRequest {
    pub core: CoreSpec,
    pub config: ConfigInput,
    pub options: InstanceOptions,
    /// Compare-and-swap token: the revision the caller believes is applied.
    /// `None` skips the comparison (unconditional reconcile).
    pub expected_applied: Option<RevisionId>,
}

/// Advisory, read-only validation: concurrency-limited, never queued, and
/// never a precondition for any change.
#[derive(Debug, Clone)]
pub struct CheckRequest {
    pub core: CoreSpec,
    pub config: ConfigInput,
}

/// A mutating control command. Serialized by the control executor; every
/// variant runs as one transaction to a safe terminal state.
#[derive(Debug, Clone)]
pub enum CoreCommand {
    Reconcile(Box<ReconcileRequest>),
    Stop,
    Recover,
    Shutdown,
}

/// A command under the identity that its caller gave it.
#[derive(Debug, Clone)]
pub struct CoreCommandEnvelope {
    pub operation_id: OperationId,
    pub command: CoreCommand,
}

/// A text that may be absent.
pub open spec fn optional_text(text: Option<String>) -> Option<Seq<char>> {
    match text {
        Some(text) => Some(text@),
        None => None,
    }
}

/// What identifies a reconcile: the desired core, the compare-and-swap token,
/// and the config bytes.
#[verifier::ext_equal]
pub struct ReconcileIdentity {
    pub kind: Seq<char>,
    pub binary_path: Seq<char>,
    pub version: Option<Seq<char>>,
    pub features: Seq<Seq<char>>,
    pub token: Option<Seq<char>>,
    pub config: Seq<u8>,
}

/// What identifies a command.
#[verifier::ext_equal]
pub enum CommandIdentity {
    Reconcile(ReconcileIdentity),
    Stop,
    Recover,
    Shutdown,
}

impl ReconcileRequest {
    pub open spec fn identity(self) -> ReconcileIdentity {
        ReconcileIdentity {
            kind: self.core.kind@,
            binary_path: self.core.binary_path@,
            version: optional_text(self.core.version),
            features: texts(self.core.features@),
            token: match self.expected_applied {
                Some(revision) => Some(revision.name@),
                None => None,
            },
            config: self.config.bytes(),
        }
    }
}

impl CoreCommand {
    pub open spec fn identity(self) -> CommandIdentity {
        match self {
            CoreCommand::Reconcile(request) => CommandIdentity::Reconcile((*request).identity()),
            CoreCommand::Stop => CommandIdentity::Stop,
            CoreCommand::Recover => CommandIdentity::Recover,
            CoreCommand::Shutdown => CommandIdentity::Shutdown,
        }
    }
}

/// The bytes whose digest identifies a reconcile, each part so framed that no
/// two identities share them.
pub open spec fn reconcile_payload(identity: ReconcileIdentity) -> Seq<u8> {
    encode_utf8("reconcile"@) + (counted(identity.features) + (optional(identity.token) + (framed(
        identity.config,
    ) + (framed_text(identity.kind) + (framed_text(identity.binary_path) + optional(
        identity.version,
    ))))))
}

/// The bytes whose digest identifies a command.
pub open spec fn command_payload(command: CoreCommand) -> Seq<u8> {
    match command {
        CoreCommand::Reconcile(request) => reconcile_payload((*request).identity()),
        CoreCommand::Stop => encode_utf8("stop"@),
        CoreCommand::Recover => encode_utf8("recover"@),
        CoreCommand::Shutdown => encode_utf8("shutdown"@),
    }
}

impl CoreCommand {
    pub fn is_shutdown(&self) -> (shutdown: bool)
        ensures
            shutdown == (self is Shutdown),
    {
        match self {
            CoreCommand::Shutdown => true,
            _ => false,
        }
    }

    /// The identity digest the idempotency registry compares: two envelopes
    /// with the same [`OperationId`] must describe the same work. Config
    /// bytes, the desired core, and the compare-and-swap token are identity;
    /// tuning fields ([`InstanceOptions`]) deliberately are not.
    pub fn payload_digest(&self) -> (digest: String)
        ensures
            digest@ == digest_text(command_payload(*self)),
    {
        match self {
            CoreCommand::Reconcile(request) => {
                let payload: Vec<u8> = payload_of(request);
                payload_digest(payload.as_slice())
            },
            CoreCommand::Stop => payload_digest("stop".as_bytes()),
            CoreCommand::Recover => payload_digest("recover".as_bytes()),
            CoreCommand::Shutdown => payload_digest("shutdown".as_bytes()),
        }
    }
}

/// The bytes whose digest identifies a reconcile.
fn payload_of(request: &ReconcileRequest) -> (payload: Vec<u8>)
    ensures
        payload@ == reconcile_payload((*request).identity()),
{
    let ConfigInput::Inline { bytes, .. } = &request.config;
    let mut payload: Vec<u8> = "reconcile".as_bytes_vec();
    append_texts(&mut payload, &request.core.features);
    match &request.expected_applied {
        Some(revision) => append_optional(&mut payload, Some(revision.name.as_str())),
        None => append_optional(&mut payload, None),
    }
    append_framed(&mut payload, bytes.as_slice());
    append_framed(&mut payload, request.core.kind.as_str().as_bytes());
    append_framed(&mut payload, request.core.binary_path.as_str().as_bytes());
    match &request.core.version {
        Some(version) => append_optional(&mut payload, Some(version.as_str())),
        None => append_optional(&mut payload, None),
    }
    proof {
        let identity = (*request).identity();
        lemma_parts_in_order(
            encode_utf8("reconcile"@),
            counted(identity.features),
            optional(identity.token),
            framed(identity.config),
            framed_text(identity.kind),
            framed_text(identity.binary_path),
            optional(identity.version),
        );
    }
    payload
}

proof fn lemma_parts_in_order(
    tag: Seq<u8>,
    features: Seq<u8>,
    token: Seq<u8>,
    config: Seq<u8>,
    kind: Seq<u8>,
    path: Seq<u8>,
    version: Seq<u8>,
)
    ensures
        tag + features + token + config + kind + path + version == tag + (features + (token + (config
            + (kind + (path + version))))),
{
    assert(tag + features + token + config + kind + path + version =~= tag + (features + (token + (
    config + (kind + (path + version))))));
}

/// Config bytes, the desired core, and the compare-and-swap token are identity,
/// and nothing else is: two commands have one payload exactly where they
/// describe the same work.
pub proof fn law_equal_payloads_mean_equal_work(a: CoreCommand, b: CoreCommand)
    ensures
        command_payload(a) == command_payload(b) <==> a.identity() == b.identity(),
{
    if command_payload(a) == command_payload(b) {
        lemma_tags();
        let tag = encode_utf8("reconcile"@);
        if a is Reconcile && b is Reconcile {
            let (x, y) = ((*a->Reconcile_0).identity(), (*b->Reconcile_0).identity());
            lemma_same_reconcile(x, y);
        } else if a is Reconcile {
            assert(command_payload(b).take(5) =~= tag.take(5));
        } else if b is Reconcile {
            assert(command_payload(a).take(5) =~= tag.take(5));
        }
    }
}

proof fn lemma_same_reconcile(x: ReconcileIdentity, y: ReconcileIdentity)
    requires
        reconcile_payload(x) == reconcile_payload(y),
    ensures
        x == y,
{
    let tag = encode_utf8("reconcile"@);
    let path_x = framed_text(x.binary_path) + optional(x.version);
    let path_y = framed_text(y.binary_path) + optional(y.version);
    let kind_x = framed_text(x.kind) + path_x;
    let kind_y = framed_text(y.kind) + path_y;
    let config_x = framed(x.config) + kind_x;
    let config_y = framed(y.config) + kind_y;
    let token_x = optional(x.token) + config_x;
    let token_y = optional(y.token) + config_y;
    let features_x = counted(x.features) + token_x;
    let features_y = counted(y.features) + token_y;
    lemma_same_prefix(tag, features_x, tag, features_y);
    lemma_counted(x.features, token_x, y.features, token_y);
    lemma_optional(x.token, config_x, y.token, config_y);
    lemma_framed(x.config, kind_x, y.config, kind_y);
    lemma_framed_text(x.kind, path_x, y.kind, path_y);
    lemma_framed_text(x.binary_path, optional(x.version), y.binary_path, optional(y.version));
    assert(optional(x.version) + Seq::<u8>::empty() =~= optional(x.version));
    assert(optional(y.version) + Seq::<u8>::empty() =~= optional(y.version));
    lemma_optional(x.version, Seq::empty(), y.version, Seq::empty());
}

/// The names of the commands, as bytes, are told apart by their first five.
proof fn lemma_tags()
    ensures
        encode_utf8("reconcile"@).len() == 9,
        encode_utf8("stop"@).len() == 4,
        encode_utf8("recover"@).len() == 7,
        encode_utf8("shutdown"@).len() == 8,
        encode_utf8("reconcile"@)[4] == 110,
        encode_utf8("recover"@)[4] == 118,
        encode_utf8("shutdown"@)[4] == 100,
{
    reveal_strlit("reconcile");
    reveal_strlit("stop");
    reveal_strlit("recover");
    reveal_strlit("shutdown");
    vstd::utf8::is_ascii_chars_encode_utf8("reconcile"@);
    vstd::utf8::is_ascii_chars_encode_utf8("stop"@);
    vstd::utf8::is_ascii_chars_encode_utf8("recover"@);
    vstd::utf8::is_ascii_chars_encode_utf8("shutdown"@);
}

/// Tuning and a declared digest are no part of a command's identity: requests
/// that agree in the core, the config bytes, and the token have one digest.
pub proof fn law_tuning_is_not_identity(a: ReconcileRequest, b: ReconcileRequest)
    requires
        a.core == b.core,
        a.config.bytes() == b.config.bytes(),
        a.expected_applied == b.expected_applied,
    ensures
        digest_text(command_payload(CoreCommand::Reconcile(Box::new(a)))) == digest_text(
            command_payload(CoreCommand::Reconcile(Box::new(b))),
        ),
{
}

/// To change one byte of the config is to change the command's digest.
pub proof fn law_config_bytes_are_identity(
    a: ReconcileRequest,
    b: ReconcileRequest,
    i: int,
    byte: u8,
)
    requires
        a.core.kind@ == b.core.kind@,
        a.core.binary_path@ == b.core.binary_path@,
        optional_text(a.core.version) == optional_text(b.core.version),
        texts(a.core.features@) == texts(b.core.features@),
        match (a.expected_applied, b.expected_applied) {
            (Some(x), Some(y)) => x.name@ == y.name@,
            (None, None) => true,
            _ => false,
        },
        0 <= i < a.config.bytes().len(),
        a.config.bytes()[i] != byte,
        b.config.bytes() == a.config.bytes().update(i, byte),
    ensures
        digest_text(command_payload(CoreCommand::Reconcile(Box::new(a)))) != digest_text(
            command_payload(CoreCommand::Reconcile(Box::new(b))),
        ),
{
    let x = a.identity();
    let head = encode_utf8("reconcile"@) + counted(x.features) + optional(x.token) + length_code(
        x.config.len(),
    );
    let tail = framed_text(x.kind) + (framed_text(x.binary_path) + optional(x.version));
    assert(reconcile_payload(x) =~= head + x.config + tail);
    assert(reconcile_payload(b.identity()) =~= head + x.config.update(i, byte) + tail);
    assert(head + x.config.update(i, byte) + tail =~= (head + x.config + tail).update(
        head.len() + i,
        byte,
    ));
    law_one_byte_changes_the_digest(head + x.config + tail, head.len() + i, byte);
}

} // verus!
