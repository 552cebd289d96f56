//! Portable config bytes on their way to a file of the host.

use crate::command::ConfigInput;
use crate::digest::payload_digest;
#[allow(unused_imports)]
use crate::digest::digest_text;
use crate::error::{CoreError, CoreErrorKind};
#[allow(unused_imports)]
use crate::error::{operation_error, CoreErrorView};
use crate::operation_id::OperationId;
use camino::Utf8Path;
use vstd::prelude::*;

verus! {

/// A file name that no platform reads as more than a name.
pub open spec fn plain_name(name: Seq<char>) -> bool {
    &&& name.len() > 0
    &&& name[0] != '.'
    &&& forall|i: int|
        0 <= i < name.len() ==> #[trigger] name[i] != '/' && name[i] != '\\' && name[i] != ':'
}

/// Whether a directory is a verbatim one, which Windows alone knows: to join a
/// name to it also normalizes it.
pub open spec fn verbatim(directory: Seq<char>) -> bool {
    &&& directory.len() >= 4
    &&& directory[0] == '\\'
    &&& directory[1] == '\\'
    &&& directory[2] == '?'
    &&& directory[3] == '\\'
}

/// A name joined to a directory: a separator of the platform stands between
/// the two, unless the directory is empty or ends in a separator or a drive.
pub open spec fn joined(directory: Seq<char>, name: Seq<char>, path: Seq<char>) -> bool {
    if directory.len() == 0 || directory.last() == '/' {
        path == directory + name
    } else {
        ||| path == directory + seq!['/'] + name
        ||| path == directory + seq!['\\'] + name
        ||| path == directory + name && (directory.last() == '\\' || directory.last() == ':')
    }
}

/// Where a name in a directory is: the path ends in the name, and it is the
/// directory joined with the name.
pub open spec fn located(directory: Seq<char>, name: Seq<char>, path: Seq<char>) -> bool {
    &&& name.is_suffix_of(path)
    &&& !verbatim(directory) ==> joined(directory, name, path)
}

/// Calls `camino::Utf8Path::join`: a plain name extends the directory. The
/// separator depends on the platform, and so does whether a directory that ends
/// in a backslash or a colon needs one. Of a verbatim directory it is claimed
/// only that the path ends in the name. Of a name that is not plain nothing is
/// claimed: an absolute one, for example, replaces the directory.
#[verifier::external_body]
pub(crate) fn join_path(directory: &str, name: &str) -> (path: String)
    ensures
        plain_name(name@) ==> located(directory@, name@, path@),
{
    Utf8Path::new(directory).join(name).into_string()
}

/// A file to write before the path-based pipeline below the control plane can
/// go on: the directory has to exist, then the bytes go to the path.
#[derive(Debug)]
pub struct Materialization {
    pub directory: String,
    pub path: String,
    pub bytes: Vec<u8>,
}

/// Whether a config carries the digest that it declares, if it declares one.
pub open spec fn digest_holds(config: ConfigInput) -> bool {
    config.declared_digest() matches Some(declared) ==> declared == digest_text(config.bytes())
}

/// The answer to a config that does not carry the digest that it declares.
pub open spec fn digest_mismatch(config: ConfigInput, id: OperationId) -> CoreErrorView {
    operation_error(
        CoreErrorKind::InvalidConfig,
        "config digest mismatch: declared "@ + config.declared_digest()->0 + ", computed "@
            + digest_text(config.bytes()),
        false,
        id,
    )
}

/// Whether a file holds exactly the bytes of a config, under a name in a
/// directory.
pub open spec fn materializes(
    file: Materialization,
    directory: Seq<char>,
    name: Seq<char>,
    config: ConfigInput,
) -> bool {
    &&& file.directory@ == directory
    &&& plain_name(name) ==> located(directory, name, file.path@)
    &&& file.bytes@ == config.bytes()
}

/// Turns portable config bytes into a host file for the path-based pipeline
/// below the control plane. The digest is verified before anything else
/// happens: a mismatch is a clean abort.
pub fn materialize(
    source_dir: &str,
    file_name: &str,
    config: ConfigInput,
    id: OperationId,
) -> (file: Result<Materialization, CoreError>)
    ensures
        file is Ok <==> digest_holds(config),
        file matches Ok(file) ==> materializes(file, source_dir@, file_name@, config),
        file matches Err(error) ==> error@ == digest_mismatch(config, id),
{
    let ConfigInput::Inline { bytes, expected_digest } = config;
    if let Some(declared) = expected_digest {
        let computed: String = payload_digest(bytes.as_slice());
        if declared != computed {
            let mut message: String = "config digest mismatch: declared ".to_owned();
            message.append(declared.as_str());
            message.append(", computed ");
            message.append(computed.as_str());
            return Err(
                CoreError::new(CoreErrorKind::InvalidConfig, message.as_str(), false).with_operation(
                    id,
                ),
            );
        }
    }
    Ok(
        Materialization {
            directory: source_dir.to_owned(),
            path: join_path(source_dir, file_name),
            bytes,
        },
    )
}

/// A config that declares no digest, or the right one, is always accepted.
pub proof fn law_honest_config_is_accepted(bytes: Vec<u8>, declared: String)
    requires
        declared@ == digest_text(bytes@),
    ensures
        digest_holds(ConfigInput::Inline { bytes, expected_digest: None }),
        digest_holds(ConfigInput::Inline { bytes, expected_digest: Some(declared) }),
{
}

/// A config in which one byte was changed after its digest was declared is
/// refused.
pub proof fn law_tampered_config_is_refused(
    bytes: Vec<u8>,
    declared: String,
    i: int,
    tampered: Vec<u8>,
    byte: u8,
)
    requires
        declared@ == digest_text(bytes@),
        0 <= i < bytes@.len(),
        byte != bytes@[i],
        tampered@ == bytes@.update(i, byte),
    ensures
        !digest_holds(ConfigInput::Inline { bytes: tampered, expected_digest: Some(declared) }),
{
    crate::digest::law_one_byte_changes_the_digest(bytes@, i, byte);
}

} // verus!
