//! The handoff of a configuration document through a temporary file.
//!
//! The file system stays with the caller. [`apply_temporary`] checks a request
//! and yields the steps in their order: open the file, inspect it, read it.
//! What was read is parsed, and [`apply_document`] puts the result in force.
use std::sync::Arc;

use vstd::prelude::*;
use vstd::string::*;

use crate::checksum;
use crate::files;
use crate::files::FileMetadata;
use crate::laws;
use crate::rules::RuleSet;
use crate::runtime_config;
use crate::runtime_config::{GeoConfig, RuntimeConfig};
use crate::text;

verus! {

/// Most bytes that a document may have.
pub const MAX_CONFIG_BYTES: u64 = 512 * 1024;

/// How the name of a handoff file begins.
pub const TEMP_PREFIX: &'static str = ".geo-config-";

/// How the name of a handoff file ends.
pub const TEMP_SUFFIX: &'static str = ".json";

/// What came of a document that was put in force.
pub struct ApplyOutcome {
    pub revision: u64,
    pub message: String,
    pub relay_servers: Option<String>,
}

/// The part of a file name between the prefix and the suffix of handoff
/// files.
pub open spec fn name_nonce(file_name: Seq<char>) -> Option<Seq<char>> {
    match text::stripped_prefix(file_name, TEMP_PREFIX@) {
        Some(rest) => text::stripped_suffix(rest, TEMP_SUFFIX@),
        None => None,
    }
}

/// Characters that the nonce of a handoff file may hold.
pub open spec fn nonce_char(c: char) -> bool {
    '0' <= c <= '9' || 'a' <= c <= 'z' || 'A' <= c <= 'Z' || c == '-'
}

/// Whether a text is the name of a handoff file.
pub open spec fn handoff_name(file_name: Seq<char>) -> bool {
    name_nonce(file_name) matches Some(nonce) && nonce.len() > 0 && forall|i: int|
        0 <= i < nonce.len() ==> nonce_char(#[trigger] nonce[i])
}

fn is_nonce(nonce: &str) -> (result: bool)
    ensures
        result == (nonce@.len() > 0 && forall|i: int|
            0 <= i < nonce@.len() ==> nonce_char(#[trigger] nonce@[i])),
{
    let list = text::char_list(nonce);
    let mut i: usize = 0;
    while i < list.len()
        invariant
            list@ == nonce@,
            i <= list.len(),
            forall|k: int| 0 <= k < i ==> nonce_char(#[trigger] list@[k]),
        decreases list.len() - i,
    {
        let c = list[i];
        if !(('0' <= c && c <= '9') || ('a' <= c && c <= 'z') || ('A' <= c && c <= 'Z') || c
            == '-') {
            assert(!nonce_char(nonce@[i as int]));
            return false;
        }
        i += 1;
    }
    list.len() > 0
}

/// Accepts the names of handoff files. Such a name is a single path component:
/// see `laws::law_handoff_name_is_single_component`.
pub fn validate_temporary_name(file_name: &str) -> (result: Result<(), String>)
    ensures
        handoff_name(file_name@) ==> result is Ok,
        !handoff_name(file_name@) ==> (result matches Err(e) && e@
            == "invalid Geo config handoff filename"@),
{
    let nonce = match text::strip_prefix(file_name, TEMP_PREFIX) {
        Some(rest) => text::strip_suffix(rest, TEMP_SUFFIX),
        None => None,
    };
    let valid = match nonce {
        Some(nonce) => is_nonce(nonce),
        None => false,
    };
    if !valid {
        return Err("invalid Geo config handoff filename".to_owned());
    }
    Ok(())
}

/// Why a handoff request is refused before the file is opened.
pub open spec fn request_fault(
    file_name: Seq<char>,
    declared_len: u64,
    expected_sha256: Seq<char>,
) -> Option<Seq<char>> {
    if !handoff_name(file_name) {
        Some("invalid Geo config handoff filename"@)
    } else if declared_len > MAX_CONFIG_BYTES {
        Some("Geo config exceeds "@ + text::decimal(MAX_CONFIG_BYTES as nat) + " bytes"@)
    } else if !checksum::checksum_form(expected_sha256) {
        Some("Geo config handoff checksum must be 64 hexadecimal characters"@)
    } else {
        None
    }
}

/// What a sender declared of a handoff.
pub struct HandoffView {
    pub file_name: Seq<char>,
    pub declared_len: u64,
    pub expected_sha256: Seq<char>,
}

/// A checked handoff request, whose file is to be opened and inspected.
pub struct HandoffRequest {
    file_name: String,
    declared_len: u64,
    expected_sha256: String,
}

impl View for HandoffRequest {
    type V = HandoffView;

    closed spec fn view(&self) -> HandoffView {
        HandoffView {
            file_name: self.file_name@,
            declared_len: self.declared_len,
            expected_sha256: self.expected_sha256@,
        }
    }
}

/// A handoff whose file has the declared length, and is to be read.
pub struct HandoffRead {
    request: HandoffRequest,
}

impl View for HandoffRead {
    type V = HandoffView;

    closed spec fn view(&self) -> HandoffView {
        self.request@
    }
}

impl HandoffRequest {
    #[verifier::type_invariant]
    spec fn length_is_bounded(self) -> bool {
        self.declared_len <= MAX_CONFIG_BYTES
    }
}

/// Checks a request to put a handed-over document in force.
pub fn apply_temporary(file_name: &str, declared_len: u64, expected_sha256: &str) -> (result: Result<
    HandoffRequest,
    String,
>)
    ensures
        match request_fault(file_name@, declared_len, expected_sha256@) {
            Some(message) => result matches Err(e) && e@ == message,
            None => result matches Ok(request) && request@ == (HandoffView {
                file_name: file_name@,
                declared_len,
                expected_sha256: expected_sha256@,
            }),
        },
{
    if let Err(message) = validate_temporary_name(file_name) {
        return Err(message);
    }
    if declared_len > MAX_CONFIG_BYTES {
        let mut message = "Geo config exceeds ".to_owned();
        message.append(text::to_decimal(MAX_CONFIG_BYTES).as_str());
        message.append(" bytes");
        return Err(message);
    }
    if let Err(message) = checksum::validate_sha256(expected_sha256) {
        return Err(message);
    }
    Ok(
        HandoffRequest {
            file_name: file_name.to_owned(),
            declared_len,
            expected_sha256: expected_sha256.to_owned(),
        },
    )
}

/// Passes an opened handoff file on, and words the failure to open it.
pub fn open_temporary<F>(opened: Result<F, String>) -> (result: Result<F, String>)
    ensures
        match opened {
            Ok(file) => result == Ok::<F, String>(file),
            Err(error) => result matches Err(e) && e@ == "cannot open Geo config handoff: "@
                + error@,
        },
{
    match opened {
        Ok(file) => Ok(file),
        Err(error) => {
            let mut message = "cannot open Geo config handoff: ".to_owned();
            message.append(error.as_str());
            Err(message)
        },
    }
}

/// Why an opened handoff file is refused before it is read.
pub open spec fn inspection_fault(
    declared_len: u64,
    metadata: Result<FileMetadata, String>,
) -> Option<Seq<char>> {
    match metadata {
        Err(error) => Some("cannot inspect Geo config handoff: "@ + error@),
        Ok(metadata) => if !metadata.is_file {
            Some("Geo config handoff must be a regular file"@)
        } else if metadata.len != declared_len {
            Some("Geo config handoff length does not match"@)
        } else {
            None
        },
    }
}

impl HandoffRequest {
    /// The name of the file to open.
    pub fn file_name(&self) -> (name: &str)
        ensures
            name@ == self@.file_name,
    {
        self.file_name.as_str()
    }

    /// Goes on with what the file system says of the opened file.
    pub fn inspected(self, metadata: Result<FileMetadata, String>) -> (result: Result<
        HandoffRead,
        String,
    >)
        ensures
            match inspection_fault(self@.declared_len, metadata) {
                Some(message) => result matches Err(e) && e@ == message,
                None => result matches Ok(read) && read@ == self@,
            },
    {
        match metadata {
            Err(error) => {
                let mut message = "cannot inspect Geo config handoff: ".to_owned();
                message.append(error.as_str());
                Err(message)
            },
            Ok(metadata) => {
                if !metadata.is_file {
                    return Err("Geo config handoff must be a regular file".to_owned());
                }
                if metadata.len != self.declared_len {
                    return Err("Geo config handoff length does not match".to_owned());
                }
                Ok(HandoffRead { request: self })
            },
        }
    }
}

/// What the read of a handoff file is refused for.
pub open spec fn read_fault(read: Result<Vec<u8>, String>, declared_len: u64) -> Option<Seq<char>> {
    if !files::readable_len(declared_len) {
        Some("Geo config handoff length is not supported"@)
    } else {
        match read {
            Err(error) => Some("cannot read Geo config handoff: "@ + error@),
            Ok(bytes) => if bytes@.len() != declared_len {
                Some("Geo config handoff changed while reading"@)
            } else {
                None
            },
        }
    }
}

/// The bytes of a handoff file, given what a read of up to `read_limit` bytes
/// yielded.
pub fn read_handoff(read: Result<Vec<u8>, String>, declared_len: u64) -> (result: Result<
    Vec<u8>,
    String,
>)
    ensures
        match read_fault(read, declared_len) {
            Some(message) => result matches Err(e) && e@ == message,
            None => result == read,
        },
{
    if files::read_limit(declared_len).is_none() {
        return Err("Geo config handoff length is not supported".to_owned());
    }
    match read {
        Err(error) => {
            let mut message = "cannot read Geo config handoff: ".to_owned();
            message.append(error.as_str());
            Err(message)
        },
        Ok(bytes) => {
            if bytes.len() as u64 != declared_len {
                return Err("Geo config handoff changed while reading".to_owned());
            }
            Ok(bytes)
        },
    }
}

impl HandoffRead {
    /// How many bytes of the file to ask for.
    pub fn limit(&self) -> (limit: u64)
        ensures
            limit == self@.declared_len + 1,
    {
        proof {
            use_type_invariant(&self.request);
        }
        self.request.declared_len + 1
    }

    /// The document, given what a read of up to `limit` bytes yielded.
    pub fn received(self, read: Result<Vec<u8>, String>) -> (result: Result<Vec<u8>, String>)
        ensures
            match read_fault(read, self@.declared_len) {
                Some(message) => result matches Err(e) && e@ == message,
                None => if text::same_ignoring_case(
                    checksum::checksum(read->Ok_0@),
                    self@.expected_sha256,
                ) {
                    result == read
                } else {
                    result matches Err(e) && e@ == "Geo config handoff checksum does not match"@
                },
            },
    {
        proof {
            use_type_invariant(&self.request);
        }
        let bytes = match read_handoff(read, self.request.declared_len) {
            Ok(bytes) => bytes,
            Err(message) => return Err(message),
        };
        if !checksum::matches_checksum(bytes.as_slice(), self.request.expected_sha256.as_str()) {
            return Err("Geo config handoff checksum does not match".to_owned());
        }
        Ok(bytes)
    }
}

/// The relay servers as one text, where there are any.
pub open spec fn relay_server_text(relay_servers: Seq<Seq<char>>) -> Option<Seq<char>> {
    if relay_servers.len() == 0 {
        None
    } else {
        Some(text::joined(relay_servers, ","@))
    }
}

/// What it takes for an accepted document to come in force: it replaces an
/// older one, and the outcome reports on it; one as new stays, and the document
/// is refused as stale.
pub open spec fn replacement(
    config: RuntimeConfig,
    before: Arc<RuntimeConfig>,
    after: Arc<RuntimeConfig>,
    result: Result<ApplyOutcome, String>,
) -> bool {
    if config.revision <= before.revision {
        &&& after == before
        &&& result matches Err(e) && e@ == runtime_config::stale_message(
            config.revision,
            before.revision,
        )
    } else {
        &&& *after == config
        &&& result matches Ok(outcome) && outcome.revision == config.revision && outcome.message@
            == "Geo config revision "@ + text::decimal(config.revision as nat) + " applied with "@
            + text::decimal(config.geo.rules@.len()) + " rules"@ && text::opt_string(
            outcome.relay_servers,
        ) == relay_server_text(text::texts(config.relay_servers@))
    }
}

/// Puts an accepted document in force, unless the one in force is as new.
fn apply_config(config: RuntimeConfig, state: &mut Arc<RuntimeConfig>) -> (result: Result<
    ApplyOutcome,
    String,
>)
    ensures
        replacement(config, *old(state), *final(state), result),
{
    let revision: u64 = config.revision;
    if revision <= state.revision {
        return Err(runtime_config::stale_revision(revision, state.revision));
    }
    let relay_servers = if config.relay_servers.is_empty() {
        None
    } else {
        Some(text::join(config.relay_servers.as_slice(), ","))
    };
    let rule_count: usize = config.geo.rules.len();
    *state = Arc::new(config);
    let mut message = "Geo config revision ".to_owned();
    message.append(text::to_decimal(revision).as_str());
    message.append(" applied with ");
    message.append(text::to_decimal(rule_count as u64).as_str());
    message.append(" rules");
    Ok(ApplyOutcome { revision, message, relay_servers })
}

/// Puts the document that parsing yielded in force, once it is accepted beside
/// the revision that was seen in force, and unless the one that is in force by
/// now is as new. A refusal leaves the document in force as it is.
pub fn apply_document<R, C: Fn(&GeoConfig) -> Result<RuleSet<R>, String>>(
    parsed: Result<RuntimeConfig, String>,
    seen_revision: u64,
    state: &mut Arc<RuntimeConfig>,
    compile: &C,
) -> (result: Result<ApplyOutcome, String>)
    requires
        forall|c: GeoConfig| call_requires(*compile, (&c,)),
    ensures
        exists|accepted: Result<RuntimeConfig, String>| #[trigger]
            runtime_config::acceptance::<R, C>(*compile, parsed, seen_revision, accepted) && (
            match accepted {
                Ok(config) => replacement(config, *old(state), *final(state), result),
                Err(message) => *final(state) == *old(state) && result == Err::<
                    ApplyOutcome,
                    String,
                >(message),
            }),
        result is Err ==> *final(state) == *old(state),
        result matches Ok(outcome) ==> {
            &&& parsed matches Ok(given) && final(state)@ == runtime_config::config_settled(given@)
            &&& final(state).version == runtime_config::CONFIG_VERSION
            &&& laws::sound_config(final(state)@)
            &&& outcome.revision == final(state).revision
            &&& final(state).revision > old(state).revision
            &&& final(state).revision > seen_revision
        },
        final(state).revision >= old(state).revision,
        laws::sound_config(old(state)@) ==> laws::sound_config(final(state)@),
{
    let ghost given = parsed;
    let accepted = runtime_config::parse_config(parsed, seen_revision, compile);
    assert(runtime_config::acceptance::<R, C>(*compile, given, seen_revision, accepted));
    match accepted {
        Ok(config) => {
            proof {
                laws::law_accepted_config_is_sound(given->Ok_0@);
            }
            apply_config(config, state)
        },
        Err(message) => Err(message),
    }
}

} // verus!
