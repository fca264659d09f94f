//! Which handoffs are carried out, and what a document in force is replaced by.
use std::sync::Arc;

use vstd::prelude::*;
use vstd::string::*;

use crate::checksum;
use crate::files::FileMetadata;
use crate::handoff;
use crate::handoff::{ApplyOutcome, HandoffRead, HandoffRequest};
use crate::laws::{documents, texts};
use crate::rules::RuleSet;
use crate::runtime_config;
use crate::runtime_config::{GeoConfig, RuntimeConfig};
use crate::text;

verus! {

/// Whether a text is made of ASCII letters, ASCII digits and hyphens, and not
/// empty.
pub open spec fn plain_nonce(nonce: Seq<char>) -> bool {
    nonce.len() > 0 && forall|i: int|
        0 <= i < nonce.len() ==> {
            ||| 'a' <= #[trigger] nonce[i] <= 'z'
            ||| 'A' <= nonce[i] <= 'Z'
            ||| '0' <= nonce[i] <= '9'
            ||| nonce[i] == '-'
        }
}

/// Whether a file name is a plain nonce between the two fixed parts of the names
/// of handoff files.
pub open spec fn file_name_fits(file_name: Seq<char>) -> bool {
    exists|nonce: Seq<char>|
        plain_nonce(nonce) && file_name == #[trigger] (".geo-config-"@ + nonce) + ".json"@
}

/// Whether a text is made of 64 hexadecimal digits, of either case.
pub open spec fn checksum_fits(value: Seq<char>) -> bool {
    value.len() == 64 && forall|i: int|
        0 <= i < 64 ==> {
            ||| '0' <= #[trigger] value[i] <= '9'
            ||| 'a' <= value[i] <= 'f'
            ||| 'A' <= value[i] <= 'F'
        }
}

proof fn lemma_file_name_fits(file_name: Seq<char>)
    ensures
        handoff::handoff_name(file_name) <==> file_name_fits(file_name),
{
    let prefix = ".geo-config-"@;
    let suffix = ".json"@;
    if handoff::handoff_name(file_name) {
        let rest = file_name.skip(prefix.len() as int);
        let nonce = rest.take(rest.len() - suffix.len());
        assert(handoff::name_nonce(file_name) == Some(nonce));
        assert(prefix + rest =~= file_name);
        assert(nonce + suffix =~= rest);
        assert((prefix + nonce) + suffix =~= file_name);
        assert forall|i: int| 0 <= i < nonce.len() implies {
            ||| 'a' <= #[trigger] nonce[i] <= 'z'
            ||| 'A' <= nonce[i] <= 'Z'
            ||| '0' <= nonce[i] <= '9'
            ||| nonce[i] == '-'
        } by {
            assert(handoff::nonce_char(nonce[i]));
        }
    }
    if file_name_fits(file_name) {
        let nonce = choose|nonce: Seq<char>|
            plain_nonce(nonce) && file_name == #[trigger] (prefix + nonce) + suffix;
        let rest = file_name.skip(prefix.len() as int);
        assert(prefix.is_prefix_of(file_name));
        assert(rest =~= nonce + suffix);
        assert(suffix.is_suffix_of(rest));
        assert(rest.take(rest.len() - suffix.len()) =~= nonce);
        assert forall|i: int| 0 <= i < nonce.len() implies handoff::nonce_char(
            #[trigger] nonce[i],
        ) by {}
    }
}

proof fn lemma_checksum_fits(value: Seq<char>)
    ensures
        checksum::checksum_form(value) <==> checksum_fits(value),
{
    if checksum::checksum_form(value) {
        assert forall|i: int| 0 <= i < 64 implies {
            ||| '0' <= #[trigger] value[i] <= '9'
            ||| 'a' <= value[i] <= 'f'
            ||| 'A' <= value[i] <= 'F'
        } by {
            assert(text::hex_digit(value[i]));
        }
    }
    if checksum_fits(value) {
        assert forall|i: int| 0 <= i < value.len() implies text::hex_digit(#[trigger] value[i]) by {}
    }
}

/// A file name is accepted if and only if it is that of a handoff file.
pub proof fn law_file_name(file_name: &str, result: Result<(), String>)
    requires
        call_ensures(handoff::validate_temporary_name, (file_name,), result),
    ensures
        result is Ok <==> file_name_fits(file_name@),
        result matches Err(e) ==> e@ == "invalid Geo config handoff filename"@,
{
    lemma_file_name_fits(file_name@);
}

/// A checksum is accepted if and only if it has 64 hexadecimal digits.
pub proof fn law_declared_checksum(value: &str, result: Result<(), String>)
    requires
        call_ensures(checksum::validate_sha256, (value,), result),
    ensures
        result is Ok <==> checksum_fits(value@),
        result matches Err(e) ==> e@
            == "Geo config handoff checksum must be 64 hexadecimal characters"@,
{
    lemma_checksum_fits(value@);
}

/// Whether a text shows a digest, two hexadecimal digits for each byte and
/// without regard to their case.
pub open spec fn shows_digest(shown: Seq<char>, digest: Seq<u8>) -> bool {
    exists|digits: Seq<char>|
        digits.len() == 2 * digest.len() && #[trigger] texts::same_letters(digits, shown) && (forall|
            i: int,
        |
            0 <= i < digest.len() ==> texts::shows_byte(digits, i, #[trigger] digest[i]))
}

proof fn lemma_hex_value_is_injective(c: char, d: char)
    requires
        texts::hex_value(c) == texts::hex_value(d),
        0 <= texts::hex_value(c),
    ensures
        c == d,
{
}

proof fn lemma_shows_digest(bytes: Seq<u8>, shown: Seq<char>)
    ensures
        text::same_ignoring_case(checksum::checksum(bytes), shown) <==> shows_digest(
            shown,
            checksum::sha256(bytes),
        ),
{
    let digest = checksum::sha256(bytes);
    let sum = checksum::checksum(bytes);
    texts::law_lower_hex(digest);
    texts::law_same_ignoring_case(sum, shown);
    if shows_digest(shown, digest) {
        let digits = choose|digits: Seq<char>|
            digits.len() == 2 * digest.len() && #[trigger] texts::same_letters(digits, shown) && (
            forall|i: int|
                0 <= i < digest.len() ==> texts::shows_byte(digits, i, #[trigger] digest[i]));
        assert forall|k: int| 0 <= k < digits.len() implies #[trigger] digits[k] == sum[k] by {
            let i = k / 2;
            assert(0 <= i < digest.len());
            assert(texts::shows_byte(digits, i, digest[i]));
            assert(texts::shows_byte(sum, i, digest[i]));
            if k == 2 * i {
                lemma_hex_value_is_injective(digits[k], sum[k]);
            } else {
                assert(k == 2 * i + 1);
                lemma_hex_value_is_injective(digits[k], sum[k]);
            }
        }
        assert(digits =~= sum);
    }
}

/// Bytes match a declared checksum if and only if it shows their SHA-256 digest.
pub proof fn law_matching_checksum(bytes: &[u8], expected: &str, result: bool)
    requires
        call_ensures(checksum::matches_checksum, (bytes, expected), result),
    ensures
        result <==> shows_digest(expected@, checksum::sha256(bytes@)),
{
    lemma_shows_digest(bytes@, expected@);
}

/// A handoff is taken up if and only if its file name fits, at most 512 KiB are
/// declared, and the declared checksum fits; otherwise it is refused for the
/// first of these that fails.
pub proof fn law_request(
    file_name: &str,
    declared_len: u64,
    expected_sha256: &str,
    result: Result<HandoffRequest, String>,
)
    requires
        call_ensures(
            handoff::apply_temporary,
            (file_name, declared_len, expected_sha256),
            result,
        ),
    ensures
        result is Ok <==> file_name_fits(file_name@) && declared_len <= 524_288 && checksum_fits(
            expected_sha256@,
        ),
        result matches Err(e) ==> if !file_name_fits(file_name@) {
            e@ == "invalid Geo config handoff filename"@
        } else if declared_len > 524_288 {
            e@ == "Geo config exceeds "@ + text::decimal(524_288) + " bytes"@
        } else {
            e@ == "Geo config handoff checksum must be 64 hexadecimal characters"@
        },
{
    lemma_file_name_fits(file_name@);
    lemma_checksum_fits(expected_sha256@);
}

/// The file that is opened for a handoff is the one that was named.
pub proof fn law_named_file_is_opened(
    file_name: &str,
    declared_len: u64,
    expected_sha256: &str,
    request: HandoffRequest,
    name: &str,
)
    requires
        call_ensures(
            handoff::apply_temporary,
            (file_name, declared_len, expected_sha256),
            Ok(request),
        ),
        call_ensures(HandoffRequest::file_name, (&request,), name),
    ensures
        name@ == file_name@,
{
}

/// A handoff file that was opened is passed on; a failure is reported with its
/// reason.
pub proof fn law_opened_handoff_file<F>(opened: Result<F, String>, result: Result<F, String>)
    requires
        call_ensures(handoff::open_temporary::<F>, (opened,), result),
    ensures
        opened matches Ok(file) ==> result == Ok::<F, String>(file),
        opened matches Err(error) ==> (result matches Err(e) && e@
            == "cannot open Geo config handoff: "@ + error@),
{
}

/// A handoff file is read if and only if it is a regular file of the declared
/// length; one byte more than declared is then asked for.
pub proof fn law_inspected_file(
    file_name: &str,
    declared_len: u64,
    expected_sha256: &str,
    request: HandoffRequest,
    metadata: Result<FileMetadata, String>,
    result: Result<HandoffRead, String>,
    limit: u64,
)
    requires
        call_ensures(
            handoff::apply_temporary,
            (file_name, declared_len, expected_sha256),
            Ok(request),
        ),
        call_ensures(HandoffRequest::inspected, (request, metadata), result),
        result matches Ok(read) ==> call_ensures(HandoffRead::limit, (&read,), limit),
    ensures
        metadata matches Err(error) ==> (result matches Err(e) && e@
            == "cannot inspect Geo config handoff: "@ + error@),
        metadata matches Ok(metadata) ==> {
            &&& !metadata.is_file ==> (result matches Err(e) && e@
                == "Geo config handoff must be a regular file"@)
            &&& metadata.is_file && metadata.len != declared_len ==> (result matches Err(e) && e@
                == "Geo config handoff length does not match"@)
            &&& metadata.is_file && metadata.len == declared_len ==> result is Ok
        },
        result is Ok ==> limit == declared_len + 1,
{
}

/// What was read of a handoff file is used if and only if it has the declared
/// length.
pub proof fn law_handoff_file_content(
    read: Result<Vec<u8>, String>,
    declared_len: u64,
    result: Result<Vec<u8>, String>,
)
    requires
        call_ensures(handoff::read_handoff, (read, declared_len), result),
    ensures
        declared_len >= u64::MAX || declared_len >= usize::MAX ==> (result matches Err(e) && e@
            == "Geo config handoff length is not supported"@),
        declared_len < u64::MAX && declared_len < usize::MAX ==> match read {
            Ok(bytes) => {
                &&& bytes@.len() == declared_len ==> result == Ok::<Vec<u8>, String>(bytes)
                &&& bytes@.len() != declared_len ==> (result matches Err(e) && e@
                    == "Geo config handoff changed while reading"@)
            },
            Err(error) => result matches Err(e) && e@ == "cannot read Geo config handoff: "@
                + error@,
        },
{
}

/// What was read for a handoff is the document if and only if it has the length
/// and the checksum that were declared for it, and is then passed on unchanged.
pub proof fn law_declared_document_is_received(
    file_name: &str,
    declared_len: u64,
    expected_sha256: &str,
    request: HandoffRequest,
    metadata: Result<FileMetadata, String>,
    read: HandoffRead,
    content: Result<Vec<u8>, String>,
    result: Result<Vec<u8>, String>,
)
    requires
        call_ensures(
            handoff::apply_temporary,
            (file_name, declared_len, expected_sha256),
            Ok(request),
        ),
        call_ensures(HandoffRequest::inspected, (request, metadata), Ok(read)),
        call_ensures(HandoffRead::received, (read, content), result),
    ensures
        content matches Err(error) ==> (result matches Err(e) && e@
            == "cannot read Geo config handoff: "@ + error@),
        content matches Ok(bytes) ==> {
            &&& bytes@.len() != declared_len ==> (result matches Err(e) && e@
                == "Geo config handoff changed while reading"@)
            &&& bytes@.len() == declared_len && !shows_digest(
                expected_sha256@,
                checksum::sha256(bytes@),
            ) ==> (result matches Err(e) && e@ == "Geo config handoff checksum does not match"@)
            &&& bytes@.len() == declared_len && shows_digest(
                expected_sha256@,
                checksum::sha256(bytes@),
            ) ==> result == Ok::<Vec<u8>, String>(bytes)
        },
{
    law_request(file_name, declared_len, expected_sha256, Ok(request));
    if let Ok(bytes) = content {
        lemma_shows_digest(bytes@, expected_sha256@);
    }
}

/// A document comes in force if and only if it is accepted beside the revision
/// that was seen and is newer than the one in force; it is then exactly the
/// given document, in normal form. Otherwise the one in force stays.
pub proof fn law_document_is_applied<R, C: Fn(&GeoConfig) -> Result<RuleSet<R>, String>>(
    parsed: Result<RuntimeConfig, String>,
    seen_revision: u64,
    state: &mut Arc<RuntimeConfig>,
    compile: &C,
    result: Result<ApplyOutcome, String>,
)
    requires
        call_ensures(
            handoff::apply_document::<R, C>,
            (parsed, seen_revision, state, compile),
            result,
        ),
    ensures
        result is Err ==> *final(state) == *old(state),
        result is Ok ==> {
            &&& parsed matches Ok(given)
            &&& given.version == 1
            &&& given.revision > seen_revision
            &&& given.revision > old(state).revision
            &&& documents::document_fits(given)
            &&& documents::document_accepted(given, **final(state))
            &&& given.geo.enabled ==> documents::compiles::<R, C>(*compile, final(state).geo)
        },
        parsed matches Ok(given) ==> (given.version == 1 && given.revision > seen_revision
            && given.revision > old(state).revision && documents::document_fits(given) && (
        !given.geo.enabled || forall|geo: GeoConfig, e: String|
            !#[trigger] call_ensures(*compile, (&geo,), Err(e))) ==> result is Ok),
{
    let accepted = choose|accepted: Result<RuntimeConfig, String>| #[trigger]
        runtime_config::acceptance::<R, C>(*compile, parsed, seen_revision, accepted) && (
        match accepted {
            Ok(config) => handoff::replacement(config, *old(state), *final(state), result),
            Err(message) => *final(state) == *old(state) && result == Err::<ApplyOutcome, String>(
                message,
            ),
        });
    documents::lemma_acceptance::<R, C>(*compile, parsed, seen_revision, accepted);
}

/// What is reported of a document that came in force: its revision, how many
/// rules it has, and its relay servers with commas between them, where it has
/// any.
pub proof fn law_report_on_a_document<R, C: Fn(&GeoConfig) -> Result<RuleSet<R>, String>>(
    parsed: Result<RuntimeConfig, String>,
    seen_revision: u64,
    state: &mut Arc<RuntimeConfig>,
    compile: &C,
    outcome: ApplyOutcome,
)
    requires
        call_ensures(
            handoff::apply_document::<R, C>,
            (parsed, seen_revision, state, compile),
            Ok(outcome),
        ),
    ensures
        outcome.revision == final(state).revision,
        outcome.message@ == "Geo config revision "@ + text::decimal(final(state).revision as nat)
            + " applied with "@ + text::decimal(final(state).geo.rules@.len()) + " rules"@,
        final(state).relay_servers@.len() == 0 <==> outcome.relay_servers is None,
        outcome.relay_servers matches Some(servers) ==> servers@ == text::joined(
            text::texts(final(state).relay_servers@),
            ","@,
        ),
{
    assert(text::texts(final(state).relay_servers@).len() == final(state).relay_servers@.len());
}

/// A document that is not newer than the one in force by now is refused with
/// both revisions, even where it was newer than the one that was seen.
pub proof fn law_overtaken_document_is_stale<R, C: Fn(&GeoConfig) -> Result<RuleSet<R>, String>>(
    given: RuntimeConfig,
    seen_revision: u64,
    state: &mut Arc<RuntimeConfig>,
    compile: &C,
    result: Result<ApplyOutcome, String>,
)
    requires
        call_ensures(
            handoff::apply_document::<R, C>,
            (Ok(given), seen_revision, state, compile),
            result,
        ),
        given.version == 1,
        seen_revision < given.revision <= old(state).revision,
        documents::document_fits(given),
        !given.geo.enabled,
    ensures
        *final(state) == *old(state),
        result matches Err(e) && e@ == "stale Geo config revision "@ + text::decimal(
            given.revision as nat,
        ) + "; current revision is "@ + text::decimal(old(state).revision as nat),
{
    let parsed: Result<RuntimeConfig, String> = Ok(given);
    let accepted = choose|accepted: Result<RuntimeConfig, String>| #[trigger]
        runtime_config::acceptance::<R, C>(*compile, parsed, seen_revision, accepted) && (
        match accepted {
            Ok(config) => handoff::replacement(config, *old(state), *final(state), result),
            Err(message) => *final(state) == *old(state) && result == Err::<ApplyOutcome, String>(
                message,
            ),
        });
    documents::lemma_acceptance::<R, C>(*compile, parsed, seen_revision, accepted);
}

/// A refusal is worded by what is wrong with the document, in the order of the
/// checks; one that fits is refused by the compiler of its rules, or as stale
/// beside the document in force.
pub proof fn law_refusal_of_a_document<R, C: Fn(&GeoConfig) -> Result<RuleSet<R>, String>>(
    parsed: Result<RuntimeConfig, String>,
    seen_revision: u64,
    state: &mut Arc<RuntimeConfig>,
    compile: &C,
    message: String,
)
    requires
        call_ensures(
            handoff::apply_document::<R, C>,
            (parsed, seen_revision, state, compile),
            Err(message),
        ),
    ensures
        parsed matches Err(error) ==> message@ == "invalid Geo config JSON: "@ + error@,
        parsed matches Ok(given) ==> {
            &&& given.version != 1 ==> message@ == "unsupported Geo config version "@
                + text::decimal(given.version as nat) + "; expected "@ + text::decimal(1)
            &&& given.version == 1 && given.revision <= seen_revision ==> message@
                == "stale Geo config revision "@ + text::decimal(given.revision as nat)
                + "; current revision is "@ + text::decimal(seen_revision as nat)
            &&& given.version == 1 && given.revision > seen_revision && !documents::document_fits(
                given,
            ) ==> documents::document_refused(given, message@)
            &&& given.version == 1 && given.revision > seen_revision && documents::document_fits(
                given,
            ) ==> {
                ||| given.revision <= old(state).revision && message@
                    == "stale Geo config revision "@ + text::decimal(given.revision as nat)
                    + "; current revision is "@ + text::decimal(old(state).revision as nat)
                ||| given.geo.enabled && exists|geo: GeoConfig| #[trigger]
                    call_ensures(*compile, (&geo,), Err(message)) && documents::geo_accepted(
                        given.geo,
                        geo,
                    )
            }
        },
{
    let result: Result<ApplyOutcome, String> = Err(message);
    let accepted = choose|accepted: Result<RuntimeConfig, String>| #[trigger]
        runtime_config::acceptance::<R, C>(*compile, parsed, seen_revision, accepted) && (
        match accepted {
            Ok(config) => handoff::replacement(config, *old(state), *final(state), result),
            Err(message) => *final(state) == *old(state) && result == Err::<ApplyOutcome, String>(
                message,
            ),
        });
    documents::lemma_acceptance::<R, C>(*compile, parsed, seen_revision, accepted);
}

} // verus!
