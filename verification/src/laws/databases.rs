//! Which database files are opened, and why others are refused.
use maxminddb::MaxMindDbError;

use vstd::prelude::*;
use vstd::string::*;

use crate::files;
use crate::files::FileMetadata;
use crate::laws::texts;
use crate::mmdb;
use crate::mmdb::{MmdbReader, ParsedReader, ReaderUpdate};
use crate::text;

verus! {

/// One byte more than declared is asked for, as long as that many can be
/// counted.
pub proof fn law_read_limit(declared_len: u64, limit: Option<u64>)
    requires
        call_ensures(files::read_limit, (declared_len,), limit),
    ensures
        declared_len < u64::MAX && declared_len < usize::MAX ==> limit == Some(
            (declared_len + 1) as u64,
        ),
        declared_len >= u64::MAX || declared_len >= usize::MAX ==> limit is None,
{
}

/// A database file that was opened is passed on; a failure is reported with its
/// reason.
pub proof fn law_opened_database_file<F>(opened: Result<F, String>, result: Result<F, String>)
    requires
        call_ensures(mmdb::open_mmdb::<F>, (opened,), result),
    ensures
        opened matches Ok(file) ==> result == Ok::<F, String>(file),
        opened matches Err(error) ==> (result matches Err(e) && e@ == "cannot open MMDB: "@
            + error@),
{
}

/// Regular files of 1 byte to 256 MiB are read, and no others.
pub proof fn law_database_file_size(
    metadata: Result<FileMetadata, String>,
    declared_len: Result<u64, String>,
)
    requires
        call_ensures(mmdb::inspect_mmdb, (metadata,), declared_len),
    ensures
        declared_len is Ok <==> (metadata matches Ok(metadata) && metadata.is_file && 1
            <= metadata.len <= 268_435_456),
        declared_len matches Ok(len) ==> (metadata matches Ok(metadata) && len == metadata.len),
        metadata matches Err(error) ==> (declared_len matches Err(e) && e@
            == "cannot inspect MMDB: "@ + error@),
        metadata matches Ok(metadata) ==> {
            &&& !metadata.is_file ==> (declared_len matches Err(e) && e@
                == "MMDB must be a regular file"@)
            &&& metadata.is_file && !(1 <= metadata.len <= 268_435_456) ==> (
            declared_len matches Err(e) && e@ == "MMDB size must be between 1 and "@
                + text::decimal(268_435_456) + " bytes"@)
        },
{
}

/// What was read of a database file is used if and only if it has the declared
/// length.
pub proof fn law_database_file_content(
    read: Result<Vec<u8>, String>,
    declared_len: u64,
    result: Result<Vec<u8>, String>,
)
    requires
        call_ensures(mmdb::read_mmdb, (read, declared_len), result),
    ensures
        declared_len >= u64::MAX || declared_len >= usize::MAX ==> (result matches Err(e) && e@
            == "MMDB size is not supported"@),
        declared_len < u64::MAX && declared_len < usize::MAX ==> match read {
            Ok(bytes) => {
                &&& bytes@.len() == declared_len ==> result == Ok::<Vec<u8>, String>(bytes)
                &&& bytes@.len() != declared_len ==> (result matches Err(e) && e@
                    == "MMDB changed while reading"@)
            },
            Err(error) => result matches Err(e) && e@ == "cannot read MMDB: "@ + error@,
        },
{
}

/// Whether the last part of a database type is the expected one, apart from
/// ASCII case.
pub open spec fn right_type(database_type: Seq<char>, expected: Seq<char>) -> bool {
    exists|part: Seq<char>| #[trigger]
        texts::last_part(part, database_type, '-') && texts::same_letters(part, expected)
}

proof fn lemma_right_type(database_type: Seq<char>, expected: Seq<char>)
    ensures
        mmdb::type_matches(database_type, expected) <==> right_type(database_type, expected),
{
    let part = text::behind_last(database_type, '-');
    texts::law_behind_last(database_type, '-', part);
    texts::law_same_ignoring_case(part, expected);
    if right_type(database_type, expected) {
        let other = choose|other: Seq<char>| #[trigger]
            texts::last_part(other, database_type, '-') && texts::same_letters(other, expected);
        texts::law_behind_last(database_type, '-', other);
    }
}

/// The refusal of a database of another type.
pub open spec fn wrong_type(database_type: Seq<char>, expected: Seq<char>) -> Seq<char> {
    "MMDB type '"@ + database_type + "' does not match "@ + expected
}

/// A verified database is passed on, itself and unchanged, if and only if its
/// type is the expected one.
pub proof fn law_verified_database(
    verified: Result<MmdbReader, String>,
    expected: &str,
    result: Result<MmdbReader, String>,
)
    requires
        call_ensures(mmdb::check_reader, (verified, expected), result),
    ensures
        verified matches Err(error) ==> (result matches Err(e) && e@
            == "MMDB integrity verification failed: "@ + error@),
        verified matches Ok(reader) ==> if right_type(
            mmdb::mmdb_type(mmdb::mmdb_source(reader)),
            expected@,
        ) {
            result == Ok::<MmdbReader, String>(reader)
        } else {
            result matches Err(e) && e@ == wrong_type(
                mmdb::mmdb_type(mmdb::mmdb_source(reader)),
                expected@,
            )
        },
{
    if let Ok(reader) = verified {
        lemma_right_type(mmdb::mmdb_type(mmdb::mmdb_source(reader)), expected@);
    }
}

/// Whether `maxminddb` finds no fault in these bytes, neither when it parses
/// them nor when it verifies what it parsed.
pub open spec fn faultless(bytes: Vec<u8>) -> bool {
    &&& forall|answer: Result<ParsedReader, MaxMindDbError>| #[trigger]
        mmdb::parser_answer(bytes, answer) ==> answer is Ok
    &&& forall|parsed: ParsedReader, answer: Result<MmdbReader, MaxMindDbError>| #[trigger]
        mmdb::verifier_answer(parsed, answer) && mmdb::parsed_source(parsed) == bytes@
            ==> answer is Ok
}

/// Bytes in which `maxminddb` finds no fault are opened if their type is the
/// expected one, and refused for their type alone if it is not: of whatever
/// length they are.
pub proof fn law_faultless_database_is_opened(
    bytes: Vec<u8>,
    expected: &str,
    result: Result<MmdbReader, String>,
)
    requires
        call_ensures(mmdb::open_reader, (bytes, expected), result),
        faultless(bytes),
    ensures
        if right_type(mmdb::mmdb_type(bytes@), expected@) {
            result matches Ok(reader) && mmdb::mmdb_source(reader) == bytes@
        } else {
            result matches Err(e) && e@ == wrong_type(mmdb::mmdb_type(bytes@), expected@)
        },
{
    lemma_right_type(mmdb::mmdb_type(bytes@), expected@);
    let answer = choose|answer: Result<ParsedReader, MaxMindDbError>| #[trigger]
        mmdb::parser_answer(bytes, answer) && match answer {
            Err(error) => exists|text: String| #[trigger]
                mmdb::worded(error, text) && (result matches Err(e) && e@ == "invalid MMDB: "@
                    + text@),
            Ok(reader) => mmdb::verifying(reader, expected@, result),
        };
    mmdb::lemma_parsed_source(bytes, answer->Ok_0);
    lemma_verified(answer->Ok_0, expected@, result);
}

proof fn lemma_verified(
    parsed: ParsedReader,
    expected: Seq<char>,
    result: Result<MmdbReader, String>,
)
    requires
        mmdb::verifying(parsed, expected, result),
    ensures
        result is Ok ==> mmdb::mmdb_source(result->Ok_0) == mmdb::parsed_source(parsed),
        result is Ok ==> mmdb::verifier_answer(parsed, Ok(result->Ok_0)),
{
    let answer = choose|answer: Result<MmdbReader, MaxMindDbError>| #[trigger]
        mmdb::verifier_answer(parsed, answer) && match answer {
            Err(error) => exists|text: String| #[trigger]
                mmdb::worded(error, text) && (result matches Err(e) && e@
                    == "MMDB integrity verification failed: "@ + text@),
            Ok(reader) => if mmdb::type_matches(
                mmdb::mmdb_type(mmdb::parsed_source(parsed)),
                expected,
            ) {
                result == Ok::<MmdbReader, String>(reader)
            } else {
                result matches Err(e) && e@ == mmdb::type_message(
                    mmdb::mmdb_type(mmdb::parsed_source(parsed)),
                    expected,
                )
            },
        };
    if let Ok(reader) = answer {
        mmdb::lemma_verified_source(parsed, reader);
    }
}

/// Whether a message passes on the fault that `maxminddb` found when it parsed
/// these bytes.
pub open spec fn parse_failure(bytes: Vec<u8>, message: Seq<char>) -> bool {
    exists|error: MaxMindDbError, text: String|
        mmdb::parser_answer(bytes, Err(error)) && #[trigger] mmdb::worded(error, text) && message
            == "invalid MMDB: "@ + text@
}

/// Whether a message passes on the fault that `maxminddb` found when it verified
/// a parsed database.
pub open spec fn verification_failure(parsed: ParsedReader, message: Seq<char>) -> bool {
    exists|error: MaxMindDbError, text: String|
        mmdb::verifier_answer(parsed, Err(error)) && #[trigger] mmdb::worded(error, text)
            && message == "MMDB integrity verification failed: "@ + text@
}

/// A refusal comes from the parser, from the verifier or from the type, and
/// from nothing else; and a database that is accepted was parsed from the given
/// bytes, verified, and is of the expected type.
pub proof fn law_refusals_of_databases(
    bytes: Vec<u8>,
    expected: &str,
    result: Result<MmdbReader, String>,
)
    requires
        call_ensures(mmdb::open_reader, (bytes, expected), result),
    ensures
        result matches Err(message) ==> {
            ||| parse_failure(bytes, message@)
            ||| exists|parsed: ParsedReader| #[trigger]
                mmdb::parser_answer(bytes, Ok(parsed)) && verification_failure(parsed, message@)
            ||| !right_type(mmdb::mmdb_type(bytes@), expected@) && message@ == wrong_type(
                mmdb::mmdb_type(bytes@),
                expected@,
            )
        },
        result matches Ok(reader) ==> {
            &&& exists|parsed: ParsedReader| #[trigger]
                mmdb::parser_answer(bytes, Ok(parsed)) && mmdb::verifier_answer(parsed, Ok(reader))
            &&& mmdb::mmdb_source(reader) == bytes@
            &&& right_type(mmdb::mmdb_type(bytes@), expected@)
        },
{
    lemma_right_type(mmdb::mmdb_type(bytes@), expected@);
    let answer = choose|answer: Result<ParsedReader, MaxMindDbError>| #[trigger]
        mmdb::parser_answer(bytes, answer) && match answer {
            Err(error) => exists|text: String| #[trigger]
                mmdb::worded(error, text) && (result matches Err(e) && e@ == "invalid MMDB: "@
                    + text@),
            Ok(reader) => mmdb::verifying(reader, expected@, result),
        };
    if let Ok(parsed) = answer {
        assert(mmdb::parser_answer(bytes, Ok(parsed)));
        mmdb::lemma_parsed_source(bytes, parsed);
        lemma_verified(parsed, expected@, result);
    }
}

/// A regular file of at most 256 MiB, read whole, that `maxminddb` finds no
/// fault in and that is of the expected type, is loaded.
pub proof fn law_database_file_is_loaded(
    metadata: FileMetadata,
    bytes: Vec<u8>,
    expected: &str,
    declared_len: Result<u64, String>,
    content: Result<Vec<u8>, String>,
    opened: Result<MmdbReader, String>,
    update: ReaderUpdate,
)
    requires
        metadata.is_file,
        1 <= metadata.len <= 268_435_456,
        bytes@.len() == metadata.len,
        faultless(bytes),
        call_ensures(mmdb::inspect_mmdb, (Ok(metadata),), declared_len),
        call_ensures(mmdb::read_mmdb, (Ok(bytes), metadata.len), content),
        call_ensures(mmdb::open_reader, (bytes, expected), opened),
        call_ensures(mmdb::load_reader_update, (Some(opened),), update),
    ensures
        declared_len == Ok::<u64, String>(metadata.len),
        content == Ok::<Vec<u8>, String>(bytes),
        right_type(mmdb::mmdb_type(bytes@), expected@) ==> (
        update matches ReaderUpdate::Loaded(reader) && mmdb::mmdb_source(reader) == bytes@),
{
    law_faultless_database_is_opened(bytes, expected, opened);
}

/// A file that is not there is a missing update; one that was opened is loaded;
/// one that was refused is invalid, for the reason of its refusal.
pub proof fn law_update_follows_the_file(
    opened: Option<Result<MmdbReader, String>>,
    update: ReaderUpdate,
)
    requires
        call_ensures(mmdb::load_reader_update, (opened,), update),
    ensures
        opened is None ==> update is Missing,
        opened matches Some(Ok(reader)) ==> update == ReaderUpdate::Loaded(reader),
        opened matches Some(Err(error)) ==> update == ReaderUpdate::Invalid(error),
{
}

/// What could not be parsed is refused with the parser's reason; what could is
/// verified by `maxminddb` before anything else is decided.
pub proof fn law_parsed_database(
    parsed: Result<ParsedReader, String>,
    expected: &str,
    result: Result<MmdbReader, String>,
)
    requires
        call_ensures(mmdb::verify_reader, (parsed, expected), result),
    ensures
        parsed matches Err(error) ==> (result matches Err(e) && e@ == "invalid MMDB: "@ + error@),
        parsed matches Ok(reader) ==> {
            &&& result matches Ok(verified) ==> mmdb::verifier_answer(reader, Ok(verified))
                && right_type(mmdb::mmdb_type(mmdb::parsed_source(reader)), expected@)
            &&& result matches Err(message) ==> verification_failure(reader, message@) || (
            !right_type(mmdb::mmdb_type(mmdb::parsed_source(reader)), expected@) && message@
                == wrong_type(mmdb::mmdb_type(mmdb::parsed_source(reader)), expected@))
        },
{
    if let Ok(reader) = parsed {
        lemma_right_type(mmdb::mmdb_type(mmdb::parsed_source(reader)), expected@);
        lemma_verified(reader, expected@, result);
    }
}

} // verus!
