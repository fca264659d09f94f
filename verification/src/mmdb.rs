//! MaxMind databases: reading, checking and querying them.
use maxminddb::geoip2::{Asn, City, Country, Names};
use maxminddb::{MaxMindDbError, Reader};

use vstd::prelude::*;
use vstd::string::*;

use crate::files;
use crate::files::FileMetadata;
use crate::text;

verus! {

/// Most bytes that a database may have.
pub const MAX_MMDB_BYTES: u64 = 256 * 1024 * 1024;

/// The address of a peer.
#[derive(Clone, Copy, Debug, PartialEq, Eq)]
pub enum IpAddress {
    V4([u8; 4]),
    V6([u8; 16]),
}

/// The error type of the crate `maxminddb`, opaque here.
#[verifier::external_type_specification]
#[verifier::external_body]
pub struct ExMaxMindDbError(MaxMindDbError);

/// A `Reader` of the crate `maxminddb` over a database in memory that was
/// parsed, and not verified yet.
#[verifier::external_body]
pub struct ParsedReader {
    reader: Reader<Vec<u8>>,
}

/// A `Reader` of the crate `maxminddb` over a verified database in memory.
/// `verify` makes the only ones.
#[verifier::external_body]
pub struct MmdbReader {
    reader: Reader<Vec<u8>>,
}

/// The bytes of the database that a parsed reader holds.
pub uninterp spec fn parsed_source(reader: ParsedReader) -> Seq<u8>;

/// The bytes of the database that a verified reader holds.
pub uninterp spec fn mmdb_source(reader: MmdbReader) -> Seq<u8>;

/// The type that the metadata of a database gives.
pub uninterp spec fn mmdb_type(source: Seq<u8>) -> Seq<char>;

/// The city record of an address in a database, where it has one that can be
/// decoded.
pub uninterp spec fn city_record(source: Seq<u8>, address: IpAddress) -> Option<CityView>;

/// The country record of an address in a database, where it has one that can
/// be decoded.
pub uninterp spec fn country_record(source: Seq<u8>, address: IpAddress) -> Option<CountryView>;

/// The network record of an address in a database, where it has one that can
/// be decoded.
pub uninterp spec fn asn_record(source: Seq<u8>, address: IpAddress) -> Option<AsnView>;

/// A name in the languages that are looked at.
pub struct NameRecord<'a> {
    pub english: Option<&'a str>,
    pub simplified_chinese: Option<&'a str>,
    pub japanese: Option<&'a str>,
    pub german: Option<&'a str>,
    pub spanish: Option<&'a str>,
    pub french: Option<&'a str>,
    pub brazilian_portuguese: Option<&'a str>,
    pub russian: Option<&'a str>,
}

/// A subdivision of a country.
pub struct SubdivisionRecord<'a> {
    pub iso_code: Option<&'a str>,
    pub names: NameRecord<'a>,
}

/// What is looked at of a city record.
pub struct CityRecord<'a> {
    pub continent_code: Option<&'a str>,
    pub country_code: Option<&'a str>,
    pub geoname_id: Option<u32>,
    pub names: NameRecord<'a>,
    pub subdivisions: Vec<SubdivisionRecord<'a>>,
}

/// What is looked at of a country record.
pub struct CountryRecord<'a> {
    pub continent_code: Option<&'a str>,
    pub country_code: Option<&'a str>,
}

/// What is looked at of a network record.
pub struct AsnRecord<'a> {
    pub number: Option<u32>,
    pub organization: Option<&'a str>,
}

/// A name as texts.
pub struct NameView {
    pub english: Option<Seq<char>>,
    pub simplified_chinese: Option<Seq<char>>,
    pub japanese: Option<Seq<char>>,
    pub german: Option<Seq<char>>,
    pub spanish: Option<Seq<char>>,
    pub french: Option<Seq<char>>,
    pub brazilian_portuguese: Option<Seq<char>>,
    pub russian: Option<Seq<char>>,
}

/// A subdivision as texts.
pub struct SubdivisionView {
    pub iso_code: Option<Seq<char>>,
    pub names: NameView,
}

/// A city record as texts.
pub struct CityView {
    pub continent_code: Option<Seq<char>>,
    pub country_code: Option<Seq<char>>,
    pub geoname_id: Option<u32>,
    pub names: NameView,
    pub subdivisions: Seq<SubdivisionView>,
}

/// A country record as texts.
pub struct CountryView {
    pub continent_code: Option<Seq<char>>,
    pub country_code: Option<Seq<char>>,
}

/// A network record as texts.
pub struct AsnView {
    pub number: Option<u32>,
    pub organization: Option<Seq<char>>,
}

impl<'a> View for NameRecord<'a> {
    type V = NameView;

    open spec fn view(&self) -> NameView {
        NameView {
            english: text::opt_text(self.english),
            simplified_chinese: text::opt_text(self.simplified_chinese),
            japanese: text::opt_text(self.japanese),
            german: text::opt_text(self.german),
            spanish: text::opt_text(self.spanish),
            french: text::opt_text(self.french),
            brazilian_portuguese: text::opt_text(self.brazilian_portuguese),
            russian: text::opt_text(self.russian),
        }
    }
}

impl<'a> View for SubdivisionRecord<'a> {
    type V = SubdivisionView;

    open spec fn view(&self) -> SubdivisionView {
        SubdivisionView { iso_code: text::opt_text(self.iso_code), names: self.names@ }
    }
}

impl<'a> View for CityRecord<'a> {
    type V = CityView;

    open spec fn view(&self) -> CityView {
        CityView {
            continent_code: text::opt_text(self.continent_code),
            country_code: text::opt_text(self.country_code),
            geoname_id: self.geoname_id,
            names: self.names@,
            subdivisions: self.subdivisions@.map_values(|s: SubdivisionRecord<'a>| s@),
        }
    }
}

impl<'a> View for CountryRecord<'a> {
    type V = CountryView;

    open spec fn view(&self) -> CountryView {
        CountryView {
            continent_code: text::opt_text(self.continent_code),
            country_code: text::opt_text(self.country_code),
        }
    }
}

impl<'a> View for AsnRecord<'a> {
    type V = AsnView;

    open spec fn view(&self) -> AsnView {
        AsnView { number: self.number, organization: text::opt_text(self.organization) }
    }
}

/// The record that a query found and could decode.
pub open spec fn found<T: View>(answer: Result<Option<T>, MaxMindDbError>) -> Option<T::V> {
    match answer {
        Ok(Some(record)) => Some(record@),
        _ => None,
    }
}

/// The `Display` text of a `MaxMindDbError`. Nothing is said of its wording.
#[verifier::external_body]
fn error_text(error: &MaxMindDbError) -> (text: String) {
    error.to_string()
}

/// `Reader::from_source` of the crate `maxminddb`: a reader holds the bytes
/// that it was made from. Which bytes are accepted is left open: it depends on
/// the machine at the limits of its integers and of its clock.
#[verifier::external_body]
fn from_source(bytes: Vec<u8>) -> (result: Result<ParsedReader, MaxMindDbError>)
    ensures
        result matches Ok(reader) ==> parsed_source(reader) == bytes@,
{
    Reader::from_source(bytes).map(|reader| ParsedReader { reader })
}

/// `Reader::verify` of the crate `maxminddb`: where it finds no fault, the same
/// reader passes as verified, with the bytes that it held. Whether it finds one
/// is left open: it walks a hash set of record offsets, and the order decides
/// which fault is met first, and whether a limit on depth is.
#[verifier::external_body]
fn verify(reader: ParsedReader) -> (result: Result<MmdbReader, MaxMindDbError>)
    ensures
        result matches Ok(verified) ==> mmdb_source(verified) == parsed_source(reader),
{
    reader.reader.verify().map(|_| MmdbReader { reader: reader.reader })
}

/// Whether `from_source` answered so when it was asked about these bytes.
pub closed spec fn parser_answer(
    bytes: Vec<u8>,
    answer: Result<ParsedReader, MaxMindDbError>,
) -> bool {
    call_ensures(from_source, (bytes,), answer)
}

/// Whether `verify` answered so when it was asked about this reader.
pub closed spec fn verifier_answer(
    reader: ParsedReader,
    answer: Result<MmdbReader, MaxMindDbError>,
) -> bool {
    call_ensures(verify, (reader,), answer)
}

/// Whether `error_text` worded this error so.
pub closed spec fn worded(error: MaxMindDbError, text: String) -> bool {
    call_ensures(error_text, (&error,), text)
}

/// `Reader::metadata` of the crate `maxminddb`, and its field `database_type`:
/// a function of the bytes of the database, named `mmdb_type`.
#[verifier::external_body]
fn database_type(reader: &MmdbReader) -> (result: String)
    ensures
        result@ == mmdb_type(mmdb_source(*reader)),
{
    reader.reader.metadata().database_type.clone()
}

/// `Reader::lookup` of the crate `maxminddb`, and `LookupResult::decode` to its
/// `geoip2::City`: what is found is a function of the bytes of the database
/// and of the address, named `city_record`.
#[verifier::external_body]
pub(crate) fn find_city<'a>(reader: &'a MmdbReader, address: IpAddress) -> (answer: Result<
    Option<CityRecord<'a>>,
    MaxMindDbError,
>)
    ensures
        found(answer) == city_record(mmdb_source(*reader), address),
{
    let ip = match address { IpAddress::V4(a) => a.into(), IpAddress::V6(a) => a.into() };
    let names = |n: Names<'a>| NameRecord {
        english: n.english, simplified_chinese: n.simplified_chinese, japanese: n.japanese,
        german: n.german, spanish: n.spanish, french: n.french,
        brazilian_portuguese: n.brazilian_portuguese, russian: n.russian,
    };
    Ok(reader.reader.lookup(ip)?.decode::<City>()?.map(|c| CityRecord {
        continent_code: c.continent.code, country_code: c.country.iso_code,
        geoname_id: c.city.geoname_id, names: names(c.city.names),
        subdivisions: c.subdivisions.into_iter()
            .map(|s| SubdivisionRecord { iso_code: s.iso_code, names: names(s.names) }).collect(),
    }))
}

/// `Reader::lookup` of the crate `maxminddb`, and `LookupResult::decode` to its
/// `geoip2::Country`: what is found is a function of the bytes of the database
/// and of the address, named `country_record`.
#[verifier::external_body]
pub(crate) fn find_country<'a>(reader: &'a MmdbReader, address: IpAddress) -> (answer: Result<
    Option<CountryRecord<'a>>,
    MaxMindDbError,
>)
    ensures
        found(answer) == country_record(mmdb_source(*reader), address),
{
    let ip = match address { IpAddress::V4(a) => a.into(), IpAddress::V6(a) => a.into() };
    Ok(reader.reader.lookup(ip)?.decode::<Country>()?.map(|c| CountryRecord {
        continent_code: c.continent.code, country_code: c.country.iso_code,
    }))
}

/// `Reader::lookup` of the crate `maxminddb`, and `LookupResult::decode` to its
/// `geoip2::Asn`: what is found is a function of the bytes of the database and
/// of the address, named `asn_record`.
#[verifier::external_body]
pub(crate) fn find_asn<'a>(reader: &'a MmdbReader, address: IpAddress) -> (answer: Result<
    Option<AsnRecord<'a>>,
    MaxMindDbError,
>)
    ensures
        found(answer) == asn_record(mmdb_source(*reader), address),
{
    let ip = match address { IpAddress::V4(a) => a.into(), IpAddress::V6(a) => a.into() };
    Ok(reader.reader.lookup(ip)?.decode::<Asn>()?.map(|a| AsnRecord {
        number: a.autonomous_system_number, organization: a.autonomous_system_organization,
    }))
}

/// Passes an opened database file on, and words the failure to open it.
pub fn open_mmdb<F>(opened: Result<F, String>) -> (result: Result<F, String>)
    ensures
        match opened {
            Ok(file) => result == Ok::<F, String>(file),
            Err(error) => result matches Err(e) && e@ == "cannot open MMDB: "@ + error@,
        },
{
    match opened {
        Ok(file) => Ok(file),
        Err(error) => {
            let mut message = "cannot open MMDB: ".to_owned();
            message.append(error.as_str());
            Err(message)
        },
    }
}

/// Why an opened database file is refused before it is read.
pub open spec fn inspection_fault(metadata: Result<FileMetadata, String>) -> Option<Seq<char>> {
    match metadata {
        Err(error) => Some("cannot inspect MMDB: "@ + error@),
        Ok(metadata) => if !metadata.is_file {
            Some("MMDB must be a regular file"@)
        } else if metadata.len == 0 || metadata.len > MAX_MMDB_BYTES {
            Some(
                "MMDB size must be between 1 and "@ + text::decimal(MAX_MMDB_BYTES as nat)
                    + " bytes"@,
            )
        } else {
            None
        },
    }
}

/// The length of a database file that is to be read.
pub fn inspect_mmdb(metadata: Result<FileMetadata, String>) -> (declared_len: Result<u64, String>)
    ensures
        match inspection_fault(metadata) {
            Some(message) => declared_len matches Err(e) && e@ == message,
            None => declared_len == Ok::<u64, String>(metadata->Ok_0.len),
        },
{
    match metadata {
        Err(error) => {
            let mut message = "cannot inspect MMDB: ".to_owned();
            message.append(error.as_str());
            Err(message)
        },
        Ok(metadata) => {
            if !metadata.is_file {
                return Err("MMDB must be a regular file".to_owned());
            }
            if metadata.len == 0 || metadata.len > MAX_MMDB_BYTES {
                let mut message = "MMDB size must be between 1 and ".to_owned();
                message.append(text::to_decimal(MAX_MMDB_BYTES).as_str());
                message.append(" bytes");
                return Err(message);
            }
            Ok(metadata.len)
        },
    }
}

/// What the read of a database file is refused for.
pub open spec fn read_fault(read: Result<Vec<u8>, String>, declared_len: u64) -> Option<Seq<char>> {
    if !files::readable_len(declared_len) {
        Some("MMDB size is not supported"@)
    } else {
        match read {
            Err(error) => Some("cannot read MMDB: "@ + error@),
            Ok(bytes) => if bytes@.len() != declared_len {
                Some("MMDB changed while reading"@)
            } else {
                None
            },
        }
    }
}

/// The bytes of a database file, given what a read of up to
/// `files::read_limit` bytes yielded.
pub fn read_mmdb(read: Result<Vec<u8>, String>, declared_len: u64) -> (result: Result<
    Vec<u8>,
    String,
>)
    ensures
        match read_fault(read, declared_len) {
            Some(message) => result matches Err(e) && e@ == message,
            None => result == read,
        },
{
    if files::read_limit(declared_len).is_none() {
        return Err("MMDB size is not supported".to_owned());
    }
    match read {
        Err(error) => {
            let mut message = "cannot read MMDB: ".to_owned();
            message.append(error.as_str());
            Err(message)
        },
        Ok(bytes) => {
            if bytes.len() as u64 != declared_len {
                return Err("MMDB changed while reading".to_owned());
            }
            Ok(bytes)
        },
    }
}

/// Whether the last part of a database type is the expected one, apart from
/// ASCII case.
pub open spec fn type_matches(database_type: Seq<char>, expected: Seq<char>) -> bool {
    text::same_ignoring_case(text::behind_last(database_type, '-'), expected)
}

/// The refusal of a database of another type.
pub open spec fn type_message(database_type: Seq<char>, expected: Seq<char>) -> Seq<char> {
    "MMDB type '"@ + database_type + "' does not match "@ + expected
}

/// Passes a database on whose integrity was verified, if its type is the
/// expected one.
pub fn check_reader(verified: Result<MmdbReader, String>, expected_type: &str) -> (result: Result<
    MmdbReader,
    String,
>)
    ensures
        match verified {
            Err(error) => result matches Err(e) && e@ == "MMDB integrity verification failed: "@
                + error@,
            Ok(reader) => if type_matches(mmdb_type(mmdb_source(reader)), expected_type@) {
                result == Ok::<MmdbReader, String>(reader)
            } else {
                result matches Err(e) && e@ == type_message(
                    mmdb_type(mmdb_source(reader)),
                    expected_type@,
                )
            },
        },
{
    let reader = match verified {
        Ok(reader) => reader,
        Err(error) => {
            let mut message = "MMDB integrity verification failed: ".to_owned();
            message.append(error.as_str());
            return Err(message);
        },
    };
    let database_type = database_type(&reader);
    if !text::eq_ignoring_case(text::after_last(database_type.as_str(), '-'), expected_type) {
        let mut message = "MMDB type '".to_owned();
        message.append(database_type.as_str());
        message.append("' does not match ");
        message.append(expected_type);
        return Err(message);
    }
    Ok(reader)
}

/// What becomes of a database that could be parsed: it is verified, then its
/// type is checked.
pub open spec fn verification(
    source: Seq<u8>,
    expected: Seq<char>,
    result: Result<MmdbReader, String>,
) -> bool {
    match result {
        Ok(reader) => mmdb_source(reader) == source && type_matches(mmdb_type(source), expected),
        Err(e) => {
            ||| exists|error: String|
                e@ == "MMDB integrity verification failed: "@ + #[trigger] error@
            ||| !type_matches(mmdb_type(source), expected) && e@ == type_message(
                mmdb_type(source),
                expected,
            )
        },
    }
}

/// What becomes of a parsed database: `maxminddb` is asked to verify it, and a
/// fault that it finds is the only refusal besides that of another type.
pub open spec fn verifying(
    parsed: ParsedReader,
    expected: Seq<char>,
    result: Result<MmdbReader, String>,
) -> bool {
    exists|answer: Result<MmdbReader, MaxMindDbError>| #[trigger]
        verifier_answer(parsed, answer) && match answer {
            Err(error) => exists|text: String| #[trigger]
                worded(error, text) && (result matches Err(e) && e@
                    == "MMDB integrity verification failed: "@ + text@),
            Ok(reader) => if type_matches(mmdb_type(parsed_source(parsed)), expected) {
                result == Ok::<MmdbReader, String>(reader)
            } else {
                result matches Err(e) && e@ == type_message(
                    mmdb_type(parsed_source(parsed)),
                    expected,
                )
            },
        }
}

/// What becomes of the bytes of a database: `maxminddb` is asked to parse them,
/// and a fault that it finds is the only refusal of bytes that are not verified.
pub open spec fn opening(
    bytes: Vec<u8>,
    expected: Seq<char>,
    result: Result<MmdbReader, String>,
) -> bool {
    exists|answer: Result<ParsedReader, MaxMindDbError>| #[trigger]
        parser_answer(bytes, answer) && match answer {
            Err(error) => exists|text: String| #[trigger]
                worded(error, text) && (result matches Err(e) && e@ == "invalid MMDB: "@ + text@),
            Ok(reader) => verifying(reader, expected, result),
        }
}

/// Passes a parsed database on, once it is verified and its type is checked.
/// Whether the verification succeeds is up to `maxminddb`.
pub fn verify_reader(parsed: Result<ParsedReader, String>, expected_type: &str) -> (result: Result<
    MmdbReader,
    String,
>)
    ensures
        match parsed {
            Err(error) => result matches Err(e) && e@ == "invalid MMDB: "@ + error@,
            Ok(reader) => verification(parsed_source(reader), expected_type@, result),
        },
        parsed matches Ok(reader) ==> verifying(reader, expected_type@, result),
{
    match parsed {
        Err(error) => {
            let mut message = "invalid MMDB: ".to_owned();
            message.append(error.as_str());
            Err(message)
        },
        Ok(reader) => {
            let ghost given = reader;
            let verified = match verify(reader) {
                Ok(reader) => {
                    assert(verifier_answer(given, Ok(reader)));
                    Ok(reader)
                },
                Err(error) => {
                    assert(verifier_answer(given, Err(error)));
                    let text = error_text(&error);
                    assert(worded(error, text));
                    Err(text)
                },
            };
            check_reader(verified, expected_type)
        },
    }
}

/// Opens the database that a file held: parses it, verifies it and checks its
/// type. Whether parsing and verification succeed is up to `maxminddb`.
pub fn open_reader(bytes: Vec<u8>, expected_type: &str) -> (result: Result<MmdbReader, String>)
    ensures
        verification(bytes@, expected_type@, result) || (result matches Err(e) && exists|
            error: String,
        |
            e@ == "invalid MMDB: "@ + #[trigger] error@),
        opening(bytes, expected_type@, result),
{
    let ghost given = bytes;
    let parsed = match from_source(bytes) {
        Ok(reader) => {
            assert(parser_answer(given, Ok(reader)));
            Ok(reader)
        },
        Err(error) => {
            assert(parser_answer(given, Err(error)));
            let text = error_text(&error);
            assert(worded(error, text));
            Err(text)
        },
    };
    verify_reader(parsed, expected_type)
}

/// `parser_answer`, `verifier_answer` and `worded` speak of calls into
/// `maxminddb` and of nothing else.
proof fn law_answers_are_those_of_calls(
    bytes: Vec<u8>,
    parsed: Result<ParsedReader, MaxMindDbError>,
    reader: ParsedReader,
    verified: Result<MmdbReader, MaxMindDbError>,
    error: MaxMindDbError,
    text: String,
)
    ensures
        parser_answer(bytes, parsed) == call_ensures(from_source, (bytes,), parsed),
        verifier_answer(reader, verified) == call_ensures(verify, (reader,), verified),
        worded(error, text) == call_ensures(error_text, (&error,), text),
{
}

/// What was parsed holds the bytes that were given.
pub proof fn lemma_parsed_source(bytes: Vec<u8>, parsed: ParsedReader)
    requires
        parser_answer(bytes, Ok(parsed)),
    ensures
        parsed_source(parsed) == bytes@,
{
}

/// What was verified holds the bytes of what was parsed.
pub proof fn lemma_verified_source(parsed: ParsedReader, verified: MmdbReader)
    requires
        verifier_answer(parsed, Ok(verified)),
    ensures
        mmdb_source(verified) == parsed_source(parsed),
{
}

/// What a look at a database file yielded.
pub enum ReaderUpdate {
    Loaded(MmdbReader),
    Missing,
    Invalid(String),
}

/// The update that follows from opening a database file, where there is one.
pub fn load_reader_update(opened: Option<Result<MmdbReader, String>>) -> (update: ReaderUpdate)
    ensures
        update == (match opened {
            None => ReaderUpdate::Missing,
            Some(Ok(reader)) => ReaderUpdate::Loaded(reader),
            Some(Err(error)) => ReaderUpdate::Invalid(error),
        }),
{
    match opened {
        None => ReaderUpdate::Missing,
        Some(Ok(reader)) => ReaderUpdate::Loaded(reader),
        Some(Err(error)) => ReaderUpdate::Invalid(error),
    }
}

} // verus!
