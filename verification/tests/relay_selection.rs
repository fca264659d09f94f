use std::io::Read;

use geo_relay::facts::{
    add_asn, add_city, add_country, append_names, push_unique, set_if_empty, GeoFacts,
};
use geo_relay::files::{read_limit, FileMetadata};
use geo_relay::geo_relay::{
    apply_reader_update, lookup_asn, lookup_city, lookup_country, reload, reload_disabled,
    reload_enabled, select_relay, status, validate_config, GeoReaderUpdates, GeoReaders, GeoState,
    ReloadPlan,
};
use geo_relay::mmdb::{
    check_reader, inspect_mmdb, load_reader_update, open_mmdb, open_reader, read_mmdb,
    verify_reader, AsnRecord, CityRecord, CountryRecord, IpAddress, MmdbReader, NameRecord,
    ReaderUpdate, SubdivisionRecord, MAX_MMDB_BYTES,
};
use geo_relay::rules::{DbRequirements, RuleSet, Selection};
use geo_relay::runtime_config::{GeoConfig, RuntimeConfig};

// A database in the MaxMind DB format, with one tree node: addresses with a
// leading zero bit have the record, the others have none.

fn header(kind: u8, size: usize, out: &mut Vec<u8>) {
    assert!(size < 29 + 256);
    let (low, extra) = if size < 29 { (size as u8, None) } else { (29, Some((size - 29) as u8)) };
    if kind <= 7 {
        out.push(kind << 5 | low);
    } else {
        out.push(low);
        out.push(kind - 7);
    }
    out.extend(extra);
}

fn text(s: &str) -> Vec<u8> {
    let mut out = Vec::new();
    header(2, s.len(), &mut out);
    out.extend(s.bytes());
    out
}

fn number(kind: u8, n: u64) -> Vec<u8> {
    let bytes: Vec<u8> = n.to_be_bytes().into_iter().skip_while(|b| *b == 0).collect();
    let mut out = Vec::new();
    header(kind, bytes.len(), &mut out);
    out.extend(bytes);
    out
}

fn uint32(n: u64) -> Vec<u8> {
    number(6, n)
}

fn map(entries: &[(&str, Vec<u8>)]) -> Vec<u8> {
    let mut out = Vec::new();
    header(7, entries.len(), &mut out);
    for (key, value) in entries {
        out.extend(text(key));
        out.extend(value);
    }
    out
}

fn array(items: &[Vec<u8>]) -> Vec<u8> {
    let mut out = Vec::new();
    header(11, items.len(), &mut out);
    for item in items {
        out.extend(item);
    }
    out
}

fn database(database_type: &str, record: Vec<u8>) -> Vec<u8> {
    database_of(4, database_type, record)
}

fn database_of(ip_version: u64, database_type: &str, record: Vec<u8>) -> Vec<u8> {
    let node_count = 1;
    let found = node_count + 16;
    let mut out = vec![0, 0, found, 0, 0, node_count];
    out.extend([0; 16]);
    out.extend(record);
    out.extend(b"\xab\xcd\xefMaxMind.com");
    out.extend(map(&[
        ("binary_format_major_version", number(5, 2)),
        ("binary_format_minor_version", number(5, 0)),
        ("build_epoch", number(9, 1_700_000_000)),
        ("database_type", text(database_type)),
        ("description", map(&[("en", text("test"))])),
        ("ip_version", number(5, ip_version)),
        ("languages", array(&[text("en")])),
        ("node_count", uint32(u64::from(node_count))),
        ("record_size", number(5, 24)),
    ]));
    out
}

fn city_database() -> Vec<u8> {
    database(
        "GeoLite2-City",
        map(&[
            ("city", map(&[
                ("geoname_id", uint32(2643743)),
                ("names", map(&[
                    ("de", text("London")),
                    ("en", text(" London ")),
                    ("fr", text("Londres")),
                    ("zh-CN", text("\u{4f26}\u{6566}")),
                ])),
            ])),
            ("continent", map(&[("code", text("eu"))])),
            ("country", map(&[("iso_code", text(" gb "))])),
            ("subdivisions", array(&[map(&[
                ("iso_code", text("ENG")),
                ("names", map(&[("en", text("England")), ("ru", text("ENGLAND"))])),
            ])])),
        ]),
    )
}

fn country_database() -> Vec<u8> {
    database(
        "GeoLite2-Country",
        map(&[
            ("continent", map(&[("code", text("AS"))])),
            ("country", map(&[("iso_code", text("jp"))])),
        ]),
    )
}

fn asn_database() -> Vec<u8> {
    database(
        "GeoLite2-ASN",
        map(&[
            ("autonomous_system_number", uint32(64500)),
            ("autonomous_system_organization", text(" Example Net ")),
        ]),
    )
}

fn reader(bytes: Vec<u8>, expected_type: &str) -> MmdbReader {
    open_reader(bytes, expected_type).ok().unwrap()
}

fn all_readers() -> GeoReaders {
    GeoReaders {
        country: Some(reader(country_database(), "Country")),
        city: Some(reader(city_database(), "City")),
        asn: Some(reader(asn_database(), "ASN")),
    }
}

const KNOWN: IpAddress = IpAddress::V4([81, 2, 69, 160]);
const UNKNOWN: IpAddress = IpAddress::V4([198, 51, 100, 1]);

fn strings(list: &[&str]) -> Vec<String> {
    list.iter().map(|s| (*s).to_owned()).collect()
}

fn nothing_loaded() -> GeoReaderUpdates {
    GeoReaderUpdates {
        country: ReaderUpdate::Missing,
        city: ReaderUpdate::Missing,
        asn: ReaderUpdate::Missing,
    }
}

fn needs(country: bool, city: bool, asn: bool) -> DbRequirements {
    DbRequirements { country, city, asn }
}

fn compile(config: &GeoConfig) -> Result<RuleSet<Vec<String>>, String> {
    Ok(RuleSet {
        compiled: Some(config.rules.iter().map(|rule| rule.name.clone()).collect()),
        count: config.rules.len(),
        needs: needs(true, true, false),
    })
}

fn refuse(_: &GeoConfig) -> Result<RuleSet<Vec<String>>, String> {
    Err("bad expression".to_owned())
}

fn config(revision: u64, enabled: bool) -> RuntimeConfig {
    RuntimeConfig {
        revision,
        geo: GeoConfig { enabled, rules: Vec::new() },
        ..RuntimeConfig::default()
    }
}

fn no_names() -> NameRecord<'static> {
    NameRecord {
        english: None,
        simplified_chinese: None,
        japanese: None,
        german: None,
        spanish: None,
        french: None,
        brazilian_portuguese: None,
        russian: None,
    }
}

#[test]
fn missing_mmdb_files_are_optional() {
    let mut readers = GeoReaders::default();
    let warnings = readers.apply_updates(nothing_loaded());
    let facts = readers.lookup(IpAddress::V4([198, 51, 100, 1]));
    assert!(facts.country.is_none());
    assert!(facts.city_names.is_empty());
    assert!(facts.asn.is_none());
    assert_eq!(warnings.len(), 3);
    assert_eq!(warnings[0], "Country MMDB is unavailable; related Geo fields are disabled");
}

#[test]
fn oversized_mmdb_is_rejected_before_reading() {
    let error = inspect_mmdb(Ok(FileMetadata { is_file: true, len: MAX_MMDB_BYTES + 1 })).unwrap_err();
    assert!(error.contains("MMDB size"));
    assert_eq!(error, "MMDB size must be between 1 and 268435456 bytes");
    assert_eq!(
        inspect_mmdb(Ok(FileMetadata { is_file: true, len: MAX_MMDB_BYTES })),
        Ok(MAX_MMDB_BYTES)
    );
}

#[test]
fn mmdb_read_is_bounded_to_declared_length() {
    let mut endless = std::io::repeat(b'x');
    let mut bytes = Vec::new();
    (&mut endless).take(read_limit(4).unwrap()).read_to_end(&mut bytes).unwrap();
    let error = read_mmdb(Ok(bytes), 4).unwrap_err();
    assert!(error.contains("changed while reading"));
}

#[test]
fn mmdb_files_are_refused_with_a_reason() {
    assert_eq!(open_mmdb(Ok(5)), Ok(5));
    assert_eq!(
        open_mmdb::<()>(Err("denied".to_owned())).unwrap_err(),
        "cannot open MMDB: denied"
    );
    assert_eq!(inspect_mmdb(Err("gone".to_owned())).unwrap_err(), "cannot inspect MMDB: gone");
    assert_eq!(
        inspect_mmdb(Ok(FileMetadata { is_file: false, len: 4 })).unwrap_err(),
        "MMDB must be a regular file"
    );
    assert!(inspect_mmdb(Ok(FileMetadata { is_file: true, len: 0 })).is_err());
    assert_eq!(read_mmdb(Ok(vec![7]), 1), Ok(vec![7]));
    assert_eq!(read_mmdb(Err("gone".to_owned()), 1).unwrap_err(), "cannot read MMDB: gone");
    assert_eq!(read_mmdb(Ok(vec![]), 1).unwrap_err(), "MMDB changed while reading");
    assert_eq!(read_mmdb(Ok(vec![]), u64::MAX).unwrap_err(), "MMDB size is not supported");
}

#[test]
fn databases_are_checked_when_opened() {
    let error = open_reader(b"no database".to_vec(), "City").err().unwrap();
    assert_eq!(
        error,
        "invalid MMDB: invalid database: could not find MaxMind DB metadata in file"
    );
    let mut torn = city_database();
    torn[10] = 1;
    let error = open_reader(torn, "City").err().unwrap();
    assert!(error.starts_with("MMDB integrity verification failed: "));
    let error = open_reader(country_database(), "City").err().unwrap();
    assert_eq!(error, "MMDB type 'GeoLite2-Country' does not match City");
    assert!(open_reader(country_database(), "COUNTRY").is_ok());
    assert!(check_reader(Ok(reader(asn_database(), "asn")), "Asn").is_ok());
    let error = check_reader(Ok(reader(asn_database(), "asn")), "City");
    assert_eq!(error.err().unwrap(), "MMDB type 'GeoLite2-ASN' does not match City");
    let error = verify_reader(Err("broken".to_owned()), "ASN");
    assert_eq!(error.err().unwrap(), "invalid MMDB: broken");
    let error = check_reader(Err("broken".to_owned()), "ASN");
    assert_eq!(error.err().unwrap(), "MMDB integrity verification failed: broken");
}

#[test]
fn updates_follow_what_was_opened() {
    assert!(matches!(load_reader_update(None), ReaderUpdate::Missing));
    let opened = load_reader_update(Some(open_reader(asn_database(), "ASN")));
    assert!(matches!(opened, ReaderUpdate::Loaded(_)));
    match load_reader_update(Some(Err("broken".to_owned()))) {
        ReaderUpdate::Invalid(error) => assert_eq!(error, "broken"),
        _ => panic!("an error is an invalid update"),
    }
}

#[test]
fn addresses_are_looked_up_in_every_database() {
    let facts = all_readers().lookup(KNOWN);
    assert_eq!(facts.continent.as_deref(), Some("EU"));
    assert_eq!(facts.country.as_deref(), Some("GB"));
    assert_eq!(facts.city_geoname_id, Some(2643743));
    assert_eq!(facts.city_names, strings(&["London", "\u{4f26}\u{6566}", "Londres"]));
    assert_eq!(facts.subdivision_codes, strings(&["ENG"]));
    assert_eq!(facts.subdivision_names, strings(&["England"]));
    assert_eq!(facts.asn, Some(64500));
    assert_eq!(facts.asn_org.as_deref(), Some("Example Net"));
}

#[test]
fn addresses_without_a_record_have_no_facts() {
    for ip in [UNKNOWN, IpAddress::V6([0; 16])] {
        let facts = all_readers().lookup(ip);
        assert_eq!(format!("{facts:?}"), format!("{:?}", GeoFacts::default()));
    }
}

#[test]
fn both_kinds_of_addresses_are_looked_up() {
    let record = map(&[("country", map(&[("iso_code", text("SE"))]))]);
    let readers = GeoReaders {
        country: Some(reader(database_of(6, "Test-Country", record), "Country")),
        ..GeoReaders::default()
    };
    let mut octets = [0; 16];
    octets[0] = 0x20;
    assert_eq!(readers.lookup(IpAddress::V6(octets)).country.as_deref(), Some("SE"));
    assert_eq!(readers.lookup(KNOWN).country.as_deref(), Some("SE"));
    octets[0] = 0xfe;
    assert_eq!(readers.lookup(IpAddress::V6(octets)).country, None);
}

#[test]
fn each_database_adds_its_own_facts() {
    let mut facts = GeoFacts::default();
    lookup_country(&reader(country_database(), "Country"), KNOWN, &mut facts);
    assert_eq!(facts.country.as_deref(), Some("JP"));
    lookup_city(&reader(city_database(), "City"), KNOWN, &mut facts);
    assert_eq!(facts.country.as_deref(), Some("JP"));
    assert_eq!(facts.city_geoname_id, Some(2643743));
    lookup_asn(&reader(asn_database(), "ASN"), KNOWN, &mut facts);
    assert_eq!(facts.asn, Some(64500));
}

#[test]
fn records_fill_in_what_is_not_known() {
    let mut facts = GeoFacts::default();
    let city = CityRecord {
        continent_code: Some(" "),
        country_code: Some(" de"),
        geoname_id: None,
        names: NameRecord { english: Some("Ulm"), german: Some(" ULM"), ..no_names() },
        subdivisions: vec![
            SubdivisionRecord { iso_code: Some("BW"), names: no_names() },
            SubdivisionRecord {
                iso_code: Some("bw "),
                names: NameRecord { russian: Some("r"), japanese: Some("j"), ..no_names() },
            },
            SubdivisionRecord { iso_code: None, names: no_names() },
        ],
    };
    add_city(&mut facts, &city);
    assert_eq!(facts.continent, None);
    assert_eq!(facts.country.as_deref(), Some("DE"));
    assert_eq!(facts.city_names, strings(&["Ulm"]));
    assert_eq!(facts.subdivision_codes, strings(&["BW"]));
    assert_eq!(facts.subdivision_names, strings(&["j", "r"]));
    let country = CountryRecord { continent_code: Some("eu"), country_code: Some("FR") };
    add_country(&mut facts, &country);
    assert_eq!(facts.continent.as_deref(), Some("EU"));
    assert_eq!(facts.country.as_deref(), Some("DE"));
    add_asn(&mut facts, &AsnRecord { number: Some(1), organization: Some("\t") });
    assert_eq!((facts.asn, facts.asn_org), (Some(1), None));
}

#[test]
fn names_come_in_a_fixed_order_without_repetition() {
    let names = NameRecord {
        english: Some("e"),
        simplified_chinese: Some("c"),
        japanese: Some("j"),
        german: Some("g"),
        spanish: Some("s"),
        french: Some("f"),
        brazilian_portuguese: Some("b"),
        russian: Some("r"),
    };
    let mut list = strings(&["G"]);
    append_names(&mut list, &names);
    assert_eq!(list, strings(&["G", "e", "c", "j", "s", "f", "b", "r"]));
    push_unique(&mut list, " E ");
    push_unique(&mut list, "  ");
    push_unique(&mut list, " x ");
    assert_eq!(list.len(), 9);
    assert_eq!(list[8], "x");
    let mut code = None;
    set_if_empty(&mut code, None);
    set_if_empty(&mut code, Some(" "));
    assert_eq!(code, None);
    set_if_empty(&mut code, Some(" a\u{e9} "));
    set_if_empty(&mut code, Some("b"));
    assert_eq!(code.as_deref(), Some("A\u{e9}"));
}

#[test]
fn last_known_good_databases_are_retained() {
    let mut current = None;
    let mut warnings = Vec::new();
    let invalid = || ReaderUpdate::Invalid("torn".to_owned());
    apply_reader_update(&mut current, "City", invalid(), &mut warnings);
    assert!(current.is_none());
    let loaded = ReaderUpdate::Loaded(reader(city_database(), "City"));
    apply_reader_update(&mut current, "City", loaded, &mut warnings);
    assert!(current.is_some());
    apply_reader_update(&mut current, "City", ReaderUpdate::Missing, &mut warnings);
    apply_reader_update(&mut current, "City", invalid(), &mut warnings);
    assert!(current.is_some());
    assert_eq!(
        warnings,
        strings(&[
            "City MMDB is invalid; related Geo fields are disabled: torn",
            "City MMDB is missing; retaining the last known-good reader",
            "City MMDB is invalid; retaining the last known-good reader: torn",
        ])
    );
}

#[test]
fn missing_databases_are_reported_where_rules_need_them() {
    let none = GeoReaders::default();
    assert_eq!(
        none.missing_requirements(needs(true, true, true)),
        strings(&[
            "rules use City fields but the City MMDB is unavailable",
            "rules use ASN/ISP fields but the ASN MMDB is unavailable",
            "rules use Country/Continent fields but neither Country nor City MMDB is available",
        ])
    );
    assert!(none.missing_requirements(needs(false, false, false)).is_empty());
    let city = GeoReaders {
        city: Some(reader(city_database(), "City")),
        ..GeoReaders::default()
    };
    assert!(city.missing_requirements(needs(true, true, false)).is_empty());
    assert!(none.loaded_names().is_empty());
    assert_eq!(
        all_readers().loaded_names(),
        ["GeoLite2-Country.mmdb", "GeoLite2-City.mmdb", "GeoLite2-ASN.mmdb"]
    );
}

#[test]
fn reload_compiles_before_it_changes_anything() {
    match reload(None, &compile) {
        ReloadPlan::Finished(message) => assert_eq!(
            message,
            "Geo relay disabled because runtime config is unavailable; using upstream relay selection"
        ),
        _ => panic!("nothing to load"),
    }
    match reload(Some(&config(1, true)), &refuse) {
        ReloadPlan::Finished(message) => assert_eq!(
            message,
            "Geo relay config is invalid; keeping the previous runtime state: bad expression"
        ),
        _ => panic!("nothing to load"),
    }
    match reload(Some(&config(2, false)), &compile) {
        ReloadPlan::Disable { revision } => assert_eq!(revision, 2),
        _ => panic!("the selection is switched off"),
    }
    match reload(Some(&config(3, true)), &compile) {
        ReloadPlan::Enable { revision, rules } => {
            assert_eq!(revision, 3);
            assert_eq!(rules.len(), 0);
            assert_eq!(rules.requirements(), needs(true, true, false));
        }
        _ => panic!("the selection is switched on"),
    }
    assert_eq!(validate_config(&config(1, true).geo, &refuse).unwrap_err(), "bad expression");
    assert!(validate_config(&config(1, true).geo, &compile).is_ok());
}

#[test]
fn reload_switches_the_selection_on_and_off() {
    let mut state: GeoState<Vec<String>> = GeoState::disabled();
    let updates = GeoReaderUpdates {
        country: ReaderUpdate::Loaded(reader(country_database(), "Country")),
        city: ReaderUpdate::Loaded(reader(city_database(), "City")),
        asn: ReaderUpdate::Loaded(reader(asn_database(), "ASN")),
    };
    let now = config(5, true);
    let rules = RuleSet { count: 2, ..compile(&now.geo).unwrap() };
    assert_eq!(
        reload_enabled(&mut state, Some(&config(6, true)), 5, RuleSet::empty(), nothing_loaded()),
        "Geo relay reload for revision 5 was superseded"
    );
    assert!(!state.enabled && state.readers.city.is_none());
    assert_eq!(
        reload_enabled(&mut state, Some(&now), 5, rules, updates),
        "Geo relay loaded: 2 ordered rules, databases=GeoLite2-Country.mmdb, GeoLite2-City.mmdb, GeoLite2-ASN.mmdb"
    );
    assert!(state.enabled);
    let report = status(Some(&now), Some(&state)).ok().unwrap();
    assert_eq!((report.revision, report.enabled, report.rule_count), (5, true, 2));
    assert!(report.country_available && report.city_available && report.asn_available);
    assert!(report.warnings.is_empty());
    assert_eq!(
        reload_disabled(&mut state, None, 7),
        "Geo relay reload for revision 7 was superseded"
    );
    assert!(state.enabled);
    assert_eq!(
        reload_disabled(&mut state, Some(&config(7, false)), 7),
        "Geo relay disabled by runtime config; using upstream relay selection"
    );
    assert!(!state.enabled && state.readers.city.is_some());
    assert_eq!(state.rules.len(), 0);
}

#[test]
fn reload_reports_what_is_missing() {
    let mut state: GeoState<Vec<String>> = GeoState::disabled();
    let now = config(1, true);
    let rules = compile(&now.geo).unwrap();
    let message = reload_enabled(&mut state, Some(&now), 1, rules, nothing_loaded());
    assert_eq!(state.warnings.len(), 5);
    assert_eq!(
        message,
        format!(
            "Geo relay loaded: 0 ordered rules, databases=none; warnings: {}",
            state.warnings.join("; ")
        )
    );
    let report = status(None, Some(&state)).ok().unwrap();
    assert_eq!(report.revision, 0);
    assert_eq!(report.warnings, state.warnings);
    assert_eq!(
        status::<Vec<String>>(None, None).err().unwrap(),
        r#"{"error":"Geo relay state lock failed"}"#
    );
}

#[test]
fn relays_are_selected_by_the_rules() {
    let mut state: GeoState<Vec<String>> = GeoState::disabled();
    state.readers = all_readers();
    let relays = strings(&["relay-a", "relay-b"]);
    let select = |rules: &RuleSet<Vec<String>>, a: &GeoFacts, b: &GeoFacts, relays: &[String]| {
        assert_eq!(rules.count, 0);
        assert_eq!(b.country, None);
        a.country.as_ref().map(|country| Selection {
            relay: format!("{country}:{}", relays[1]),
            rule_name: "first".to_owned(),
        })
    };
    assert_eq!(select_relay(Some(&state), KNOWN, UNKNOWN, &relays, &select), None);
    state.enabled = true;
    assert_eq!(
        select_relay(Some(&state), KNOWN, UNKNOWN, &relays, &select).as_deref(),
        Some("GB:relay-b")
    );
    assert_eq!(select_relay(Some(&state), UNKNOWN, UNKNOWN, &relays, &select), None);
    assert_eq!(select_relay(Some(&state), KNOWN, UNKNOWN, &[], &select), None);
    assert_eq!(select_relay(None, KNOWN, UNKNOWN, &relays, &select), None);
}
