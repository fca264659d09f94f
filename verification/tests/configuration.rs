use std::io::Read;
use std::sync::Arc;

use geo_relay::checksum::{matches_checksum, validate_sha256};
use geo_relay::files::{read_limit, FileMetadata};
use geo_relay::handoff::{
    apply_document, apply_temporary, open_temporary, read_handoff, validate_temporary_name,
    ApplyOutcome, MAX_CONFIG_BYTES,
};
use geo_relay::names::NameSet;
use geo_relay::rules::{DbRequirements, RuleSet};
use geo_relay::runtime_config::{
    current_revision, default_true, normalize_unique, normalized_expression, snapshot, validate,
    validate_geo, EndpointExpressions, GeoConfig, GeoRuleConfig, RuntimeConfig,
};
use geo_relay::runtime_config;
use serde_json::Value;
use sha2::{Digest, Sha256};

fn any_rules(config: &GeoConfig) -> Result<RuleSet<()>, String> {
    Ok(RuleSet {
        compiled: Some(()),
        count: config.rules.len(),
        needs: DbRequirements { country: true, city: false, asn: false },
    })
}

fn no_rules(_: &GeoConfig) -> Result<RuleSet<()>, String> {
    Err("cannot compile".to_owned())
}

fn texts(value: Option<&Value>) -> Vec<String> {
    match value {
        Some(Value::Array(list)) => list.iter().map(|v| v.as_str().unwrap().to_owned()).collect(),
        _ => Vec::new(),
    }
}

fn expression(value: Option<&Value>) -> String {
    match value {
        Some(v) => v.as_str().unwrap().to_owned(),
        None => EndpointExpressions::default().client_a,
    }
}

fn rule(value: &Value) -> GeoRuleConfig {
    GeoRuleConfig {
        name: value["name"].as_str().unwrap().to_owned(),
        symmetric: value.get("symmetric").map_or(default_true(), |v| v.as_bool().unwrap()),
        matches: EndpointExpressions {
            client_a: expression(value["match"].get("clientA")),
            client_b: expression(value["match"].get("clientB")),
        },
        relays: texts(value.get("relays")),
    }
}

fn document(bytes: &[u8]) -> Result<RuntimeConfig, String> {
    let value: Value = serde_json::from_slice(bytes).map_err(|err| err.to_string())?;
    let mut config = RuntimeConfig::default();
    if let Some(version) = value.get("version") {
        config.version = version.as_u64().unwrap() as u8;
    }
    if let Some(revision) = value.get("revision") {
        config.revision = revision.as_u64().unwrap();
    }
    config.relay_servers = texts(value.get("relayServers"));
    if let Some(geo) = value.get("geo") {
        config.geo.enabled = geo["enabled"].as_bool().unwrap();
        config.geo.rules = geo["rules"].as_array().unwrap().iter().map(rule).collect();
    }
    Ok(config)
}

fn parse_config(bytes: &[u8], current_revision: u64) -> Result<RuntimeConfig, String> {
    runtime_config::parse_config(document(bytes), current_revision, &any_rules)
}

fn valid_json(revision: u64) -> Vec<u8> {
    format!(
        r#"{{"version":1,"revision":{revision},"relayServers":["relay-a:21117"],"geo":{{"enabled":true,"rules":[{{"name":"country","match":{{"clientA":"CN","clientB":"*"}},"relays":["relay-a:21117"]}}]}}}}"#
    )
    .into_bytes()
}

fn strings(list: &[&str]) -> Vec<String> {
    list.iter().map(|s| (*s).to_owned()).collect()
}

fn simple_rule(name: &str, relays: &[&str]) -> GeoRuleConfig {
    GeoRuleConfig {
        name: name.to_owned(),
        symmetric: true,
        matches: EndpointExpressions::default(),
        relays: strings(relays),
    }
}

fn geo(rules: Vec<GeoRuleConfig>) -> GeoConfig {
    GeoConfig { enabled: true, rules }
}

fn geo_error(mut config: GeoConfig, servers: &[&str]) -> String {
    validate_geo(&mut config, &strings(servers), &any_rules).unwrap_err()
}

#[test]
fn parses_versioned_json() {
    let config = parse_config(&valid_json(1), 0).unwrap();
    assert_eq!(config.revision, 1);
    assert_eq!(config.geo.rules.len(), 1);
}

#[test]
fn rejects_stale_revision() {
    let err = parse_config(&valid_json(4), 4).unwrap_err();
    assert!(err.contains("stale Geo config revision"));
    assert_eq!(err, "stale Geo config revision 4; current revision is 4");
}

#[test]
fn rejects_unknown_version() {
    let bytes = br#"{"version":2,"revision":1}"#;
    let err = parse_config(bytes, 0).unwrap_err();
    assert!(err.contains("unsupported Geo config version"));
    assert_eq!(err, "unsupported Geo config version 2; expected 1");
}

#[test]
fn rejects_what_is_not_json() {
    let err = parse_config(b"{", 0).unwrap_err();
    assert!(err.starts_with("invalid Geo config JSON: "));
    assert!(err.len() > "invalid Geo config JSON: ".len());
}

#[test]
fn rejects_path_in_handoff_name() {
    assert!(validate_temporary_name("../.geo-config-a.json").is_err());
    assert!(validate_temporary_name(".geo-config-.json").is_err());
    assert!(validate_temporary_name(".geo-config-a.json").is_ok());
}

#[test]
fn handoff_names_hold_one_plain_nonce() {
    for name in [
        "", ".", "..", ".json", ".geo-config-", ".geo-config-json", ".geo-config-a/b.json",
        ".geo-config-a.json/", ".geo-config-a_b.json", ".geo-config-\u{e9}.json",
        ".geo-config-a.json.json", "geo-config-a.json", ".geo-config-a.JSON",
    ] {
        assert_eq!(
            validate_temporary_name(name).unwrap_err(),
            "invalid Geo config handoff filename"
        );
    }
    assert!(validate_temporary_name(".geo-config--.json").is_ok());
    assert!(validate_temporary_name(".geo-config-aZ-09.json").is_ok());
}

#[test]
fn handoff_read_is_bounded_to_declared_length() {
    let mut endless = std::io::repeat(b'x');
    let mut bytes = Vec::new();
    (&mut endless).take(read_limit(4).unwrap()).read_to_end(&mut bytes).unwrap();
    let err = read_handoff(Ok(bytes), 4).unwrap_err();
    assert!(err.contains("changed while reading"));
}

#[test]
fn handoff_reads_have_the_declared_length() {
    assert_eq!(read_handoff(Ok(vec![1, 2]), 2).unwrap(), vec![1, 2]);
    assert_eq!(
        read_handoff(Ok(vec![1]), 2).unwrap_err(),
        "Geo config handoff changed while reading"
    );
    assert_eq!(
        read_handoff(Err("gone".to_owned()), 2).unwrap_err(),
        "cannot read Geo config handoff: gone"
    );
    assert_eq!(
        read_handoff(Ok(vec![1]), u64::MAX).unwrap_err(),
        "Geo config handoff length is not supported"
    );
    assert_eq!(read_limit(u64::MAX), None);
    assert_eq!(read_limit(0), Some(1));
}

#[test]
fn invalid_geo_relay_reference_rejects_document() {
    let bytes = br#"{"version":1,"revision":1,"relayServers":["relay-a"],"geo":{"enabled":true,"rules":[{"name":"bad","match":{"clientA":"CN","clientB":"JP"},"relays":["relay-b"]}]}}"#;
    let err = parse_config(bytes, 0).unwrap_err();
    assert!(err.contains("absent from relay_servers"));
    assert_eq!(
        err,
        "Geo rule 'bad' references relay 'relay-b' which is absent from relay_servers"
    );
}

#[test]
fn duplicate_rule_names_are_case_insensitive() {
    let bytes = br#"{"version":1,"revision":1,"relayServers":["relay-a"],"geo":{"enabled":true,"rules":[{"name":"China","match":{"clientA":"CN","clientB":"*"},"relays":["relay-a"]},{"name":"china","match":{"clientA":"*","clientB":"CN"},"relays":["relay-a"]}]}}"#;
    let err = parse_config(bytes, 0).unwrap_err();
    assert!(err.contains("duplicate Geo rule name"));
    assert_eq!(err, "duplicate Geo rule name: china");
}

fn hand_over(
    file_name: &str,
    declared_len: u64,
    expected_sha256: &str,
    content: &[u8],
    state: &mut Arc<RuntimeConfig>,
) -> Result<ApplyOutcome, String> {
    let request = apply_temporary(file_name, declared_len, expected_sha256)?;
    assert_eq!(request.file_name(), file_name);
    let mut file = open_temporary(Ok(content))?;
    let read = request.inspected(Ok(FileMetadata { is_file: true, len: content.len() as u64 }))?;
    let mut bytes = Vec::new();
    (&mut file).take(read.limit()).read_to_end(&mut bytes).unwrap();
    let bytes = read.received(Ok(bytes))?;
    let current = current_revision(snapshot(Some(state)).as_deref());
    apply_document(document(&bytes), current, state, &any_rules)
}

#[test]
fn temporary_handoff_checks_length_checksum_and_applies() {
    let file_name = ".geo-config-test-1.json";
    let bytes = valid_json(1);
    let checksum = format!("{:x}", Sha256::digest(&bytes));
    let len = bytes.len() as u64;
    let mut state = Arc::new(RuntimeConfig::default());

    assert_eq!(
        hand_over(file_name, len + 1, &checksum, &bytes, &mut state).err().unwrap(),
        "Geo config handoff length does not match"
    );
    assert_eq!(
        hand_over(file_name, len, "not-a-checksum", &bytes, &mut state).err().unwrap(),
        "Geo config handoff checksum must be 64 hexadecimal characters"
    );
    let other = format!("{:x}", Sha256::digest(b"other"));
    assert_eq!(
        hand_over(file_name, len, &other, &bytes, &mut state).err().unwrap(),
        "Geo config handoff checksum does not match"
    );
    assert_eq!(state.revision, 0);
    let shouted = checksum.to_uppercase();
    let outcome = hand_over(file_name, len, &shouted, &bytes, &mut state).unwrap();
    assert!(outcome.message.contains("revision 1 applied"));
    assert_eq!(outcome.message, "Geo config revision 1 applied with 1 rules");
    assert_eq!(outcome.revision, 1);
    assert_eq!(outcome.relay_servers.as_deref(), Some("relay-a:21117"));
    assert_eq!(state.revision, 1);
    assert_eq!(
        hand_over(file_name, len, &checksum, &bytes, &mut state).err().unwrap(),
        "stale Geo config revision 1; current revision is 1"
    );
}

#[test]
fn handoff_refuses_requests_and_files() {
    let sum = "0".repeat(64);
    let name = ".geo-config-a.json";
    assert_eq!(
        apply_temporary("a.json", 1, &sum).err().unwrap(),
        "invalid Geo config handoff filename"
    );
    assert_eq!(
        apply_temporary(name, MAX_CONFIG_BYTES + 1, &sum).err().unwrap(),
        "Geo config exceeds 524288 bytes"
    );
    assert!(apply_temporary(name, MAX_CONFIG_BYTES, &sum).is_ok());
    assert_eq!(
        open_temporary::<()>(Err("denied".to_owned())).unwrap_err(),
        "cannot open Geo config handoff: denied"
    );
    let request = || apply_temporary(name, 3, &sum).ok().unwrap();
    assert_eq!(
        request().inspected(Err("gone".to_owned())).err().unwrap(),
        "cannot inspect Geo config handoff: gone"
    );
    assert_eq!(
        request().inspected(Ok(FileMetadata { is_file: false, len: 3 })).err().unwrap(),
        "Geo config handoff must be a regular file"
    );
    let read = request().inspected(Ok(FileMetadata { is_file: true, len: 3 })).ok().unwrap();
    assert_eq!(read.limit(), 4);
    assert_eq!(
        read.received(Ok(vec![1, 2, 3, 4])).unwrap_err(),
        "Geo config handoff changed while reading"
    );
}

#[test]
fn checksums_are_those_of_sha256() {
    let empty = "e3b0c44298fc1c149afbf4c8996fb92427ae41e4649b934ca495991b7852b855";
    let abc = "BA7816BF8F01CFEA414140DE5DAE2223B00361A396177A9CB410FF61F20015AD";
    assert!(matches_checksum(b"", empty));
    assert!(matches_checksum(b"abc", abc));
    assert!(!matches_checksum(b"abc", empty));
    assert!(validate_sha256(abc).is_ok());
    assert!(validate_sha256(&abc[1..]).is_err());
    assert!(validate_sha256(&format!("{}g", &abc[1..])).is_err());
    assert!(validate_sha256(&"\u{e9}".repeat(32)).is_err());
}

#[test]
fn only_newer_documents_are_put_in_force() {
    let mut state = Arc::new(RuntimeConfig::default());
    let config = RuntimeConfig { revision: 7, ..RuntimeConfig::default() };
    let outcome = apply_document(Ok(config), 0, &mut state, &no_rules).ok().unwrap();
    assert_eq!(outcome.revision, 7);
    assert_eq!(outcome.relay_servers, None);
    assert_eq!(outcome.message, "Geo config revision 7 applied with 0 rules");
    let before = snapshot(Some(&state)).unwrap();
    for (seen, message) in [
        (5, "stale Geo config revision 6; current revision is 7"),
        (6, "stale Geo config revision 6; current revision is 6"),
    ] {
        let older = RuntimeConfig { revision: 6, ..RuntimeConfig::default() };
        assert_eq!(
            apply_document(Ok(older), seen, &mut state, &any_rules).err().unwrap(),
            message
        );
        assert!(Arc::ptr_eq(&before, &state));
    }
    assert_eq!(snapshot(Some(&state)).unwrap().revision, 7);
    assert!(Arc::ptr_eq(&snapshot(Some(&state)).unwrap(), &state));
    assert!(snapshot(None).is_none());
    assert_eq!(current_revision(None), 0);
}

#[test]
fn only_accepted_documents_are_put_in_force() {
    let mut state = Arc::new(RuntimeConfig::default());
    let before = snapshot(Some(&state)).unwrap();
    assert_eq!(
        apply_document(Err("no JSON".to_owned()), 0, &mut state, &any_rules).err().unwrap(),
        "invalid Geo config JSON: no JSON"
    );
    assert_eq!(
        apply_document(document(&valid_json(1)), 0, &mut state, &no_rules).err().unwrap(),
        "cannot compile"
    );
    let config = RuntimeConfig { version: 2, revision: 1, ..RuntimeConfig::default() };
    assert_eq!(
        apply_document(Ok(config), 0, &mut state, &any_rules).err().unwrap(),
        "unsupported Geo config version 2; expected 1"
    );
    let relay_servers = strings(&["a", " A"]);
    let config = RuntimeConfig { revision: 1, relay_servers, ..RuntimeConfig::default() };
    assert_eq!(
        apply_document(Ok(config), 0, &mut state, &any_rules).err().unwrap(),
        "relayServers contains duplicate value 'A'"
    );
    assert!(Arc::ptr_eq(&before, &state));
    let relay_servers = strings(&[" a", "b\t"]);
    let config = RuntimeConfig { revision: 1, relay_servers, ..RuntimeConfig::default() };
    let outcome = apply_document(Ok(config), 0, &mut state, &any_rules).ok().unwrap();
    assert_eq!(outcome.relay_servers.as_deref(), Some("a,b"));
    assert_eq!(state.relay_servers, strings(&["a", "b"]));
    assert_eq!((state.version, state.revision), (1, 1));
}

#[test]
fn the_revision_in_force_is_only_a_threshold() {
    for seen in [0, 3, 7] {
        let config = parse_config(&valid_json(8), seen).unwrap();
        assert_eq!(config.revision, 8);
        assert_eq!(config.relay_servers, strings(&["relay-a:21117"]));
        assert_eq!(config.geo.rules[0].matches.client_a, "CN");
    }
    for seen in [8, 9, u64::MAX] {
        assert_eq!(
            parse_config(&valid_json(8), seen).unwrap_err(),
            format!("stale Geo config revision 8; current revision is {seen}")
        );
    }
}

#[test]
fn names_are_told_apart_without_regard_to_case() {
    let mut names = NameSet::new();
    assert!(names.insert("Relay-A"));
    assert!(!names.insert("relay-a"));
    assert!(names.insert("Ä") && names.insert("ä"));
    assert!(names.has("RELAY-A") && names.has("ä") && !names.has("relay-b"));
    let names = NameSet::of(&strings(&["One", "two"]));
    assert!(names.has("ONE") && names.has("Two") && !names.has(""));
}

#[test]
fn the_document_in_force_from_the_start_is_accepted() {
    let config = validate(RuntimeConfig::default(), &no_rules).unwrap();
    assert_eq!(config.version, 1);
    assert_eq!(config.revision, 0);
    assert!(config.relay_servers.is_empty());
    assert!(!config.geo.enabled && config.geo.rules.is_empty());
}

#[test]
fn relay_servers_are_trimmed_and_unique() {
    let mut values = strings(&[" a ", "B"]);
    assert!(normalize_unique(&mut values, "relayServers").is_ok());
    assert_eq!(values, strings(&["a", "B"]));
    let mut values = strings(&[" a ", "b", "\tA", " c "]);
    assert_eq!(
        normalize_unique(&mut values, "relayServers").unwrap_err(),
        "relayServers contains duplicate value 'A'"
    );
    assert_eq!(values, strings(&["a", "b", "A", " c "]));
    let mut values = strings(&["a", " \u{3000}"]);
    assert_eq!(
        normalize_unique(&mut values, "x").unwrap_err(),
        "x contains an empty value"
    );
    let config = RuntimeConfig { relay_servers: strings(&["a", ""]), ..RuntimeConfig::default() };
    assert_eq!(
        validate(config, &any_rules).unwrap_err(),
        "relayServers contains an empty value"
    );
}

#[test]
fn expressions_default_to_anything() {
    assert_eq!(normalized_expression(" CN "), "CN");
    assert_eq!(normalized_expression("  "), "*");
    let both = EndpointExpressions::default();
    assert_eq!((both.client_a.as_str(), both.client_b.as_str()), ("*", "*"));
}

#[test]
fn rules_are_refused_with_a_reason() {
    let many: Vec<GeoRuleConfig> = (0..257).map(|i| simple_rule(&i.to_string(), &["a"])).collect();
    assert_eq!(geo_error(geo(many.clone()), &["a"]), "geo.rules must not exceed 256 entries");
    let mut most = geo(many[..256].to_vec());
    assert!(validate_geo(&mut most, &strings(&["a"]), &any_rules).is_ok());
    assert_eq!(geo_error(geo(Vec::new()), &["a"]), "geo.enabled is true but geo.rules is empty");
    assert_eq!(
        geo_error(geo(vec![simple_rule("r", &["a"])]), &[]),
        "geo.enabled is true but relay_servers is empty"
    );
    let long = "\u{e9}".repeat(61);
    assert_eq!(
        geo_error(geo(vec![simple_rule("r", &["a"]), simple_rule(&long, &["a"])]), &["a"]),
        "geo.rules[1].name must contain 1 to 120 bytes"
    );
    assert_eq!(
        geo_error(geo(vec![simple_rule(" ", &["a"])]), &["a"]),
        "geo.rules[0].name must contain 1 to 120 bytes"
    );
    assert_eq!(
        geo_error(geo(vec![simple_rule("r", &["a"; 33])]), &["a"]),
        "Geo rule 'r' must not exceed 32 relays"
    );
    assert_eq!(
        geo_error(geo(vec![simple_rule("r", &["a", "A "])]), &["a"]),
        "Geo rule 'r' relays contains duplicate value 'A'"
    );
    assert_eq!(
        geo_error(geo(vec![simple_rule("r", &[""])]), &["a"]),
        "Geo rule 'r' relays contains an empty value"
    );
    assert_eq!(
        geo_error(geo(vec![simple_rule("r", &[])]), &["a"]),
        "Geo rule 'r' has no relays"
    );
}

#[test]
fn accepted_documents_are_settled() {
    let config = RuntimeConfig {
        revision: 3,
        relay_servers: strings(&[" Relay-A ", "relay-b"]),
        geo: geo(vec![GeoRuleConfig {
            name: " \u{e9}".to_owned() + &"\u{e9}".repeat(59),
            symmetric: false,
            matches: EndpointExpressions { client_a: " CN ".to_owned(), client_b: " ".to_owned() },
            relays: strings(&["relay-a ", "RELAY-B"]),
        }]),
        ..RuntimeConfig::default()
    };
    let once = validate(config, &any_rules).unwrap();
    assert_eq!(once.relay_servers, strings(&["Relay-A", "relay-b"]));
    let rule = &once.geo.rules[0];
    assert_eq!(rule.name, "\u{e9}".repeat(60));
    assert!(!rule.symmetric);
    assert_eq!((rule.matches.client_a.as_str(), rule.matches.client_b.as_str()), ("CN", "*"));
    assert_eq!(rule.relays, strings(&["relay-a", "RELAY-B"]));
    let twice = validate(once.clone(), &any_rules).unwrap();
    assert_eq!(format!("{once:?}"), format!("{twice:?}"));
}

#[test]
fn rules_are_compiled_only_where_enabled() {
    let mut config = geo(vec![simple_rule("r", &["a"])]);
    assert_eq!(
        validate_geo(&mut config, &strings(&["a"]), &no_rules).unwrap_err(),
        "cannot compile"
    );
    let mut config = GeoConfig { enabled: false, rules: vec![simple_rule(" r ", &[])] };
    assert!(validate_geo(&mut config, &[], &no_rules).is_ok());
    assert_eq!(config.rules[0].name, " r ");
    let mut seen = Vec::new();
    let names = std::cell::RefCell::new(&mut seen);
    let watch = |c: &GeoConfig| {
        names.borrow_mut().push(c.rules[0].name.clone());
        any_rules(c)
    };
    let mut config = geo(vec![simple_rule(" r ", &["a"])]);
    assert!(validate_geo(&mut config, &strings(&["a"]), &watch).is_ok());
    assert_eq!(seen, strings(&["r"]));
}
