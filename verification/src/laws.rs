//! What holds of the library as a whole, beyond the contracts of its single
//! functions.
use vstd::prelude::*;
use vstd::string::*;

use crate::checksum;
use crate::facts;
use crate::files::FileMetadata;
use crate::geo_relay;
use crate::geo_relay::{GeoReaderUpdates, GeoReaders, GeoState};
use crate::handoff;
use crate::mmdb;
use crate::mmdb::{IpAddress, MmdbReader, ReaderUpdate};
use crate::rules::{DbRequirements, RuleSet};
use crate::runtime_config;
use crate::runtime_config::{GeoConfig, RuntimeConfig};
use crate::text;

pub mod databases;
pub mod documents;
pub mod handoffs;
pub mod location;
pub mod selection;
pub mod texts;

verus! {

/// No two texts of a list are the same, apart from ASCII case.
pub open spec fn distinct_ignoring_case(list: Seq<Seq<char>>) -> bool {
    forall|i: int, j: int|
        0 <= i < j < list.len() ==> !text::same_ignoring_case(#[trigger] list[i], #[trigger] list[j])
}

/// A text without white space at its ends, and not empty.
pub open spec fn settled_text(s: Seq<char>) -> bool {
    s.len() > 0 && text::trimmed(s) == s
}

/// A list of settled texts that are distinct, apart from ASCII case.
pub open spec fn settled_list(list: Seq<Seq<char>>) -> bool {
    &&& forall|i: int| 0 <= i < list.len() ==> settled_text(#[trigger] list[i])
    &&& distinct_ignoring_case(list)
}

/// What a rule of an accepted document is like.
pub open spec fn sound_rule(
    rule: runtime_config::GeoRuleView,
    servers: Seq<Seq<char>>,
) -> bool {
    &&& settled_text(rule.name)
    &&& vstd::utf8::encode_utf8(rule.name).len() <= runtime_config::MAX_RULE_NAME_BYTES
    &&& settled_text(rule.client_a)
    &&& settled_text(rule.client_b)
    &&& 0 < rule.relays.len() <= runtime_config::MAX_RULE_RELAYS
    &&& settled_list(rule.relays)
    &&& forall|i: int|
        0 <= i < rule.relays.len() ==> text::listed_ignoring_case(servers, #[trigger] rule.relays[i])
}

/// The names of rules.
pub open spec fn rule_names(rules: Seq<runtime_config::GeoRuleView>) -> Seq<Seq<char>> {
    rules.map_values(|rule: runtime_config::GeoRuleView| rule.name)
}

/// What an accepted document is like once it is settled.
pub open spec fn sound_config(config: runtime_config::RuntimeConfigView) -> bool {
    &&& settled_list(config.relay_servers)
    &&& config.geo.rules.len() <= runtime_config::MAX_RULES
    &&& config.geo.enabled ==> {
        &&& config.geo.rules.len() > 0
        &&& config.relay_servers.len() > 0
        &&& distinct_ignoring_case(rule_names(config.geo.rules))
        &&& forall|i: int|
            0 <= i < config.geo.rules.len() ==> sound_rule(
                #[trigger] config.geo.rules[i],
                config.relay_servers,
            )
    }
}

proof fn lemma_trimmed_all_is_settled(values: Seq<Seq<char>>)
    ensures
        text::trimmed_all(text::trimmed_all(values)) == text::trimmed_all(values),
{
    assert forall|i: int| 0 <= i < values.len() implies text::trimmed(
        #[trigger] text::trimmed_all(values)[i],
    ) == text::trimmed_all(values)[i] by {
        text::lemma_trimmed_is_settled(values[i]);
    }
    assert(text::trimmed_all(text::trimmed_all(values)) =~= text::trimmed_all(values));
}

proof fn lemma_accepted_list(values: Seq<Seq<char>>, field: Seq<char>)
    requires
        runtime_config::list_fault(values, field) is None,
    ensures
        settled_list(text::trimmed_all(values)),
        runtime_config::list_fault(text::trimmed_all(values), field) is None,
{
    let settled = text::trimmed_all(values);
    let fault = |i: int| runtime_config::value_fault(values, field, i);
    let again = |i: int| runtime_config::value_fault(settled, field, i);
    text::lemma_first_fault_sound(values.len(), fault, 0);
    lemma_trimmed_all_is_settled(values);
    assert forall|i: int| 0 <= i < settled.len() implies settled_text(#[trigger] settled[i]) by {
        assert(fault(i) is None);
        text::lemma_trimmed_is_settled(values[i]);
    }
    assert forall|i: int, j: int| 0 <= i < j < settled.len() implies !text::same_ignoring_case(
        #[trigger] settled[i],
        #[trigger] settled[j],
    ) by {
        assert(fault(j) is None);
        assert(settled.take(j)[i] == settled[i]);
    }
    assert forall|i: int| 0 <= i < settled.len() implies (#[trigger] again(i)) is None by {
        assert(fault(i) is None);
        text::lemma_trimmed_is_settled(values[i]);
    }
    text::lemma_first_fault_sound(settled.len(), again, 0);
}

proof fn lemma_expression_is_settled(value: Seq<char>)
    ensures
        settled_text(runtime_config::expression(value)),
        runtime_config::expression(runtime_config::expression(value))
            == runtime_config::expression(value),
{
    text::lemma_trimmed_is_settled(value);
    if text::trimmed(value).len() == 0 {
        reveal_strlit("*");
        let star = "*"@;
        assert(text::trimmed_start(star) == star);
        assert(text::trimmed_end(star) == star);
    }
}

proof fn lemma_accepted_rule(
    rules: Seq<runtime_config::GeoRuleView>,
    index: int,
    servers: Seq<Seq<char>>,
)
    requires
        0 <= index < rules.len(),
        runtime_config::rule_at(rules, index, servers).1 is None,
    ensures
        sound_rule(runtime_config::rule_at(rules, index, servers).0, servers),
        runtime_config::rule_at(rules, index, servers).0.name == text::trimmed(rules[index].name),
        !text::listed_ignoring_case(
            runtime_config::earlier_names(rules, index),
            text::trimmed(rules[index].name),
        ),
        runtime_config::rule_outcome(
            runtime_config::rule_at(rules, index, servers).0,
            index,
            runtime_config::earlier_names(rules, index),
            servers,
        ) == (runtime_config::rule_at(rules, index, servers).0, None::<Seq<char>>),
{
    let rule = rules[index];
    let settled = runtime_config::rule_at(rules, index, servers).0;
    let name = text::trimmed(rule.name);
    let field = runtime_config::relay_field(name);
    text::lemma_trimmed_is_settled(rule.name);
    lemma_expression_is_settled(rule.client_a);
    lemma_expression_is_settled(rule.client_b);
    lemma_accepted_list(rule.relays, field);
    lemma_trimmed_all_is_settled(rule.relays);
    let relays = text::trimmed_all(rule.relays);
    let fault = |i: int| runtime_config::relay_fault(name, relays, servers, i);
    text::lemma_first_fault_sound(relays.len(), fault, 0);
    assert forall|i: int| 0 <= i < relays.len() implies text::listed_ignoring_case(
        servers,
        #[trigger] relays[i],
    ) by {
        assert(fault(i) is None);
    }
    assert(settled.relays == relays);
    assert(runtime_config::list_settled(relays, field) == relays);
    assert(runtime_config::with_expressions(settled) == settled);
}

proof fn lemma_accepted_rules(
    rules: Seq<runtime_config::GeoRuleView>,
    servers: Seq<Seq<char>>,
)
    requires
        runtime_config::rules_fault(rules, servers) is None,
    ensures
        forall|i: int|
            0 <= i < rules.len() ==> sound_rule(
                #[trigger] runtime_config::rules_settled(rules, servers)[i],
                servers,
            ),
        distinct_ignoring_case(rule_names(runtime_config::rules_settled(rules, servers))),
        runtime_config::rules_fault(runtime_config::rules_settled(rules, servers), servers) is None,
        runtime_config::rules_settled(runtime_config::rules_settled(rules, servers), servers)
            == runtime_config::rules_settled(rules, servers),
{
    let settled = runtime_config::rules_settled(rules, servers);
    let fault = |i: int| runtime_config::rule_at(rules, i, servers).1;
    let again = |i: int| runtime_config::rule_at(settled, i, servers).1;
    text::lemma_first_fault_sound(rules.len(), fault, 0);
    assert forall|i: int| 0 <= i < rules.len() implies {
        &&& sound_rule(#[trigger] settled[i], servers)
        &&& settled[i].name == text::trimmed(rules[i].name)
        &&& !text::listed_ignoring_case(
            runtime_config::earlier_names(rules, i),
            text::trimmed(rules[i].name),
        )
    } by {
        assert(fault(i) is None);
        lemma_accepted_rule(rules, i, servers);
    }
    assert forall|i: int, j: int| 0 <= i < j < settled.len() implies !text::same_ignoring_case(
        #[trigger] rule_names(settled)[i],
        #[trigger] rule_names(settled)[j],
    ) by {
        assert(settled[i].name == text::trimmed(rules[i].name));
        assert(settled[j].name == text::trimmed(rules[j].name));
        assert(runtime_config::earlier_names(rules, j)[i] == text::trimmed(rules[i].name));
    }
    assert forall|i: int| 0 <= i < settled.len() implies #[trigger] again(i) is None
        && runtime_config::rule_at(settled, i, servers).0 == settled[i] by {
        assert(fault(i) is None);
        lemma_accepted_rule(rules, i, servers);
        assert forall|j: int| 0 <= j < i implies text::trimmed(#[trigger] settled[j].name)
            == text::trimmed(rules[j].name) by {
            text::lemma_trimmed_is_settled(rules[j].name);
            assert(settled[j].name == text::trimmed(rules[j].name));
        }
        assert(runtime_config::earlier_names(settled, i) =~= runtime_config::earlier_names(
            rules,
            i,
        ));
    }
    text::lemma_first_fault_sound(settled.len(), again, 0);
    assert forall|i: int| 0 <= i < settled.len() implies runtime_config::rule_at(
        settled,
        i,
        servers,
    ).0 == #[trigger] settled[i] by {
        assert(again(i) is None);
    }
    assert(runtime_config::rules_settled(settled, servers) =~= settled);
}

/// An accepted document, once settled, holds only trimmed texts that are not
/// blank; its relay servers, the names of its rules and the relays of each rule
/// are distinct apart from ASCII case; its numbers of rules and relays and the
/// length of names keep their bounds; and every relay of a rule is a relay
/// server. Version, revision and switch are those of the document.
pub proof fn law_accepted_config_is_sound(config: runtime_config::RuntimeConfigView)
    requires
        runtime_config::config_fault(config) is None,
    ensures
        sound_config(runtime_config::config_settled(config)),
        runtime_config::config_settled(config).version == config.version,
        runtime_config::config_settled(config).revision == config.revision,
        runtime_config::config_settled(config).geo.enabled == config.geo.enabled,
        runtime_config::config_settled(config).geo.rules.len() == config.geo.rules.len(),
{
    lemma_accepted_list(config.relay_servers, "relayServers"@);
    let servers = text::trimmed_all(config.relay_servers);
    if config.geo.enabled {
        lemma_accepted_rules(config.geo.rules, servers);
    }
}

/// Validating an accepted document again accepts it again and changes nothing.
pub proof fn law_validation_is_idempotent(config: runtime_config::RuntimeConfigView)
    requires
        runtime_config::config_fault(config) is None,
    ensures
        runtime_config::config_fault(runtime_config::config_settled(config)) is None,
        runtime_config::config_settled(runtime_config::config_settled(config))
            == runtime_config::config_settled(config),
{
    lemma_accepted_list(config.relay_servers, "relayServers"@);
    lemma_trimmed_all_is_settled(config.relay_servers);
    let servers = text::trimmed_all(config.relay_servers);
    if config.geo.enabled {
        lemma_accepted_rules(config.geo.rules, servers);
    }
}

/// Whether a compiler answers configurations with the same content alike: it
/// accepts both, or refuses both with the same message.
pub open spec fn answers_alike<R, C: Fn(&GeoConfig) -> Result<RuleSet<R>, String>>(
    compile: C,
) -> bool {
    forall|a: GeoConfig, b: GeoConfig, first: Result<(), String>, second: Result<(), String>|
        a@ == b@ && #[trigger] geo_relay::compile_verdict::<R, C>(compile, a, first)
            && #[trigger] geo_relay::compile_verdict::<R, C>(compile, b, second) ==> match (
            first,
            second,
        ) {
            (Ok(_), Ok(_)) => true,
            (Err(e), Err(f)) => e@ == f@,
            _ => false,
        }
}

/// Validation trims the relay servers of a document and keeps its version, its
/// revision and its switch; rules that are not in force stay as they are.
/// Where the compiler answers alike, what validation accepts it accepts again,
/// and unchanged.
pub proof fn law_accepted_config_is_accepted_again<
    R,
    C: Fn(&GeoConfig) -> Result<RuleSet<R>, String>,
>(
    compile: C,
    config: RuntimeConfig,
    accepted: RuntimeConfig,
    again: Result<RuntimeConfig, String>,
)
    requires
        answers_alike::<R, C>(compile),
        runtime_config::validation::<R, C>(compile, config@, Ok(accepted)),
        runtime_config::validation::<R, C>(compile, accepted@, again),
    ensures
        again matches Ok(same) && same@ == accepted@,
        accepted.version == config.version,
        accepted.revision == config.revision,
        accepted.geo.enabled == config.geo.enabled,
        accepted@.relay_servers == text::trimmed_all(config@.relay_servers),
        accepted@.relay_servers.len() == config@.relay_servers.len(),
        !config.geo.enabled ==> accepted@.geo == config@.geo,
{
    law_validation_is_idempotent(config@);
}

/// A document that was accepted is accepted beside every older revision, with
/// the same content, where the compiler answers alike; beside its own revision
/// and every newer one it is refused as stale. So the revision in force is a
/// threshold and nothing else.
pub proof fn law_revision_is_only_a_threshold<
    R,
    C: Fn(&GeoConfig) -> Result<RuleSet<R>, String>,
>(
    compile: C,
    document: RuntimeConfig,
    copy: RuntimeConfig,
    seen: u64,
    other: u64,
    accepted: RuntimeConfig,
    again: Result<RuntimeConfig, String>,
)
    requires
        answers_alike::<R, C>(compile),
        copy@ == document@,
        runtime_config::acceptance::<R, C>(compile, Ok(document), seen, Ok(accepted)),
        runtime_config::acceptance::<R, C>(compile, Ok(copy), other, again),
    ensures
        accepted.revision == document.revision,
        seen < accepted.revision,
        other < accepted.revision ==> (again matches Ok(same) && same@ == accepted@),
        other >= accepted.revision ==> (again matches Err(e) && e@
            == runtime_config::stale_message(accepted.revision, other)),
{
}

/// A document without content and without Geo rules in force is accepted as it
/// is: the document in force from the start is sound.
pub proof fn law_blank_config_is_accepted(config: runtime_config::RuntimeConfigView)
    requires
        config.relay_servers.len() == 0,
        config.geo.rules.len() == 0,
        !config.geo.enabled,
    ensures
        runtime_config::config_fault(config) is None,
        runtime_config::config_settled(config) == config,
        sound_config(config),
{
    assert(text::trimmed_all(config.relay_servers) =~= config.relay_servers);
}

/// A declared checksum is compared without regard to the case of its digits.
pub proof fn law_checksum_ignores_case(bytes: Seq<u8>, expected: Seq<char>)
    ensures
        text::same_ignoring_case(checksum::checksum(bytes), text::uppercase(expected))
            == text::same_ignoring_case(checksum::checksum(bytes), expected),
        checksum::checksum_form(text::uppercase(expected)) == checksum::checksum_form(expected),
{
    text::lemma_uppercase(expected);
    let shouted = text::uppercase(expected);
    assert forall|i: int| 0 <= i < expected.len() implies text::hex_digit(#[trigger] shouted[i])
        == text::hex_digit(expected[i]) by {}
    if checksum::checksum_form(shouted) {
        assert forall|i: int| 0 <= i < expected.len() implies text::hex_digit(
            #[trigger] expected[i],
        ) by {
            assert(text::hex_digit(shouted[i]));
        }
    }
}

/// Whether a path is a single ordinary component: not empty, without
/// separators of any platform, and neither the current nor the parent
/// directory.
pub open spec fn single_component(path: Seq<char>) -> bool {
    &&& path.len() > 0
    &&& forall|i: int|
        0 <= i < path.len() ==> #[trigger] path[i] != '/' && path[i] != '\\' && path[i] != ':'
            && path[i] != '\0'
    &&& path != "."@
    &&& path != ".."@
}

/// The name of a handoff file never leads out of its directory.
pub proof fn law_handoff_name_is_single_component(file_name: Seq<char>)
    requires
        handoff::handoff_name(file_name),
    ensures
        single_component(file_name),
{
    reveal_strlit(".geo-config-");
    reveal_strlit(".json");
    reveal_strlit(".");
    reveal_strlit("..");
    let prefix = handoff::TEMP_PREFIX@;
    let suffix = handoff::TEMP_SUFFIX@;
    let rest = file_name.skip(prefix.len() as int);
    let nonce = rest.take(rest.len() - suffix.len());
    assert(handoff::name_nonce(file_name) == Some(nonce));
    assert forall|i: int| 0 <= i < file_name.len() implies #[trigger] file_name[i] != '/'
        && file_name[i] != '\\' && file_name[i] != ':' && file_name[i] != '\0' by {
        if i < prefix.len() {
            assert(file_name[i] == prefix[i]);
            assert(i == 0 || i == 1 || i == 2 || i == 3 || i == 4 || i == 5 || i == 6 || i == 7
                || i == 8 || i == 9 || i == 10 || i == 11);
        } else if i < prefix.len() + nonce.len() {
            assert(file_name[i] == nonce[i - prefix.len()]);
            assert(handoff::nonce_char(nonce[i - prefix.len()]));
        } else {
            let k = i - prefix.len() - nonce.len();
            assert(file_name[i] == suffix[k]);
            assert(k == 0 || k == 1 || k == 2 || k == 3 || k == 4);
        }
    }
}

/// A handed-over document that passes every step has the declared length and
/// checksum, comes from a file in its directory, and replaces an older document
/// by a sound one of the supported version.
pub proof fn law_applied_document_is_the_declared_one(
    file_name: Seq<char>,
    declared_len: u64,
    expected_sha256: Seq<char>,
    metadata: FileMetadata,
    bytes: Vec<u8>,
    config: runtime_config::RuntimeConfigView,
    current_revision: u64,
)
    requires
        handoff::request_fault(file_name, declared_len, expected_sha256) is None,
        handoff::inspection_fault(declared_len, Ok(metadata)) is None,
        handoff::read_fault(Ok(bytes), declared_len) is None,
        text::same_ignoring_case(checksum::checksum(bytes@), expected_sha256),
        runtime_config::header_fault(config, current_revision) is None,
        runtime_config::config_fault(config) is None,
    ensures
        single_component(file_name),
        metadata.is_file,
        bytes@.len() == metadata.len == declared_len,
        bytes@.len() <= handoff::MAX_CONFIG_BYTES,
        checksum::checksum_form(expected_sha256),
        text::lowercase(expected_sha256) == text::lowercase(checksum::checksum(bytes@)),
        config.version == runtime_config::CONFIG_VERSION,
        config.revision > current_revision,
        sound_config(runtime_config::config_settled(config)),
{
    law_handoff_name_is_single_component(file_name);
    law_accepted_config_is_sound(config);
}

/// A file that holds more than was declared is refused, whatever it holds, and
/// so is one that holds less: what is accepted has the declared length.
pub proof fn law_read_is_bounded(bytes: Vec<u8>, declared_len: u64)
    requires
        bytes@.len() != declared_len,
    ensures
        handoff::read_fault(Ok(bytes), declared_len) is Some,
        mmdb::read_fault(Ok(bytes), declared_len) is Some,
{
}

/// What facts are like.
pub open spec fn settled_facts(known: facts::FactsView) -> bool {
    &&& known.continent matches Some(code) ==> settled_text(code) && text::uppercase(code) == code
    &&& known.country matches Some(code) ==> settled_text(code) && text::uppercase(code) == code
    &&& settled_list(known.subdivision_codes)
    &&& settled_list(known.subdivision_names)
    &&& settled_list(known.city_names)
    &&& known.asn_org matches Some(name) ==> settled_text(name)
}

proof fn lemma_with_unique(target: Seq<Seq<char>>, value: Seq<char>)
    requires
        settled_list(target),
    ensures
        settled_list(facts::with_unique(target, value)),
{
    text::lemma_trimmed_is_settled(value);
}

proof fn lemma_with_each(target: Seq<Seq<char>>, values: Seq<Option<Seq<char>>>)
    requires
        settled_list(target),
    ensures
        settled_list(facts::with_each(target, values)),
    decreases values.len(),
{
    if values.len() > 0 {
        lemma_with_each(target, values.drop_last());
        if let Some(value) = values.last() {
            lemma_with_unique(facts::with_each(target, values.drop_last()), value);
        }
    }
}

proof fn lemma_with_subdivisions(
    codes: Seq<Seq<char>>,
    names: Seq<Seq<char>>,
    subdivisions: Seq<mmdb::SubdivisionView>,
)
    requires
        settled_list(codes),
        settled_list(names),
    ensures
        settled_list(facts::with_subdivisions(codes, names, subdivisions).0),
        settled_list(facts::with_subdivisions(codes, names, subdivisions).1),
    decreases subdivisions.len(),
{
    if subdivisions.len() > 0 {
        lemma_with_subdivisions(codes, names, subdivisions.drop_last());
        let ahead = facts::with_subdivisions(codes, names, subdivisions.drop_last());
        if let Some(code) = subdivisions.last().iso_code {
            lemma_with_unique(ahead.0, code);
        }
        lemma_with_each(ahead.1, facts::in_order(subdivisions.last().names));
    }
}

proof fn lemma_code(value: Option<Seq<char>>)
    ensures
        facts::code(value) matches Some(code) ==> settled_text(code) && text::uppercase(code)
            == code,
{
    if let Some(value) = value {
        text::lemma_trimmed_is_settled(value);
        text::lemma_uppercase(text::trimmed(value));
    }
}

/// What the databases say of an address comes in normal form: codes in upper
/// case, texts trimmed and not blank, and no list holds a text twice, apart
/// from ASCII case.
pub proof fn law_facts_are_settled(readers: GeoReaders, ip: IpAddress)
    ensures
        settled_facts(geo_relay::facts_of(readers, ip)),
{
    let of_city = geo_relay::city_facts(facts::no_facts(), readers.city, ip);
    if let Some(reader) = readers.city {
        if let Some(record) = mmdb::city_record(mmdb::mmdb_source(reader), ip) {
            lemma_code(record.continent_code);
            lemma_code(record.country_code);
            lemma_with_each(seq![], facts::in_order(record.names));
            lemma_with_subdivisions(seq![], seq![], record.subdivisions);
        }
    }
    assert(settled_facts(of_city));
    if let Some(reader) = readers.country {
        if let Some(record) = mmdb::country_record(mmdb::mmdb_source(reader), ip) {
            lemma_code(record.continent_code);
            lemma_code(record.country_code);
        }
    }
    if let Some(reader) = readers.asn {
        if let Some(record) = mmdb::asn_record(mmdb::mmdb_source(reader), ip) {
            if let Some(name) = record.organization {
                text::lemma_trimmed_is_settled(name);
            }
        }
    }
}

/// A code that the city record gives takes precedence over that of the country
/// record, which fills in where the city record gives none.
pub proof fn law_city_codes_take_precedence(
    readers: GeoReaders,
    ip: IpAddress,
    city: mmdb::CityView,
    country: mmdb::CountryView,
)
    requires
        readers.city matches Some(reader) && mmdb::city_record(mmdb::mmdb_source(reader), ip)
            == Some(city),
        readers.country matches Some(reader) && mmdb::country_record(
            mmdb::mmdb_source(reader),
            ip,
        ) == Some(country),
    ensures
        geo_relay::facts_of(readers, ip).country == (if facts::code(city.country_code) is Some {
            facts::code(city.country_code)
        } else {
            facts::code(country.country_code)
        }),
        geo_relay::facts_of(readers, ip).continent == (if facts::code(city.continent_code) is Some {
            facts::code(city.continent_code)
        } else {
            facts::code(country.continent_code)
        }),
{
}

/// Every database is optional: without any, nothing is known of any address.
pub proof fn law_no_databases_no_facts(readers: GeoReaders, ip: IpAddress)
    requires
        readers.country is None,
        readers.city is None,
        readers.asn is None,
    ensures
        geo_relay::facts_of(readers, ip) == facts::no_facts(),
{
}

/// An update that brings no database keeps the last known-good one, and no
/// update loses one.
pub proof fn law_known_good_database_is_kept(current: Option<MmdbReader>, update: ReaderUpdate)
    ensures
        !(update is Loaded) ==> geo_relay::updated(current, update) == current,
        current is Some ==> geo_relay::updated(current, update) is Some,
{
}

/// There is one warning for each database that an update did not bring.
pub proof fn law_one_warning_for_each_missing_update(
    readers: GeoReaders,
    updates: GeoReaderUpdates,
)
    ensures
        geo_relay::readers_warnings(readers, updates).len() == (if updates.country is Loaded {
            0int
        } else {
            1
        }) + (if updates.city is Loaded {
            0int
        } else {
            1
        }) + (if updates.asn is Loaded {
            0int
        } else {
            1
        }),
{
}

/// Nothing is said of missing databases exactly where the rules have what they
/// need: the country fields can come from the city database too.
pub proof fn law_no_warning_where_needs_are_met(readers: GeoReaders, needs: DbRequirements)
    ensures
        geo_relay::missing_warnings(readers, needs).len() == 0 <==> {
            &&& needs.city ==> readers.city is Some
            &&& needs.asn ==> readers.asn is Some
            &&& needs.country ==> readers.country is Some || readers.city is Some
        },
{
}

/// A state that is switched off selects no relay.
pub proof fn law_disabled_state_selects_nothing<R>(
    state: &GeoState<R>,
    eligible_relays: Seq<String>,
)
    requires
        !state.enabled,
    ensures
        !geo_relay::selects(Some(state), eligible_relays),
{
}

} // verus!
