//! The runtime configuration document: its types and its validation.
use std::sync::Arc;

use vstd::prelude::*;
use vstd::string::*;

use crate::geo_relay;
use crate::names::NameSet;
use crate::rules::RuleSet;
use crate::text;

verus! {

/// The document version that is understood.
pub const CONFIG_VERSION: u8 = 1;

/// A configuration document.
#[derive(Clone, Debug)]
pub struct RuntimeConfig {
    pub version: u8,
    pub revision: u64,
    pub relay_servers: Vec<String>,
    pub geo: GeoConfig,
}

/// The ordered Geo rules, and whether they are in force.
#[derive(Clone, Debug)]
pub struct GeoConfig {
    pub enabled: bool,
    pub rules: Vec<GeoRuleConfig>,
}

/// One Geo rule: whom it matches, and the relays it offers.
#[derive(Clone, Debug)]
pub struct GeoRuleConfig {
    pub name: String,
    pub symmetric: bool,
    pub matches: EndpointExpressions,
    pub relays: Vec<String>,
}

/// The expressions that the two clients have to meet.
#[derive(Clone, Debug)]
pub struct EndpointExpressions {
    pub client_a: String,
    pub client_b: String,
}

/// A rule as texts.
#[verifier::ext_equal]
pub struct GeoRuleView {
    pub name: Seq<char>,
    pub symmetric: bool,
    pub client_a: Seq<char>,
    pub client_b: Seq<char>,
    pub relays: Seq<Seq<char>>,
}

/// The rules as texts.
#[verifier::ext_equal]
pub struct GeoConfigView {
    pub enabled: bool,
    pub rules: Seq<GeoRuleView>,
}

/// A document as texts.
#[verifier::ext_equal]
pub struct RuntimeConfigView {
    pub version: u8,
    pub revision: u64,
    pub relay_servers: Seq<Seq<char>>,
    pub geo: GeoConfigView,
}

impl View for GeoRuleConfig {
    type V = GeoRuleView;

    open spec fn view(&self) -> GeoRuleView {
        GeoRuleView {
            name: self.name@,
            symmetric: self.symmetric,
            client_a: self.matches.client_a@,
            client_b: self.matches.client_b@,
            relays: text::texts(self.relays@),
        }
    }
}

impl View for GeoConfig {
    type V = GeoConfigView;

    open spec fn view(&self) -> GeoConfigView {
        GeoConfigView {
            enabled: self.enabled,
            rules: self.rules@.map_values(|rule: GeoRuleConfig| rule@),
        }
    }
}

impl View for RuntimeConfig {
    type V = RuntimeConfigView;

    open spec fn view(&self) -> RuntimeConfigView {
        RuntimeConfigView {
            version: self.version,
            revision: self.revision,
            relay_servers: text::texts(self.relay_servers@),
            geo: self.geo@,
        }
    }
}

impl Default for RuntimeConfig {
    fn default() -> (config: Self)
        ensures
            config.version == CONFIG_VERSION,
            config.revision == 0,
            config.relay_servers@.len() == 0,
            !config.geo.enabled,
            config.geo.rules@.len() == 0,
    {
        RuntimeConfig {
            version: CONFIG_VERSION,
            revision: 0,
            relay_servers: Vec::new(),
            geo: GeoConfig::default(),
        }
    }
}

impl Default for GeoConfig {
    fn default() -> (config: Self)
        ensures
            !config.enabled,
            config.rules@.len() == 0,
    {
        GeoConfig { enabled: false, rules: Vec::new() }
    }
}

impl Default for EndpointExpressions {
    fn default() -> (expressions: Self)
        ensures
            expressions.client_a@ == "*"@,
            expressions.client_b@ == "*"@,
    {
        EndpointExpressions { client_a: "*".to_owned(), client_b: "*".to_owned() }
    }
}

/// A rule is symmetric unless the document says otherwise.
pub fn default_true() -> (value: bool)
    ensures
        value,
{
    true
}

/// The expression that a text stands for: the text without surrounding white
/// space, or `*` where nothing is left.
pub open spec fn expression(value: Seq<char>) -> Seq<char> {
    if text::trimmed(value).len() == 0 {
        "*"@
    } else {
        text::trimmed(value)
    }
}

/// The normal form of an endpoint expression.
pub fn normalized_expression(value: &str) -> (result: String)
    ensures
        result@ == expression(value@),
{
    let value = text::trim(value);
    if value.is_empty() {
        "*".to_owned()
    } else {
        value.to_owned()
    }
}

/// What is wrong with the value at `i` of a list of names, given those ahead
/// of it: it is blank, or repeats one of them apart from ASCII case.
pub open spec fn value_fault(values: Seq<Seq<char>>, field: Seq<char>, i: int) -> Option<
    Seq<char>,
> {
    let value = text::trimmed(values[i]);
    if value.len() == 0 {
        Some(field + " contains an empty value"@)
    } else if text::listed_ignoring_case(text::trimmed_all(values).take(i), value) {
        Some(field + " contains duplicate value '"@ + value + "'"@)
    } else {
        None
    }
}

/// The first fault in a list of names.
pub open spec fn list_fault(values: Seq<Seq<char>>, field: Seq<char>) -> Option<(int, Seq<char>)> {
    text::first_fault(values.len(), |i: int| value_fault(values, field, i), 0)
}

/// A list of names after its normalization: trimmed up to the first fault,
/// that value included.
pub open spec fn list_settled(values: Seq<Seq<char>>, field: Seq<char>) -> Seq<Seq<char>> {
    match list_fault(values, field) {
        Some((at, _)) => Seq::new(
            values.len(),
            |i: int|
                if i <= at {
                    text::trimmed(values[i])
                } else {
                    values[i]
                },
        ),
        None => text::trimmed_all(values),
    }
}

/// Trims every value of a list and refuses blank values and repetitions.
pub fn normalize_unique(values: &mut Vec<String>, field: &str) -> (result: Result<(), String>)
    ensures
        text::texts(final(values)@) == list_settled(text::texts(old(values)@), field@),
        match list_fault(text::texts(old(values)@), field@) {
            Some((_, message)) => result matches Err(e) && e@ == message,
            None => result is Ok,
        },
{
    let ghost given = text::texts(values@);
    let ghost fault = |i: int| value_fault(given, field@, i);
    let mut seen = NameSet::new();
    let mut i: usize = 0;
    while i < values.len()
        invariant
            given == text::texts(old(values)@),
            fault == (|i: int| value_fault(given, field@, i)),
            values@.len() == given.len(),
            i <= values@.len(),
            seen.wf(),
            seen@ =~= text::trimmed_all(given).take(i as int),
            forall|k: int| 0 <= k < i ==> (#[trigger] values@[k])@ == text::trimmed(given[k]),
            forall|k: int| i <= k < values@.len() ==> (#[trigger] values@[k])@ == given[k],
            forall|k: int| 0 <= k < i ==> (#[trigger] fault(k)) is None,
        decreases values.len() - i,
    {
        let value = text::trim(values[i].as_str()).to_owned();
        let kept = value.clone();
        values[i] = value;
        proof {
            text::lemma_first_fault(given.len(), fault, 0, i as nat);
        }
        if kept.as_str().is_empty() {
            let mut message = field.to_owned();
            message.append(" contains an empty value");
            assert(fault(i as int) == Some(message@));
            assert(text::texts(values@) =~= list_settled(given, field@));
            return Err(message);
        }
        if !seen.insert(kept.as_str()) {
            let mut message = field.to_owned();
            message.append(" contains duplicate value '");
            message.append(kept.as_str());
            message.append("'");
            assert(fault(i as int) == Some(message@));
            assert(text::texts(values@) =~= list_settled(given, field@));
            return Err(message);
        }
        assert(fault(i as int) is None);
        i += 1;
    }
    proof {
        text::lemma_first_fault(given.len(), fault, 0, given.len());
        assert(text::texts(values@) =~= text::trimmed_all(given));
    }
    Ok(())
}

/// Most rules that a configuration may hold.
pub const MAX_RULES: usize = 256;

/// Most relays that a rule may name.
pub const MAX_RULE_RELAYS: usize = 32;

/// Most bytes that the name of a rule may take.
pub const MAX_RULE_NAME_BYTES: usize = 120;

/// How messages call the relay list of a rule.
pub open spec fn relay_field(name: Seq<char>) -> Seq<char> {
    "Geo rule '"@ + name + "' relays"@
}

/// The refusal of a relay that the relay servers do not hold.
pub open spec fn relay_fault(
    name: Seq<char>,
    relays: Seq<Seq<char>>,
    servers: Seq<Seq<char>>,
    i: int,
) -> Option<Seq<char>> {
    if text::listed_ignoring_case(servers, relays[i]) {
        None
    } else {
        Some(
            "Geo rule '"@ + name + "' references relay '"@ + relays[i]
                + "' which is absent from relay_servers"@,
        )
    }
}

/// The first relay of a rule that the relay servers do not hold.
pub open spec fn unknown_relay(
    name: Seq<char>,
    relays: Seq<Seq<char>>,
    servers: Seq<Seq<char>>,
) -> Option<(int, Seq<char>)> {
    text::first_fault(relays.len(), |i: int| relay_fault(name, relays, servers, i), 0)
}

/// The rule with its name in normal form.
pub open spec fn with_name(rule: GeoRuleView) -> GeoRuleView {
    GeoRuleView { name: text::trimmed(rule.name), ..rule }
}

/// The rule with its name and its expressions in normal form.
pub open spec fn with_expressions(rule: GeoRuleView) -> GeoRuleView {
    GeoRuleView {
        client_a: expression(rule.client_a),
        client_b: expression(rule.client_b),
        ..with_name(rule)
    }
}

/// The normalization of the rule at `index`, given the names of the rules
/// ahead of it: the rule as it is left, and the message if it is refused.
pub open spec fn rule_outcome(
    rule: GeoRuleView,
    index: int,
    earlier: Seq<Seq<char>>,
    servers: Seq<Seq<char>>,
) -> (GeoRuleView, Option<Seq<char>>) {
    let name = text::trimmed(rule.name);
    if name.len() == 0 || vstd::utf8::encode_utf8(name).len() > MAX_RULE_NAME_BYTES {
        (
            with_name(rule),
            Some(
                "geo.rules["@ + text::decimal(index as nat)
                    + "].name must contain 1 to 120 bytes"@,
            ),
        )
    } else if text::listed_ignoring_case(earlier, name) {
        (with_name(rule), Some("duplicate Geo rule name: "@ + name))
    } else if rule.relays.len() > MAX_RULE_RELAYS {
        (with_expressions(rule), Some("Geo rule '"@ + name + "' must not exceed 32 relays"@))
    } else {
        let relays = list_settled(rule.relays, relay_field(name));
        let settled = GeoRuleView { relays, ..with_expressions(rule) };
        match list_fault(rule.relays, relay_field(name)) {
            Some((_, message)) => (settled, Some(message)),
            None => if relays.len() == 0 {
                (settled, Some("Geo rule '"@ + name + "' has no relays"@))
            } else {
                match unknown_relay(name, relays, servers) {
                    Some((_, message)) => (settled, Some(message)),
                    None => (settled, None),
                }
            },
        }
    }
}

/// Brings one rule to normal form, or refuses it.
fn settle_rule(
    rule: &mut GeoRuleConfig,
    index: usize,
    names: &mut NameSet,
    relay_set: &NameSet,
) -> (result: Result<(), String>)
    requires
        old(names).wf(),
        relay_set.wf(),
    ensures
        rule_outcome(old(rule)@, index as int, old(names)@, relay_set@) == (
            final(rule)@,
            match result {
                Ok(_) => None,
                Err(e) => Some(e@),
            },
        ),
        result is Ok ==> final(names).wf() && final(names)@ == old(names)@.push(
            text::trimmed(old(rule)@.name),
        ),
{
    let ghost given = rule@;
    let ghost earlier = names@;
    let ghost servers = relay_set@;
    let name = text::trim(rule.name.as_str()).to_owned();
    rule.name = name.clone();
    assert(rule@ == with_name(given));
    let size: usize = name.as_str().as_bytes().len();
    if name.as_str().is_empty() || size > MAX_RULE_NAME_BYTES {
        let mut message = "geo.rules[".to_owned();
        message.append(text::to_decimal(index as u64).as_str());
        message.append("].name must contain 1 to 120 bytes");
        return Err(message);
    }
    if !names.insert(name.as_str()) {
        let mut message = "duplicate Geo rule name: ".to_owned();
        message.append(name.as_str());
        return Err(message);
    }
    let client_a = normalized_expression(rule.matches.client_a.as_str());
    rule.matches.client_a = client_a;
    let client_b = normalized_expression(rule.matches.client_b.as_str());
    rule.matches.client_b = client_b;
    assert(rule@ == with_expressions(given));
    if rule.relays.len() > MAX_RULE_RELAYS {
        let mut message = "Geo rule '".to_owned();
        message.append(name.as_str());
        message.append("' must not exceed 32 relays");
        return Err(message);
    }
    let mut field = "Geo rule '".to_owned();
    field.append(name.as_str());
    field.append("' relays");
    let normalized = normalize_unique(&mut rule.relays, field.as_str());
    if let Err(message) = normalized {
        return Err(message);
    }
    if rule.relays.is_empty() {
        let mut message = "Geo rule '".to_owned();
        message.append(name.as_str());
        message.append("' has no relays");
        return Err(message);
    }
    let ghost relays = text::texts(rule.relays@);
    let ghost fault = |i: int| relay_fault(name@, relays, servers, i);
    let mut i: usize = 0;
    while i < rule.relays.len()
        invariant
            given == old(rule)@,
            relays == text::texts(rule.relays@),
            relay_set.wf(),
            servers == relay_set@,
            earlier == old(names)@,
            names.wf(),
            names@ == earlier.push(name@),
            fault == (|i: int| relay_fault(name@, relays, servers, i)),
            i <= rule.relays@.len(),
            forall|k: int| 0 <= k < i ==> (#[trigger] fault(k)) is None,
            rule@ == (GeoRuleView { relays, ..with_expressions(given) }),
            name@ == text::trimmed(given.name),
            rule_outcome(given, index as int, earlier, servers) == (match unknown_relay(
                name@,
                relays,
                servers,
            ) {
                Some((_, message)) => (rule@, Some(message)),
                None => (rule@, None),
            }),
        decreases rule.relays.len() - i,
    {
        let relay = rule.relays[i].as_str();
        assert(relay@ == relays[i as int]);
        proof {
            text::lemma_first_fault(relays.len(), fault, 0, i as nat);
        }
        if !relay_set.has(relay) {
            let mut message = "Geo rule '".to_owned();
            message.append(name.as_str());
            message.append("' references relay '");
            message.append(relay);
            message.append("' which is absent from relay_servers");
            assert(fault(i as int) == Some(message@));
            return Err(message);
        }
        assert(fault(i as int) is None);
        i += 1;
    }
    proof {
        text::lemma_first_fault(relays.len(), fault, 0, relays.len());
    }
    Ok(())
}

/// The normal forms of the names of the rules ahead of `index`.
pub open spec fn earlier_names(rules: Seq<GeoRuleView>, index: int) -> Seq<Seq<char>> {
    Seq::new(index as nat, |j: int| text::trimmed(rules[j].name))
}

/// `rule_outcome` for a rule among its neighbours.
pub open spec fn rule_at(rules: Seq<GeoRuleView>, index: int, servers: Seq<Seq<char>>) -> (
    GeoRuleView,
    Option<Seq<char>>,
) {
    rule_outcome(rules[index], index, earlier_names(rules, index), servers)
}

/// The first rule that is refused.
pub open spec fn rules_fault(rules: Seq<GeoRuleView>, servers: Seq<Seq<char>>) -> Option<
    (int, Seq<char>),
> {
    text::first_fault(rules.len(), |i: int| rule_at(rules, i, servers).1, 0)
}

/// The rules after their normalization: up to the first one that is refused,
/// that one included, each as its own normalization left it.
pub open spec fn rules_settled(rules: Seq<GeoRuleView>, servers: Seq<Seq<char>>) -> Seq<
    GeoRuleView,
> {
    let last = match rules_fault(rules, servers) {
        Some((at, _)) => at,
        None => rules.len() as int,
    };
    Seq::new(
        rules.len(),
        |i: int|
            if i <= last {
                rule_at(rules, i, servers).0
            } else {
                rules[i]
            },
    )
}

/// Whether the rules of a configuration are looked at one by one.
pub open spec fn rules_examined(config: GeoConfigView, servers: Seq<Seq<char>>) -> bool {
    0 < config.rules.len() <= MAX_RULES && config.enabled && servers.len() > 0
}

/// Why the rules of a configuration are refused before they are compiled.
pub open spec fn geo_fault(config: GeoConfigView, servers: Seq<Seq<char>>) -> Option<Seq<char>> {
    if config.rules.len() > MAX_RULES {
        Some("geo.rules must not exceed 256 entries"@)
    } else if !config.enabled {
        None
    } else if config.rules.len() == 0 {
        Some("geo.enabled is true but geo.rules is empty"@)
    } else if servers.len() == 0 {
        Some("geo.enabled is true but relay_servers is empty"@)
    } else {
        match rules_fault(config.rules, servers) {
            Some((_, message)) => Some(message),
            None => None,
        }
    }
}

/// The Geo configuration after its validation.
pub open spec fn geo_settled(config: GeoConfigView, servers: Seq<Seq<char>>) -> GeoConfigView {
    if rules_examined(config, servers) {
        GeoConfigView { rules: rules_settled(config.rules, servers), ..config }
    } else {
        config
    }
}

/// Brings the rules to normal form, refuses what they must not hold, and has
/// them compiled where they are enabled.
pub fn validate_geo<R, C: Fn(&GeoConfig) -> Result<RuleSet<R>, String>>(
    config: &mut GeoConfig,
    relay_servers: &[String],
    compile: &C,
) -> (verdict: Result<(), String>)
    requires
        forall|c: GeoConfig| call_requires(*compile, (&c,)),
    ensures
        final(config)@ == geo_settled(old(config)@, text::texts(relay_servers@)),
        match geo_fault(old(config)@, text::texts(relay_servers@)) {
            Some(message) => verdict matches Err(e) && e@ == message,
            None => if old(config).enabled {
                geo_relay::compile_verdict::<R, C>(*compile, *final(config), verdict)
            } else {
                verdict is Ok
            },
        },
{
    let ghost given = config@;
    let ghost servers = text::texts(relay_servers@);
    if config.rules.len() > MAX_RULES {
        return Err("geo.rules must not exceed 256 entries".to_owned());
    }
    if !config.enabled {
        return Ok(());
    }
    if config.rules.is_empty() {
        return Err("geo.enabled is true but geo.rules is empty".to_owned());
    }
    if relay_servers.len() == 0 {
        return Err("geo.enabled is true but relay_servers is empty".to_owned());
    }
    let ghost fault = |i: int| rule_at(given.rules, i, servers).1;
    let relay_set = NameSet::of(relay_servers);
    let mut names = NameSet::new();
    let mut i: usize = 0;
    while i < config.rules.len()
        invariant
            given == old(config)@,
            servers == text::texts(relay_servers@),
            rules_examined(given, servers),
            fault == (|i: int| rule_at(given.rules, i, servers).1),
            config.enabled,
            config.rules@.len() == given.rules.len(),
            i <= config.rules@.len(),
            relay_set.wf(),
            relay_set@ == servers,
            names.wf(),
            names@ =~= earlier_names(given.rules, i as int),
            forall|k: int|
                0 <= k < i ==> (#[trigger] config.rules@[k])@ == rule_at(
                    given.rules,
                    k,
                    servers,
                ).0,
            forall|k: int|
                i <= k < config.rules@.len() ==> (#[trigger] config.rules@[k])@ == given.rules[k],
            forall|k: int| 0 <= k < i ==> (#[trigger] fault(k)) is None,
        decreases config.rules.len() - i,
    {
        proof {
            text::lemma_first_fault(given.rules.len(), fault, 0, i as nat);
        }
        let settled = settle_rule(&mut config.rules[i], i, &mut names, &relay_set);
        if let Err(message) = settled {
            assert(fault(i as int) == Some(message@));
            assert(config@.rules =~= rules_settled(given.rules, servers));
            return Err(message);
        }
        assert(fault(i as int) is None);
        i += 1;
    }
    proof {
        text::lemma_first_fault(given.rules.len(), fault, 0, given.rules.len());
        assert(config@.rules =~= rules_settled(given.rules, servers));
    }
    geo_relay::validate_config(config, compile)
}

/// Why a document is refused before its rules are compiled.
pub open spec fn config_fault(config: RuntimeConfigView) -> Option<Seq<char>> {
    match list_fault(config.relay_servers, "relayServers"@) {
        Some((_, message)) => Some(message),
        None => geo_fault(config.geo, text::trimmed_all(config.relay_servers)),
    }
}

/// The document that an accepted document stands for.
pub open spec fn config_settled(config: RuntimeConfigView) -> RuntimeConfigView {
    let relay_servers = text::trimmed_all(config.relay_servers);
    RuntimeConfigView { relay_servers, geo: geo_settled(config.geo, relay_servers), ..config }
}

/// What the validation of a document answers: the message of its fault; else
/// what the compiler said of its settled rules, where they are enabled; else
/// the settled document.
pub open spec fn validation<R, C: Fn(&GeoConfig) -> Result<RuleSet<R>, String>>(
    compile: C,
    config: RuntimeConfigView,
    result: Result<RuntimeConfig, String>,
) -> bool {
    match config_fault(config) {
        Some(message) => result matches Err(e) && e@ == message,
        None => if config.geo.enabled {
            exists|geo: GeoConfig, verdict: Result<(), String>| #[trigger]
                geo_relay::compile_verdict::<R, C>(compile, geo, verdict) && geo@ == config_settled(
                    config,
                ).geo && match verdict {
                    Ok(_) => result matches Ok(c) && c@ == config_settled(config) && c.geo == geo,
                    Err(e) => result == Err::<RuntimeConfig, String>(e),
                }
        } else {
            result matches Ok(c) && c@ == config_settled(config)
        },
    }
}

/// Normalizes a document, or says why it is refused.
pub fn validate<R, C: Fn(&GeoConfig) -> Result<RuleSet<R>, String>>(
    config: RuntimeConfig,
    compile: &C,
) -> (result: Result<RuntimeConfig, String>)
    requires
        forall|c: GeoConfig| call_requires(*compile, (&c,)),
    ensures
        validation::<R, C>(*compile, config@, result),
{
    let mut config = config;
    let ghost given = config@;
    let normalized = normalize_unique(&mut config.relay_servers, "relayServers");
    if let Err(message) = normalized {
        return Err(message);
    }
    let verdict = validate_geo(&mut config.geo, &config.relay_servers, compile);
    match verdict {
        Ok(_) => {
            assert(config@ == config_settled(given) || config_fault(given) is Some);
            Ok(config)
        },
        Err(message) => Err(message),
    }
}

/// The refusal of a document that is not newer than the one in force.
pub open spec fn stale_message(revision: u64, current: u64) -> Seq<char> {
    "stale Geo config revision "@ + text::decimal(revision as nat) + "; current revision is "@
        + text::decimal(current as nat)
}

/// The refusal of a document that is not newer than the one in force.
pub fn stale_revision(revision: u64, current: u64) -> (message: String)
    ensures
        message@ == stale_message(revision, current),
{
    let mut message = "stale Geo config revision ".to_owned();
    message.append(text::to_decimal(revision).as_str());
    message.append("; current revision is ");
    message.append(text::to_decimal(current).as_str());
    message
}

/// Why a parsed document is refused before it is validated.
pub open spec fn header_fault(config: RuntimeConfigView, current_revision: u64) -> Option<
    Seq<char>,
> {
    if config.version != CONFIG_VERSION {
        Some(
            "unsupported Geo config version "@ + text::decimal(config.version as nat)
                + "; expected "@ + text::decimal(CONFIG_VERSION as nat),
        )
    } else if config.revision <= current_revision {
        Some(stale_message(config.revision, current_revision))
    } else {
        None
    }
}

/// What a parsed document is answered where one of `current_revision` was seen
/// in force: that it cannot be read, the fault of its header, or what its
/// validation answers.
pub open spec fn acceptance<R, C: Fn(&GeoConfig) -> Result<RuleSet<R>, String>>(
    compile: C,
    parsed: Result<RuntimeConfig, String>,
    current_revision: u64,
    result: Result<RuntimeConfig, String>,
) -> bool {
    match parsed {
        Err(error) => result matches Err(e) && e@ == "invalid Geo config JSON: "@ + error@,
        Ok(config) => match header_fault(config@, current_revision) {
            Some(message) => result matches Err(e) && e@ == message,
            None => validation::<R, C>(compile, config@, result),
        },
    }
}

/// The document that parsing yielded, once its version, its revision and its
/// content are accepted.
pub fn parse_config<R, C: Fn(&GeoConfig) -> Result<RuleSet<R>, String>>(
    parsed: Result<RuntimeConfig, String>,
    current_revision: u64,
    compile: &C,
) -> (result: Result<RuntimeConfig, String>)
    requires
        forall|c: GeoConfig| call_requires(*compile, (&c,)),
    ensures
        acceptance::<R, C>(*compile, parsed, current_revision, result),
        result matches Ok(c) ==> c.version == CONFIG_VERSION && c.revision > current_revision,
{
    let config = match parsed {
        Ok(config) => config,
        Err(error) => {
            let mut message = "invalid Geo config JSON: ".to_owned();
            message.append(error.as_str());
            return Err(message);
        },
    };
    if config.version != CONFIG_VERSION {
        let mut message = "unsupported Geo config version ".to_owned();
        message.append(text::to_decimal(config.version as u64).as_str());
        message.append("; expected ");
        message.append(text::to_decimal(CONFIG_VERSION as u64).as_str());
        return Err(message);
    }
    if config.revision <= current_revision {
        return Err(stale_revision(config.revision, current_revision));
    }
    validate(config, compile)
}

/// `Arc::clone`: another handle on the same document.
#[verifier::external_body]
fn share(config: &Arc<RuntimeConfig>) -> (result: Arc<RuntimeConfig>)
    ensures
        result == *config,
{
    Arc::clone(config)
}

/// The document in force, where its state can be read.
pub fn snapshot(state: Option<&Arc<RuntimeConfig>>) -> (config: Option<Arc<RuntimeConfig>>)
    ensures
        config == (match state {
            Some(current) => Some(*current),
            None => None,
        }),
{
    match state {
        Some(current) => Some(share(current)),
        None => None,
    }
}

/// The revision in force; zero where the state cannot be read.
pub fn current_revision(config: Option<&RuntimeConfig>) -> (revision: u64)
    ensures
        revision == (match config {
            Some(config) => config.revision,
            None => 0,
        }),
{
    match config {
        Some(config) => config.revision,
        None => 0,
    }
}

} // verus!
