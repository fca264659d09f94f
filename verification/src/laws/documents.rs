//! Which configuration documents are accepted, what becomes of them, and why
//! others are refused.
use std::sync::Arc;

use vstd::prelude::*;
use vstd::string::*;

use crate::geo_relay;
use crate::laws::texts;
use crate::rules::RuleSet;
use crate::runtime_config;
use crate::runtime_config::{EndpointExpressions, GeoConfig, GeoRuleConfig, RuntimeConfig};
use crate::text;

verus! {

/// Whether no name of a list is blank, and no two are the same apart from ASCII
/// case and surrounding white space.
pub open spec fn names_fit(list: Seq<Seq<char>>) -> bool {
    &&& forall|i: int| 0 <= i < list.len() ==> !texts::blank(#[trigger] list[i])
    &&& forall|i: int, j: int|
        0 <= i < j < list.len() ==> !texts::same_letters(
            text::trimmed(#[trigger] list[i]),
            text::trimmed(#[trigger] list[j]),
        )
}

/// Whether the name of a rule has 1 to 120 bytes without surrounding white
/// space.
pub open spec fn name_fits(name: Seq<char>) -> bool {
    !texts::blank(name) && vstd::utf8::encode_utf8(text::trimmed(name)).len() <= 120
}

/// Whether a rule can be accepted by itself: its name fits, and it has 1 to 32
/// relays, which fit and are all among the relay servers.
pub open spec fn rule_fits(rule: GeoRuleConfig, servers: Seq<Seq<char>>) -> bool {
    &&& name_fits(rule.name@)
    &&& 1 <= rule.relays@.len() <= 32
    &&& names_fit(text::texts(rule.relays@))
    &&& forall|k: int|
        0 <= k < rule.relays@.len() ==> texts::among(
            servers,
            text::trimmed((#[trigger] rule.relays@[k])@),
        )
}

/// Whether no two rules have the same name, apart from ASCII case and
/// surrounding white space.
pub open spec fn rule_names_differ(rules: Seq<GeoRuleConfig>) -> bool {
    forall|i: int, j: int|
        0 <= i < j < rules.len() ==> !texts::same_letters(
            text::trimmed((#[trigger] rules[i]).name@),
            text::trimmed((#[trigger] rules[j]).name@),
        )
}

/// Whether Geo rules can be accepted: there are at most 256; and where they are
/// enabled there is one, there is a relay server, every rule fits, and their
/// names differ.
pub open spec fn geo_fits(geo: GeoConfig, servers: Seq<Seq<char>>) -> bool {
    &&& geo.rules@.len() <= 256
    &&& geo.enabled ==> {
        &&& geo.rules@.len() >= 1
        &&& servers.len() >= 1
        &&& forall|i: int| 0 <= i < geo.rules@.len() ==> rule_fits(#[trigger] geo.rules@[i], servers)
        &&& rule_names_differ(geo.rules@)
    }
}

/// Whether a document can be accepted: its relay servers fit, and so do its Geo
/// rules.
pub open spec fn document_fits(config: RuntimeConfig) -> bool {
    &&& names_fit(text::texts(config.relay_servers@))
    &&& geo_fits(config.geo, text::trimmed_all(text::texts(config.relay_servers@)))
}

/// Whether strings are given ones, each without surrounding white space.
pub open spec fn strings_trimmed(given: Seq<String>, result: Seq<String>) -> bool {
    result.len() == given.len() && forall|i: int|
        0 <= i < given.len() ==> texts::core_of((#[trigger] result[i])@, given[i]@)
}

/// Whether strings are the given ones.
pub open spec fn strings_same(given: Seq<String>, result: Seq<String>) -> bool {
    result.len() == given.len() && forall|i: int|
        0 <= i < given.len() ==> (#[trigger] result[i])@ == given[i]@
}

/// Whether an expression is the given one without surrounding white space, or
/// `*` for a blank one.
pub open spec fn expression_settled(given: Seq<char>, result: Seq<char>) -> bool {
    if texts::blank(given) {
        result == "*"@
    } else {
        texts::core_of(result, given)
    }
}

/// Whether a rule is a given one with its texts in normal form, and otherwise
/// unchanged.
pub open spec fn rule_settled(given: GeoRuleConfig, result: GeoRuleConfig) -> bool {
    &&& result.symmetric == given.symmetric
    &&& texts::core_of(result.name@, given.name@)
    &&& expression_settled(given.matches.client_a@, result.matches.client_a@)
    &&& expression_settled(given.matches.client_b@, result.matches.client_b@)
    &&& strings_trimmed(given.relays@, result.relays@)
}

/// Whether a rule is a given one.
pub open spec fn rule_same(given: GeoRuleConfig, result: GeoRuleConfig) -> bool {
    &&& result.symmetric == given.symmetric
    &&& result.name@ == given.name@
    &&& result.matches.client_a@ == given.matches.client_a@
    &&& result.matches.client_b@ == given.matches.client_b@
    &&& strings_same(given.relays@, result.relays@)
}

/// Whether rules are given ones, one by one in normal form where they are
/// enabled, and as they are where not.
pub open spec fn geo_accepted(given: GeoConfig, result: GeoConfig) -> bool {
    &&& result.enabled == given.enabled
    &&& result.rules@.len() == given.rules@.len()
    &&& forall|i: int|
        0 <= i < given.rules@.len() ==> if given.enabled {
            rule_settled(given.rules@[i], #[trigger] result.rules@[i])
        } else {
            rule_same(given.rules@[i], result.rules@[i])
        }
}

/// Whether a document is a given one in normal form: version, revision and
/// switch are the same, and nothing is added, dropped or moved.
pub open spec fn document_accepted(given: RuntimeConfig, result: RuntimeConfig) -> bool {
    &&& result.version == given.version
    &&& result.revision == given.revision
    &&& strings_trimmed(given.relay_servers@, result.relay_servers@)
    &&& geo_accepted(given.geo, result.geo)
}

proof fn lemma_value_fault(values: Seq<Seq<char>>, field: Seq<char>, i: int)
    requires
        0 <= i < values.len(),
    ensures
        runtime_config::value_fault(values, field, i) is None <==> !texts::blank(values[i]) && (
        forall|j: int|
            0 <= j < i ==> !texts::same_letters(
                text::trimmed(#[trigger] values[j]),
                text::trimmed(values[i]),
            )),
        texts::blank(values[i]) ==> runtime_config::value_fault(values, field, i) == Some(
            field + " contains an empty value"@,
        ),
        !texts::blank(values[i]) && runtime_config::value_fault(values, field, i) is Some
            ==> runtime_config::value_fault(values, field, i) == Some(
            field + " contains duplicate value '"@ + text::trimmed(values[i]) + "'"@,
        ),
{
    let value = text::trimmed(values[i]);
    let ahead = text::trimmed_all(values).take(i);
    texts::law_trimmed_is_the_core(values[i], values[i]);
    texts::law_listed_ignoring_case(ahead, value);
    if texts::among(ahead, value) {
        let j = choose|j: int|
            0 <= j < ahead.len() && texts::same_letters(#[trigger] ahead[j], value);
        assert(texts::same_letters(text::trimmed(values[j]), value));
    } else {
        assert forall|j: int| 0 <= j < i implies !texts::same_letters(
            text::trimmed(#[trigger] values[j]),
            value,
        ) by {
            assert(ahead[j] == text::trimmed(values[j]));
        }
    }
}

proof fn lemma_names_fit(values: Seq<Seq<char>>, field: Seq<char>)
    ensures
        runtime_config::list_fault(values, field) is None <==> names_fit(values),
{
    let fault = |i: int| runtime_config::value_fault(values, field, i);
    text::lemma_first_fault_sound(values.len(), fault, 0);
    if runtime_config::list_fault(values, field) is None {
        assert forall|i: int| 0 <= i < values.len() implies !texts::blank(#[trigger] values[i]) by {
            assert(fault(i) is None);
            lemma_value_fault(values, field, i);
        }
        assert forall|i: int, j: int| 0 <= i < j < values.len() implies !texts::same_letters(
            text::trimmed(#[trigger] values[i]),
            text::trimmed(#[trigger] values[j]),
        ) by {
            assert(fault(j) is None);
            lemma_value_fault(values, field, j);
        }
    }
    if names_fit(values) {
        assert forall|i: int| 0 <= i < values.len() implies (#[trigger] fault(i)) is None by {
            lemma_value_fault(values, field, i);
        }
    }
}

proof fn lemma_unknown_relay(
    name: Seq<char>,
    relays: Seq<Seq<char>>,
    servers: Seq<Seq<char>>,
)
    ensures
        runtime_config::unknown_relay(name, relays, servers) is None <==> forall|k: int|
            0 <= k < relays.len() ==> texts::among(servers, #[trigger] relays[k]),
{
    let fault = |k: int| runtime_config::relay_fault(name, relays, servers, k);
    text::lemma_first_fault_sound(relays.len(), fault, 0);
    assert forall|k: int| 0 <= k < relays.len() implies (#[trigger] fault(k) is None
        <==> texts::among(servers, relays[k])) by {
        texts::law_listed_ignoring_case(servers, relays[k]);
    }
    if runtime_config::unknown_relay(name, relays, servers) is None {
        assert forall|k: int| 0 <= k < relays.len() implies texts::among(
            servers,
            #[trigger] relays[k],
        ) by {
            assert(fault(k) is None);
        }
    } else {
        let at: int = first_place(runtime_config::unknown_relay(name, relays, servers));
        assert(fault(at) is Some);
        assert(!texts::among(servers, relays[at]));
    }
}

/// The place of the first fault, where there is one.
spec fn first_place(fault: Option<(int, Seq<char>)>) -> int {
    match fault {
        Some((at, _)) => at,
        None => 0,
    }
}

/// Whether the name of a rule repeats one ahead of it.
pub open spec fn name_repeats(rules: Seq<GeoRuleConfig>, i: int) -> bool {
    exists|j: int|
        0 <= j < i && texts::same_letters(
            text::trimmed((#[trigger] rules[j]).name@),
            text::trimmed(rules[i].name@),
        )
}

/// The views of rules.
spec fn views(rules: Seq<GeoRuleConfig>) -> Seq<runtime_config::GeoRuleView> {
    rules.map_values(|rule: GeoRuleConfig| rule@)
}

proof fn lemma_name_repeats(rules: Seq<GeoRuleConfig>, i: int)
    requires
        0 <= i < rules.len(),
    ensures
        text::listed_ignoring_case(
            runtime_config::earlier_names(views(rules), i),
            text::trimmed(rules[i].name@),
        ) <==> name_repeats(rules, i),
{
    let ahead = runtime_config::earlier_names(views(rules), i);
    let name = text::trimmed(rules[i].name@);
    texts::law_listed_ignoring_case(ahead, name);
    assert forall|j: int| 0 <= j < i implies #[trigger] ahead[j] == text::trimmed(rules[j].name@) by {
        assert(views(rules)[j] == rules[j]@);
    }
    if texts::among(ahead, name) {
        let j = choose|j: int| 0 <= j < ahead.len() && texts::same_letters(#[trigger] ahead[j], name);
        assert(texts::same_letters(text::trimmed(rules[j].name@), name));
    }
    if name_repeats(rules, i) {
        let j = choose|j: int|
            0 <= j < i && texts::same_letters(text::trimmed((#[trigger] rules[j]).name@), name);
        assert(texts::same_letters(ahead[j], name));
    }
}

proof fn lemma_relays_known(rule: GeoRuleConfig, servers: Seq<Seq<char>>)
    ensures
        (forall|k: int|
            0 <= k < rule.relays@.len() ==> texts::among(
                servers,
                #[trigger] text::trimmed_all(text::texts(rule.relays@))[k],
            )) <==> (forall|k: int|
            0 <= k < rule.relays@.len() ==> texts::among(
                servers,
                text::trimmed((#[trigger] rule.relays@[k])@),
            )),
{
    let relays = text::trimmed_all(text::texts(rule.relays@));
    if forall|k: int| 0 <= k < rule.relays@.len() ==> texts::among(servers, #[trigger] relays[k]) {
        assert forall|k: int| 0 <= k < rule.relays@.len() implies texts::among(
            servers,
            text::trimmed((#[trigger] rule.relays@[k])@),
        ) by {
            assert(relays[k] == text::trimmed(rule.relays@[k]@));
            assert(texts::among(servers, relays[k]));
        }
    }
}

proof fn lemma_strings_trimmed(given: Seq<String>, result: Seq<String>)
    requires
        text::texts(result) == text::trimmed_all(text::texts(given)),
    ensures
        strings_trimmed(given, result),
{
    let cores = text::trimmed_all(text::texts(given));
    assert(text::texts(result).len() == result.len());
    assert forall|i: int| 0 <= i < given.len() implies texts::core_of(
        (#[trigger] result[i])@,
        given[i]@,
    ) by {
        assert(text::texts(result)[i] == cores[i]);
        texts::law_trimmed_is_the_core(given[i]@, given[i]@);
    }
}

proof fn lemma_strings_same(given: Seq<String>, result: Seq<String>)
    requires
        text::texts(result) == text::texts(given),
    ensures
        strings_same(given, result),
{
    assert(text::texts(result).len() == result.len());
    assert forall|i: int| 0 <= i < given.len() implies (#[trigger] result[i])@ == given[i]@ by {
        assert(text::texts(result)[i] == text::texts(given)[i]);
    }
}

proof fn lemma_rule_same(given: GeoRuleConfig, result: GeoRuleConfig)
    requires
        result@ == given@,
    ensures
        rule_same(given, result),
{
    lemma_strings_same(given.relays@, result.relays@);
}

proof fn lemma_expression(given: Seq<char>)
    ensures
        expression_settled(given, runtime_config::expression(given)),
{
    texts::law_trimmed_is_the_core(given, given);
}

/// The rule at `i` passes exactly where it fits and its name is new; it is then
/// settled.
proof fn lemma_rule(rules: Seq<GeoRuleConfig>, i: int, servers: Seq<Seq<char>>)
    requires
        0 <= i < rules.len(),
    ensures
        runtime_config::rule_at(views(rules), i, servers).1 is None <==> rule_fits(
            rules[i],
            servers,
        ) && !name_repeats(rules, i),
        forall|result: GeoRuleConfig|
            #![trigger rule_settled(rules[i], result)]
            runtime_config::rule_at(views(rules), i, servers).1 is None && result@
                == runtime_config::rule_at(views(rules), i, servers).0 ==> rule_settled(
                rules[i],
                result,
            ),
{
    let rule = rules[i];
    let name = text::trimmed(rule.name@);
    let field = runtime_config::relay_field(name);
    let given = text::texts(rule.relays@);
    assert(views(rules)[i] == rule@);
    texts::law_trimmed_is_the_core(rule.name@, rule.name@);
    lemma_name_repeats(rules, i);
    lemma_names_fit(given, field);
    lemma_unknown_relay(name, text::trimmed_all(given), servers);
    lemma_relays_known(rule, servers);
    assert(given.len() == rule.relays@.len());
    assert(text::trimmed_all(given).len() == given.len());
    lemma_expression(rule.matches.client_a@);
    lemma_expression(rule.matches.client_b@);
    assert forall|result: GeoRuleConfig|
        #![trigger rule_settled(rules[i], result)]
        runtime_config::rule_at(views(rules), i, servers).1 is None && result@
            == runtime_config::rule_at(views(rules), i, servers).0 implies rule_settled(
        rules[i],
        result,
    ) by {
        lemma_strings_trimmed(rule.relays@, result.relays@);
    }
}

proof fn lemma_rules(rules: Seq<GeoRuleConfig>, servers: Seq<Seq<char>>)
    ensures
        runtime_config::rules_fault(views(rules), servers) is None <==> (forall|i: int|
            0 <= i < rules.len() ==> rule_fits(#[trigger] rules[i], servers)) && rule_names_differ(
            rules,
        ),
{
    let all = views(rules);
    let fault = |i: int| runtime_config::rule_at(all, i, servers).1;
    text::lemma_first_fault_sound(all.len(), fault, 0);
    assert forall|i: int| 0 <= i < rules.len() implies (#[trigger] fault(i) is None <==> rule_fits(
        rules[i],
        servers,
    ) && !name_repeats(rules, i)) by {
        lemma_rule(rules, i, servers);
    }
    if runtime_config::rules_fault(all, servers) is None {
        assert forall|i: int| 0 <= i < rules.len() implies rule_fits(#[trigger] rules[i], servers) by {
            assert(fault(i) is None);
        }
        assert forall|i: int, j: int| 0 <= i < j < rules.len() implies !texts::same_letters(
            text::trimmed((#[trigger] rules[i]).name@),
            text::trimmed((#[trigger] rules[j]).name@),
        ) by {
            assert(fault(j) is None);
        }
    } else {
        let at: int = first_place(runtime_config::rules_fault(all, servers));
        assert(fault(at) is Some);
        if name_repeats(rules, at) {
            let j = choose|j: int|
                0 <= j < at && texts::same_letters(
                    text::trimmed((#[trigger] rules[j]).name@),
                    text::trimmed(rules[at].name@),
                );
            assert(!rule_names_differ(rules));
        }
    }
}

proof fn lemma_geo_fits(geo: GeoConfig, servers: Seq<Seq<char>>)
    ensures
        runtime_config::geo_fault(geo@, servers) is None <==> geo_fits(geo, servers),
{
    assert(geo@.rules == views(geo.rules@));
    assert(geo@.rules.len() == geo.rules@.len());
    lemma_rules(geo.rules@, servers);
}

/// What becomes of rules that are accepted.
proof fn lemma_geo_accepted(given: GeoConfig, servers: Seq<Seq<char>>, result: GeoConfig)
    requires
        result@ == runtime_config::geo_settled(given@, servers),
        runtime_config::geo_fault(given@, servers) is None,
    ensures
        geo_accepted(given, result),
{
    let all = views(given.rules@);
    assert(given@.rules == all);
    assert(all.len() == given.rules@.len());
    assert(result@.rules == views(result.rules@));
    assert(views(result.rules@).len() == result.rules@.len());
    let fault = |i: int| runtime_config::rule_at(all, i, servers).1;
    text::lemma_first_fault_sound(all.len(), fault, 0);
    assert forall|i: int| 0 <= i < given.rules@.len() implies if given.enabled {
        rule_settled(given.rules@[i], #[trigger] result.rules@[i])
    } else {
        rule_same(given.rules@[i], result.rules@[i])
    } by {
        assert(views(result.rules@)[i] == result.rules@[i]@);
        assert(all[i] == given.rules@[i]@);
        if given.enabled {
            assert(fault(i) is None);
            lemma_rule(given.rules@, i, servers);
            assert(result.rules@[i]@ == runtime_config::rule_at(all, i, servers).0);
        } else {
            lemma_rule_same(given.rules@[i], result.rules@[i]);
        }
    }
}

/// Whether a compiler accepted these rules.
pub open spec fn compiles<R, C: Fn(&GeoConfig) -> Result<RuleSet<R>, String>>(
    compile: C,
    geo: GeoConfig,
) -> bool {
    exists|rules: RuleSet<R>| #[trigger] call_ensures(compile, (&geo,), Ok(rules))
}

proof fn lemma_compiles<R, C: Fn(&GeoConfig) -> Result<RuleSet<R>, String>>(
    compile: C,
    geo: GeoConfig,
    verdict: Result<(), String>,
)
    requires
        geo_relay::compile_verdict::<R, C>(compile, geo, verdict),
    ensures
        verdict is Ok ==> compiles::<R, C>(compile, geo),
        verdict matches Err(error) ==> call_ensures(compile, (&geo,), Err(error)),
{
    let compiled = choose|compiled: Result<RuleSet<R>, String>| #[trigger]
        call_ensures(compile, (&geo,), compiled) && verdict == (match compiled {
            Ok(_) => Ok(()),
            Err(e) => Err(e),
        });
    if let Ok(rules) = compiled {
        assert(call_ensures(compile, (&geo,), Ok(rules)));
    }
}

/// A list of names is accepted if and only if its names fit; each then stands
/// at its place without surrounding white space.
pub proof fn law_list_is_normalized(
    values: &mut Vec<String>,
    field: &str,
    result: Result<(), String>,
)
    requires
        call_ensures(runtime_config::normalize_unique, (values, field), result),
    ensures
        result is Ok <==> names_fit(text::texts(old(values)@)),
        result is Ok ==> strings_trimmed(old(values)@, final(values)@),
{
    lemma_names_fit(text::texts(old(values)@), field@);
    if result is Ok {
        lemma_strings_trimmed(old(values)@, final(values)@);
    }
}

/// A list that is refused has a first name that is blank or repeats one ahead
/// of it, and the message says so; names up to that one are trimmed, and those
/// behind it stay as they are.
pub proof fn law_refusal_of_a_list(
    values: &mut Vec<String>,
    field: &str,
    result: Result<(), String>,
)
    requires
        call_ensures(runtime_config::normalize_unique, (values, field), result),
        !names_fit(text::texts(old(values)@)),
    ensures
        exists|at: int|
            #![trigger old(values)@[at]]
            0 <= at < old(values)@.len() && list_refused(
                text::texts(old(values)@),
                field@,
                at,
                result->Err_0@,
            ) && final(values)@.len() == old(values)@.len() && (forall|i: int|
                #![trigger final(values)@[i]]
                0 <= i <= at ==> texts::core_of(final(values)@[i]@, old(values)@[i]@)) && (forall|
                i: int,
            |
                #![trigger final(values)@[i]]
                at < i < old(values)@.len() ==> final(values)@[i]@ == old(values)@[i]@),
{
    let given = text::texts(old(values)@);
    let after = text::texts(final(values)@);
    let fault = |i: int| runtime_config::value_fault(given, field@, i);
    lemma_names_fit(given, field@);
    text::lemma_first_fault_sound(given.len(), fault, 0);
    lemma_list_refused(given, field@);
    let at: int = first_place(runtime_config::list_fault(given, field@));
    assert(after.len() == final(values)@.len());
    assert(given.len() == old(values)@.len());
    assert forall|i: int| #![trigger final(values)@[i]] 0 <= i <= at implies texts::core_of(
        final(values)@[i]@,
        old(values)@[i]@,
    ) by {
        assert(after[i] == text::trimmed(given[i]));
        texts::law_trimmed_is_the_core(given[i], given[i]);
    }
    assert forall|i: int| #![trigger final(values)@[i]] at < i < old(values)@.len() implies final(values)@[i]@ == old(values)@[i]@ by {
        assert(after[i] == given[i]);
    }
    assert(old(values)@[at]@ == given[at]);
}

/// Whether a list of names is refused for the one at `at`: all ahead of it fit,
/// and it is blank or repeats one of them.
pub open spec fn list_refused(
    values: Seq<Seq<char>>,
    field: Seq<char>,
    at: int,
    message: Seq<char>,
) -> bool {
    &&& 0 <= at < values.len()
    &&& names_fit(values.take(at))
    &&& !names_fit(values.take(at + 1))
    &&& texts::blank(values[at]) ==> message == field + " contains an empty value"@
    &&& !texts::blank(values[at]) ==> message == field + " contains duplicate value '"@
        + text::trimmed(values[at]) + "'"@
}

proof fn lemma_list_refused(values: Seq<Seq<char>>, field: Seq<char>)
    ensures
        runtime_config::list_fault(values, field) matches Some((at, message)) ==> list_refused(
            values,
            field,
            at,
            message,
        ),
{
    let fault = |i: int| runtime_config::value_fault(values, field, i);
    text::lemma_first_fault_sound(values.len(), fault, 0);
    if let Some((at, message)) = runtime_config::list_fault(values, field) {
        let ahead = values.take(at);
        let shown = values.take(at + 1);
        lemma_value_fault(values, field, at);
        assert forall|i: int| 0 <= i < ahead.len() implies !texts::blank(#[trigger] ahead[i]) by {
            assert(fault(i) is None);
            lemma_value_fault(values, field, i);
        }
        assert forall|i: int, j: int| 0 <= i < j < ahead.len() implies !texts::same_letters(
            text::trimmed(#[trigger] ahead[i]),
            text::trimmed(#[trigger] ahead[j]),
        ) by {
            assert(fault(j) is None);
            lemma_value_fault(values, field, j);
            assert(values[i] == ahead[i]);
        }
        assert(shown[at] == values[at]);
        if !texts::blank(values[at]) {
            let j = choose|j: int|
                0 <= j < at && texts::same_letters(
                    text::trimmed(#[trigger] values[j]),
                    text::trimmed(values[at]),
                );
            assert(shown[j] == values[j]);
            assert(!names_fit(shown));
        }
    }
}

/// Rules are accepted if and only if they fit and, where they are enabled, the
/// compiler accepts what they stand for; nothing of them is lost then.
pub proof fn law_rules_are_validated<R, C: Fn(&GeoConfig) -> Result<RuleSet<R>, String>>(
    config: &mut GeoConfig,
    relay_servers: &[String],
    compile: &C,
    verdict: Result<(), String>,
)
    requires
        call_ensures(
            runtime_config::validate_geo::<R, C>,
            (config, relay_servers, compile),
            verdict,
        ),
    ensures
        verdict is Ok ==> geo_fits(*old(config), text::texts(relay_servers@)),
        geo_fits(*old(config), text::texts(relay_servers@)) ==> {
            &&& geo_accepted(*old(config), *final(config))
            &&& !old(config).enabled ==> verdict is Ok
            &&& old(config).enabled && verdict is Ok ==> compiles::<R, C>(*compile, *final(config))
            &&& verdict matches Err(error) ==> call_ensures(*compile, (&*final(config),), Err(error))
        },
        !old(config).enabled ==> geo_accepted(*old(config), *final(config)),
{
    let servers = text::texts(relay_servers@);
    lemma_geo_fits(*old(config), servers);
    if geo_fits(*old(config), servers) {
        lemma_geo_accepted(*old(config), servers, *final(config));
        if old(config).enabled {
            lemma_compiles::<R, C>(*compile, *final(config), verdict);
        }
    } else if !old(config).enabled {
        lemma_unexamined(*old(config), *final(config));
    }
}

proof fn lemma_unexamined(given: GeoConfig, result: GeoConfig)
    requires
        result@ == given@,
        !given.enabled,
    ensures
        geo_accepted(given, result),
{
    assert(views(result.rules@) == views(given.rules@));
    assert(views(result.rules@).len() == result.rules@.len());
    assert(views(given.rules@).len() == given.rules@.len());
    assert forall|i: int| 0 <= i < given.rules@.len() implies rule_same(
        given.rules@[i],
        #[trigger] result.rules@[i],
    ) by {
        assert(views(result.rules@)[i] == views(given.rules@)[i]);
        lemma_rule_same(given.rules@[i], result.rules@[i]);
    }
}

/// Whatever becomes of rules, none is added, dropped or moved, and each keeps
/// its switch; those that are not enabled keep everything.
pub proof fn law_rules_keep_their_switches<R, C: Fn(&GeoConfig) -> Result<RuleSet<R>, String>>(
    config: &mut GeoConfig,
    relay_servers: &[String],
    compile: &C,
    verdict: Result<(), String>,
)
    requires
        call_ensures(
            runtime_config::validate_geo::<R, C>,
            (config, relay_servers, compile),
            verdict,
        ),
    ensures
        final(config).enabled == old(config).enabled,
        final(config).rules@.len() == old(config).rules@.len(),
        forall|i: int|
            0 <= i < old(config).rules@.len() ==> (#[trigger] final(config).rules@[i]).symmetric
                == old(config).rules@[i].symmetric,
        forall|i: int|
            0 <= i < old(config).rules@.len() ==> (#[trigger] final(config).rules@[i]).relays@.len()
                == old(config).rules@[i].relays@.len(),
{
    let servers = text::texts(relay_servers@);
    let before = views(old(config).rules@);
    let after = views(final(config).rules@);
    assert(old(config)@.rules == before);
    assert(final(config)@.rules == after);
    assert(before.len() == old(config).rules@.len());
    assert(after.len() == final(config).rules@.len());
    assert forall|i: int| 0 <= i < before.len() implies (#[trigger] final(config).rules@[i]).symmetric == old(config).rules@[i].symmetric && final(config).rules@[i].relays@.len() == old(config).rules@[i].relays@.len() by {
        assert(before[i] == old(config).rules@[i]@);
        assert(after[i] == final(config).rules@[i]@);
        assert(before[i].relays.len() == old(config).rules@[i].relays@.len());
        assert(after[i].relays.len() == final(config).rules@[i].relays@.len());
        assert(text::trimmed_all(before[i].relays).len() == before[i].relays.len());
    }
}

/// Whether one of rules is refused: all ahead of the one at `at` fit and have
/// new names, and that one does not. The message names the first thing that is
/// wrong with it: its name, a name that was taken, too many relays, a relay
/// that is blank or repeated, no relays, or a relay that is no relay server.
pub open spec fn rule_refused(
    rules: Seq<GeoRuleConfig>,
    servers: Seq<Seq<char>>,
    at: int,
    message: Seq<char>,
) -> bool {
    let rule = rules[at];
    let name = text::trimmed(rule.name@);
    let relays = text::texts(rule.relays@);
    &&& 0 <= at < rules.len()
    &&& forall|i: int|
        0 <= i < at ==> rule_fits(#[trigger] rules[i], servers) && !name_repeats(rules, i)
    &&& !rule_fits(rule, servers) || name_repeats(rules, at)
    &&& if !name_fits(rule.name@) {
        message == "geo.rules["@ + text::decimal(at as nat)
            + "].name must contain 1 to 120 bytes"@
    } else if name_repeats(rules, at) {
        message == "duplicate Geo rule name: "@ + name
    } else if rule.relays@.len() > 32 {
        message == "Geo rule '"@ + name + "' must not exceed 32 relays"@
    } else if !names_fit(relays) {
        exists|k: int| #[trigger]
            list_refused(relays, "Geo rule '"@ + name + "' relays"@, k, message)
    } else if rule.relays@.len() == 0 {
        message == "Geo rule '"@ + name + "' has no relays"@
    } else {
        exists|k: int|
            0 <= k < relays.len() && !texts::among(servers, text::trimmed(#[trigger] relays[k]))
                && (forall|i: int|
                0 <= i < k ==> texts::among(servers, text::trimmed(#[trigger] relays[i])))
                && message == "Geo rule '"@ + name + "' references relay '"@ + text::trimmed(
                relays[k],
            ) + "' which is absent from relay_servers"@
    }
}

proof fn lemma_rule_refused(rules: Seq<GeoRuleConfig>, servers: Seq<Seq<char>>)
    ensures
        runtime_config::rules_fault(views(rules), servers) matches Some((at, message))
            ==> rule_refused(rules, servers, at, message),
{
    let all = views(rules);
    let fault = |i: int| runtime_config::rule_at(all, i, servers).1;
    text::lemma_first_fault_sound(all.len(), fault, 0);
    if let Some((at, message)) = runtime_config::rules_fault(all, servers) {
        let rule = rules[at];
        let name = text::trimmed(rule.name@);
        let relays = text::texts(rule.relays@);
        let field = runtime_config::relay_field(name);
        assert(all[at] == rule@);
        assert forall|i: int| 0 <= i < at implies rule_fits(#[trigger] rules[i], servers)
            && !name_repeats(rules, i) by {
            assert(fault(i) is None);
            lemma_rule(rules, i, servers);
        }
        lemma_rule(rules, at, servers);
        lemma_name_repeats(rules, at);
        texts::law_trimmed_is_the_core(rule.name@, rule.name@);
        lemma_names_fit(relays, field);
        lemma_list_refused(relays, field);
        assert(relays.len() == rule.relays@.len());
        let cores = text::trimmed_all(relays);
        assert(cores.len() == relays.len());
        if name_fits(rule.name@) && !name_repeats(rules, at) && rule.relays@.len() <= 32 {
            if !names_fit(relays) {
                let k: int = first_place(runtime_config::list_fault(relays, field));
                assert(list_refused(relays, field, k, message));
            } else if rule.relays@.len() > 0 {
                let missing = |k: int| runtime_config::relay_fault(name, cores, servers, k);
                text::lemma_first_fault_sound(cores.len(), missing, 0);
                let k: int = first_place(runtime_config::unknown_relay(name, cores, servers));
                assert forall|i: int| 0 <= i < k implies texts::among(
                    servers,
                    text::trimmed(#[trigger] relays[i]),
                ) by {
                    assert(missing(i) is None);
                    texts::law_listed_ignoring_case(servers, cores[i]);
                }
                texts::law_listed_ignoring_case(servers, cores[k]);
                assert(missing(k) == Some(message));
                assert(cores[k] == text::trimmed(relays[k]));
            }
        }
    }
}

/// Rules that do not fit are refused with a message that names the first
/// reason.
pub proof fn law_refusal_of_rules<R, C: Fn(&GeoConfig) -> Result<RuleSet<R>, String>>(
    config: &mut GeoConfig,
    relay_servers: &[String],
    compile: &C,
    verdict: Result<(), String>,
)
    requires
        call_ensures(
            runtime_config::validate_geo::<R, C>,
            (config, relay_servers, compile),
            verdict,
        ),
        !geo_fits(*old(config), text::texts(relay_servers@)),
    ensures
        verdict matches Err(e) && geo_refused(*old(config), text::texts(relay_servers@), e@),
{
    lemma_geo_fits(*old(config), text::texts(relay_servers@));
    lemma_geo_refused(*old(config), text::texts(relay_servers@));
}

/// Whether a text is the given one, with or without surrounding white space.
pub open spec fn text_touched(given: Seq<char>, result: Seq<char>) -> bool {
    result == given || texts::core_of(result, given)
}

/// Whether a rule is the given one, with some of its texts in normal form.
pub open spec fn rule_touched(given: GeoRuleConfig, result: GeoRuleConfig) -> bool {
    &&& result.symmetric == given.symmetric
    &&& texts::core_of(result.name@, given.name@)
    &&& result.matches.client_a@ == given.matches.client_a@ || expression_settled(
        given.matches.client_a@,
        result.matches.client_a@,
    )
    &&& result.matches.client_b@ == given.matches.client_b@ || expression_settled(
        given.matches.client_b@,
        result.matches.client_b@,
    )
    &&& result.relays@.len() == given.relays@.len()
    &&& forall|k: int|
        0 <= k < given.relays@.len() ==> text_touched(
            given.relays@[k]@,
            (#[trigger] result.relays@[k])@,
        )
}

proof fn lemma_rule_touched(
    rules: Seq<GeoRuleConfig>,
    at: int,
    servers: Seq<Seq<char>>,
    result: GeoRuleConfig,
)
    requires
        0 <= at < rules.len(),
        result@ == runtime_config::rule_at(views(rules), at, servers).0,
    ensures
        rule_touched(rules[at], result),
{
    let rule = rules[at];
    let given = text::texts(rule.relays@);
    let after = text::texts(result.relays@);
    assert(views(rules)[at] == rule@);
    texts::law_trimmed_is_the_core(rule.name@, rule.name@);
    lemma_expression(rule.matches.client_a@);
    lemma_expression(rule.matches.client_b@);
    assert(given.len() == rule.relays@.len());
    assert(after.len() == result.relays@.len());
    assert(text::trimmed_all(given).len() == given.len());
    assert forall|k: int| 0 <= k < given.len() implies text_touched(
        rule.relays@[k]@,
        (#[trigger] result.relays@[k])@,
    ) by {
        texts::law_trimmed_is_the_core(given[k], given[k]);
        assert(after[k] == result.relays@[k]@);
        assert(given[k] == rule.relays@[k]@);
        assert(text::trimmed_all(given)[k] == text::trimmed(given[k]));
    }
}

/// Where a rule is refused, those ahead of it are settled, those behind it are
/// as they were, and of the rule itself nothing but normal forms was put in.
pub proof fn law_rules_around_a_refused_one<R, C: Fn(&GeoConfig) -> Result<RuleSet<R>, String>>(
    config: &mut GeoConfig,
    relay_servers: &[String],
    compile: &C,
    message: String,
)
    requires
        call_ensures(
            runtime_config::validate_geo::<R, C>,
            (config, relay_servers, compile),
            Err(message),
        ),
        old(config).enabled,
        1 <= old(config).rules@.len() <= 256,
        relay_servers@.len() >= 1,
        !geo_fits(*old(config), text::texts(relay_servers@)),
    ensures
        final(config).rules@.len() == old(config).rules@.len(),
        exists|at: int| #[trigger]
            rule_refused(old(config).rules@, text::texts(relay_servers@), at, message@) && (forall|
                i: int,
            |
                0 <= i < at ==> rule_settled(
                    old(config).rules@[i],
                    #[trigger] final(config).rules@[i],
                )) && rule_touched(old(config).rules@[at], final(config).rules@[at]) && (forall|
                i: int,
            |
                at < i < old(config).rules@.len() ==> rule_same(
                    old(config).rules@[i],
                    #[trigger] final(config).rules@[i],
                )),
{
    let servers = text::texts(relay_servers@);
    let given = old(config).rules@;
    let after = final(config).rules@;
    let all = views(given);
    assert(servers.len() == relay_servers@.len());
    assert(old(config)@.rules == all);
    assert(final(config)@.rules == views(after));
    assert(all.len() == given.len());
    assert(views(after).len() == after.len());
    lemma_geo_fits(*old(config), servers);
    lemma_rules(given, servers);
    lemma_rule_refused(given, servers);
    let fault = |i: int| runtime_config::rule_at(all, i, servers).1;
    text::lemma_first_fault_sound(all.len(), fault, 0);
    let at: int = first_place(runtime_config::rules_fault(all, servers));
    assert forall|i: int| 0 <= i < given.len() implies (#[trigger] after[i])@ == (if i <= at {
        runtime_config::rule_at(all, i, servers).0
    } else {
        given[i]@
    }) by {
        assert(views(after)[i] == after[i]@);
        assert(all[i] == given[i]@);
    }
    assert forall|i: int| 0 <= i < at implies rule_settled(given[i], #[trigger] after[i]) by {
        assert(fault(i) is None);
        lemma_rule(given, i, servers);
    }
    assert forall|i: int| at < i < given.len() implies rule_same(given[i], #[trigger] after[i]) by {
        lemma_rule_same(given[i], after[i]);
    }
    lemma_rule_touched(given, at, servers, after[at]);
    assert(rule_refused(given, servers, at, message@));
}

/// Whether a message names the first reason why rules do not fit.
pub open spec fn geo_refused(
    geo: GeoConfig,
    servers: Seq<Seq<char>>,
    message: Seq<char>,
) -> bool {
    if geo.rules@.len() > 256 {
        message == "geo.rules must not exceed 256 entries"@
    } else if geo.rules@.len() == 0 {
        message == "geo.enabled is true but geo.rules is empty"@
    } else if servers.len() == 0 {
        message == "geo.enabled is true but relay_servers is empty"@
    } else {
        exists|at: int| #[trigger] rule_refused(geo.rules@, servers, at, message)
    }
}

proof fn lemma_geo_refused(geo: GeoConfig, servers: Seq<Seq<char>>)
    ensures
        runtime_config::geo_fault(geo@, servers) matches Some(message) ==> geo_refused(
            geo,
            servers,
            message,
        ),
{
    assert(geo@.rules == views(geo.rules@));
    assert(geo@.rules.len() == geo.rules@.len());
    lemma_rule_refused(geo.rules@, servers);
}

proof fn lemma_document_fits(config: RuntimeConfig)
    ensures
        runtime_config::config_fault(config@) is None <==> document_fits(config),
        runtime_config::config_fault(config@) matches Some(message) ==> document_refused(
            config,
            message,
        ),
{
    let servers = text::texts(config.relay_servers@);
    lemma_names_fit(servers, "relayServers"@);
    lemma_list_refused(servers, "relayServers"@);
    lemma_geo_fits(config.geo, text::trimmed_all(servers));
    lemma_geo_refused(config.geo, text::trimmed_all(servers));
    if let Some((at, message)) = runtime_config::list_fault(servers, "relayServers"@) {
        assert(list_refused(servers, "relayServers"@, at, message));
    }
}

/// Whether a message names the first reason why a document does not fit.
pub open spec fn document_refused(config: RuntimeConfig, message: Seq<char>) -> bool {
    let servers = text::texts(config.relay_servers@);
    if !names_fit(servers) {
        exists|at: int| #[trigger] list_refused(servers, "relayServers"@, at, message)
    } else {
        geo_refused(config.geo, text::trimmed_all(servers), message)
    }
}

/// What `validate` answers, read off the document itself: one that does not fit
/// is refused for the first reason; one that fits is settled and, where its
/// rules are enabled, handed to the compiler, which alone can refuse it then.
pub open spec fn answered<R, C: Fn(&GeoConfig) -> Result<RuleSet<R>, String>>(
    compile: C,
    config: RuntimeConfig,
    result: Result<RuntimeConfig, String>,
) -> bool {
    if !document_fits(config) {
        result matches Err(e) && document_refused(config, e@)
    } else {
        match result {
            Ok(accepted) => document_accepted(config, accepted) && (config.geo.enabled
                ==> compiles::<R, C>(compile, accepted.geo)),
            Err(e) => config.geo.enabled && exists|geo: GeoConfig| #[trigger]
                call_ensures(compile, (&geo,), Err(e)) && geo_accepted(config.geo, geo),
        }
    }
}

proof fn lemma_answered<R, C: Fn(&GeoConfig) -> Result<RuleSet<R>, String>>(
    compile: C,
    config: RuntimeConfig,
    result: Result<RuntimeConfig, String>,
)
    requires
        runtime_config::validation::<R, C>(compile, config@, result),
    ensures
        answered::<R, C>(compile, config, result),
{
    lemma_document_fits(config);
    let servers = text::trimmed_all(text::texts(config.relay_servers@));
    if document_fits(config) {
        if let Ok(accepted) = result {
            lemma_strings_trimmed(config.relay_servers@, accepted.relay_servers@);
            lemma_geo_accepted(config.geo, servers, accepted.geo);
        }
        if config.geo.enabled {
            let (geo, verdict) = choose|geo: GeoConfig, verdict: Result<(), String>| #[trigger]
                geo_relay::compile_verdict::<R, C>(compile, geo, verdict) && geo@
                    == runtime_config::config_settled(config@).geo && match verdict {
                    Ok(_) => result matches Ok(c) && c@ == runtime_config::config_settled(config@)
                        && c.geo == geo,
                    Err(e) => result == Err::<RuntimeConfig, String>(e),
                };
            lemma_geo_accepted(config.geo, servers, geo);
            lemma_compiles::<R, C>(compile, geo, verdict);
            if let Err(e) = result {
                assert(call_ensures(compile, (&geo,), Err(e)));
            }
        }
    }
}

/// A document is accepted exactly where it fits and the compiler, where it is
/// asked, accepts its rules; and what is accepted is the document itself, in
/// normal form.
pub proof fn law_document_is_validated<R, C: Fn(&GeoConfig) -> Result<RuleSet<R>, String>>(
    config: RuntimeConfig,
    compile: &C,
    result: Result<RuntimeConfig, String>,
)
    requires
        call_ensures(runtime_config::validate::<R, C>, (config, compile), result),
    ensures
        answered::<R, C>(*compile, config, result),
        result matches Ok(accepted) ==> document_fits(config) && document_accepted(
            config,
            accepted,
        ),
        document_fits(config) && !config.geo.enabled ==> result is Ok,
        document_fits(config) && (forall|geo: GeoConfig, e: String|
            !#[trigger] call_ensures(*compile, (&geo,), Err(e))) ==> result is Ok,
{
    lemma_answered::<R, C>(*compile, config, result);
}

/// The rules of an accepted document work in the same directions as those of
/// the given one.
pub proof fn law_accepted_rules_keep_their_directions<
    R,
    C: Fn(&GeoConfig) -> Result<RuleSet<R>, String>,
>(
    config: RuntimeConfig,
    compile: &C,
    accepted: RuntimeConfig,
    i: int,
)
    requires
        call_ensures(runtime_config::validate::<R, C>, (config, compile), Ok(accepted)),
        0 <= i < config.geo.rules@.len(),
    ensures
        accepted.geo.rules@.len() == config.geo.rules@.len(),
        accepted.geo.rules@[i].symmetric == config.geo.rules@[i].symmetric,
{
    lemma_answered::<R, C>(*compile, config, Ok(accepted));
    assert(geo_accepted(config.geo, accepted.geo));
    if config.geo.enabled {
        assert(rule_settled(config.geo.rules@[i], accepted.geo.rules@[i]));
    } else {
        assert(rule_same(config.geo.rules@[i], accepted.geo.rules@[i]));
    }
}

/// What is parsed is accepted if it is of version 1, newer than the revision in
/// force, and valid; and refused for the first of these that fails.
pub proof fn law_document_is_parsed<R, C: Fn(&GeoConfig) -> Result<RuleSet<R>, String>>(
    parsed: Result<RuntimeConfig, String>,
    current_revision: u64,
    compile: &C,
    result: Result<RuntimeConfig, String>,
)
    requires
        call_ensures(
            runtime_config::parse_config::<R, C>,
            (parsed, current_revision, compile),
            result,
        ),
    ensures
        parsed matches Err(error) ==> (result matches Err(e) && e@ == "invalid Geo config JSON: "@
            + error@),
        parsed matches Ok(config) ==> {
            &&& config.version != 1 ==> (result matches Err(e) && e@
                == "unsupported Geo config version "@ + text::decimal(config.version as nat)
                + "; expected "@ + text::decimal(1))
            &&& config.version == 1 && config.revision <= current_revision ==> (
            result matches Err(e) && e@ == "stale Geo config revision "@ + text::decimal(
                config.revision as nat,
            ) + "; current revision is "@ + text::decimal(current_revision as nat))
            &&& config.version == 1 && config.revision > current_revision ==> answered::<R, C>(
                *compile,
                config,
                result,
            )
        },
{
    if let Ok(config) = parsed {
        if config.version == 1 && config.revision > current_revision {
            lemma_answered::<R, C>(*compile, config, result);
        }
    }
}

/// What an accepted document is answered, for use by the laws on the handoff.
pub proof fn lemma_acceptance<R, C: Fn(&GeoConfig) -> Result<RuleSet<R>, String>>(
    compile: C,
    parsed: Result<RuntimeConfig, String>,
    seen_revision: u64,
    result: Result<RuntimeConfig, String>,
)
    requires
        runtime_config::acceptance::<R, C>(compile, parsed, seen_revision, result),
    ensures
        result is Ok ==> parsed is Ok,
        parsed matches Ok(config) ==> {
            &&& result is Ok ==> config.version == 1 && config.revision > seen_revision
            &&& config.version == 1 && config.revision > seen_revision ==> answered::<R, C>(
                compile,
                config,
                result,
            )
        },
{
    if let Ok(config) = parsed {
        if config.version == 1 && config.revision > seen_revision {
            lemma_answered::<R, C>(compile, config, result);
        }
    }
}

/// An expression loses surrounding white space, and a blank one stands for
/// anything.
pub proof fn law_expression(value: &str, result: String)
    requires
        call_ensures(runtime_config::normalized_expression, (value,), result),
    ensures
        expression_settled(value@, result@),
{
    lemma_expression(value@);
}

/// The refusal of a document that is not newer gives both revisions.
pub proof fn law_stale_revision(revision: u64, current: u64, message: String)
    requires
        call_ensures(runtime_config::stale_revision, (revision, current), message),
    ensures
        message@ == "stale Geo config revision "@ + text::decimal(revision as nat)
            + "; current revision is "@ + text::decimal(current as nat),
{
}

/// The document in force is read as it is, and its revision is its own; nothing
/// is read of a state that cannot be read, and its revision is zero.
pub proof fn law_snapshot(
    state: Option<&Arc<RuntimeConfig>>,
    config: Option<Arc<RuntimeConfig>>,
    seen: Option<&RuntimeConfig>,
    revision: u64,
)
    requires
        call_ensures(runtime_config::snapshot, (state,), config),
        call_ensures(runtime_config::current_revision, (seen,), revision),
    ensures
        state matches Some(current) ==> config == Some(*current),
        state is None ==> config is None,
        seen matches Some(document) ==> revision == document.revision,
        seen is None ==> revision == 0,
{
}

/// Rules are symmetric by default, for any two clients; and the document by
/// default is of version 1 and revision zero, without relay servers and rules.
pub proof fn law_defaults(
    symmetric: bool,
    expressions: EndpointExpressions,
    geo: GeoConfig,
    config: RuntimeConfig,
)
    requires
        call_ensures(runtime_config::default_true, (), symmetric),
        call_ensures(EndpointExpressions::default, (), expressions),
        call_ensures(GeoConfig::default, (), geo),
        call_ensures(RuntimeConfig::default, (), config),
    ensures
        symmetric,
        expressions.client_a@ == "*"@,
        expressions.client_b@ == "*"@,
        !geo.enabled,
        geo.rules@.len() == 0,
        config.version == 1,
        config.revision == 0,
        config.relay_servers@.len() == 0,
        !config.geo.enabled,
        config.geo.rules@.len() == 0,
{
}

} // verus!
