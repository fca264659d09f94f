//! What becomes of the selection state, and what is read off it.
use vstd::prelude::*;
use vstd::string::*;

use crate::facts::GeoFacts;
use crate::geo_relay;
use crate::geo_relay::{GeoReaderUpdates, GeoReaders, GeoState, GeoStatus, ReloadPlan};
use crate::mmdb::{IpAddress, MmdbReader, ReaderUpdate};
use crate::rules::{DbRequirements, RuleSet, Selection};
use crate::runtime_config::{GeoConfig, RuntimeConfig};
use crate::text;

verus! {

/// Whether strings have the given texts.
pub open spec fn say(list: Seq<String>, texts: Seq<Seq<char>>) -> bool {
    list.len() == texts.len() && forall|i: int|
        0 <= i < list.len() ==> (#[trigger] list[i])@ == texts[i]
}

/// A text where a condition holds, and nothing otherwise.
pub open spec fn only_if(condition: bool, said: Seq<char>) -> Seq<Seq<char>> {
    if condition {
        seq![said]
    } else {
        seq![]
    }
}

/// What an update has to say of a database that was held or not.
pub open spec fn notice(label: Seq<char>, held: bool, update: ReaderUpdate) -> Seq<Seq<char>> {
    only_if(
        update is Missing && held,
        label + " MMDB is missing; retaining the last known-good reader"@,
    ) + only_if(
        update is Missing && !held,
        label + " MMDB is unavailable; related Geo fields are disabled"@,
    ) + match update {
        ReaderUpdate::Invalid(error) => only_if(
            held,
            label + " MMDB is invalid; retaining the last known-good reader: "@ + error@,
        ) + only_if(
            !held,
            label + " MMDB is invalid; related Geo fields are disabled: "@ + error@,
        ),
        _ => seq![],
    }
}

/// The database that is held once an update was taken: the one that it brought
/// or, where it brought none, the one that was held.
pub open spec fn holds_after(
    before: Option<MmdbReader>,
    update: ReaderUpdate,
    after: Option<MmdbReader>,
) -> bool {
    &&& update matches ReaderUpdate::Loaded(reader) ==> after == Some(reader)
    &&& update !is Loaded ==> after == before
}

proof fn lemma_say(list: Seq<String>, said: Seq<Seq<char>>)
    requires
        text::texts(list) == said,
    ensures
        say(list, said),
{
    assert(text::texts(list).len() == list.len());
    assert forall|i: int| 0 <= i < list.len() implies (#[trigger] list[i])@ == said[i] by {
        assert(text::texts(list)[i] == list[i]@);
    }
}

/// An update that brings a database leaves exactly that one held, whatever was
/// held before, and says nothing; one that brings none leaves what was held,
/// and says so behind what was said before.
pub proof fn law_update_is_taken(
    current: &mut Option<MmdbReader>,
    label: &str,
    update: ReaderUpdate,
    warnings: &mut Vec<String>,
)
    requires
        call_ensures(geo_relay::apply_reader_update, (current, label, update, warnings), ()),
    ensures
        update matches ReaderUpdate::Loaded(reader) ==> *final(current) == Some(reader),
        update !is Loaded ==> *final(current) == *old(current),
        say(
            final(warnings)@,
            text::texts(old(warnings)@) + notice(label@, *old(current) is Some, update),
        ),
        update is Loaded ==> final(warnings)@.len() == old(warnings)@.len(),
        update !is Loaded ==> final(warnings)@.len() == old(warnings)@.len() + 1,
{
    assert(geo_relay::update_warnings(*old(current), label@, update) =~= notice(
        label@,
        *old(current) is Some,
        update,
    ));
    lemma_say(
        final(warnings)@,
        text::texts(old(warnings)@) + notice(label@, *old(current) is Some, update),
    );
}

/// The notices of the three updates, in their order.
pub open spec fn notices(before: GeoReaders, updates: GeoReaderUpdates) -> Seq<Seq<char>> {
    notice("Country"@, before.country is Some, updates.country) + notice(
        "City"@,
        before.city is Some,
        updates.city,
    ) + notice("ASN"@, before.asn is Some, updates.asn)
}

proof fn lemma_notices(before: GeoReaders, updates: GeoReaderUpdates)
    ensures
        geo_relay::readers_warnings(before, updates) == notices(before, updates),
{
    assert(geo_relay::update_warnings(before.country, "Country"@, updates.country) =~= notice(
        "Country"@,
        before.country is Some,
        updates.country,
    ));
    assert(geo_relay::update_warnings(before.city, "City"@, updates.city) =~= notice(
        "City"@,
        before.city is Some,
        updates.city,
    ));
    assert(geo_relay::update_warnings(before.asn, "ASN"@, updates.asn) =~= notice(
        "ASN"@,
        before.asn is Some,
        updates.asn,
    ));
}

/// Each database is updated by its own update alone.
pub proof fn law_updates_are_taken(
    readers: &mut GeoReaders,
    updates: GeoReaderUpdates,
    warnings: Vec<String>,
)
    requires
        call_ensures(GeoReaders::apply_updates, (readers, updates), warnings),
    ensures
        holds_after(old(readers).country, updates.country, final(readers).country),
        holds_after(old(readers).city, updates.city, final(readers).city),
        holds_after(old(readers).asn, updates.asn, final(readers).asn),
        say(warnings@, notices(*old(readers), updates)),
{
    lemma_notices(*old(readers), updates);
    lemma_say(warnings@, notices(*old(readers), updates));
}

/// What is missing for rules with given needs.
pub open spec fn shortages(readers: GeoReaders, needs: DbRequirements) -> Seq<Seq<char>> {
    only_if(
        needs.city && readers.city is None,
        "rules use City fields but the City MMDB is unavailable"@,
    ) + only_if(
        needs.asn && readers.asn is None,
        "rules use ASN/ISP fields but the ASN MMDB is unavailable"@,
    ) + only_if(
        needs.country && !(readers.country is Some || readers.city is Some),
        "rules use Country/Continent fields but neither Country nor City MMDB is available"@,
    )
}

/// A database is reported as missing where the rules need it and it is not
/// held; the country fields can come from either of two databases.
pub proof fn law_shortages_are_reported(
    readers: &GeoReaders,
    needs: DbRequirements,
    warnings: Vec<String>,
)
    requires
        call_ensures(GeoReaders::missing_requirements, (readers, needs), warnings),
    ensures
        say(warnings@, shortages(*readers, needs)),
{
    assert(geo_relay::missing_warnings(*readers, needs) =~= shortages(*readers, needs));
    lemma_say(warnings@, shortages(*readers, needs));
}

/// The files of the databases that are held.
pub open spec fn files_held(readers: GeoReaders) -> Seq<Seq<char>> {
    only_if(readers.country is Some, "GeoLite2-Country.mmdb"@) + only_if(
        readers.city is Some,
        "GeoLite2-City.mmdb"@,
    ) + only_if(readers.asn is Some, "GeoLite2-ASN.mmdb"@)
}

/// The names of the databases that are held are reported, each if and only if
/// it is held.
pub proof fn law_loaded_names(readers: &GeoReaders, names: Vec<&'static str>)
    requires
        call_ensures(GeoReaders::loaded_names, (readers,), names),
    ensures
        names@.len() == files_held(*readers).len(),
        forall|i: int| 0 <= i < names@.len() ==> (#[trigger] names@[i])@ == files_held(*readers)[i],
{
    assert(geo_relay::loaded_files(*readers) =~= files_held(*readers));
    assert(text::slice_texts(names@).len() == names@.len());
    assert forall|i: int| 0 <= i < names@.len() implies (#[trigger] names@[i])@ == files_held(
        *readers,
    )[i] by {
        assert(text::slice_texts(names@)[i] == names@[i]@);
    }
}

/// A reload asks the compiler about the rules of the document in force, as
/// they are. What it refuses ends the reload; what it accepts goes on, with the
/// revision of the document, to switch the selection on exactly where the
/// document does, and with the compiled rules.
pub proof fn law_reload_follows_the_document<R, C: Fn(&GeoConfig) -> Result<RuleSet<R>, String>>(
    config: Option<&RuntimeConfig>,
    compile: &C,
    plan: ReloadPlan<R>,
)
    requires
        call_ensures(geo_relay::reload::<R, C>, (config, compile), plan),
    ensures
        config is None ==> (plan matches ReloadPlan::Finished(message) && message@
            == "Geo relay disabled because runtime config is unavailable; using upstream relay selection"@),
        config matches Some(config) ==> {
            &&& plan matches ReloadPlan::Enable { revision, rules } ==> {
                &&& config.geo.enabled
                &&& revision == config.revision
                &&& call_ensures(*compile, (&config.geo,), Ok(rules))
            }
            &&& plan matches ReloadPlan::Disable { revision } ==> {
                &&& !config.geo.enabled
                &&& revision == config.revision
                &&& exists|rules: RuleSet<R>| #[trigger]
                    call_ensures(*compile, (&config.geo,), Ok(rules))
            }
            &&& plan matches ReloadPlan::Finished(message) ==> exists|error: String|
                #[trigger] call_ensures(*compile, (&config.geo,), Err(error)) && message@
                    == "Geo relay config is invalid; keeping the previous runtime state: "@
                    + error@
        },
{
}

/// A reload that the document in force has overtaken changes nothing, and one
/// that it has not switches the selection off, without rules and warnings, and
/// keeps the databases.
pub proof fn law_reload_disabled<R>(
    state: &mut GeoState<R>,
    current: Option<&RuntimeConfig>,
    revision: u64,
    message: String,
)
    requires
        call_ensures(geo_relay::reload_disabled::<R>, (state, current, revision), message),
    ensures
        (current matches Some(config) && config.revision == revision) ==> {
            &&& !final(state).enabled
            &&& final(state).readers.country == old(state).readers.country
            &&& final(state).readers.city == old(state).readers.city
            &&& final(state).readers.asn == old(state).readers.asn
            &&& final(state).rules.compiled is None
            &&& final(state).rules.count == 0
            &&& !final(state).rules.needs.country
            &&& !final(state).rules.needs.city
            &&& !final(state).rules.needs.asn
            &&& final(state).warnings@.len() == 0
            &&& message@ == "Geo relay disabled by runtime config; using upstream relay selection"@
        },
        !(current matches Some(config) && config.revision == revision) ==> {
            &&& *final(state) == *old(state)
            &&& message@ == "Geo relay reload for revision "@ + text::decimal(revision as nat)
                + " was superseded"@
        },
{
}

/// A reload that the document in force has overtaken changes nothing. One that
/// it has not switches the selection on with exactly the given rules, takes
/// every database that was brought, keeps the others, and reports what was not
/// brought and what the rules lack.
pub proof fn law_reload_enabled<R>(
    state: &mut GeoState<R>,
    current: Option<&RuntimeConfig>,
    revision: u64,
    rules: RuleSet<R>,
    updates: GeoReaderUpdates,
    message: String,
)
    requires
        call_ensures(
            geo_relay::reload_enabled::<R>,
            (state, current, revision, rules, updates),
            message,
        ),
    ensures
        (current matches Some(config) && config.revision == revision) ==> {
            &&& final(state).enabled
            &&& final(state).rules == rules
            &&& updates.country matches ReaderUpdate::Loaded(reader)
                ==> final(state).readers.country == Some(reader)
            &&& updates.city matches ReaderUpdate::Loaded(reader) ==> final(state).readers.city
                == Some(reader)
            &&& updates.asn matches ReaderUpdate::Loaded(reader) ==> final(state).readers.asn
                == Some(reader)
            &&& updates.country !is Loaded ==> final(state).readers.country
                == old(state).readers.country
            &&& updates.city !is Loaded ==> final(state).readers.city == old(state).readers.city
            &&& updates.asn !is Loaded ==> final(state).readers.asn == old(state).readers.asn
            &&& say(
                final(state).warnings@,
                notices(old(state).readers, updates) + shortages(
                    final(state).readers,
                    rules.needs,
                ),
            )
        },
        !(current matches Some(config) && config.revision == revision) ==> {
            &&& *final(state) == *old(state)
            &&& message@ == "Geo relay reload for revision "@ + text::decimal(revision as nat)
                + " was superseded"@
        },
{
    if current matches Some(config) && config.revision == revision {
        lemma_notices(old(state).readers, updates);
        let after = final(state).readers;
        assert(geo_relay::missing_warnings(after, rules.needs) =~= shortages(after, rules.needs));
        lemma_say(
            final(state).warnings@,
            notices(old(state).readers, updates) + shortages(after, rules.needs),
        );
    }
}

/// What a reload reports: the number of rules, the databases that are held, and
/// every warning.
pub proof fn law_reload_report<R>(
    state: &mut GeoState<R>,
    current: &RuntimeConfig,
    rules: RuleSet<R>,
    updates: GeoReaderUpdates,
    message: String,
)
    requires
        call_ensures(
            geo_relay::reload_enabled::<R>,
            (state, Some(current), current.revision, rules, updates),
            message,
        ),
    ensures
        message@ == "Geo relay loaded: "@ + text::decimal(rules.count as nat)
            + " ordered rules, databases="@ + (if files_held(final(state).readers).len() == 0 {
            "none"@
        } else {
            text::joined(files_held(final(state).readers), ", "@)
        }) + (if final(state).warnings@.len() == 0 {
            Seq::<char>::empty()
        } else {
            "; warnings: "@ + text::joined(text::texts(final(state).warnings@), "; "@)
        }),
{
    let after = final(state).readers;
    assert(geo_relay::loaded_files(after) =~= files_held(after));
    assert(text::texts(final(state).warnings@).len() == final(state).warnings@.len());
    assert(message@ =~= "Geo relay loaded: "@ + text::decimal(rules.count as nat)
        + " ordered rules, databases="@ + (if files_held(after).len() == 0 {
        "none"@
    } else {
        text::joined(files_held(after), ", "@)
    }) + (if final(state).warnings@.len() == 0 {
        Seq::<char>::empty()
    } else {
        "; warnings: "@ + text::joined(text::texts(final(state).warnings@), "; "@)
    }));
}

/// The rules are asked whenever the state can be read, is switched on, and at
/// least one relay is eligible: with the rules in force, the facts of the first
/// and of the second peer, and the eligible relays; and the relay that they
/// answer is the one that is selected. Otherwise none is.
pub proof fn law_rules_are_asked<
    R,
    S: Fn(&RuleSet<R>, &GeoFacts, &GeoFacts, &[String]) -> Option<Selection>,
>(
    state: Option<&GeoState<R>>,
    pa: IpAddress,
    pb: IpAddress,
    eligible_relays: &[String],
    select: &S,
    relay: Option<String>,
)
    requires
        call_ensures(
            geo_relay::select_relay::<R, S>,
            (state, pa, pb, eligible_relays, select),
            relay,
        ),
    ensures
        state is None || eligible_relays@.len() == 0 ==> relay is None,
        state matches Some(state) ==> {
            &&& !state.enabled ==> relay is None
            &&& state.enabled && eligible_relays@.len() != 0 ==> exists|
                a: GeoFacts,
                b: GeoFacts,
                answer: Option<Selection>,
            | #[trigger]
                call_ensures(*select, (&state.rules, &a, &b, eligible_relays), answer)
                    && call_ensures(GeoReaders::lookup, (&state.readers, pa), a)
                    && call_ensures(GeoReaders::lookup, (&state.readers, pb), b) && (match answer {
                    Some(selection) => relay == Some(selection.relay),
                    None => relay is None,
                })
        },
{
}

/// A rule that selects a relay for every pair of peers has it selected for
/// every pair, as long as the state is switched on and a relay is eligible;
/// rules that select none have none selected.
pub proof fn law_answers_are_passed_on<
    R,
    S: Fn(&RuleSet<R>, &GeoFacts, &GeoFacts, &[String]) -> Option<Selection>,
>(
    state: &GeoState<R>,
    pa: IpAddress,
    pb: IpAddress,
    eligible_relays: &[String],
    select: &S,
    relay: Option<String>,
)
    requires
        call_ensures(
            geo_relay::select_relay::<R, S>,
            (Some(state), pa, pb, eligible_relays, select),
            relay,
        ),
        state.enabled,
        eligible_relays@.len() >= 1,
    ensures
        (forall|a: GeoFacts, b: GeoFacts, answer: Option<Selection>| #[trigger]
            call_ensures(*select, (&state.rules, &a, &b, eligible_relays), answer)
                ==> answer is Some) ==> relay is Some,
        (forall|a: GeoFacts, b: GeoFacts, answer: Option<Selection>| #[trigger]
            call_ensures(*select, (&state.rules, &a, &b, eligible_relays), answer)
                ==> answer is None) ==> relay is None,
{
}

/// A state that cannot be read is reported as such; one that can is reported
/// field by field, with the revision in force, or zero where there is none.
pub proof fn law_status_reports_the_state<R>(
    config: Option<&RuntimeConfig>,
    state: Option<&GeoState<R>>,
    report: Result<GeoStatus, String>,
)
    requires
        call_ensures(geo_relay::status::<R>, (config, state), report),
    ensures
        state is None ==> (report matches Err(e) && e@
            == "{\"error\":\"Geo relay state lock failed\"}"@),
        state matches Some(state) ==> {
            &&& report matches Ok(status)
            &&& config matches Some(config) ==> status.revision == config.revision
            &&& config is None ==> status.revision == 0
            &&& status.enabled == state.enabled
            &&& status.rule_count == state.rules.count
            &&& status.country_available <==> state.readers.country is Some
            &&& status.city_available <==> state.readers.city is Some
            &&& status.asn_available <==> state.readers.asn is Some
            &&& say(status.warnings@, text::texts(state.warnings@))
        },
{
    if let Some(state) = state {
        if let Ok(status) = report {
            lemma_say(status.warnings@, text::texts(state.warnings@));
        }
    }
}

/// After a reload that went through, the status shows the selection switched
/// on with the new rules, and every database that was brought as available.
pub proof fn law_status_follows_a_reload<R>(
    state: &mut GeoState<R>,
    current: &RuntimeConfig,
    rules: RuleSet<R>,
    updates: GeoReaderUpdates,
    message: String,
    report: Result<GeoStatus, String>,
)
    requires
        call_ensures(
            geo_relay::reload_enabled::<R>,
            (state, Some(current), current.revision, rules, updates),
            message,
        ),
        call_ensures(geo_relay::status::<R>, (Some(current), Some(&*final(state))), report),
    ensures
        report matches Ok(status) && status.enabled && status.rule_count == rules.count
            && status.revision == current.revision && (status.country_available <==> (
        updates.country is Loaded || old(state).readers.country is Some)) && (status.city_available
            <==> (updates.city is Loaded || old(state).readers.city is Some)) && (
        status.asn_available <==> (updates.asn is Loaded || old(state).readers.asn is Some)),
{
}

/// Validation by the compiler passes on whether it accepts, and its message.
pub proof fn law_verdict_is_the_compilers<R, C: Fn(&GeoConfig) -> Result<RuleSet<R>, String>>(
    config: &GeoConfig,
    compile: &C,
    verdict: Result<(), String>,
)
    requires
        call_ensures(geo_relay::validate_config::<R, C>, (config, compile), verdict),
    ensures
        verdict is Ok ==> exists|rules: RuleSet<R>| #[trigger]
            call_ensures(*compile, (config,), Ok(rules)),
        verdict matches Err(error) ==> call_ensures(*compile, (config,), Err(error)),
{
    let compiled = choose|compiled: Result<RuleSet<R>, String>| #[trigger]
        call_ensures(*compile, (config,), compiled) && verdict == (match compiled {
            Ok(_) => Ok(()),
            Err(e) => Err(e),
        });
    if let Ok(rules) = compiled {
        assert(call_ensures(*compile, (config,), Ok(rules)));
    }
}

/// The selection starts out switched off, without databases, rules and
/// warnings.
pub proof fn law_initial_state<R>(state: GeoState<R>)
    requires
        call_ensures(GeoState::<R>::disabled, (), state),
    ensures
        !state.enabled,
        state.readers.country is None,
        state.readers.city is None,
        state.readers.asn is None,
        state.rules.compiled is None,
        state.rules.count == 0,
        !state.rules.needs.country,
        !state.rules.needs.city,
        !state.rules.needs.asn,
        state.warnings@.len() == 0,
{
}

/// A rule set reports its own size and needs.
pub proof fn law_rule_set<R>(rules: &RuleSet<R>, count: usize, needs: DbRequirements)
    requires
        call_ensures(RuleSet::<R>::len, (rules,), count),
        call_ensures(RuleSet::<R>::requirements, (rules,), needs),
    ensures
        count == rules.count,
        needs.country == rules.needs.country,
        needs.city == rules.needs.city,
        needs.asn == rules.needs.asn,
{
}

} // verus!
