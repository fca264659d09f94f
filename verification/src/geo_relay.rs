//! Relay selection by the location of the two peers.
use vstd::prelude::*;
use vstd::string::*;

use crate::facts;
use crate::facts::GeoFacts;
use crate::mmdb;
use crate::mmdb::{IpAddress, MmdbReader, ReaderUpdate};
use crate::rules::{DbRequirements, RuleSet, Selection};
use crate::runtime_config;
use crate::runtime_config::{GeoConfig, RuntimeConfig};
use crate::text;

verus! {

/// Whether `verdict` passes on what a compiler said of a configuration.
pub open spec fn compile_verdict<R, C: Fn(&GeoConfig) -> Result<RuleSet<R>, String>>(
    compile: C,
    config: GeoConfig,
    verdict: Result<(), String>,
) -> bool {
    exists|compiled: Result<RuleSet<R>, String>| #[trigger]
        call_ensures(compile, (&config,), compiled) && verdict == (match compiled {
            Ok(_) => Ok(()),
            Err(e) => Err(e),
        })
}

/// Asks the compiler whether the rules of a configuration compile.
pub fn validate_config<R, C: Fn(&GeoConfig) -> Result<RuleSet<R>, String>>(
    config: &GeoConfig,
    compile: &C,
) -> (verdict: Result<(), String>)
    requires
        forall|c: GeoConfig| call_requires(*compile, (&c,)),
    ensures
        compile_verdict::<R, C>(*compile, *config, verdict),
{
    match compile(config) {
        Ok(_) => Ok(()),
        Err(e) => Err(e),
    }
}

/// The file of the country database.
pub const COUNTRY_MMDB: &'static str = "GeoLite2-Country.mmdb";

/// The file of the city database.
pub const CITY_MMDB: &'static str = "GeoLite2-City.mmdb";

/// The file of the network database.
pub const ASN_MMDB: &'static str = "GeoLite2-ASN.mmdb";

/// The databases that are loaded.
pub struct GeoReaders {
    pub country: Option<MmdbReader>,
    pub city: Option<MmdbReader>,
    pub asn: Option<MmdbReader>,
}

impl Default for GeoReaders {
    fn default() -> (readers: Self)
        ensures
            readers.country is None,
            readers.city is None,
            readers.asn is None,
    {
        GeoReaders { country: None, city: None, asn: None }
    }
}

/// What a look at each of the database files yielded.
pub struct GeoReaderUpdates {
    pub country: ReaderUpdate,
    pub city: ReaderUpdate,
    pub asn: ReaderUpdate,
}

/// The selection state: the databases, the rules in force, and what was
/// missing when they were loaded.
pub struct GeoState<R> {
    pub enabled: bool,
    pub readers: GeoReaders,
    pub rules: RuleSet<R>,
    pub warnings: Vec<String>,
}

impl<R> GeoState<R> {
    /// The state before anything is loaded.
    pub fn disabled() -> (state: Self)
        ensures
            !state.enabled,
            state.readers.country is None,
            state.readers.city is None,
            state.readers.asn is None,
            state.rules.is_empty_set(),
            state.warnings@.len() == 0,
    {
        GeoState {
            enabled: false,
            readers: GeoReaders::default(),
            rules: RuleSet::empty(),
            warnings: Vec::new(),
        }
    }
}

/// The database that is held after an update: a new one replaces the old one,
/// which stays otherwise.
pub open spec fn updated(current: Option<MmdbReader>, update: ReaderUpdate) -> Option<MmdbReader> {
    match update {
        ReaderUpdate::Loaded(reader) => Some(reader),
        _ => current,
    }
}

/// What is said of an update that brought no database.
pub open spec fn update_warnings(
    current: Option<MmdbReader>,
    label: Seq<char>,
    update: ReaderUpdate,
) -> Seq<Seq<char>> {
    match update {
        ReaderUpdate::Loaded(_) => seq![],
        ReaderUpdate::Missing => if current is Some {
            seq![label + " MMDB is missing; retaining the last known-good reader"@]
        } else {
            seq![label + " MMDB is unavailable; related Geo fields are disabled"@]
        },
        ReaderUpdate::Invalid(error) => if current is Some {
            seq![label + " MMDB is invalid; retaining the last known-good reader: "@ + error@]
        } else {
            seq![label + " MMDB is invalid; related Geo fields are disabled: "@ + error@]
        },
    }
}

/// Takes a new database over, or warns that there is none and keeps the old
/// one.
pub fn apply_reader_update(
    current: &mut Option<MmdbReader>,
    label: &str,
    update: ReaderUpdate,
    warnings: &mut Vec<String>,
)
    ensures
        *final(current) == updated(*old(current), update),
        text::texts(final(warnings)@) == text::texts(old(warnings)@) + update_warnings(
            *old(current),
            label@,
            update,
        ),
{
    let ghost before = text::texts(warnings@);
    match update {
        ReaderUpdate::Loaded(reader) => {
            *current = Some(reader);
            assert(before + Seq::<Seq<char>>::empty() =~= before);
        },
        ReaderUpdate::Missing => {
            let mut message = label.to_owned();
            if current.is_some() {
                message.append(" MMDB is missing; retaining the last known-good reader");
            } else {
                message.append(" MMDB is unavailable; related Geo fields are disabled");
            }
            let ghost said = message@;
            warnings.push(message);
            assert(text::texts(warnings@) =~= before + seq![said]);
        },
        ReaderUpdate::Invalid(error) => {
            let mut message = label.to_owned();
            if current.is_some() {
                message.append(" MMDB is invalid; retaining the last known-good reader: ");
            } else {
                message.append(" MMDB is invalid; related Geo fields are disabled: ");
            }
            message.append(error.as_str());
            let ghost said = message@;
            warnings.push(message);
            assert(text::texts(warnings@) =~= before + seq![said]);
        },
    }
}

/// The databases after an update of each.
pub open spec fn readers_updated(readers: GeoReaders, updates: GeoReaderUpdates) -> GeoReaders {
    GeoReaders {
        country: updated(readers.country, updates.country),
        city: updated(readers.city, updates.city),
        asn: updated(readers.asn, updates.asn),
    }
}

/// What is said of an update of each database.
pub open spec fn readers_warnings(readers: GeoReaders, updates: GeoReaderUpdates) -> Seq<
    Seq<char>,
> {
    update_warnings(readers.country, "Country"@, updates.country) + update_warnings(
        readers.city,
        "City"@,
        updates.city,
    ) + update_warnings(readers.asn, "ASN"@, updates.asn)
}

/// What is said of a database that the rules need and that is not loaded.
pub open spec fn missing_warnings(readers: GeoReaders, needs: DbRequirements) -> Seq<Seq<char>> {
    let city = if needs.city && readers.city is None {
        seq!["rules use City fields but the City MMDB is unavailable"@]
    } else {
        seq![]
    };
    let asn = if needs.asn && readers.asn is None {
        seq!["rules use ASN/ISP fields but the ASN MMDB is unavailable"@]
    } else {
        seq![]
    };
    let country = if needs.country && readers.country is None && readers.city is None {
        seq![
            "rules use Country/Continent fields but neither Country nor City MMDB is available"@,
        ]
    } else {
        seq![]
    };
    city + asn + country
}

/// The files of the databases that are loaded.
pub open spec fn loaded_files(readers: GeoReaders) -> Seq<Seq<char>> {
    let country = if readers.country is Some {
        seq![COUNTRY_MMDB@]
    } else {
        seq![]
    };
    let city = if readers.city is Some {
        seq![CITY_MMDB@]
    } else {
        seq![]
    };
    let asn = if readers.asn is Some {
        seq![ASN_MMDB@]
    } else {
        seq![]
    };
    country + city + asn
}

/// Facts with the city record of an address, where a database has one.
pub open spec fn city_facts(
    known: facts::FactsView,
    reader: Option<MmdbReader>,
    ip: IpAddress,
) -> facts::FactsView {
    match reader {
        Some(reader) => match mmdb::city_record(mmdb::mmdb_source(reader), ip) {
            Some(record) => facts::with_city(known, record),
            None => known,
        },
        None => known,
    }
}

/// Facts with the country record of an address, where a database has one.
pub open spec fn country_facts(
    known: facts::FactsView,
    reader: Option<MmdbReader>,
    ip: IpAddress,
) -> facts::FactsView {
    match reader {
        Some(reader) => match mmdb::country_record(mmdb::mmdb_source(reader), ip) {
            Some(record) => facts::with_country(known, record),
            None => known,
        },
        None => known,
    }
}

/// Facts with the network record of an address, where a database has one.
pub open spec fn asn_facts(
    known: facts::FactsView,
    reader: Option<MmdbReader>,
    ip: IpAddress,
) -> facts::FactsView {
    match reader {
        Some(reader) => match mmdb::asn_record(mmdb::mmdb_source(reader), ip) {
            Some(record) => facts::with_asn(known, record),
            None => known,
        },
        None => known,
    }
}

/// What the databases say of an address: the city database first, so that its
/// codes take precedence over those of the country database.
pub open spec fn facts_of(readers: GeoReaders, ip: IpAddress) -> facts::FactsView {
    asn_facts(
        country_facts(city_facts(facts::no_facts(), readers.city, ip), readers.country, ip),
        readers.asn,
        ip,
    )
}

/// Adds what a city database says of an address.
pub fn lookup_city(reader: &MmdbReader, ip: IpAddress, facts: &mut GeoFacts)
    ensures
        final(facts)@ == city_facts(old(facts)@, Some(*reader), ip),
{
    if let Ok(Some(record)) = mmdb::find_city(reader, ip) {
        facts::add_city(facts, &record);
    }
}

/// Adds what a country database says of an address.
pub fn lookup_country(reader: &MmdbReader, ip: IpAddress, facts: &mut GeoFacts)
    ensures
        final(facts)@ == country_facts(old(facts)@, Some(*reader), ip),
{
    if let Ok(Some(record)) = mmdb::find_country(reader, ip) {
        facts::add_country(facts, &record);
    }
}

/// Adds what a network database says of an address.
pub fn lookup_asn(reader: &MmdbReader, ip: IpAddress, facts: &mut GeoFacts)
    ensures
        final(facts)@ == asn_facts(old(facts)@, Some(*reader), ip),
{
    if let Ok(Some(record)) = mmdb::find_asn(reader, ip) {
        facts::add_asn(facts, &record);
    }
}

impl GeoReaders {
    /// Applies an update of each database and returns the warnings.
    pub fn apply_updates(&mut self, updates: GeoReaderUpdates) -> (warnings: Vec<String>)
        ensures
            *final(self) == readers_updated(*old(self), updates),
            text::texts(warnings@) == readers_warnings(*old(self), updates),
    {
        let mut warnings: Vec<String> = Vec::new();
        assert(text::texts(warnings@) =~= seq![]);
        apply_reader_update(&mut self.country, "Country", updates.country, &mut warnings);
        apply_reader_update(&mut self.city, "City", updates.city, &mut warnings);
        apply_reader_update(&mut self.asn, "ASN", updates.asn, &mut warnings);
        assert(text::texts(warnings@) =~= readers_warnings(*old(self), updates));
        warnings
    }

    /// What the databases say of an address.
    pub fn lookup(&self, ip: IpAddress) -> (facts: GeoFacts)
        ensures
            facts@ == facts_of(*self, ip),
    {
        let mut facts = GeoFacts::default();
        if let Some(reader) = self.city.as_ref() {
            lookup_city(reader, ip, &mut facts);
        }
        if let Some(reader) = self.country.as_ref() {
            lookup_country(reader, ip, &mut facts);
        }
        if let Some(reader) = self.asn.as_ref() {
            lookup_asn(reader, ip, &mut facts);
        }
        facts
    }

    /// Warnings about databases that the rules need and that are not loaded.
    pub fn missing_requirements(&self, requirements: DbRequirements) -> (warnings: Vec<String>)
        ensures
            text::texts(warnings@) == missing_warnings(*self, requirements),
    {
        let mut warnings: Vec<String> = Vec::new();
        if requirements.city && self.city.is_none() {
            warnings.push("rules use City fields but the City MMDB is unavailable".to_owned());
        }
        if requirements.asn && self.asn.is_none() {
            warnings.push("rules use ASN/ISP fields but the ASN MMDB is unavailable".to_owned());
        }
        if requirements.country && self.country.is_none() && self.city.is_none() {
            warnings.push(
                "rules use Country/Continent fields but neither Country nor City MMDB is available".to_owned(),
            );
        }
        assert(text::texts(warnings@) =~= missing_warnings(*self, requirements));
        warnings
    }

    /// The files of the databases that are loaded.
    pub fn loaded_names(&self) -> (names: Vec<&'static str>)
        ensures
            text::slice_texts(names@) == loaded_files(*self),
    {
        let mut names: Vec<&'static str> = Vec::new();
        if self.country.is_some() {
            names.push(COUNTRY_MMDB);
        }
        if self.city.is_some() {
            names.push(CITY_MMDB);
        }
        if self.asn.is_some() {
            names.push(ASN_MMDB);
        }
        assert(text::slice_texts(names@) =~= loaded_files(*self));
        names
    }
}

/// How a reload goes on once the rules are compiled.
pub enum ReloadPlan<R> {
    /// The reload is over, and this is said of it.
    Finished(String),
    /// The selection is to be switched off, by `reload_disabled`.
    Disable { revision: u64 },
    /// The databases are to be loaded, and the selection switched on with
    /// them, by `reload_enabled`.
    Enable { revision: u64, rules: RuleSet<R> },
}

/// Begins a reload: compiles the rules of the document in force, before
/// anything of the selection state changes.
pub fn reload<R, C: Fn(&GeoConfig) -> Result<RuleSet<R>, String>>(
    config: Option<&RuntimeConfig>,
    compile: &C,
) -> (plan: ReloadPlan<R>)
    requires
        forall|c: GeoConfig| call_requires(*compile, (&c,)),
    ensures
        match config {
            None => plan matches ReloadPlan::Finished(message) && message@
                == "Geo relay disabled because runtime config is unavailable; using upstream relay selection"@,
            Some(config) => exists|compiled: Result<RuleSet<R>, String>| #[trigger]
                call_ensures(*compile, (&config.geo,), compiled) && match compiled {
                    Err(error) => plan matches ReloadPlan::Finished(message) && message@
                        == "Geo relay config is invalid; keeping the previous runtime state: "@
                        + error@,
                    Ok(rules) => if config.geo.enabled {
                        plan == ReloadPlan::Enable { revision: config.revision, rules }
                    } else {
                        plan == (ReloadPlan::<R>::Disable { revision: config.revision })
                    },
                },
        },
{
    let config = match config {
        Some(config) => config,
        None => return ReloadPlan::Finished(
            "Geo relay disabled because runtime config is unavailable; using upstream relay selection".to_owned(),
        ),
    };
    match compile(&config.geo) {
        Err(error) => {
            let mut message =
                "Geo relay config is invalid; keeping the previous runtime state: ".to_owned();
            message.append(error.as_str());
            ReloadPlan::Finished(message)
        },
        Ok(rules) => {
            if config.geo.enabled {
                ReloadPlan::Enable { revision: config.revision, rules }
            } else {
                ReloadPlan::Disable { revision: config.revision }
            }
        },
    }
}

/// Whether the document in force still has the revision of a reload.
pub open spec fn still_current(current: Option<&RuntimeConfig>, revision: u64) -> bool {
    current matches Some(config) && config.revision == revision
}

/// What is said of a reload that a newer document overtook.
pub open spec fn superseded_message(revision: u64) -> Seq<char> {
    "Geo relay reload for revision "@ + text::decimal(revision as nat) + " was superseded"@
}

fn is_current(current: Option<&RuntimeConfig>, revision: u64) -> (result: bool)
    ensures
        result == still_current(current, revision),
{
    match current {
        Some(config) => config.revision == revision,
        None => false,
    }
}

fn superseded(revision: u64) -> (message: String)
    ensures
        message@ == superseded_message(revision),
{
    let mut message = "Geo relay reload for revision ".to_owned();
    message.append(text::to_decimal(revision).as_str());
    message.append(" was superseded");
    message
}

/// Switches the selection off, unless a newer document is in force by now.
pub fn reload_disabled<R>(
    state: &mut GeoState<R>,
    current: Option<&RuntimeConfig>,
    revision: u64,
) -> (message: String)
    ensures
        !still_current(current, revision) ==> *final(state) == *old(state) && message@
            == superseded_message(revision),
        still_current(current, revision) ==> {
            &&& !final(state).enabled
            &&& final(state).readers == old(state).readers
            &&& final(state).rules.is_empty_set()
            &&& final(state).warnings@.len() == 0
            &&& message@
                == "Geo relay disabled by runtime config; using upstream relay selection"@
        },
{
    if !is_current(current, revision) {
        return superseded(revision);
    }
    state.enabled = false;
    state.rules = RuleSet::empty();
    state.warnings.clear();
    "Geo relay disabled by runtime config; using upstream relay selection".to_owned()
}

/// What is said of a reload that went through.
pub open spec fn loaded_message(
    count: usize,
    readers: GeoReaders,
    warnings: Seq<Seq<char>>,
) -> Seq<char> {
    let databases = if loaded_files(readers).len() == 0 {
        "none"@
    } else {
        text::joined(loaded_files(readers), ", "@)
    };
    let message = "Geo relay loaded: "@ + text::decimal(count as nat)
        + " ordered rules, databases="@ + databases;
    if warnings.len() == 0 {
        message
    } else {
        message + "; warnings: "@ + text::joined(warnings, "; "@)
    }
}

/// Switches the selection on with new rules and databases, unless a newer
/// document is in force by now.
pub fn reload_enabled<R>(
    state: &mut GeoState<R>,
    current: Option<&RuntimeConfig>,
    revision: u64,
    rules: RuleSet<R>,
    updates: GeoReaderUpdates,
) -> (message: String)
    ensures
        !still_current(current, revision) ==> *final(state) == *old(state) && message@
            == superseded_message(revision),
        still_current(current, revision) ==> {
            &&& final(state).enabled
            &&& final(state).readers == readers_updated(old(state).readers, updates)
            &&& final(state).rules == rules
            &&& text::texts(final(state).warnings@) == readers_warnings(
                old(state).readers,
                updates,
            ) + missing_warnings(final(state).readers, rules.needs)
            &&& message@ == loaded_message(
                rules.count,
                final(state).readers,
                text::texts(final(state).warnings@),
            )
        },
{
    if !is_current(current, revision) {
        return superseded(revision);
    }
    let mut warnings = state.readers.apply_updates(updates);
    let mut missing = state.readers.missing_requirements(rules.requirements());
    let ghost of_updates = text::texts(warnings@);
    let ghost of_rules = text::texts(missing@);
    warnings.append(&mut missing);
    assert(text::texts(warnings@) =~= of_updates + of_rules);
    state.enabled = true;
    state.rules = rules;
    state.warnings = warnings;
    let databases = state.readers.loaded_names();
    let mut message = "Geo relay loaded: ".to_owned();
    message.append(text::to_decimal(state.rules.len() as u64).as_str());
    message.append(" ordered rules, databases=");
    assert(text::slice_texts(databases@).len() == databases@.len());
    if databases.is_empty() {
        message.append("none");
    } else {
        message.append(text::join_slices(databases.as_slice(), ", ").as_str());
    }
    assert(text::texts(state.warnings@).len() == state.warnings@.len());
    if !state.warnings.is_empty() {
        message.append("; warnings: ");
        message.append(text::join(state.warnings.as_slice(), "; ").as_str());
    }
    message
}

/// Whether a relay is selected at all.
pub open spec fn selects<R>(state: Option<&GeoState<R>>, eligible_relays: Seq<String>) -> bool {
    state matches Some(state) && state.enabled && eligible_relays.len() > 0
}

/// The relay for two peers, where the rules select one of those that are
/// eligible.
pub fn select_relay<R, S: Fn(&RuleSet<R>, &GeoFacts, &GeoFacts, &[String]) -> Option<Selection>>(
    state: Option<&GeoState<R>>,
    pa: IpAddress,
    pb: IpAddress,
    eligible_relays: &[String],
    select: &S,
) -> (relay: Option<String>)
    requires
        forall|rules: &RuleSet<R>, a: &GeoFacts, b: &GeoFacts, relays: &[String]|
            call_requires(*select, (rules, a, b, relays)),
    ensures
        !selects(state, eligible_relays@) ==> relay is None,
        selects(state, eligible_relays@) ==> exists|
            a: GeoFacts,
            b: GeoFacts,
            selection: Option<Selection>,
        | #[trigger]
            call_ensures(*select, (&state->0.rules, &a, &b, eligible_relays), selection) && a@
                == facts_of(state->0.readers, pa) && b@ == facts_of(state->0.readers, pb)
                && call_ensures(GeoReaders::lookup, (&state->0.readers, pa), a) && call_ensures(
                GeoReaders::lookup,
                (&state->0.readers, pb),
                b,
            ) && relay == (match selection {
                Some(selection) => Some(selection.relay),
                None => None,
            }),
{
    let state = match state {
        Some(state) => state,
        None => return None,
    };
    if !state.enabled || eligible_relays.len() == 0 {
        return None;
    }
    let facts_a = state.readers.lookup(pa);
    let facts_b = state.readers.lookup(pb);
    match select(&state.rules, &facts_a, &facts_b, eligible_relays) {
        Some(selection) => Some(selection.relay),
        None => None,
    }
}

/// The state of the selection, for reports.
pub struct GeoStatus {
    pub revision: u64,
    pub enabled: bool,
    pub rule_count: usize,
    pub country_available: bool,
    pub city_available: bool,
    pub asn_available: bool,
    pub warnings: Vec<String>,
}

/// Reports the state of the selection; the error report where it cannot be
/// read.
pub fn status<R>(config: Option<&RuntimeConfig>, state: Option<&GeoState<R>>) -> (status: Result<
    GeoStatus,
    String,
>)
    ensures
        match state {
            None => status matches Err(e) && e@ == "{\"error\":\"Geo relay state lock failed\"}"@,
            Some(state) => {
                &&& status matches Ok(s)
                &&& s.revision == (match config {
                    Some(config) => config.revision,
                    None => 0,
                })
                &&& s.enabled == state.enabled
                &&& s.rule_count == state.rules.count
                &&& s.country_available == state.readers.country is Some
                &&& s.city_available == state.readers.city is Some
                &&& s.asn_available == state.readers.asn is Some
                &&& s.warnings@ == state.warnings@
            },
        },
{
    let revision = runtime_config::current_revision(config);
    let state = match state {
        Some(state) => state,
        None => return Err("{\"error\":\"Geo relay state lock failed\"}".to_owned()),
    };
    let warnings = state.warnings.clone();
    assert(warnings@ =~= state.warnings@);
    Ok(
        GeoStatus {
            revision,
            enabled: state.enabled,
            rule_count: state.rules.len(),
            country_available: state.readers.country.is_some(),
            city_available: state.readers.city.is_some(),
            asn_available: state.readers.asn.is_some(),
            warnings,
        },
    )
}

} // verus!
