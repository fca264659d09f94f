//! What the databases say of a peer.
use vstd::prelude::*;
use vstd::string::*;

use crate::mmdb::{AsnRecord, CityRecord, CountryRecord, NameRecord};
use crate::mmdb;
use crate::text;

verus! {

/// The location and the network of a peer, as far as they are known.
#[derive(Clone, Debug)]
pub struct GeoFacts {
    pub continent: Option<String>,
    pub country: Option<String>,
    pub subdivision_codes: Vec<String>,
    pub subdivision_names: Vec<String>,
    pub city_names: Vec<String>,
    pub city_geoname_id: Option<u32>,
    pub asn: Option<u32>,
    pub asn_org: Option<String>,
}

/// Facts as texts.
#[verifier::ext_equal]
pub struct FactsView {
    pub continent: Option<Seq<char>>,
    pub country: Option<Seq<char>>,
    pub subdivision_codes: Seq<Seq<char>>,
    pub subdivision_names: Seq<Seq<char>>,
    pub city_names: Seq<Seq<char>>,
    pub city_geoname_id: Option<u32>,
    pub asn: Option<u32>,
    pub asn_org: Option<Seq<char>>,
}

impl View for GeoFacts {
    type V = FactsView;

    open spec fn view(&self) -> FactsView {
        FactsView {
            continent: text::opt_string(self.continent),
            country: text::opt_string(self.country),
            subdivision_codes: text::texts(self.subdivision_codes@),
            subdivision_names: text::texts(self.subdivision_names@),
            city_names: text::texts(self.city_names@),
            city_geoname_id: self.city_geoname_id,
            asn: self.asn,
            asn_org: text::opt_string(self.asn_org),
        }
    }
}

/// Nothing is known.
pub open spec fn no_facts() -> FactsView {
    FactsView {
        continent: None,
        country: None,
        subdivision_codes: seq![],
        subdivision_names: seq![],
        city_names: seq![],
        city_geoname_id: None,
        asn: None,
        asn_org: None,
    }
}

impl Default for GeoFacts {
    fn default() -> (facts: Self)
        ensures
            facts@ == no_facts(),
    {
        let facts = GeoFacts {
            continent: None,
            country: None,
            subdivision_codes: Vec::new(),
            subdivision_names: Vec::new(),
            city_names: Vec::new(),
            city_geoname_id: None,
            asn: None,
            asn_org: None,
        };
        assert(facts@ =~= no_facts());
        facts
    }
}

/// The normal form of a code: in upper case, and absent where it is blank.
pub open spec fn code(value: Option<Seq<char>>) -> Option<Seq<char>> {
    match value {
        Some(value) => if text::trimmed(value).len() == 0 {
            None
        } else {
            Some(text::uppercase(text::trimmed(value)))
        },
        None => None,
    }
}

/// What is known stays; what is not known is taken from `value`.
pub open spec fn filled(target: Option<Seq<char>>, value: Option<Seq<char>>) -> Option<Seq<char>> {
    if target is Some {
        target
    } else {
        code(value)
    }
}

/// Takes a code over where none is known.
pub fn set_if_empty(target: &mut Option<String>, value: Option<&str>)
    ensures
        text::opt_string(*final(target)) == filled(
            text::opt_string(*old(target)),
            text::opt_text(value),
        ),
        *old(target) is Some ==> *final(target) == *old(target),
{
    if target.is_none() {
        *target =
        match value {
            Some(value) => {
                let value = text::trim(value);
                if value.is_empty() {
                    None
                } else {
                    Some(text::to_uppercase(value))
                }
            },
            None => None,
        };
    }
}

/// A list with one more name, unless that is blank or listed, apart from
/// ASCII case.
pub open spec fn with_unique(target: Seq<Seq<char>>, value: Seq<char>) -> Seq<Seq<char>> {
    let value = text::trimmed(value);
    if value.len() == 0 || text::listed_ignoring_case(target, value) {
        target
    } else {
        target.push(value)
    }
}

/// Adds a name to a list, unless it is blank or listed, apart from ASCII case.
pub fn push_unique(target: &mut Vec<String>, value: &str)
    ensures
        text::texts(final(target)@) == with_unique(text::texts(old(target)@), value@),
        old(target)@.is_prefix_of(final(target)@),
{
    let value = text::trim(value);
    if !value.is_empty() && !text::list_has_ignoring_case(target, value) {
        let ghost before = text::texts(target@);
        target.push(value.to_owned());
        assert(text::texts(target@) =~= before.push(value@));
    }
}

/// A list with each of the given names that it does not have yet.
pub open spec fn with_each(target: Seq<Seq<char>>, values: Seq<Option<Seq<char>>>) -> Seq<Seq<char>>
    decreases values.len(),
{
    if values.len() == 0 {
        target
    } else {
        let ahead = with_each(target, values.drop_last());
        match values.last() {
            Some(value) => with_unique(ahead, value),
            None => ahead,
        }
    }
}

/// A name in its languages, in the order in which they are taken.
pub open spec fn in_order(names: mmdb::NameView) -> Seq<Option<Seq<char>>> {
    seq![
        names.english,
        names.simplified_chinese,
        names.japanese,
        names.german,
        names.spanish,
        names.french,
        names.brazilian_portuguese,
        names.russian,
    ]
}

/// Adds a name in each of its languages to a list.
pub fn append_names(target: &mut Vec<String>, names: &NameRecord<'_>)
    ensures
        text::texts(final(target)@) == with_each(text::texts(old(target)@), in_order(names@)),
        old(target)@.is_prefix_of(final(target)@),
{
    let list = [
        names.english,
        names.simplified_chinese,
        names.japanese,
        names.german,
        names.spanish,
        names.french,
        names.brazilian_portuguese,
        names.russian,
    ];
    let ghost given = text::texts(target@);
    let ghost order = in_order(names@);
    assert(order.take(0) =~= seq![]);
    let mut i: usize = 0;
    while i < 8
        invariant
            i <= 8,
            order.len() == 8,
            list@.len() == 8,
            forall|k: int| 0 <= k < 8 ==> text::opt_text(#[trigger] list@[k]) == order[k],
            text::texts(target@) == with_each(given, order.take(i as int)),
            old(target)@.is_prefix_of(target@),
        decreases 8 - i,
    {
        assert(order.take(i + 1).drop_last() =~= order.take(i as int));
        assert(text::opt_text(list@[i as int]) == order[i as int]);
        if let Some(name) = list[i] {
            push_unique(target, name);
        }
        i += 1;
    }
    assert(order.take(8) =~= order);
}

/// The codes and the names of subdivisions, with those of some more.
pub open spec fn with_subdivisions(
    codes: Seq<Seq<char>>,
    names: Seq<Seq<char>>,
    subdivisions: Seq<mmdb::SubdivisionView>,
) -> (Seq<Seq<char>>, Seq<Seq<char>>)
    decreases subdivisions.len(),
{
    if subdivisions.len() == 0 {
        (codes, names)
    } else {
        let ahead = with_subdivisions(codes, names, subdivisions.drop_last());
        let last = subdivisions.last();
        (
            match last.iso_code {
                Some(code) => with_unique(ahead.0, code),
                None => ahead.0,
            },
            with_each(ahead.1, in_order(last.names)),
        )
    }
}

/// Facts with what a city record adds.
pub open spec fn with_city(facts: FactsView, record: mmdb::CityView) -> FactsView {
    let subdivisions = with_subdivisions(
        facts.subdivision_codes,
        facts.subdivision_names,
        record.subdivisions,
    );
    FactsView {
        continent: filled(facts.continent, record.continent_code),
        country: filled(facts.country, record.country_code),
        subdivision_codes: subdivisions.0,
        subdivision_names: subdivisions.1,
        city_names: with_each(facts.city_names, in_order(record.names)),
        city_geoname_id: record.geoname_id,
        ..facts
    }
}

/// Facts with what a country record adds.
pub open spec fn with_country(facts: FactsView, record: mmdb::CountryView) -> FactsView {
    FactsView {
        continent: filled(facts.continent, record.continent_code),
        country: filled(facts.country, record.country_code),
        ..facts
    }
}

/// Facts with what a network record adds.
pub open spec fn with_asn(facts: FactsView, record: mmdb::AsnView) -> FactsView {
    FactsView {
        asn: record.number,
        asn_org: match record.organization {
            Some(name) => if text::trimmed(name).len() == 0 {
                None
            } else {
                Some(text::trimmed(name))
            },
            None => None,
        },
        ..facts
    }
}

/// Takes over what a city record says.
pub fn add_city(facts: &mut GeoFacts, record: &CityRecord<'_>)
    ensures
        final(facts)@ == with_city(old(facts)@, record@),
{
    let ghost given = facts@;
    set_if_empty(&mut facts.continent, record.continent_code);
    set_if_empty(&mut facts.country, record.country_code);
    facts.city_geoname_id = record.geoname_id;
    append_names(&mut facts.city_names, &record.names);
    let ghost before = facts@;
    let ghost all = record@.subdivisions;
    assert(all.take(0) =~= seq![]);
    let mut i: usize = 0;
    while i < record.subdivisions.len()
        invariant
            i <= record.subdivisions@.len(),
            all == record@.subdivisions,
            (facts@.subdivision_codes, facts@.subdivision_names) == with_subdivisions(
                given.subdivision_codes,
                given.subdivision_names,
                all.take(i as int),
            ),
            facts@ == (FactsView {
                subdivision_codes: facts@.subdivision_codes,
                subdivision_names: facts@.subdivision_names,
                ..before
            }),
        decreases record.subdivisions.len() - i,
    {
        let subdivision = &record.subdivisions[i];
        assert(all.take(i + 1).drop_last() =~= all.take(i as int));
        assert(all.take(i + 1).last() == subdivision@);
        if let Some(code) = subdivision.iso_code {
            push_unique(&mut facts.subdivision_codes, code);
        }
        append_names(&mut facts.subdivision_names, &subdivision.names);
        i += 1;
    }
    assert(all.take(all.len() as int) =~= all);
    assert(facts@ =~= with_city(given, record@));
}

/// Takes over what a country record says.
pub fn add_country(facts: &mut GeoFacts, record: &CountryRecord<'_>)
    ensures
        final(facts)@ == with_country(old(facts)@, record@),
{
    set_if_empty(&mut facts.continent, record.continent_code);
    set_if_empty(&mut facts.country, record.country_code);
}

/// Takes over what a network record says.
pub fn add_asn(facts: &mut GeoFacts, record: &AsnRecord<'_>)
    ensures
        final(facts)@ == with_asn(old(facts)@, record@),
{
    facts.asn = record.number;
    facts.asn_org =
    match record.organization {
        Some(name) => {
            let name = text::trim(name);
            if name.is_empty() {
                None
            } else {
                Some(name.to_owned())
            }
        },
        None => None,
    };
}

} // verus!
