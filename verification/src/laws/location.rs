//! What the records of the databases contribute to the facts of a peer.
use maxminddb::MaxMindDbError;

use vstd::prelude::*;
use vstd::string::*;

use crate::facts;
use crate::facts::GeoFacts;
use crate::geo_relay;
use crate::geo_relay::GeoReaders;
use crate::laws::texts;
use crate::mmdb;
use crate::mmdb::{AsnRecord, CityRecord, CountryRecord, IpAddress, MmdbReader, NameRecord};
use crate::text;

verus! {

/// Whether `code` is the core of a given text, in ASCII upper case; a text that
/// is absent or blank gives no code.
pub open spec fn code_is(given: Option<Seq<char>>, code: Option<Seq<char>>) -> bool {
    match given {
        Some(whole) => if texts::blank(whole) {
            code is None
        } else {
            code matches Some(code) && texts::same_letters(code, text::trimmed(whole)) && forall|
                i: int,
            |
                0 <= i < code.len() ==> !('a' <= #[trigger] code[i] <= 'z')
        },
        None => code is None,
    }
}

/// Whether `name` is the core of a given text; a text that is absent or blank
/// gives no name.
pub open spec fn name_is(given: Option<Seq<char>>, name: Option<Seq<char>>) -> bool {
    match given {
        Some(whole) => if texts::blank(whole) {
            name is None
        } else {
            name matches Some(name) && texts::core_of(name, whole)
        },
        None => name is None,
    }
}

/// Whether a text is there and not blank.
pub open spec fn present(given: Option<Seq<char>>) -> bool {
    given matches Some(whole) && !texts::blank(whole)
}

proof fn lemma_code_is(given: Option<Seq<char>>)
    ensures
        code_is(given, facts::code(given)),
        present(given) <==> facts::code(given) is Some,
{
    if let Some(whole) = given {
        texts::law_trimmed_is_the_core(whole, whole);
        let core = text::trimmed(whole);
        texts::law_ascii_case(core);
        if core.len() > 0 {
            let code = text::uppercase(core);
            assert forall|i: int| 0 <= i < code.len() implies texts::same_letter(
                #[trigger] code[i],
                core[i],
            ) by {}
        }
    }
}

/// A code that is known stays; one that is not known is taken over, in its
/// normal form, where there is one.
pub proof fn law_code_is_taken_where_none_is_known(
    target: &mut Option<String>,
    value: Option<&str>,
)
    requires
        call_ensures(facts::set_if_empty, (target, value), ()),
    ensures
        *old(target) is Some ==> *final(target) == *old(target),
        *old(target) is None ==> code_is(text::opt_text(value), text::opt_string(*final(target))),
{
    lemma_code_is(text::opt_text(value));
}

/// A name that is blank, or that a list has apart from ASCII case, leaves the
/// list as it is; any other has its core put at the end.
pub proof fn law_name_is_added_once(target: &mut Vec<String>, value: &str)
    requires
        call_ensures(facts::push_unique, (target, value), ()),
    ensures
        texts::blank(value@) || (exists|j: int|
            0 <= j < old(target)@.len() && texts::same_letters(
                (#[trigger] old(target)@[j])@,
                text::trimmed(value@),
            )) ==> final(target)@ == old(target)@,
        !texts::blank(value@) && !(exists|j: int|
            0 <= j < old(target)@.len() && texts::same_letters(
                (#[trigger] old(target)@[j])@,
                text::trimmed(value@),
            )) ==> {
            &&& final(target)@.len() == old(target)@.len() + 1
            &&& final(target)@.drop_last() == old(target)@
            &&& texts::core_of(final(target)@.last()@, value@)
        },
{
    let before = old(target)@;
    let after = final(target)@;
    let core = text::trimmed(value@);
    texts::law_trimmed_is_the_core(value@, value@);
    texts::law_listed_ignoring_case(text::texts(before), core);
    assert(text::texts(after).len() == after.len());
    assert(text::texts(before).len() == before.len());
    if exists|j: int| 0 <= j < before.len() && texts::same_letters((#[trigger] before[j])@, core) {
        let j = choose|j: int|
            0 <= j < before.len() && texts::same_letters((#[trigger] before[j])@, core);
        assert(texts::same_letters(text::texts(before)[j], core));
    } else {
        assert forall|j: int| 0 <= j < before.len() implies !texts::same_letters(
            #[trigger] text::texts(before)[j],
            core,
        ) by {
            assert(!texts::same_letters(before[j]@, core));
        }
        if !texts::blank(value@) {
            assert(text::texts(after)[before.len() as int] == after.last()@);
            assert(after.drop_last() =~= before);
        }
    }
    if after.len() == before.len() {
        assert(after =~= before);
    }
}

/// Whether the given name at `k` belongs to a list: it is not blank, and neither
/// the list nor a given name ahead of it is the same apart from ASCII case.
pub open spec fn contributes(
    list: Seq<Seq<char>>,
    given: Seq<Option<Seq<char>>>,
    k: int,
) -> bool {
    &&& 0 <= k < given.len()
    &&& present(given[k])
    &&& !texts::among(list, text::trimmed(given[k]->0))
    &&& forall|j: int|
        0 <= j < k && present(#[trigger] given[j]) ==> !texts::same_letters(
            text::trimmed(given[j]->0),
            text::trimmed(given[k]->0),
        )
}

/// Whether `after` is a list followed by the cores of the given names that
/// contribute, each once and in the order in which they are given. `from` tells
/// which they are.
pub open spec fn picked(
    before: Seq<Seq<char>>,
    given: Seq<Option<Seq<char>>>,
    after: Seq<Seq<char>>,
    from: Seq<int>,
) -> bool {
    &&& after.len() == before.len() + from.len()
    &&& forall|i: int| 0 <= i < before.len() ==> #[trigger] after[i] == before[i]
    &&& forall|m: int| #![trigger from[m]]
        0 <= m < from.len() ==> contributes(before, given, from[m]) && after[before.len() + m]
            == text::trimmed(given[from[m]]->0)
    &&& forall|m: int, n: int|
        0 <= m < n < from.len() ==> #[trigger] from[m] < #[trigger] from[n]
    &&& forall|k: int| #[trigger] contributes(before, given, k) ==> from.contains(k)
}

/// Whether `after` is a list with the given names that it lacked, in their
/// order and each once.
pub open spec fn taken_over(
    before: Seq<Seq<char>>,
    given: Seq<Option<Seq<char>>>,
    after: Seq<Seq<char>>,
) -> bool {
    exists|from: Seq<int>| #[trigger] picked(before, given, after, from)
}

proof fn lemma_same_letters_transitive(a: Seq<char>, b: Seq<char>, c: Seq<char>)
    requires
        texts::same_letters(a, b),
        texts::same_letters(b, c),
    ensures
        texts::same_letters(a, c),
        texts::same_letters(b, a),
{
    texts::law_same_ignoring_case(a, b);
    texts::law_same_ignoring_case(b, c);
    texts::law_same_ignoring_case(a, c);
    texts::law_same_ignoring_case(b, a);
}

proof fn lemma_contributes_prefix(
    before: Seq<Seq<char>>,
    given: Seq<Option<Seq<char>>>,
    k: int,
)
    requires
        0 <= k < given.len() - 1,
    ensures
        contributes(before, given, k) == contributes(before, given.drop_last(), k),
{
    let shorter = given.drop_last();
    assert(shorter[k] == given[k]);
    if contributes(before, shorter, k) {
        assert forall|j: int| 0 <= j < k && present(#[trigger] given[j]) implies
            !texts::same_letters(text::trimmed(given[j]->0), text::trimmed(given[k]->0)) by {
            assert(shorter[j] == given[j]);
        }
    }
    if contributes(before, given, k) {
        assert forall|j: int| 0 <= j < k && present(#[trigger] shorter[j]) implies
            !texts::same_letters(text::trimmed(shorter[j]->0), text::trimmed(shorter[k]->0)) by {
            assert(shorter[j] == given[j]);
        }
    }
}

/// A present name is among a list and its contributions exactly where it is
/// among the list or repeats a present name.
proof fn lemma_among_picked(
    before: Seq<Seq<char>>,
    given: Seq<Option<Seq<char>>>,
    after: Seq<Seq<char>>,
    from: Seq<int>,
    value: Seq<char>,
)
    requires
        picked(before, given, after, from),
    ensures
        texts::among(after, value) <==> texts::among(before, value) || exists|j: int|
            0 <= j < given.len() && present(#[trigger] given[j]) && texts::same_letters(
                text::trimmed(given[j]->0),
                value,
            ),
{
    if texts::among(after, value) {
        let i = choose|i: int| 0 <= i < after.len() && texts::same_letters(#[trigger] after[i], value);
        if i < before.len() {
            assert(texts::same_letters(before[i], value));
        } else {
            let m = i - before.len();
            assert(contributes(before, given, from[m]));
            assert(present(given[from[m]]));
        }
    }
    if texts::among(before, value) {
        let i = choose|i: int|
            0 <= i < before.len() && texts::same_letters(#[trigger] before[i], value);
        assert(after[i] == before[i]);
    } else if exists|j: int|
        0 <= j < given.len() && present(#[trigger] given[j]) && texts::same_letters(
            text::trimmed(given[j]->0),
            value,
        ) {
        let j = choose|j: int|
            0 <= j < given.len() && present(#[trigger] given[j]) && texts::same_letters(
                text::trimmed(given[j]->0),
                value,
            );
        lemma_repeated_is_among(before, given, after, from, value, j);
    }
}

proof fn lemma_repeated_is_among(
    before: Seq<Seq<char>>,
    given: Seq<Option<Seq<char>>>,
    after: Seq<Seq<char>>,
    from: Seq<int>,
    value: Seq<char>,
    j: int,
)
    requires
        picked(before, given, after, from),
        !texts::among(before, value),
        0 <= j < given.len(),
        present(given[j]),
        texts::same_letters(text::trimmed(given[j]->0), value),
    ensures
        texts::among(after, value),
    decreases j,
{
    let name = text::trimmed(given[j]->0);
    if contributes(before, given, j) {
        assert(from.contains(j));
        let m = choose|m: int| 0 <= m < from.len() && from[m] == j;
        assert(after[before.len() + m] == name);
    } else if texts::among(before, name) {
        let i = choose|i: int|
            0 <= i < before.len() && texts::same_letters(#[trigger] before[i], name);
        lemma_same_letters_transitive(before[i], name, value);
    } else {
        let k = choose|k: int|
            0 <= k < j && present(#[trigger] given[k]) && texts::same_letters(
                text::trimmed(given[k]->0),
                name,
            );
        lemma_same_letters_transitive(text::trimmed(given[k]->0), name, value);
        lemma_repeated_is_among(before, given, after, from, value, k);
    }
}

proof fn lemma_taken_over(before: Seq<Seq<char>>, given: Seq<Option<Seq<char>>>)
    ensures
        taken_over(before, given, facts::with_each(before, given)),
    decreases given.len(),
{
    let after = facts::with_each(before, given);
    if given.len() == 0 {
        assert(picked(before, given, after, seq![]));
    } else {
        let shorter = given.drop_last();
        lemma_taken_over(before, shorter);
        let ahead = facts::with_each(before, shorter);
        let from = choose|from: Seq<int>| #[trigger] picked(before, shorter, ahead, from);
        let k = given.len() - 1;
        assert forall|j: int| 0 <= j < k implies contributes(before, given, j) == contributes(
            before,
            shorter,
            j,
        ) && #[trigger] given[j] == shorter[j] by {
            lemma_contributes_prefix(before, given, j);
        }
        if let Some(whole) = given[k] {
            let name = text::trimmed(whole);
            texts::law_trimmed_is_the_core(whole, whole);
            texts::law_listed_ignoring_case(ahead, name);
            lemma_among_picked(before, shorter, ahead, from, name);
            if contributes(before, given, k) {
                if texts::among(ahead, name) {
                    let j = choose|j: int|
                        0 <= j < shorter.len() && present(#[trigger] shorter[j])
                            && texts::same_letters(text::trimmed(shorter[j]->0), name);
                    assert(given[j] == shorter[j]);
                }
            } else if !texts::blank(whole) && !texts::among(before, name) {
                let j = choose|j: int|
                    0 <= j < k && present(#[trigger] given[j]) && texts::same_letters(
                        text::trimmed(given[j]->0),
                        name,
                    );
                assert(shorter[j] == given[j]);
            }
        }
        let more = if contributes(before, given, k) {
            from.push(k)
        } else {
            from
        };
        assert forall|m: int| #![trigger more[m]] 0 <= m < more.len() implies contributes(
            before,
            given,
            more[m],
        ) && after[before.len() + m] == text::trimmed(given[more[m]]->0) by {
            if m < from.len() {
                assert(more[m] == from[m]);
                assert(contributes(before, shorter, from[m]));
                assert(given[from[m]] == shorter[from[m]]);
                assert(after[before.len() + m] == ahead[before.len() + m]);
            }
        }
        assert forall|m: int, n: int| 0 <= m < n < more.len() implies #[trigger] more[m]
            < #[trigger] more[n] by {
            assert(more[m] == from[m]);
            assert(contributes(before, shorter, from[m]));
            if n < from.len() {
                assert(more[n] == from[n]);
            }
        }
        assert forall|j: int| #[trigger] contributes(before, given, j) implies more.contains(j) by {
            if j < k {
                assert(given[j] == shorter[j]);
                assert(from.contains(j));
                let m = choose|m: int| 0 <= m < from.len() && from[m] == j;
                assert(more[m] == j);
            } else {
                assert(more[from.len() as int] == j);
            }
        }
        assert forall|i: int| 0 <= i < before.len() implies #[trigger] after[i] == before[i] by {
            assert(ahead[i] == before[i]);
        }
        assert(picked(before, given, after, more));
    }
}

/// A name in the language at `l` of the order: English, simplified Chinese,
/// Japanese, German, Spanish, French, Brazilian Portuguese, Russian.
pub open spec fn language(names: NameRecord<'_>, l: int) -> Option<Seq<char>> {
    text::opt_text(
        if l == 0 {
            names.english
        } else if l == 1 {
            names.simplified_chinese
        } else if l == 2 {
            names.japanese
        } else if l == 3 {
            names.german
        } else if l == 4 {
            names.spanish
        } else if l == 5 {
            names.french
        } else if l == 6 {
            names.brazilian_portuguese
        } else {
            names.russian
        },
    )
}

/// A name in its eight languages.
pub open spec fn languages(names: NameRecord<'_>) -> Seq<Option<Seq<char>>> {
    Seq::new(8, |l: int| language(names, l))
}

/// A name is taken over in each of its languages that the list lacks.
pub proof fn law_names_are_taken_over(target: &mut Vec<String>, names: &NameRecord<'_>)
    requires
        call_ensures(facts::append_names, (target, names), ()),
    ensures
        taken_over(
            text::texts(old(target)@),
            languages(*names),
            text::texts(final(target)@),
        ),
        old(target)@.is_prefix_of(final(target)@),
{
    assert(facts::in_order(names@) =~= languages(*names));
    lemma_taken_over(text::texts(old(target)@), languages(*names));
}

proof fn lemma_with_each_in_two(
    list: Seq<Seq<char>>,
    front: Seq<Option<Seq<char>>>,
    back: Seq<Option<Seq<char>>>,
)
    ensures
        facts::with_each(list, front + back) == facts::with_each(
            facts::with_each(list, front),
            back,
        ),
    decreases back.len(),
{
    if back.len() == 0 {
        assert(front + back =~= front);
    } else {
        lemma_with_each_in_two(list, front, back.drop_last());
        assert((front + back).drop_last() =~= front + back.drop_last());
        assert((front + back).last() == back.last());
    }
}

/// The codes of subdivisions.
pub open spec fn codes_of(subdivisions: Seq<mmdb::SubdivisionView>) -> Seq<Option<Seq<char>>> {
    Seq::new(subdivisions.len(), |i: int| subdivisions[i].iso_code)
}

/// The names of subdivisions, one after another in their eight languages.
pub open spec fn names_of(subdivisions: Seq<mmdb::SubdivisionView>) -> Seq<Option<Seq<char>>> {
    Seq::new(8 * subdivisions.len(), |k: int| tongue(subdivisions[k / 8].names, k % 8))
}

/// A name as texts, in the language at `l` of the order.
pub open spec fn tongue(names: mmdb::NameView, l: int) -> Option<Seq<char>> {
    if l == 0 {
        names.english
    } else if l == 1 {
        names.simplified_chinese
    } else if l == 2 {
        names.japanese
    } else if l == 3 {
        names.german
    } else if l == 4 {
        names.spanish
    } else if l == 5 {
        names.french
    } else if l == 6 {
        names.brazilian_portuguese
    } else {
        names.russian
    }
}

/// A name as texts, in its eight languages.
pub open spec fn tongues(names: mmdb::NameView) -> Seq<Option<Seq<char>>> {
    Seq::new(8, |l: int| tongue(names, l))
}

proof fn lemma_subdivisions(
    codes: Seq<Seq<char>>,
    names: Seq<Seq<char>>,
    subdivisions: Seq<mmdb::SubdivisionView>,
)
    ensures
        facts::with_subdivisions(codes, names, subdivisions) == (
            facts::with_each(codes, codes_of(subdivisions)),
            facts::with_each(names, names_of(subdivisions)),
        ),
    decreases subdivisions.len(),
{
    if subdivisions.len() > 0 {
        let shorter = subdivisions.drop_last();
        let last = subdivisions.last();
        lemma_subdivisions(codes, names, shorter);
        assert(codes_of(subdivisions).drop_last() =~= codes_of(shorter));
        assert(codes_of(subdivisions).last() == last.iso_code);
        let front = names_of(shorter);
        let back = facts::in_order(last.names);
        assert(names_of(subdivisions) =~= front + back) by {
            assert forall|k: int| 0 <= k < 8 * subdivisions.len() implies names_of(subdivisions)[k]
                == #[trigger] (front + back)[k] by {
                if k < 8 * shorter.len() {
                    assert(k / 8 < shorter.len());
                    assert(shorter[k / 8] == subdivisions[k / 8]);
                } else {
                    assert(k / 8 == shorter.len());
                    assert(k % 8 == k - 8 * shorter.len());
                }
            }
        }
        lemma_with_each_in_two(names, front, back);
    } else {
        assert(codes_of(subdivisions) =~= seq![]);
        assert(names_of(subdivisions) =~= seq![]);
    }
}

/// Whether a code that was known stayed, and one that was not is that of the
/// given text.
pub open spec fn code_filled(
    before: Option<String>,
    given: Option<Seq<char>>,
    after: Option<String>,
) -> bool {
    if before is Some {
        text::opt_string(after) == text::opt_string(before)
    } else {
        code_is(given, text::opt_string(after))
    }
}

/// What a city record changes: codes that were not known, the number of the
/// city, its names, and the codes and names of its subdivisions; the network
/// stays.
pub open spec fn city_taken(
    before: GeoFacts,
    continent: Option<Seq<char>>,
    country: Option<Seq<char>>,
    geoname_id: Option<u32>,
    names: Seq<Option<Seq<char>>>,
    codes: Seq<Option<Seq<char>>>,
    subdivision_names: Seq<Option<Seq<char>>>,
    after: GeoFacts,
) -> bool {
    &&& code_filled(before.continent, continent, after.continent)
    &&& code_filled(before.country, country, after.country)
    &&& after.city_geoname_id == geoname_id
    &&& taken_over(text::texts(before.city_names@), names, text::texts(after.city_names@))
    &&& taken_over(
        text::texts(before.subdivision_codes@),
        codes,
        text::texts(after.subdivision_codes@),
    )
    &&& taken_over(
        text::texts(before.subdivision_names@),
        subdivision_names,
        text::texts(after.subdivision_names@),
    )
    &&& after.asn == before.asn
    &&& text::opt_string(after.asn_org) == text::opt_string(before.asn_org)
}

/// What a country record changes: codes that were not known, and nothing else.
pub open spec fn country_taken(
    before: GeoFacts,
    continent: Option<Seq<char>>,
    country: Option<Seq<char>>,
    after: GeoFacts,
) -> bool {
    &&& code_filled(before.continent, continent, after.continent)
    &&& code_filled(before.country, country, after.country)
    &&& same_place(before, after)
    &&& after.asn == before.asn
    &&& text::opt_string(after.asn_org) == text::opt_string(before.asn_org)
}

/// What a network record changes: the number, which becomes that of the record
/// whatever it was, and the organization; and nothing else.
pub open spec fn asn_taken(
    before: GeoFacts,
    number: Option<u32>,
    organization: Option<Seq<char>>,
    after: GeoFacts,
) -> bool {
    &&& text::opt_string(after.continent) == text::opt_string(before.continent)
    &&& text::opt_string(after.country) == text::opt_string(before.country)
    &&& same_place(before, after)
    &&& after.asn == number
    &&& name_is(organization, text::opt_string(after.asn_org))
}

/// Whether city and subdivisions are the same in two facts.
pub open spec fn same_place(before: GeoFacts, after: GeoFacts) -> bool {
    &&& text::texts(after.subdivision_codes@) == text::texts(before.subdivision_codes@)
    &&& text::texts(after.subdivision_names@) == text::texts(before.subdivision_names@)
    &&& text::texts(after.city_names@) == text::texts(before.city_names@)
    &&& after.city_geoname_id == before.city_geoname_id
}

/// Whether two facts are the same.
pub open spec fn same_facts(before: GeoFacts, after: GeoFacts) -> bool {
    &&& text::opt_string(after.continent) == text::opt_string(before.continent)
    &&& text::opt_string(after.country) == text::opt_string(before.country)
    &&& same_place(before, after)
    &&& after.asn == before.asn
    &&& text::opt_string(after.asn_org) == text::opt_string(before.asn_org)
}

proof fn lemma_city_taken(before: GeoFacts, record: mmdb::CityView, after: GeoFacts)
    requires
        after@ == facts::with_city(before@, record),
    ensures
        city_taken(
            before,
            record.continent_code,
            record.country_code,
            record.geoname_id,
            tongues(record.names),
            codes_of(record.subdivisions),
            names_of(record.subdivisions),
            after,
        ),
{
    lemma_code_is(record.continent_code);
    lemma_code_is(record.country_code);
    let codes = before@.subdivision_codes;
    let names = before@.subdivision_names;
    lemma_subdivisions(codes, names, record.subdivisions);
    lemma_taken_over(codes, codes_of(record.subdivisions));
    lemma_taken_over(names, names_of(record.subdivisions));
    assert(facts::in_order(record.names) =~= tongues(record.names));
    lemma_taken_over(before@.city_names, tongues(record.names));
}

proof fn lemma_asn_taken(before: GeoFacts, record: mmdb::AsnView, after: GeoFacts)
    requires
        after@ == facts::with_asn(before@, record),
    ensures
        asn_taken(before, record.number, record.organization, after),
{
    if let Some(name) = record.organization {
        texts::law_trimmed_is_the_core(name, name);
    }
}

/// A city record is taken over field by field.
pub proof fn law_city_record_is_taken(facts: &mut GeoFacts, record: &CityRecord<'_>)
    requires
        call_ensures(facts::add_city, (facts, record), ()),
    ensures
        city_taken(
            *old(facts),
            text::opt_text(record.continent_code),
            text::opt_text(record.country_code),
            record.geoname_id,
            languages(record.names),
            Seq::new(
                record.subdivisions@.len(),
                |i: int| text::opt_text(record.subdivisions@[i].iso_code),
            ),
            Seq::new(
                8 * record.subdivisions@.len(),
                |k: int| language(record.subdivisions@[k / 8].names, k % 8),
            ),
            *final(facts),
        ),
{
    lemma_city_taken(*old(facts), record@, *final(facts));
    let all = record@.subdivisions;
    assert(tongues(record@.names) =~= languages(record.names));
    assert(codes_of(all) =~= Seq::new(
        record.subdivisions@.len(),
        |i: int| text::opt_text(record.subdivisions@[i].iso_code),
    ));
    assert(names_of(all) =~= Seq::new(
        8 * record.subdivisions@.len(),
        |k: int| language(record.subdivisions@[k / 8].names, k % 8),
    )) by {
        assert forall|k: int| 0 <= k < 8 * all.len() implies #[trigger] names_of(all)[k]
            == language(record.subdivisions@[k / 8].names, k % 8) by {
            assert(0 <= k / 8 < all.len());
            assert(all[k / 8] == record.subdivisions@[k / 8]@);
        }
    }
}

/// A country record fills in codes that are not known, and changes nothing
/// else.
pub proof fn law_country_record_is_taken(facts: &mut GeoFacts, record: &CountryRecord<'_>)
    requires
        call_ensures(facts::add_country, (facts, record), ()),
    ensures
        country_taken(
            *old(facts),
            text::opt_text(record.continent_code),
            text::opt_text(record.country_code),
            *final(facts),
        ),
{
    lemma_code_is(text::opt_text(record.continent_code));
    lemma_code_is(text::opt_text(record.country_code));
}

/// A network record gives its number unchanged, for every number, and its
/// organization without surrounding white space.
pub proof fn law_network_record_is_taken(facts: &mut GeoFacts, record: &AsnRecord<'_>)
    requires
        call_ensures(facts::add_asn, (facts, record), ()),
    ensures
        final(facts).asn == record.number,
        asn_taken(
            *old(facts),
            record.number,
            text::opt_text(record.organization),
            *final(facts),
        ),
{
    lemma_asn_taken(*old(facts), record@, *final(facts));
}

/// Two records with different numbers give different facts, whatever was known
/// before.
pub proof fn law_networks_are_told_apart(
    first: &mut GeoFacts,
    second: &mut GeoFacts,
    one: &AsnRecord<'_>,
    other: &AsnRecord<'_>,
)
    requires
        call_ensures(facts::add_asn, (first, one), ()),
        call_ensures(facts::add_asn, (second, other), ()),
    ensures
        one.number != other.number ==> final(first).asn != final(second).asn,
        one.number == other.number ==> final(first).asn == final(second).asn,
{
}

/// A record is found where a query answered with one, and only there.
pub proof fn law_found<'a>(record: CityRecord<'a>, error: MaxMindDbError)
    ensures
        mmdb::found(Ok(Some(record))) == Some(record@),
        mmdb::found::<CityRecord<'a>>(Ok(None)) is None,
        mmdb::found::<CityRecord<'a>>(Err(error)) is None,
{
}

/// A lookup in one database takes over the record of the address in it, and
/// changes nothing where there is none.
pub proof fn law_lookup_in_one_database(
    city: &mut GeoFacts,
    country: &mut GeoFacts,
    network: &mut GeoFacts,
    reader: &MmdbReader,
    ip: IpAddress,
)
    requires
        call_ensures(geo_relay::lookup_city, (reader, ip, city), ()),
        call_ensures(geo_relay::lookup_country, (reader, ip, country), ()),
        call_ensures(geo_relay::lookup_asn, (reader, ip, network), ()),
    ensures
        match mmdb::city_record(mmdb::mmdb_source(*reader), ip) {
            Some(record) => city_taken(
                *old(city),
                record.continent_code,
                record.country_code,
                record.geoname_id,
                tongues(record.names),
                codes_of(record.subdivisions),
                names_of(record.subdivisions),
                *final(city),
            ),
            None => same_facts(*old(city), *final(city)),
        },
        match mmdb::country_record(mmdb::mmdb_source(*reader), ip) {
            Some(record) => country_taken(
                *old(country),
                record.continent_code,
                record.country_code,
                *final(country),
            ),
            None => same_facts(*old(country), *final(country)),
        },
        match mmdb::asn_record(mmdb::mmdb_source(*reader), ip) {
            Some(record) => asn_taken(
                *old(network),
                record.number,
                record.organization,
                *final(network),
            ),
            None => same_facts(*old(network), *final(network)),
        },
{
    if let Some(record) = mmdb::city_record(mmdb::mmdb_source(*reader), ip) {
        lemma_city_taken(*old(city), record, *final(city));
    }
    if let Some(record) = mmdb::country_record(mmdb::mmdb_source(*reader), ip) {
        lemma_code_is(record.continent_code);
        lemma_code_is(record.country_code);
    }
    if let Some(record) = mmdb::asn_record(mmdb::mmdb_source(*reader), ip) {
        lemma_asn_taken(*old(network), record, *final(network));
    }
}

/// The city record of an address, where the city database is held and has one.
pub open spec fn city_of(readers: GeoReaders, ip: IpAddress) -> Option<mmdb::CityView> {
    match readers.city {
        Some(reader) => mmdb::city_record(mmdb::mmdb_source(reader), ip),
        None => None,
    }
}

/// The country record of an address, where the country database is held and has
/// one.
pub open spec fn country_of(readers: GeoReaders, ip: IpAddress) -> Option<mmdb::CountryView> {
    match readers.country {
        Some(reader) => mmdb::country_record(mmdb::mmdb_source(reader), ip),
        None => None,
    }
}

/// The network record of an address, where the network database is held and has
/// one.
pub open spec fn network_of(readers: GeoReaders, ip: IpAddress) -> Option<mmdb::AsnView> {
    match readers.asn {
        Some(reader) => mmdb::asn_record(mmdb::mmdb_source(reader), ip),
        None => None,
    }
}

/// Whether a code is the one of a city record or, where that has none, the one
/// of a country record.
pub open spec fn code_of_two(
    of_city: Option<Seq<char>>,
    of_country: Option<Seq<char>>,
    code: Option<Seq<char>>,
) -> bool {
    if present(of_city) {
        code_is(of_city, code)
    } else {
        code_is(of_country, code)
    }
}

/// The facts of an address are those of its records: the number and the
/// organization of the network record; city, subdivisions and their names of
/// the city record; and the codes of the city record or, where it has none, of
/// the country record. Where there is no record, nothing is known.
pub proof fn law_facts_are_those_of_the_records(
    readers: &GeoReaders,
    ip: IpAddress,
    facts: GeoFacts,
)
    requires
        call_ensures(GeoReaders::lookup, (readers, ip), facts),
    ensures
        match network_of(*readers, ip) {
            Some(record) => facts.asn == record.number && name_is(
                record.organization,
                text::opt_string(facts.asn_org),
            ),
            None => facts.asn is None && facts.asn_org is None,
        },
        match city_of(*readers, ip) {
            Some(record) => {
                &&& facts.city_geoname_id == record.geoname_id
                &&& taken_over(seq![], tongues(record.names), text::texts(facts.city_names@))
                &&& taken_over(
                    seq![],
                    codes_of(record.subdivisions),
                    text::texts(facts.subdivision_codes@),
                )
                &&& taken_over(
                    seq![],
                    names_of(record.subdivisions),
                    text::texts(facts.subdivision_names@),
                )
            },
            None => {
                &&& facts.city_geoname_id is None
                &&& facts.city_names@.len() == 0
                &&& facts.subdivision_codes@.len() == 0
                &&& facts.subdivision_names@.len() == 0
            },
        },
        code_of_two(
            match city_of(*readers, ip) {
                Some(record) => record.continent_code,
                None => None,
            },
            match country_of(*readers, ip) {
                Some(record) => record.continent_code,
                None => None,
            },
            text::opt_string(facts.continent),
        ),
        code_of_two(
            match city_of(*readers, ip) {
                Some(record) => record.country_code,
                None => None,
            },
            match country_of(*readers, ip) {
                Some(record) => record.country_code,
                None => None,
            },
            text::opt_string(facts.country),
        ),
{
    assert(text::texts(facts.city_names@).len() == facts.city_names@.len());
    assert(text::texts(facts.subdivision_codes@).len() == facts.subdivision_codes@.len());
    assert(text::texts(facts.subdivision_names@).len() == facts.subdivision_names@.len());
    if let Some(record) = network_of(*readers, ip) {
        if let Some(name) = record.organization {
            texts::law_trimmed_is_the_core(name, name);
        }
    }
    if let Some(record) = city_of(*readers, ip) {
        lemma_code_is(record.continent_code);
        lemma_code_is(record.country_code);
        lemma_subdivisions(seq![], seq![], record.subdivisions);
        lemma_taken_over(seq![], codes_of(record.subdivisions));
        lemma_taken_over(seq![], names_of(record.subdivisions));
        assert(facts::in_order(record.names) =~= tongues(record.names));
        lemma_taken_over(seq![], tongues(record.names));
    }
    if let Some(record) = country_of(*readers, ip) {
        lemma_code_is(record.continent_code);
        lemma_code_is(record.country_code);
    }
}

} // verus!
