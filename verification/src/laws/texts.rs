//! What the operations on texts do, character by character.
use vstd::prelude::*;
use vstd::string::*;

use crate::names::NameSet;
use crate::text;

verus! {

/// Whether `core` is `whole` without the white space at its two ends: what
/// surrounds it is white space, and it neither begins nor ends with any.
pub open spec fn core_of(core: Seq<char>, whole: Seq<char>) -> bool {
    exists|start: int, end: int| #[trigger]
        whole.subrange(start, end) == core && 0 <= start <= end <= whole.len() && (forall|i: int|
            0 <= i < start ==> text::white_space(#[trigger] whole[i])) && (forall|i: int|
            end <= i < whole.len() ==> text::white_space(#[trigger] whole[i])) && (start < end ==> {
            &&& !text::white_space(whole[start])
            &&& !text::white_space(whole[end - 1])
        })
}

/// Whether a text is nothing but white space.
pub open spec fn blank(s: Seq<char>) -> bool {
    forall|i: int| 0 <= i < s.len() ==> text::white_space(#[trigger] s[i])
}

/// Whether two characters are the same, or the two cases of one ASCII letter.
pub open spec fn same_letter(c: char, d: char) -> bool {
    ||| c == d
    ||| 'A' <= c <= 'Z' && d as int == c as int + 32
    ||| 'A' <= d <= 'Z' && c as int == d as int + 32
}

/// Whether two texts are the same, letter by letter, apart from ASCII case.
pub open spec fn same_letters(a: Seq<char>, b: Seq<char>) -> bool {
    a.len() == b.len() && forall|i: int| 0 <= i < a.len() ==> same_letter(#[trigger] a[i], b[i])
}

/// Whether a list has a text, apart from ASCII case.
pub open spec fn among(list: Seq<Seq<char>>, value: Seq<char>) -> bool {
    exists|j: int| 0 <= j < list.len() && same_letters(#[trigger] list[j], value)
}

/// The value of a decimal numeral.
pub open spec fn value_of(numeral: Seq<char>) -> int
    decreases numeral.len(),
{
    if numeral.len() == 0 {
        0
    } else {
        10 * value_of(numeral.drop_last()) + (numeral.last() as int - '0' as int)
    }
}

/// The value of a lower-case hexadecimal digit.
pub open spec fn hex_value(c: char) -> int {
    if '0' <= c <= '9' {
        c as int - '0' as int
    } else if 'a' <= c <= 'f' {
        c as int - 'a' as int + 10
    } else {
        -1
    }
}

proof fn lemma_trimmed_start(s: Seq<char>) -> (start: int)
    ensures
        0 <= start <= s.len(),
        text::trimmed_start(s) == s.skip(start),
        forall|i: int| 0 <= i < start ==> text::white_space(#[trigger] s[i]),
        start < s.len() ==> !text::white_space(s[start]),
    decreases s.len(),
{
    if s.len() > 0 && text::white_space(s[0]) {
        let rest = s.drop_first();
        let start = lemma_trimmed_start(rest);
        assert(rest.skip(start) =~= s.skip(start + 1));
        assert forall|i: int| 0 <= i < start + 1 implies text::white_space(#[trigger] s[i]) by {
            if i > 0 {
                assert(text::white_space(rest[i - 1]));
            }
        }
        start + 1
    } else {
        assert(s.skip(0) =~= s);
        0
    }
}

proof fn lemma_trimmed_end(s: Seq<char>) -> (end: int)
    ensures
        0 <= end <= s.len(),
        text::trimmed_end(s) == s.take(end),
        forall|i: int| end <= i < s.len() ==> text::white_space(#[trigger] s[i]),
        end > 0 ==> !text::white_space(s[end - 1]),
    decreases s.len(),
{
    if s.len() > 0 && text::white_space(s.last()) {
        let rest = s.drop_last();
        let end = lemma_trimmed_end(rest);
        assert(rest.take(end) =~= s.take(end));
        assert forall|i: int| end <= i < s.len() implies text::white_space(#[trigger] s[i]) by {
            if i < rest.len() {
                assert(text::white_space(rest[i]));
            }
        }
        end
    } else {
        assert(s.take(s.len() as int) =~= s);
        s.len() as int
    }
}

/// Trimming takes off white space at both ends, all of it and nothing else;
/// what is left is determined by that, and is empty exactly for blank texts.
pub proof fn law_trimmed_is_the_core(s: Seq<char>, core: Seq<char>)
    ensures
        core_of(text::trimmed(s), s),
        core_of(core, s) ==> core == text::trimmed(s),
        blank(s) <==> text::trimmed(s).len() == 0,
{
    let start = lemma_trimmed_start(s);
    let rest = s.skip(start);
    let len = lemma_trimmed_end(rest);
    assert(rest.take(len) =~= s.subrange(start, start + len));
    assert forall|i: int| start + len <= i < s.len() implies text::white_space(#[trigger] s[i]) by {
        assert(text::white_space(rest[i - start]));
    }
    if len > 0 {
        assert(s[start] == rest[0]);
        assert(s[start + len - 1] == rest[len - 1]);
    }
    assert(s.subrange(start, start + len) == text::trimmed(s));
    if core_of(core, s) {
        let (a, b) = choose|a: int, b: int| #[trigger]
            s.subrange(a, b) == core && 0 <= a <= b <= s.len() && (forall|i: int|
                0 <= i < a ==> text::white_space(#[trigger] s[i])) && (forall|i: int|
                b <= i < s.len() ==> text::white_space(#[trigger] s[i])) && (a < b ==> {
                &&& !text::white_space(s[a])
                &&& !text::white_space(s[b - 1])
            });
        if len > 0 {
            if a >= b {
                assert(text::white_space(s[start]));
            }
            assert(a == start);
            assert(b == start + len);
        } else if a < b {
            assert(text::white_space(s[a]));
        }
        assert(core =~= text::trimmed(s));
    }
    if blank(s) && len > 0 {
        assert(text::white_space(s[start]));
    }
}

/// `trim` returns the core of a text.
pub proof fn law_trim(s: &str, result: &str)
    requires
        call_ensures(text::trim, (s,), result),
    ensures
        core_of(result@, s@),
{
    law_trimmed_is_the_core(s@, result@);
}

/// A list of trimmed texts has the core of each text, at its place.
pub proof fn law_trimmed_all(list: Seq<Seq<char>>)
    ensures
        text::trimmed_all(list).len() == list.len(),
        forall|i: int| #![trigger text::trimmed_all(list)[i]]
            0 <= i < list.len() ==> core_of(text::trimmed_all(list)[i], list[i])
                && text::trimmed_all(list)[i] == text::trimmed(list[i]),
{
    assert forall|i: int| #![trigger text::trimmed_all(list)[i]] 0 <= i < list.len() implies core_of(
        text::trimmed_all(list)[i],
        list[i],
    ) && text::trimmed_all(list)[i] == text::trimmed(list[i]) by {
        law_trimmed_is_the_core(list[i], list[i]);
    }
}

/// The texts of strings are those of each string, at its place.
pub proof fn law_texts(list: Seq<String>, slices: Seq<&str>, string: String, slice: &str)
    ensures
        text::texts(list).len() == list.len(),
        forall|i: int| 0 <= i < list.len() ==> #[trigger] text::texts(list)[i] == list[i]@,
        text::slice_texts(slices).len() == slices.len(),
        forall|i: int| 0 <= i < slices.len() ==> #[trigger] text::slice_texts(slices)[i] == slices[i]@,
        text::opt_string(Some(string)) == Some(string@),
        text::opt_string(None) is None,
        text::opt_text(Some(slice)) == Some(slice@),
        text::opt_text(None) is None,
{
}

/// Lower case moves the letters from `A` to `Z` by 32 and leaves every other
/// character; upper case moves those from `a` to `z` back.
pub proof fn law_ascii_case(s: Seq<char>)
    ensures
        text::lowercase(s).len() == s.len(),
        text::uppercase(s).len() == s.len(),
        forall|i: int| #![trigger text::lowercase(s)[i]]
            0 <= i < s.len() ==> if 'A' <= s[i] <= 'Z' {
                text::lowercase(s)[i] as int == s[i] as int + 32
            } else {
                text::lowercase(s)[i] == s[i]
            },
        forall|i: int| #![trigger text::uppercase(s)[i]]
            0 <= i < s.len() ==> if 'a' <= s[i] <= 'z' {
                text::uppercase(s)[i] as int == s[i] as int - 32
            } else {
                text::uppercase(s)[i] == s[i]
            },
{
}

/// `to_lowercase` and `to_uppercase` change ASCII letters and nothing else.
pub proof fn law_case_conversions(s: &str, lowered: String, raised: String)
    requires
        call_ensures(text::to_lowercase, (s,), lowered),
        call_ensures(text::to_uppercase, (s,), raised),
    ensures
        same_letters(lowered@, s@),
        same_letters(raised@, s@),
        forall|i: int| 0 <= i < lowered@.len() ==> !('A' <= #[trigger] lowered@[i] <= 'Z'),
        forall|i: int| 0 <= i < raised@.len() ==> !('a' <= #[trigger] raised@[i] <= 'z'),
{
    law_ascii_case(s@);
}

/// Texts are told apart letter by letter, without regard to ASCII case alone.
pub proof fn law_same_ignoring_case(a: Seq<char>, b: Seq<char>)
    ensures
        text::same_ignoring_case(a, b) <==> same_letters(a, b),
{
    law_ascii_case(a);
    law_ascii_case(b);
    if text::same_ignoring_case(a, b) {
        assert(text::lowercase(a).len() == text::lowercase(b).len());
        assert forall|i: int| 0 <= i < a.len() implies same_letter(#[trigger] a[i], b[i]) by {
            assert(text::lowercase(a)[i] == text::lowercase(b)[i]);
        }
    }
    if same_letters(a, b) {
        assert forall|i: int| 0 <= i < a.len() implies text::lowercase(a)[i]
            == #[trigger] text::lowercase(b)[i] by {
            assert(same_letter(a[i], b[i]));
        }
        assert(text::lowercase(a) =~= text::lowercase(b));
    }
}

/// A text is listed where the list has it, apart from ASCII case.
pub proof fn law_listed_ignoring_case(list: Seq<Seq<char>>, value: Seq<char>)
    ensures
        text::listed_ignoring_case(list, value) <==> among(list, value),
{
    assert forall|j: int| 0 <= j < list.len() implies text::same_ignoring_case(
        #[trigger] list[j],
        value,
    ) == same_letters(list[j], value) by {
        law_same_ignoring_case(list[j], value);
    }
}

/// `eq_ignoring_case` and `list_has_ignoring_case` go by letters.
pub proof fn law_comparisons(
    a: &str,
    b: &str,
    same: bool,
    list: &[String],
    listed: bool,
)
    requires
        call_ensures(text::eq_ignoring_case, (a, b), same),
        call_ensures(text::list_has_ignoring_case, (list, a), listed),
    ensures
        same <==> same_letters(a@, b@),
        listed <==> exists|j: int| 0 <= j < list@.len() && same_letters((#[trigger] list@[j])@, a@),
{
    law_same_ignoring_case(a@, b@);
    law_listed_ignoring_case(text::texts(list@), a@);
    if listed {
        let j = choose|j: int|
            0 <= j < list@.len() && same_letters(#[trigger] text::texts(list@)[j], a@);
        assert(same_letters(list@[j]@, a@));
    }
    if exists|j: int| 0 <= j < list@.len() && same_letters((#[trigger] list@[j])@, a@) {
        let j = choose|j: int| 0 <= j < list@.len() && same_letters((#[trigger] list@[j])@, a@);
        assert(same_letters(text::texts(list@)[j], a@));
    }
}

/// A name set has a name after an insertion where it had it before, or where
/// it is the inserted one, apart from ASCII case; and the insertion says
/// whether the name was new.
pub proof fn law_name_set(
    set: &mut NameSet,
    name: &str,
    new: bool,
    other: &str,
    before: bool,
    had: bool,
    after: bool,
)
    requires
        call_ensures(NameSet::insert, (set, name), new),
        call_ensures(NameSet::has, (&*old(set), name), had),
        call_ensures(NameSet::has, (&*old(set), other), before),
        call_ensures(NameSet::has, (&*final(set), other), after),
    ensures
        new == !had,
        after <==> before || same_letters(name@, other@),
{
    let first = old(set)@;
    let second = final(set)@;
    law_listed_ignoring_case(first, other@);
    law_listed_ignoring_case(second, other@);
    assert(second == first.push(name@));
    assert(second[first.len() as int] == name@);
    if among(first, other@) {
        let j = choose|j: int| 0 <= j < first.len() && same_letters(#[trigger] first[j], other@);
        assert(second[j] == first[j]);
    }
    if among(second, other@) {
        let j = choose|j: int| 0 <= j < second.len() && same_letters(#[trigger] second[j], other@);
        if j < first.len() {
            assert(first[j] == second[j]);
        }
    }
}

/// A new name set has no name, and one of a list has those of the list, apart
/// from ASCII case.
pub proof fn law_name_set_of(
    list: &[String],
    set: NameSet,
    name: &str,
    has: bool,
    empty: NameSet,
    in_empty: bool,
)
    requires
        call_ensures(NameSet::of, (list,), set),
        call_ensures(NameSet::has, (&set, name), has),
        call_ensures(NameSet::new, (), empty),
        call_ensures(NameSet::has, (&empty, name), in_empty),
    ensures
        !in_empty,
        has <==> exists|j: int|
            0 <= j < list@.len() && same_letters((#[trigger] list@[j])@, name@),
{
    law_listed_ignoring_case(set@, name@);
    law_listed_ignoring_case(empty@, name@);
    if has {
        let j = choose|j: int| 0 <= j < set@.len() && same_letters(#[trigger] set@[j], name@);
        assert(same_letters(list@[j]@, name@));
    }
    if exists|j: int| 0 <= j < list@.len() && same_letters((#[trigger] list@[j])@, name@) {
        let j = choose|j: int| 0 <= j < list@.len() && same_letters((#[trigger] list@[j])@, name@);
        assert(same_letters(set@[j], name@));
    }
}

/// `strip_prefix` and `strip_suffix` undo concatenation, wherever there is one
/// to undo.
pub proof fn law_stripping<'a>(
    s: &'a str,
    part: &str,
    behind: Option<&'a str>,
    ahead: Option<&'a str>,
    rest: Seq<char>,
)
    requires
        call_ensures(text::strip_prefix, (s, part), behind),
        call_ensures(text::strip_suffix, (s, part), ahead),
    ensures
        s@ == part@ + rest <==> (behind matches Some(found) && found@ == rest),
        s@ == rest + part@ <==> (ahead matches Some(found) && found@ == rest),
        behind matches Some(found) ==> s@ == part@ + found@,
        ahead matches Some(found) ==> s@ == found@ + part@,
{
    if s@ == part@ + rest {
        assert(part@.is_prefix_of(s@));
        assert(s@.skip(part@.len() as int) =~= rest);
    }
    if s@ == rest + part@ {
        assert(part@.is_suffix_of(s@));
        assert(s@.take(s@.len() - part@.len()) =~= rest);
    }
    if part@.is_prefix_of(s@) {
        assert(s@ =~= part@ + s@.skip(part@.len() as int));
    }
    if part@.is_suffix_of(s@) {
        assert(s@ =~= s@.take(s@.len() - part@.len()) + part@);
    }
}

/// Whether `part` is what follows the last occurrence of a character.
pub open spec fn last_part(part: Seq<char>, s: Seq<char>, c: char) -> bool {
    exists|head: Seq<char>| #[trigger]
        (head + part) == s && (head.len() > 0 ==> head.last() == c) && !part.contains(c)
}

/// The part behind the last occurrence of a character has no more of it, and
/// nothing but that character stands in front of it, which determines it; the
/// text is its own last part where the character does not occur.
pub proof fn law_behind_last(s: Seq<char>, c: char, other: Seq<char>)
    ensures
        last_part(text::behind_last(s, c), s, c),
        last_part(other, s, c) ==> other == text::behind_last(s, c),
        !s.contains(c) ==> text::behind_last(s, c) == s,
    decreases s.len(),
{
    let part = text::behind_last(s, c);
    if s.len() == 0 || s.last() == c {
        assert(s + part =~= s);
        if s.len() > 0 {
            assert(s.contains(c)) by {
                assert(s[s.len() - 1] == c);
            }
        } else {
            assert(part =~= s);
        }
    } else {
        let shorter = s.drop_last();
        law_behind_last(shorter, c, shorter);
        let before = text::behind_last(shorter, c);
        let head = choose|head: Seq<char>| #[trigger]
            (head + before) == shorter && (head.len() > 0 ==> head.last() == c)
                && !before.contains(c);
        assert(head + part =~= (head + before).push(s.last()));
        assert(head + part =~= s);
        assert(!part.contains(c)) by {
            if part.contains(c) {
                let i = choose|i: int| 0 <= i < part.len() && part[i] == c;
                assert(before[i] == c);
            }
        }
        if !s.contains(c) {
            assert(!shorter.contains(c)) by {
                if shorter.contains(c) {
                    let i = choose|i: int| 0 <= i < shorter.len() && shorter[i] == c;
                    assert(s[i] == c);
                }
            }
            assert(part =~= s);
        }
    }
    if last_part(other, s, c) {
        lemma_last_part_is_unique(s, c, part, other);
    }
}

proof fn lemma_last_part_is_shorter(
    a: Seq<char>,
    one: Seq<char>,
    b: Seq<char>,
    other: Seq<char>,
    c: char,
)
    requires
        a + one == b + other,
        b.len() > 0 ==> b.last() == c,
        !one.contains(c),
    ensures
        b.len() <= a.len(),
{
    if a.len() < b.len() {
        let i = b.len() - 1;
        assert((a + one).len() == a.len() + one.len());
        assert((b + other).len() == b.len() + other.len());
        assert((b + other)[i] == c);
        assert(a.len() <= i < a.len() + one.len());
        assert(a.add(one)[i] == one[i - a.len()]);
        assert(one.contains(c));
    }
}

proof fn lemma_last_part_is_unique(s: Seq<char>, c: char, one: Seq<char>, other: Seq<char>)
    requires
        last_part(one, s, c),
        last_part(other, s, c),
    ensures
        one == other,
{
    let a = choose|head: Seq<char>| #[trigger]
        (head + one) == s && (head.len() > 0 ==> head.last() == c) && !one.contains(c);
    let b = choose|head: Seq<char>| #[trigger]
        (head + other) == s && (head.len() > 0 ==> head.last() == c) && !other.contains(c);
    lemma_last_part_is_shorter(a, one, b, other, c);
    lemma_last_part_is_shorter(b, other, a, one, c);
    assert(s.skip(a.len() as int) =~= one);
    assert(s.skip(b.len() as int) =~= other);
}

/// `after_last` returns the last part of a text.
pub proof fn law_after_last(s: &str, c: char, result: &str)
    requires
        call_ensures(text::after_last, (s, c), result),
    ensures
        last_part(result@, s@, c),
{
    law_behind_last(s@, c, s@);
}

/// A decimal numeral consists of digits, has the value of its number, and
/// begins with zero for zero alone.
pub proof fn law_decimal(n: nat)
    ensures
        value_of(text::decimal(n)) == n,
        text::decimal(n).len() > 0,
        forall|i: int|
            0 <= i < text::decimal(n).len() ==> '0' <= #[trigger] text::decimal(n)[i] <= '9',
        text::decimal(n)[0] == '0' ==> n == 0 && text::decimal(n).len() == 1,
    decreases n,
{
    let numeral = text::decimal(n);
    if n < 10 {
        assert(numeral.drop_last() =~= seq![]);
        assert(value_of(numeral.drop_last()) == 0);
    } else {
        law_decimal(n / 10);
        let ahead = text::decimal(n / 10);
        assert(numeral.drop_last() =~= ahead);
        assert(numeral[0] == ahead[0]);
        assert forall|i: int| 0 <= i < numeral.len() implies '0' <= #[trigger] numeral[i] <= '9' by {
            if i < ahead.len() {
                assert(numeral[i] == ahead[i]);
            }
        }
    }
}

/// `to_decimal` returns the numeral of a number.
pub proof fn law_to_decimal(n: u64, result: String)
    requires
        call_ensures(text::to_decimal, (n,), result),
    ensures
        value_of(result@) == n,
        result@.len() > 0,
        forall|i: int| 0 <= i < result@.len() ==> '0' <= #[trigger] result@[i] <= '9',
        result@[0] == '0' ==> n == 0 && result@.len() == 1,
{
    law_decimal(n as nat);
}

/// Whether the digits at twice the place of a byte show its value, the higher
/// one first.
pub open spec fn shows_byte(digits: Seq<char>, i: int, byte: u8) -> bool {
    &&& 0 <= hex_value(digits[2 * i]) < 16
    &&& 0 <= hex_value(digits[2 * i + 1]) < 16
    &&& byte == 16 * hex_value(digits[2 * i]) + hex_value(digits[2 * i + 1])
}

/// Each byte becomes two lower-case hexadecimal digits of its value.
pub proof fn law_lower_hex(bytes: Seq<u8>)
    ensures
        text::lower_hex(bytes).len() == 2 * bytes.len(),
        forall|i: int|
            0 <= i < bytes.len() ==> shows_byte(text::lower_hex(bytes), i, #[trigger] bytes[i]),
    decreases bytes.len(),
{
    if bytes.len() > 0 {
        let shorter = bytes.drop_last();
        law_lower_hex(shorter);
        let shown = text::lower_hex(bytes);
        assert forall|i: int| 0 <= i < bytes.len() implies shows_byte(
            shown,
            i,
            #[trigger] bytes[i],
        ) by {
            if i < shorter.len() {
                assert(shows_byte(text::lower_hex(shorter), i, shorter[i]));
                assert(shown[2 * i] == text::lower_hex(shorter)[2 * i]);
                assert(shown[2 * i + 1] == text::lower_hex(shorter)[2 * i + 1]);
            } else {
                assert(shown[2 * i] == text::digit(bytes[i] as int / 16));
                assert(shown[2 * i + 1] == text::digit(bytes[i] as int % 16));
            }
        }
    }
}

/// `to_lower_hex` returns the hexadecimal digits of bytes.
pub proof fn law_to_lower_hex(bytes: &[u8], result: String)
    requires
        call_ensures(text::to_lower_hex, (bytes,), result),
    ensures
        result@.len() == 2 * bytes@.len(),
        forall|i: int| 0 <= i < bytes@.len() ==> shows_byte(result@, i, #[trigger] bytes@[i]),
{
    law_lower_hex(bytes@);
}

/// Joining puts the separator between neighbours and nowhere else: nothing is
/// joined to nothing, one part to itself, and parts in two runs to the join of
/// each run with the separator between them.
pub proof fn law_joined(front: Seq<Seq<char>>, back: Seq<Seq<char>>, separator: Seq<char>)
    ensures
        front.len() == 0 ==> text::joined(front, separator) == Seq::<char>::empty(),
        front.len() == 1 ==> text::joined(front, separator) == front[0],
        front.len() > 0 && back.len() > 0 ==> text::joined(front + back, separator) == text::joined(
            front,
            separator,
        ) + separator + text::joined(back, separator),
    decreases back.len(),
{
    if front.len() > 0 && back.len() > 0 {
        let whole = front + back;
        assert(whole.drop_last() =~= front + back.drop_last());
        assert(whole.last() == back.last());
        if back.len() == 1 {
            assert(whole.drop_last() =~= front);
        } else {
            law_joined(front, back.drop_last(), separator);
        }
        assert(text::joined(whole, separator) =~= text::joined(front, separator) + separator
            + text::joined(back, separator));
    }
}

/// `join` and `join_slices` put the separator between neighbours.
pub proof fn law_join(
    front: &[String],
    back: &[String],
    whole: &[String],
    slices: &[&str],
    separator: &str,
    joined_front: String,
    joined_back: String,
    joined_whole: String,
    joined_slices: String,
)
    requires
        whole@ == front@ + back@,
        slices@.len() == whole@.len(),
        forall|i: int| 0 <= i < slices@.len() ==> (#[trigger] slices@[i])@ == whole@[i]@,
        call_ensures(text::join, (front, separator), joined_front),
        call_ensures(text::join, (back, separator), joined_back),
        call_ensures(text::join, (whole, separator), joined_whole),
        call_ensures(text::join_slices, (slices, separator), joined_slices),
    ensures
        front@.len() == 0 ==> joined_front@.len() == 0,
        front@.len() == 1 ==> joined_front@ == front@[0]@,
        front@.len() > 0 && back@.len() > 0 ==> joined_whole@ == joined_front@ + separator@
            + joined_back@,
        joined_slices@ == joined_whole@,
{
    let a = text::texts(front@);
    let b = text::texts(back@);
    law_joined(a, b, separator@);
    assert(text::texts(whole@) =~= a + b);
    assert(text::slice_texts(slices@) =~= text::texts(whole@));
}

} // verus!
