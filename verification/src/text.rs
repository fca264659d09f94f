//! Text as sequences of characters: trimming, ASCII case, numerals and joining.
use vstd::prelude::*;
use vstd::string::*;

verus! {

/// `String::push`: the character becomes the last one of the text.
pub assume_specification[ String::push ](s: &mut String, c: char)
    ensures
        final(s)@ == old(s)@.push(c),
;

/// The texts of a list of strings.
pub open spec fn texts(list: Seq<String>) -> Seq<Seq<char>> {
    list.map_values(|s: String| s@)
}

/// The text of an optional string slice.
pub open spec fn opt_text(value: Option<&str>) -> Option<Seq<char>> {
    match value {
        Some(s) => Some(s@),
        None => None,
    }
}

/// The text of an optional string.
pub open spec fn opt_string(value: Option<String>) -> Option<Seq<char>> {
    match value {
        Some(s) => Some(s@),
        None => None,
    }
}

/// Characters with the Unicode property `White_Space`.
pub open spec fn white_space(c: char) -> bool {
    ||| '\u{9}' <= c <= '\u{d}'
    ||| c == '\u{20}'
    ||| c == '\u{85}'
    ||| c == '\u{a0}'
    ||| c == '\u{1680}'
    ||| '\u{2000}' <= c <= '\u{200a}'
    ||| c == '\u{2028}'
    ||| c == '\u{2029}'
    ||| c == '\u{202f}'
    ||| c == '\u{205f}'
    ||| c == '\u{3000}'
}

/// Decides `white_space`.
pub fn is_white_space(c: char) -> (result: bool)
    ensures
        result == white_space(c),
{
    ('\u{9}' <= c && c <= '\u{d}') || c == '\u{20}' || c == '\u{85}' || c == '\u{a0}' || c
        == '\u{1680}' || ('\u{2000}' <= c && c <= '\u{200a}') || c == '\u{2028}' || c == '\u{2029}'
        || c == '\u{202f}' || c == '\u{205f}' || c == '\u{3000}'
}

/// The text without its leading white space.
pub open spec fn trimmed_start(s: Seq<char>) -> Seq<char>
    decreases s.len(),
{
    if s.len() > 0 && white_space(s[0]) {
        trimmed_start(s.drop_first())
    } else {
        s
    }
}

/// The text without its trailing white space.
pub open spec fn trimmed_end(s: Seq<char>) -> Seq<char>
    decreases s.len(),
{
    if s.len() > 0 && white_space(s.last()) {
        trimmed_end(s.drop_last())
    } else {
        s
    }
}

/// The text without white space at either end.
pub open spec fn trimmed(s: Seq<char>) -> Seq<char> {
    trimmed_end(trimmed_start(s))
}

/// Each text of a list, trimmed.
pub open spec fn trimmed_all(list: Seq<Seq<char>>) -> Seq<Seq<char>> {
    list.map_values(|s: Seq<char>| trimmed(s))
}

proof fn lemma_trimmed_start_skips(s: Seq<char>, start: int)
    requires
        0 <= start <= s.len(),
        forall|i: int| 0 <= i < start ==> white_space(s[i]),
        start < s.len() ==> !white_space(s[start]),
    ensures
        trimmed_start(s) == s.skip(start),
    decreases start,
{
    if start > 0 {
        let rest = s.drop_first();
        assert forall|i: int| 0 <= i < start - 1 implies white_space(rest[i]) by {
            assert(white_space(s[i + 1]));
        }
        lemma_trimmed_start_skips(rest, start - 1);
        assert(rest.skip(start - 1) =~= s.skip(start));
    } else {
        assert(s.skip(0) =~= s);
    }
}

proof fn lemma_trimmed_end_takes(s: Seq<char>, end: int)
    requires
        0 <= end <= s.len(),
        forall|i: int| end <= i < s.len() ==> white_space(s[i]),
        end > 0 ==> !white_space(s[end - 1]),
    ensures
        trimmed_end(s) == s.take(end),
    decreases s.len() - end,
{
    if end < s.len() {
        lemma_trimmed_end_takes(s.drop_last(), end);
        assert(s.drop_last().take(end) =~= s.take(end));
    } else {
        assert(s.take(end) =~= s);
    }
}

/// A text whose first and last characters are not white space is its own
/// trimming.
proof fn lemma_trimmed_id(s: Seq<char>)
    requires
        s.len() > 0 ==> !white_space(s[0]) && !white_space(s.last()),
    ensures
        trimmed(s) == s,
{
}

proof fn lemma_trimmed_start_props(s: Seq<char>)
    ensures
        trimmed_start(s).len() > 0 ==> !white_space(trimmed_start(s)[0]),
    decreases s.len(),
{
    if s.len() > 0 && white_space(s[0]) {
        lemma_trimmed_start_props(s.drop_first());
    }
}

proof fn lemma_trimmed_end_props(s: Seq<char>)
    ensures
        trimmed_end(s).len() > 0 ==> !white_space(trimmed_end(s).last()) && s.len() > 0
            && trimmed_end(s)[0] == s[0],
    decreases s.len(),
{
    if s.len() > 0 && white_space(s.last()) {
        lemma_trimmed_end_props(s.drop_last());
    }
}

/// Trimming leaves no white space at either end, and trimming again changes
/// nothing.
pub proof fn lemma_trimmed_is_settled(s: Seq<char>)
    ensures
        trimmed(s).len() > 0 ==> !white_space(trimmed(s)[0]) && !white_space(trimmed(s).last()),
        trimmed(trimmed(s)) == trimmed(s),
{
    lemma_trimmed_start_props(s);
    lemma_trimmed_end_props(trimmed_start(s));
    lemma_trimmed_id(trimmed(s));
}

/// The characters of a string slice.
pub fn char_list(s: &str) -> (list: Vec<char>)
    ensures
        list@ == s@,
{
    let mut list: Vec<char> = Vec::new();
    for c in it: s.chars()
        invariant
            it.seq() == s@,
            list@ == s@.take(it.index()),
    {
        list.push(c);
        assert(s@.take(it.index() + 1) =~= s@.take(it.index()).push(s@[it.index()]));
    }
    assert(s@.take(s@.len() as int) =~= s@);
    list
}

/// The slice without white space at either end.
pub fn trim(s: &str) -> (result: &str)
    ensures
        result@ == trimmed(s@),
{
    let list = char_list(s);
    let mut start: usize = 0;
    while start < list.len() && is_white_space(list[start])
        invariant
            start <= list.len(),
            forall|i: int| 0 <= i < start ==> white_space(list@[i]),
        decreases list.len() - start,
    {
        start += 1;
    }
    let mut end: usize = list.len();
    while end > start && is_white_space(list[end - 1])
        invariant
            start <= end <= list.len(),
            forall|i: int| end <= i < list.len() ==> white_space(list@[i]),
        decreases end,
    {
        end -= 1;
    }
    proof {
        lemma_trimmed_start_skips(s@, start as int);
        let rest = s@.skip(start as int);
        assert forall|i: int| end - start <= i < rest.len() implies white_space(rest[i]) by {
            assert(white_space(s@[i + start]));
        }
        lemma_trimmed_end_takes(rest, end - start);
        assert(rest.take(end - start) =~= s@.subrange(start as int, end as int));
    }
    s.substring_char(start, end)
}

/// What follows a prefix, where the text has it.
pub open spec fn stripped_prefix(s: Seq<char>, prefix: Seq<char>) -> Option<Seq<char>> {
    if prefix.is_prefix_of(s) {
        Some(s.skip(prefix.len() as int))
    } else {
        None
    }
}

/// What precedes a suffix, where the text has it.
pub open spec fn stripped_suffix(s: Seq<char>, suffix: Seq<char>) -> Option<Seq<char>> {
    if suffix.is_suffix_of(s) {
        Some(s.take(s.len() - suffix.len()))
    } else {
        None
    }
}

fn holds_at(list: &Vec<char>, part: &Vec<char>, at: usize) -> (result: bool)
    requires
        at + part.len() <= list.len(),
    ensures
        result == (list@.subrange(at as int, at + part@.len()) == part@),
{
    let mut i: usize = 0;
    while i < part.len()
        invariant
            i <= part@.len(),
            at + part.len() <= list.len(),
            forall|k: int| 0 <= k < i ==> list@[at + k] == #[trigger] part@[k],
        decreases part.len() - i,
    {
        if list[at + i] != part[i] {
            assert(list@.subrange(at as int, at + part@.len())[i as int] != part@[i as int]);
            return false;
        }
        i += 1;
    }
    assert(list@.subrange(at as int, at + part@.len()) =~= part@);
    true
}

/// The slice after a prefix, where it has it.
pub fn strip_prefix<'a>(s: &'a str, prefix: &str) -> (result: Option<&'a str>)
    ensures
        opt_text(result) == stripped_prefix(s@, prefix@),
{
    let list = char_list(s);
    let part = char_list(prefix);
    if part.len() <= list.len() && holds_at(&list, &part, 0) {
        assert(prefix@.is_prefix_of(s@));
        let rest = s.substring_char(part.len(), list.len());
        assert(rest@ =~= s@.skip(prefix@.len() as int));
        Some(rest)
    } else {
        None
    }
}

/// The slice before a suffix, where it has it.
pub fn strip_suffix<'a>(s: &'a str, suffix: &str) -> (result: Option<&'a str>)
    ensures
        opt_text(result) == stripped_suffix(s@, suffix@),
{
    let list = char_list(s);
    let part = char_list(suffix);
    if part.len() <= list.len() && holds_at(&list, &part, list.len() - part.len()) {
        assert(suffix@.is_suffix_of(s@));
        let rest = s.substring_char(0, list.len() - part.len());
        assert(rest@ =~= s@.take(s@.len() - suffix@.len()));
        Some(rest)
    } else {
        None
    }
}

/// The part of a text behind the last occurrence of a character; the whole
/// text where it does not occur.
pub open spec fn behind_last(s: Seq<char>, c: char) -> Seq<char>
    decreases s.len(),
{
    if s.len() == 0 || s.last() == c {
        seq![]
    } else {
        behind_last(s.drop_last(), c).push(s.last())
    }
}

/// The part of a slice behind the last occurrence of a character.
pub fn after_last(s: &str, c: char) -> (result: &str)
    ensures
        result@ == behind_last(s@, c),
{
    let list = char_list(s);
    let mut start: usize = list.len();
    assert(s@.take(start as int) =~= s@);
    while start > 0 && list[start - 1] != c
        invariant
            list@ == s@,
            start <= list.len(),
            behind_last(s@, c) =~= behind_last(s@.take(start as int), c) + s@.skip(start as int),
        decreases start,
    {
        proof {
            let shown = s@.take(start as int);
            assert(shown.drop_last() =~= s@.take(start - 1));
            assert(s@.skip(start - 1) =~= seq![shown.last()] + s@.skip(start as int));
        }
        start -= 1;
    }
    let result = s.substring_char(start, list.len());
    assert(result@ =~= s@.skip(start as int));
    result
}

/// The ASCII lower case of a character.
pub open spec fn lower(c: char) -> char {
    if 'A' <= c <= 'Z' {
        (c as u32 + 32) as char
    } else {
        c
    }
}

/// The ASCII upper case of a character.
pub open spec fn upper(c: char) -> char {
    if 'a' <= c <= 'z' {
        (c as u32 - 32) as char
    } else {
        c
    }
}

/// The text in ASCII lower case.
pub open spec fn lowercase(s: Seq<char>) -> Seq<char> {
    s.map_values(|c: char| lower(c))
}

/// The text in ASCII upper case.
pub open spec fn uppercase(s: Seq<char>) -> Seq<char> {
    s.map_values(|c: char| upper(c))
}

/// Whether two texts differ in ASCII case at most.
pub open spec fn same_ignoring_case(a: Seq<char>, b: Seq<char>) -> bool {
    lowercase(a) == lowercase(b)
}

/// Upper case is final, hides behind lower case, and leaves a trimmed text
/// trimmed.
pub proof fn lemma_uppercase(s: Seq<char>)
    ensures
        uppercase(uppercase(s)) == uppercase(s),
        lowercase(uppercase(s)) == lowercase(s),
        trimmed(s) == s ==> trimmed(uppercase(s)) == uppercase(s),
{
    assert(uppercase(uppercase(s)) =~= uppercase(s));
    assert(lowercase(uppercase(s)) =~= lowercase(s));
    if trimmed(s) == s {
        lemma_trimmed_is_settled(s);
        lemma_trimmed_id(uppercase(s));
    }
}

/// The string in ASCII lower case.
pub fn to_lowercase(s: &str) -> (result: String)
    ensures
        result@ == lowercase(s@),
{
    let mut result = String::new();
    for c in it: s.chars()
        invariant
            it.seq() == s@,
            result@ == lowercase(s@.take(it.index())),
    {
        let next: char = if 'A' <= c && c <= 'Z' {
            ((c as u8) + 32) as char
        } else {
            c
        };
        result.push(next);
        assert(lowercase(s@.take(it.index() + 1)) =~= lowercase(s@.take(it.index())).push(lower(c)));
    }
    assert(s@.take(s@.len() as int) =~= s@);
    result
}

/// The string in ASCII upper case.
pub fn to_uppercase(s: &str) -> (result: String)
    ensures
        result@ == uppercase(s@),
{
    let mut result = String::new();
    for c in it: s.chars()
        invariant
            it.seq() == s@,
            result@ == uppercase(s@.take(it.index())),
    {
        let next: char = if 'a' <= c && c <= 'z' {
            ((c as u8) - 32) as char
        } else {
            c
        };
        result.push(next);
        assert(uppercase(s@.take(it.index() + 1)) =~= uppercase(s@.take(it.index())).push(upper(c)));
    }
    assert(s@.take(s@.len() as int) =~= s@);
    result
}

/// Decides `same_ignoring_case`.
pub fn eq_ignoring_case(a: &str, b: &str) -> (result: bool)
    ensures
        result == same_ignoring_case(a@, b@),
{
    to_lowercase(a) == to_lowercase(b)
}

/// Whether a list holds a text, apart from ASCII case.
pub open spec fn listed_ignoring_case(list: Seq<Seq<char>>, value: Seq<char>) -> bool {
    exists|j: int| 0 <= j < list.len() && same_ignoring_case(#[trigger] list[j], value)
}

/// Decides `listed_ignoring_case`.
pub fn list_has_ignoring_case(list: &[String], value: &str) -> (result: bool)
    ensures
        result == listed_ignoring_case(texts(list@), value@),
{
    let lowered = to_lowercase(value);
    let mut i: usize = 0;
    while i < list.len()
        invariant
            lowered@ == lowercase(value@),
            i <= list.len(),
            forall|j: int| 0 <= j < i ==> !same_ignoring_case(#[trigger] texts(list@)[j], value@),
        decreases list.len() - i,
    {
        assert(texts(list@)[i as int] == list@[i as int]@);
        if to_lowercase(list[i].as_str()) == lowered {
            return true;
        }
        i += 1;
    }
    false
}

/// The character of a decimal or lower-case hexadecimal digit.
pub open spec fn digit(d: int) -> char {
    if d < 10 {
        (48 + d) as char
    } else {
        (87 + d) as char
    }
}

/// The decimal numeral of a number.
pub open spec fn decimal(n: nat) -> Seq<char>
    decreases n,
{
    if n < 10 {
        seq![digit(n as int)]
    } else {
        decimal(n / 10).push(digit((n % 10) as int))
    }
}

/// The decimal numeral of a number, as a string.
pub fn to_decimal(n: u64) -> (result: String)
    ensures
        result@ == decimal(n as nat),
    decreases n,
{
    if n < 10 {
        let mut result = String::new();
        result.push((48 + n as u8) as char);
        assert(result@ =~= decimal(n as nat));
        result
    } else {
        let mut result = to_decimal(n / 10);
        result.push((48 + (n % 10) as u8) as char);
        result
    }
}

/// Bytes as pairs of lower-case hexadecimal digits.
pub open spec fn lower_hex(bytes: Seq<u8>) -> Seq<char>
    decreases bytes.len(),
{
    if bytes.len() == 0 {
        seq![]
    } else {
        lower_hex(bytes.drop_last()) + seq![
            digit(bytes.last() as int / 16),
            digit(bytes.last() as int % 16),
        ]
    }
}

fn digit_char(d: u8) -> (c: char)
    requires
        d < 16,
    ensures
        c == digit(d as int),
{
    if d < 10 {
        (48 + d) as char
    } else {
        (87 + d) as char
    }
}

/// Bytes as a string of lower-case hexadecimal digits.
pub fn to_lower_hex(bytes: &[u8]) -> (result: String)
    ensures
        result@ == lower_hex(bytes@),
{
    let mut result = String::new();
    let mut i: usize = 0;
    while i < bytes.len()
        invariant
            i <= bytes.len(),
            result@ == lower_hex(bytes@.take(i as int)),
        decreases bytes.len() - i,
    {
        let byte = bytes[i];
        result.push(digit_char(byte / 16));
        result.push(digit_char(byte % 16));
        proof {
            let shown = bytes@.take(i + 1);
            assert(shown.drop_last() =~= bytes@.take(i as int));
            assert(result@ =~= lower_hex(shown));
        }
        i += 1;
    }
    assert(bytes@.take(bytes@.len() as int) =~= bytes@);
    result
}

/// Hexadecimal digits, in either case.
pub open spec fn hex_digit(c: char) -> bool {
    '0' <= c <= '9' || 'a' <= c <= 'f' || 'A' <= c <= 'F'
}

/// `lower_hex` writes two hexadecimal digits for each byte, in lower case.
pub proof fn lemma_lower_hex_digits(bytes: Seq<u8>)
    ensures
        lower_hex(bytes).len() == 2 * bytes.len(),
        forall|i: int| 0 <= i < lower_hex(bytes).len() ==> hex_digit(#[trigger] lower_hex(bytes)[i]),
        lowercase(lower_hex(bytes)) == lower_hex(bytes),
    decreases bytes.len(),
{
    if bytes.len() > 0 {
        lemma_lower_hex_digits(bytes.drop_last());
        let shown = lower_hex(bytes.drop_last());
        assert forall|i: int| 0 <= i < lower_hex(bytes).len() implies hex_digit(
            #[trigger] lower_hex(bytes)[i],
        ) && lower(lower_hex(bytes)[i]) == lower_hex(bytes)[i] by {
            if i < shown.len() {
                assert(lower_hex(bytes)[i] == shown[i]);
                assert(lowercase(shown)[i] == shown[i]);
            }
        }
    }
    assert(lowercase(lower_hex(bytes)) =~= lower_hex(bytes));
}

/// Where a numbered series of checks first finds a fault, from a number on,
/// with the message of that fault.
pub open spec fn first_fault(
    count: nat,
    fault: spec_fn(int) -> Option<Seq<char>>,
    from: nat,
) -> Option<(int, Seq<char>)>
    decreases count - from,
{
    if from >= count {
        None
    } else {
        match fault(from as int) {
            Some(message) => Some((from as int, message)),
            None => first_fault(count, fault, from + 1),
        }
    }
}

/// `first_fault` skips what has no fault.
pub proof fn lemma_first_fault(
    count: nat,
    fault: spec_fn(int) -> Option<Seq<char>>,
    from: nat,
    at: nat,
)
    requires
        from <= at <= count,
        forall|i: int| from <= i < at ==> (#[trigger] fault(i)) is None,
    ensures
        first_fault(count, fault, from) == first_fault(count, fault, at),
    decreases at - from,
{
    if from < at {
        lemma_first_fault(count, fault, from + 1, at);
    }
}

/// What `first_fault` finds is a fault, nothing ahead of it is one, and it
/// finds nothing only where there is none.
pub proof fn lemma_first_fault_sound(
    count: nat,
    fault: spec_fn(int) -> Option<Seq<char>>,
    from: nat,
)
    ensures
        match first_fault(count, fault, from) {
            Some((at, message)) => from <= at < count && fault(at) == Some(message) && (forall|
                i: int,
            |
                from <= i < at ==> (#[trigger] fault(i)) is None),
            None => forall|i: int| from <= i < count ==> (#[trigger] fault(i)) is None,
        },
    decreases count - from,
{
    if from < count && fault(from as int) is None {
        lemma_first_fault_sound(count, fault, from + 1);
    }
}

/// Texts one after another, with a separator between neighbours.
pub open spec fn joined(parts: Seq<Seq<char>>, separator: Seq<char>) -> Seq<char>
    decreases parts.len(),
{
    if parts.len() == 0 {
        seq![]
    } else if parts.len() == 1 {
        parts[0]
    } else {
        joined(parts.drop_last(), separator) + separator + parts.last()
    }
}

/// The strings one after another, with a separator between neighbours.
pub fn join(parts: &[String], separator: &str) -> (result: String)
    ensures
        result@ == joined(texts(parts@), separator@),
{
    let mut result = String::new();
    let mut i: usize = 0;
    while i < parts.len()
        invariant
            i <= parts.len(),
            result@ == joined(texts(parts@.take(i as int)), separator@),
        decreases parts.len() - i,
    {
        if i > 0 {
            result.append(separator);
        }
        result.append(parts[i].as_str());
        proof {
            let shown = texts(parts@.take(i + 1));
            assert(shown.drop_last() =~= texts(parts@.take(i as int)));
            assert(shown.last() == parts@[i as int]@);
            assert(result@ =~= joined(shown, separator@));
        }
        i += 1;
    }
    assert(parts@.take(parts@.len() as int) =~= parts@);
    result
}

/// The texts of a list of string slices.
pub open spec fn slice_texts(list: Seq<&str>) -> Seq<Seq<char>> {
    list.map_values(|s: &str| s@)
}

/// The slices one after another, with a separator between neighbours.
pub fn join_slices(parts: &[&str], separator: &str) -> (result: String)
    ensures
        result@ == joined(slice_texts(parts@), separator@),
{
    let mut list: Vec<String> = Vec::new();
    let mut i: usize = 0;
    while i < parts.len()
        invariant
            i <= parts.len(),
            list@.len() == i,
            forall|k: int| 0 <= k < i ==> (#[trigger] list@[k])@ == parts@[k]@,
        decreases parts.len() - i,
    {
        list.push(parts[i].to_owned());
        i += 1;
    }
    assert(texts(list@) =~= slice_texts(parts@));
    join(list.as_slice(), separator)
}

} // verus!
