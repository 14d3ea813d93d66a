//! Text handling on characters: trimming, splitting, searching and numbers in decimal.
//!
//! A text is modelled as the sequence of its characters.
use vstd::prelude::*;

verus! {

/// `String::push`: the given character is appended to the end of the string.
pub assume_specification[ String::push ](text: &mut String, c: char)
    ensures
        final(text)@ == old(text)@.push(c),
;

/// The characters with the Unicode property `White_Space`.
pub open spec fn is_white(c: char) -> bool {
    ||| '\u{9}' <= c <= '\u{d}'
    ||| c == ' '
    ||| c == '\u{85}'
    ||| c == '\u{a0}'
    ||| c == '\u{1680}'
    ||| '\u{2000}' <= c <= '\u{200a}'
    ||| c == '\u{2028}'
    ||| c == '\u{2029}'
    ||| c == '\u{202f}'
    ||| c == '\u{205f}'
    ||| c == '\u{3000}'
}

/// `text` without the white space that it starts with.
pub open spec fn trimmed_start(text: Seq<char>) -> Seq<char>
    decreases text.len(),
{
    if text.len() > 0 && is_white(text[0]) {
        trimmed_start(text.drop_first())
    } else {
        text
    }
}

/// `text` without the white space that it ends with.
pub open spec fn trimmed_end(text: Seq<char>) -> Seq<char>
    decreases text.len(),
{
    if text.len() > 0 && is_white(text.last()) {
        trimmed_end(text.drop_last())
    } else {
        text
    }
}

/// `text` without white space at either end.
pub open spec fn trimmed(text: Seq<char>) -> Seq<char> {
    trimmed_end(trimmed_start(text))
}

/// Whether `text` holds nothing but white space.
pub open spec fn blank(text: Seq<char>) -> bool {
    forall|i: int| 0 <= i < text.len() ==> is_white(#[trigger] text[i])
}

/// `text` without any of the copies of `prefix` that it starts with.
pub open spec fn without_prefixes(text: Seq<char>, prefix: Seq<char>) -> Seq<char>
    decreases text.len(),
{
    if prefix.len() > 0 && prefix.is_prefix_of(text) {
        without_prefixes(text.skip(prefix.len() as int), prefix)
    } else {
        text
    }
}

/// `text` without any of the copies of `suffix` that it ends with.
pub open spec fn without_suffixes(text: Seq<char>, suffix: Seq<char>) -> Seq<char>
    decreases text.len(),
{
    if suffix.len() > 0 && suffix.is_suffix_of(text) {
        without_suffixes(text.take(text.len() - suffix.len()), suffix)
    } else {
        text
    }
}

/// Whether `part` stands in `text` from position `at` on.
pub open spec fn occurs_at(text: Seq<char>, part: Seq<char>, at: int) -> bool {
    &&& 0 <= at
    &&& at + part.len() <= text.len()
    &&& text.subrange(at, at + part.len()) == part
}

/// Whether `part` stands somewhere in `text`.
pub open spec fn contains_part(text: Seq<char>, part: Seq<char>) -> bool {
    exists|at: int| occurs_at(text, part, at)
}

/// Whether `at` is the first position at which `part` stands in `text`.
pub open spec fn first_occurrence(text: Seq<char>, part: Seq<char>, at: int) -> bool {
    &&& occurs_at(text, part, at)
    &&& forall|before: int| before < at ==> !occurs_at(text, part, before)
}

/// The texts around the first place where `separator` stands in `text`.
pub open spec fn split_once_of(text: Seq<char>, separator: Seq<char>) -> Option<
    (Seq<char>, Seq<char>),
> {
    if contains_part(text, separator) {
        let at = choose|at: int| first_occurrence(text, separator, at);
        Some((text.take(at), text.skip(at + separator.len())))
    } else {
        None
    }
}

/// The pieces of `text` between the places where `separator` stands; always one at least.
pub open spec fn pieces(text: Seq<char>, separator: char) -> Seq<Seq<char>>
    decreases text.len(),
{
    if text.len() == 0 {
        seq![Seq::empty()]
    } else {
        let before = pieces(text.drop_last(), separator);
        if text.last() == separator {
            before.push(Seq::empty())
        } else {
            before.drop_last().push(before.last().push(text.last()))
        }
    }
}

/// `line` without one carriage return at its end.
pub open spec fn without_return(line: Seq<char>) -> Seq<char> {
    if line.len() > 0 && line.last() == '\r' {
        line.drop_last()
    } else {
        line
    }
}

/// The lines of `text`. A line ends with a line feed, before which one carriage return may
/// stand, or with the text itself; an empty rest after the last line feed is no line.
pub open spec fn lines_of(text: Seq<char>) -> Seq<Seq<char>> {
    let parts = pieces(text, '\n');
    let ended = parts.drop_last().map_values(|line: Seq<char>| without_return(line));
    if parts.last().len() == 0 {
        ended
    } else {
        ended.push(parts.last())
    }
}

/// `parts` in a row, with `separator` between each two.
pub open spec fn joined(parts: Seq<Seq<char>>, separator: Seq<char>) -> Seq<char>
    decreases parts.len(),
{
    if parts.len() == 0 {
        Seq::empty()
    } else if parts.len() == 1 {
        parts[0]
    } else {
        joined(parts.drop_last(), separator) + separator + parts.last()
    }
}

/// The first `max_len` characters of `text` and an ellipsis, where `text` is longer than that.
pub open spec fn truncated(text: Seq<char>, max_len: nat) -> Seq<char> {
    if text.len() <= max_len {
        text
    } else {
        text.take(max_len as int) + "…"@
    }
}

/// The character for a digit below ten.
pub open spec fn digit(value: nat) -> char {
    if value == 0 {
        '0'
    } else if value == 1 {
        '1'
    } else if value == 2 {
        '2'
    } else if value == 3 {
        '3'
    } else if value == 4 {
        '4'
    } else if value == 5 {
        '5'
    } else if value == 6 {
        '6'
    } else if value == 7 {
        '7'
    } else if value == 8 {
        '8'
    } else {
        '9'
    }
}

/// `value` written in decimal, without leading zeros.
pub open spec fn decimal(value: nat) -> Seq<char>
    decreases value,
{
    if value < 10 {
        seq![digit(value)]
    } else {
        decimal(value / 10).push(digit(value % 10))
    }
}

/// `value` written in decimal, with a minus sign where it is negative.
pub open spec fn signed_decimal(value: int) -> Seq<char> {
    if value < 0 {
        "-"@ + decimal((-value) as nat)
    } else {
        decimal(value as nat)
    }
}

/// The texts that a vector of strings holds.
pub open spec fn views(texts: Seq<String>) -> Seq<Seq<char>> {
    texts.map_values(|text: String| text@)
}

/// The text that an optional string holds.
pub open spec fn option_view(text: Option<&str>) -> Option<Seq<char>> {
    match text {
        Some(text) => Some(text@),
        None => None,
    }
}

/// Trimming a text leaves nothing exactly when the text is blank.
pub proof fn trimmed_is_empty(text: Seq<char>)
    ensures
        (trimmed(text).len() == 0) == blank(text),
{
    trimmed_start_is_empty(text);
    let rest = trimmed_start(text);
    if rest.len() > 0 {
        trimmed_start_head(text);
        trimmed_end_keeps(rest);
    }
}

proof fn trimmed_start_is_empty(text: Seq<char>)
    ensures
        (trimmed_start(text).len() == 0) == blank(text),
    decreases text.len(),
{
    if text.len() > 0 && is_white(text[0]) {
        let rest = text.drop_first();
        trimmed_start_is_empty(rest);
        if blank(rest) {
            assert forall|i: int| 0 <= i < text.len() implies is_white(#[trigger] text[i]) by {
                if i > 0 {
                    assert(text[i] == rest[i - 1]);
                }
            }
        }
        if blank(text) {
            assert forall|i: int| 0 <= i < rest.len() implies is_white(#[trigger] rest[i]) by {
                assert(rest[i] == text[i + 1]);
            }
        }
    }
}

proof fn trimmed_start_head(text: Seq<char>)
    ensures
        trimmed_start(text).len() > 0 ==> !is_white(trimmed_start(text)[0]),
    decreases text.len(),
{
    if text.len() > 0 && is_white(text[0]) {
        trimmed_start_head(text.drop_first());
    }
}

proof fn trimmed_end_keeps(text: Seq<char>)
    requires
        text.len() > 0,
        !is_white(text[0]),
    ensures
        trimmed_end(text).len() > 0,
    decreases text.len(),
{
    if is_white(text.last()) {
        trimmed_end_keeps(text.drop_last());
    }
}

/// There is at most one first occurrence, and `split_once_of` splits there.
proof fn split_once_at(text: Seq<char>, separator: Seq<char>, at: int)
    requires
        first_occurrence(text, separator, at),
    ensures
        split_once_of(text, separator) == Some(
            (text.take(at), text.skip(at + separator.len())),
        ),
{
    let chosen = choose|other: int| first_occurrence(text, separator, other);
    assert(first_occurrence(text, separator, chosen));
    assert(chosen == at);
}

/// The characters of `text`, in order.
pub fn to_chars(text: &str) -> (chars: Vec<char>)
    ensures
        chars@ == text@,
{
    let mut chars: Vec<char> = Vec::new();
    for c in it: text.chars()
        invariant
            chars@ == it.seq().take(it.index()),
            it.seq() == text@,
    {
        chars.push(c);
    }
    chars
}

/// The text made of the characters `chars[from..to]`.
pub fn from_chars(chars: &Vec<char>, from: usize, to: usize) -> (text: String)
    requires
        from <= to <= chars@.len(),
    ensures
        text@ == chars@.subrange(from as int, to as int),
{
    let mut text = String::new();
    let mut i: usize = from;
    while i < to
        invariant
            from <= i <= to <= chars@.len(),
            text@ == chars@.subrange(from as int, i as int),
        decreases to - i,
    {
        text.push(chars[i]);
        i += 1;
    }
    text
}

/// Whether the two texts hold the same characters.
pub fn same_text(left: &str, right: &str) -> (same: bool)
    ensures
        same == (left@ == right@),
{
    left.to_owned() == right.to_owned()
}

/// Whether `c` is white space.
pub fn is_white_space(c: char) -> (white: bool)
    ensures
        white == is_white(c),
{
    ('\u{9}' <= c && c <= '\u{d}') || c == ' ' || c == '\u{85}' || c == '\u{a0}' || c == '\u{1680}'
        || ('\u{2000}' <= c && c <= '\u{200a}') || c == '\u{2028}' || c == '\u{2029}' || c
        == '\u{202f}' || c == '\u{205f}' || c == '\u{3000}'
}

/// The first position at or after `from` whose character is no white space.
fn skip_white(chars: &Vec<char>) -> (start: usize)
    ensures
        start <= chars@.len(),
        trimmed_start(chars@) == chars@.skip(start as int),
{
    let mut start: usize = 0;
    assert(chars@.skip(0) == chars@);
    while start < chars.len() && is_white_space(chars[start])
        invariant
            start <= chars@.len(),
            trimmed_start(chars@) == trimmed_start(chars@.skip(start as int)),
        decreases chars@.len() - start,
    {
        assert(chars@.skip(start as int).drop_first() == chars@.skip(start + 1));
        start += 1;
    }
    start
}

/// The position behind the last character of `chars[start..]` that is no white space.
fn skip_white_back(chars: &Vec<char>, start: usize) -> (end: usize)
    requires
        start <= chars@.len(),
    ensures
        start <= end <= chars@.len(),
        trimmed_end(chars@.skip(start as int)) == chars@.subrange(start as int, end as int),
{
    let mut end: usize = chars.len();
    assert(chars@.skip(start as int) == chars@.subrange(start as int, end as int));
    while end > start && is_white_space(chars[end - 1])
        invariant
            start <= end <= chars@.len(),
            trimmed_end(chars@.skip(start as int)) == trimmed_end(
                chars@.subrange(start as int, end as int),
            ),
        decreases end,
    {
        assert(chars@.subrange(start as int, end as int).drop_last() == chars@.subrange(
            start as int,
            end - 1,
        ));
        end -= 1;
    }
    end
}

/// `text` without white space at either end.
pub fn trim(text: &str) -> (rest: String)
    ensures
        rest@ == trimmed(text@),
{
    let chars = to_chars(text);
    let start = skip_white(&chars);
    let end = skip_white_back(&chars, start);
    from_chars(&chars, start, end)
}

/// `text` without the white space that it ends with.
pub fn trim_end(text: &str) -> (rest: String)
    ensures
        rest@ == trimmed_end(text@),
{
    let chars = to_chars(text);
    let end = skip_white_back(&chars, 0);
    assert(chars@.skip(0) == chars@);
    from_chars(&chars, 0, end)
}

/// Whether `text` holds nothing but white space.
pub fn is_blank(text: &str) -> (is: bool)
    ensures
        is == blank(text@),
{
    let rest = trim(text);
    proof {
        trimmed_is_empty(text@);
    }
    rest.as_str().is_empty()
}

/// Whether `part` stands in `chars` from position `at` on.
fn stands_at(chars: &Vec<char>, part: &Vec<char>, at: usize) -> (stands: bool)
    requires
        at <= chars@.len(),
    ensures
        stands == occurs_at(chars@, part@, at as int),
{
    let total: usize = chars.len();
    if part.len() > total - at {
        return false;
    }
    let mut i: usize = 0;
    while i < part.len()
        invariant
            i <= part@.len(),
            at + part@.len() <= chars@.len() == total,
            forall|j: int| 0 <= j < i ==> chars@[at + j] == #[trigger] part@[j],
        decreases part@.len() - i,
    {
        if chars[at + i] != part[i] {
            assert(chars@.subrange(at as int, at + part@.len())[i as int] != part@[i as int]);
            return false;
        }
        i += 1;
    }
    assert(chars@.subrange(at as int, at + part@.len()) =~= part@);
    true
}

/// Whether `text` starts with `prefix`.
pub fn starts_with(text: &str, prefix: &str) -> (starts: bool)
    ensures
        starts == prefix@.is_prefix_of(text@),
{
    stands_at(&to_chars(text), &to_chars(prefix), 0)
}

/// The first position at which `part` stands in `chars`.
fn find_part(chars: &Vec<char>, part: &Vec<char>) -> (at: Option<usize>)
    ensures
        match at {
            Some(at) => first_occurrence(chars@, part@, at as int),
            None => !contains_part(chars@, part@),
        },
{
    let mut at: usize = 0;
    while at < chars.len()
        invariant
            at <= chars@.len(),
            forall|before: int| before < at ==> !occurs_at(chars@, part@, before),
        decreases chars@.len() - at,
    {
        if stands_at(chars, part, at) {
            return Some(at);
        }
        at += 1;
    }
    if stands_at(chars, part, at) {
        return Some(at);
    }
    None
}

/// Whether `part` stands somewhere in `text`.
pub fn contains(text: &str, part: &str) -> (found: bool)
    ensures
        found == contains_part(text@, part@),
{
    match find_part(&to_chars(text), &to_chars(part)) {
        Some(_) => true,
        None => false,
    }
}

/// Whether `c` stands in `text`.
pub fn contains_char(text: &str, c: char) -> (found: bool)
    ensures
        found == text@.contains(c),
{
    let chars = to_chars(text);
    let mut i: usize = 0;
    while i < chars.len()
        invariant
            i <= chars@.len(),
            chars@ == text@,
            forall|j: int| 0 <= j < i ==> chars@[j] != c,
        decreases chars@.len() - i,
    {
        if chars[i] == c {
            assert(chars@[i as int] == c);
            return true;
        }
        i += 1;
    }
    false
}

/// The texts around the first place where `separator` stands in `text`.
pub fn split_once(text: &str, separator: &str) -> (parts: Option<(String, String)>)
    ensures
        match parts {
            Some((before, after)) => split_once_of(text@, separator@) == Some((before@, after@)),
            None => split_once_of(text@, separator@) is None,
        },
{
    let chars = to_chars(text);
    let mark = to_chars(separator);
    let total: usize = chars.len();
    match find_part(&chars, &mark) {
        Some(at) => {
            proof {
                split_once_at(chars@, mark@, at as int);
                assert(chars@.subrange(0, at as int) == chars@.take(at as int));
                assert(chars@.subrange(at + mark@.len(), chars@.len() as int) == chars@.skip(
                    at + mark@.len(),
                ));
            }
            Some((from_chars(&chars, 0, at), from_chars(&chars, at + mark.len(), total)))
        },
        None => None,
    }
}

/// `text` without any of the copies of `prefix` that it starts with.
pub fn trim_start_matches(text: &str, prefix: &str) -> (rest: String)
    ensures
        rest@ == without_prefixes(text@, prefix@),
{
    let chars = to_chars(text);
    let mark = to_chars(prefix);
    let total: usize = chars.len();
    let mut start: usize = 0;
    assert(chars@.skip(0) == chars@);
    while mark.len() > 0 && stands_at(&chars, &mark, start)
        invariant
            start <= chars@.len() == total,
            mark@ == prefix@,
            without_prefixes(chars@, mark@) == without_prefixes(chars@.skip(start as int), mark@),
        decreases chars@.len() - start,
    {
        assert(chars@.skip(start as int).subrange(0, mark@.len() as int) == chars@.subrange(
            start as int,
            start + mark@.len(),
        ));
        assert(chars@.skip(start as int).skip(mark@.len() as int) == chars@.skip(
            start + mark@.len(),
        ));
        start += mark.len();
    }
    assert(!(mark@.len() > 0 && mark@.is_prefix_of(chars@.skip(start as int)))) by {
        if mark@.is_prefix_of(chars@.skip(start as int)) {
            assert(chars@.skip(start as int).subrange(0, mark@.len() as int) == chars@.subrange(
                start as int,
                start + mark@.len(),
            ));
        }
    }
    assert(chars@.subrange(start as int, chars@.len() as int) == chars@.skip(start as int));
    from_chars(&chars, start, total)
}

/// `text` without any of the copies of `suffix` that it ends with.
pub fn trim_end_matches(text: &str, suffix: &str) -> (rest: String)
    ensures
        rest@ == without_suffixes(text@, suffix@),
{
    let chars = to_chars(text);
    let mark = to_chars(suffix);
    let mut end: usize = chars.len();
    assert(chars@.take(end as int) == chars@);
    while mark.len() > 0 && mark.len() <= end && stands_at(&chars, &mark, end - mark.len())
        invariant
            end <= chars@.len(),
            mark@ == suffix@,
            without_suffixes(chars@, mark@) == without_suffixes(chars@.take(end as int), mark@),
        decreases end,
    {
        let kept = end - mark.len();
        assert(chars@.take(end as int).subrange(kept as int, end as int) == chars@.subrange(
            kept as int,
            end as int,
        ));
        assert(chars@.take(end as int).take(kept as int) == chars@.take(kept as int));
        end = kept;
    }
    assert(!(mark@.len() > 0 && mark@.is_suffix_of(chars@.take(end as int)))) by {
        if mark@.is_suffix_of(chars@.take(end as int)) {
            assert(chars@.take(end as int).subrange(end - mark@.len(), end as int)
                == chars@.subrange(end - mark@.len(), end as int));
        }
    }
    assert(chars@.subrange(0, end as int) == chars@.take(end as int));
    from_chars(&chars, 0, end)
}

/// The pieces of `text` between the places where `separator` stands.
pub fn split(text: &str, separator: char) -> (parts: Vec<String>)
    ensures
        views(parts@) == pieces(text@, separator),
        parts@.len() > 0,
{
    let chars = to_chars(text);
    let mut parts: Vec<String> = Vec::new();
    let mut start: usize = 0;
    let mut i: usize = 0;
    proof {
        assert(chars@.take(0) == Seq::<char>::empty());
        assert(views(parts@).push(chars@.subrange(0, 0)) =~= seq![Seq::<char>::empty()]);
    }
    while i < chars.len()
        invariant
            start <= i <= chars@.len(),
            pieces(chars@.take(i as int), separator) == views(parts@).push(
                chars@.subrange(start as int, i as int),
            ),
        decreases chars@.len() - i,
    {
        let ghost before = views(parts@);
        assert(chars@.take(i + 1).drop_last() == chars@.take(i as int));
        if chars[i] == separator {
            let ghost piece = chars@.subrange(start as int, i as int);
            parts.push(from_chars(&chars, start, i));
            start = i + 1;
            assert(views(parts@) =~= before.push(piece));
            assert(chars@.subrange(start as int, i + 1) == Seq::<char>::empty());
        } else {
            assert(chars@.subrange(start as int, i as int).push(chars@[i as int])
                == chars@.subrange(start as int, i + 1));
            assert(before.push(chars@.subrange(start as int, i as int)).drop_last() == before);
        }
        i += 1;
    }
    let ghost before = views(parts@);
    parts.push(from_chars(&chars, start, i));
    assert(views(parts@) =~= before.push(chars@.subrange(start as int, i as int)));
    assert(chars@.take(i as int) == chars@);
    parts
}

/// The lines of `text`.
pub fn lines(text: &str) -> (found: Vec<String>)
    ensures
        views(found@) == lines_of(text@),
{
    let mut parts = split(text, '\n');
    let last = match parts.pop() {
        Some(last) => last,
        None => String::new(),
    };
    let ghost ended = pieces(text@, '\n').drop_last();
    assert(views(parts@) =~= ended);
    let mut found: Vec<String> = Vec::new();
    let mut i: usize = 0;
    while i < parts.len()
        invariant
            i <= parts@.len(),
            views(parts@) == ended,
            views(found@) == ended.take(i as int).map_values(
                |line: Seq<char>| without_return(line),
            ),
        decreases parts@.len() - i,
    {
        let chars = to_chars(parts[i].as_str());
        let mut end: usize = chars.len();
        if end > 0 && chars[end - 1] == '\r' {
            end -= 1;
        }
        let line = from_chars(&chars, 0, end);
        let ghost before = views(found@);
        assert(ended[i as int] == chars@);
        assert(line@ =~= without_return(chars@));
        found.push(line);
        assert(views(found@) =~= before.push(line@));
        assert(ended.take(i + 1).map_values(|line: Seq<char>| without_return(line))
            =~= before.push(without_return(ended[i as int])));
        i += 1;
    }
    assert(ended.take(i as int) =~= ended);
    if !last.as_str().is_empty() {
        let ghost before = views(found@);
        found.push(last);
        assert(views(found@) =~= before.push(last@));
    }
    found
}

/// `parts` in a row, with `separator` between each two.
pub fn join(parts: &Vec<String>, separator: &str) -> (text: String)
    ensures
        text@ == joined(views(parts@), separator@),
{
    let mut text = String::new();
    let mut i: usize = 0;
    while i < parts.len()
        invariant
            i <= parts@.len(),
            text@ == joined(views(parts@).take(i as int), separator@),
        decreases parts@.len() - i,
    {
        let ghost all = views(parts@);
        assert(all.take(i + 1).drop_last() =~= all.take(i as int));
        if i > 0 {
            text.append(separator);
        }
        text.append(parts[i].as_str());
        i += 1;
    }
    assert(views(parts@).take(i as int) =~= views(parts@));
    text
}

/// `text`, or its first `max_len` characters and an ellipsis where it is longer than that.
pub fn truncate(text: &str, max_len: usize) -> (short: String)
    ensures
        short@ == truncated(text@, max_len as nat),
{
    let chars = to_chars(text);
    if chars.len() <= max_len {
        return text.to_owned();
    }
    let mut short = from_chars(&chars, 0, max_len);
    assert(chars@.subrange(0, max_len as int) == text@.take(max_len as int));
    short.append("…");
    short
}

/// The character for a digit below ten.
pub fn digit_char(value: u128) -> (c: char)
    requires
        value < 10,
    ensures
        c == digit(value as nat),
{
    match value {
        0 => '0',
        1 => '1',
        2 => '2',
        3 => '3',
        4 => '4',
        5 => '5',
        6 => '6',
        7 => '7',
        8 => '8',
        _ => '9',
    }
}

/// `value` written in decimal.
pub fn decimal_text(value: u64) -> (text: String)
    ensures
        text@ == decimal(value as nat),
{
    wide_decimal_text(value as u128)
}

/// `value` written in decimal.
pub fn wide_decimal_text(value: u128) -> (text: String)
    ensures
        text@ == decimal(value as nat),
    decreases value,
{
    let mut text = if value < 10 {
        String::new()
    } else {
        wide_decimal_text(value / 10)
    };
    text.push(digit_char(value % 10));
    assert(text@ =~= decimal(value as nat));
    text
}

/// `value` written in decimal, with a minus sign where it is negative.
pub fn signed_decimal_text(value: i32) -> (text: String)
    ensures
        text@ == signed_decimal(value as int),
{
    if value < 0 {
        let mut text = "-".to_owned();
        let size: i64 = -(value as i64);
        let digits = decimal_text(size as u64);
        text.append(digits.as_str());
        text
    } else {
        decimal_text(value as u64)
    }
}

/// A text that was cut is not cut again, and holds at most one character more than was allowed.
pub proof fn cut_once(text: Seq<char>, max_len: nat)
    ensures
        truncated(truncated(text, max_len), max_len) == truncated(text, max_len),
        truncated(text, max_len).len() <= max_len + 1,
{
    reveal_strlit("…");
    if text.len() > max_len {
        assert(truncated(text, max_len).take(max_len as int) =~= text.take(max_len as int));
    }
}

/// The visible characters of ASCII and the letters of most scripts are no white space; blanks of all
/// widths, tabs and the ends of lines are.
pub proof fn visible_characters_are_not_white(c: char)
    ensures
        '!' <= c <= '~' ==> !is_white(c),
        '\u{a1}' <= c <= '\u{167f}' ==> !is_white(c),
        '\u{3001}' <= c ==> !is_white(c),
        is_white(' ') && is_white('\t') && is_white('\n') && is_white('\r'),
        '\u{2000}' <= c <= '\u{200a}' ==> is_white(c),
        is_white('\u{b}') && is_white('\u{c}') && is_white('\u{85}') && is_white('\u{a0}'),
        is_white('\u{1680}') && is_white('\u{2028}') && is_white('\u{2029}'),
        is_white('\u{202f}') && is_white('\u{205f}') && is_white('\u{3000}'),
{
}

/// A text is blank where each of its characters is white space.
pub proof fn blank_by_characters(text: Seq<char>)
    ensures
        blank(text) <==> forall|c: char| text.contains(c) ==> #[trigger] is_white(c),
{
    if blank(text) {
        assert forall|c: char| text.contains(c) implies #[trigger] is_white(c) by {
            let i = choose|i: int| 0 <= i < text.len() && text[i] == c;
            assert(is_white(text[i]));
        }
    }
    if forall|c: char| text.contains(c) ==> #[trigger] is_white(c) {
        assert forall|i: int| 0 <= i < text.len() implies is_white(#[trigger] text[i]) by {
            assert(text.contains(text[i]));
        }
    }
}

/// Trimming the end takes off white space and nothing else, until another character stands there.
pub proof fn trimming_the_end(text: Seq<char>)
    ensures
        trimmed_end(text).len() <= text.len(),
        trimmed_end(text) == text.take(trimmed_end(text).len() as int),
        blank(text.skip(trimmed_end(text).len() as int)),
        trimmed_end(text).len() > 0 ==> !is_white(trimmed_end(text).last()),
    decreases text.len(),
{
    if text.len() > 0 && is_white(text.last()) {
        let before = text.drop_last();
        trimming_the_end(before);
        let kept = trimmed_end(text).len() as int;
        assert(text.take(kept) =~= before.take(kept));
        assert forall|i: int| 0 <= i < text.skip(kept).len() implies is_white(
            #[trigger] text.skip(kept)[i],
        ) by {
            if i < before.skip(kept).len() {
                assert(before.skip(kept)[i] == text.skip(kept)[i]);
            }
        }
    } else {
        assert(text.take(text.len() as int) =~= text);
    }
}

proof fn trimming_the_start(text: Seq<char>)
    ensures
        trimmed_start(text).len() <= text.len(),
        trimmed_start(text) == text.skip(text.len() - trimmed_start(text).len()),
        blank(text.take(text.len() - trimmed_start(text).len())),
    decreases text.len(),
{
    if text.len() > 0 && is_white(text[0]) {
        let rest = text.drop_first();
        trimming_the_start(rest);
        let off = text.len() - trimmed_start(text).len();
        assert(text.skip(off) =~= rest.skip(off - 1));
        assert forall|i: int| 0 <= i < text.take(off).len() implies is_white(
            #[trigger] text.take(off)[i],
        ) by {
            if i > 0 {
                assert(rest.take(off - 1)[i - 1] == text.take(off)[i]);
            }
        }
    } else {
        assert(text.skip(0) =~= text);
    }
}

/// Trimming takes off white space at both ends and nothing else, until other characters stand there.
pub proof fn trimming(text: Seq<char>) -> (from: int)
    ensures
        0 <= from,
        from + trimmed(text).len() <= text.len(),
        trimmed(text) == text.subrange(from, from + trimmed(text).len()),
        blank(text.take(from)),
        blank(text.skip(from + trimmed(text).len())),
        trimmed(text).len() > 0 ==> !is_white(trimmed(text)[0]) && !is_white(trimmed(text).last()),
{
    let rest = trimmed_start(text);
    let from = text.len() - rest.len();
    trimming_the_start(text);
    trimmed_start_head(text);
    trimming_the_end(rest);
    let kept = trimmed(text).len() as int;
    assert(rest.take(kept) =~= text.subrange(from, from + kept));
    assert(text.skip(from + kept) =~= rest.skip(kept));
    from
}

/// A text without white space at its ends is trimmed already.
pub proof fn trimming_nothing(text: Seq<char>)
    requires
        text.len() > 0 ==> !is_white(text[0]) && !is_white(text.last()),
    ensures
        trimmed(text) == text,
        trimmed_end(text) == text,
{
}

/// Copies of a prefix are taken off one by one, and nothing else is.
pub proof fn prefixes_are_taken_off(text: Seq<char>, prefix: Seq<char>)
    requires
        prefix.len() > 0,
    ensures
        without_prefixes(prefix + text, prefix) == without_prefixes(text, prefix),
        !prefix.is_prefix_of(text) ==> without_prefixes(text, prefix) == text,
{
    assert(prefix =~= (prefix + text).subrange(0, prefix.len() as int));
    assert((prefix + text).skip(prefix.len() as int) =~= text);
}

/// Copies of a suffix are taken off one by one, and nothing else is.
pub proof fn suffixes_are_taken_off(text: Seq<char>, suffix: Seq<char>)
    requires
        suffix.len() > 0,
    ensures
        without_suffixes(text + suffix, suffix) == without_suffixes(text, suffix),
        !suffix.is_suffix_of(text) ==> without_suffixes(text, suffix) == text,
{
    let both = text + suffix;
    assert(suffix =~= both.subrange(both.len() - suffix.len(), both.len() as int));
    assert(both.take(both.len() - suffix.len()) =~= text);
}

/// A part stands in a text that is put together with it.
pub proof fn part_is_contained(before: Seq<char>, part: Seq<char>, behind: Seq<char>)
    ensures
        occurs_at(before + part + behind, part, before.len() as int),
        contains_part(before + part + behind, part),
{
    let text = before + part + behind;
    assert(text.subrange(before.len() as int, before.len() as int + part.len()) =~= part);
    assert(occurs_at(text, part, before.len() as int));
}

/// A text is split at the first separator: with it, the two parts make the text, and no separator
/// stands before. A text without a separator is not split.
pub proof fn splitting_once(text: Seq<char>, separator: Seq<char>)
    ensures
        match split_once_of(text, separator) {
            Some((before, after)) => {
                &&& text == before + separator + after
                &&& forall|at: int| at < before.len() ==> !occurs_at(text, separator, at)
            },
            None => !contains_part(text, separator),
        },
{
    if contains_part(text, separator) {
        let some = choose|at: int| occurs_at(text, separator, at);
        let first = first_place(text, separator, some);
        split_once_at(text, separator, first);
        assert(text =~= text.take(first) + separator + text.skip(first + separator.len())) by {
            assert(text.subrange(first, first + separator.len()) =~= separator);
            assert forall|i: int| first <= i < first + separator.len() implies text[i]
                == separator[i - first] by {
                assert(text.subrange(first, first + separator.len())[i - first] == text[i]);
            }
        }
    }
}

proof fn first_place(text: Seq<char>, part: Seq<char>, some: int) -> (first: int)
    requires
        occurs_at(text, part, some),
    ensures
        first_occurrence(text, part, first),
    decreases some,
{
    if exists|before: int| before < some && occurs_at(text, part, before) {
        let before = choose|before: int| before < some && occurs_at(text, part, before);
        first_place(text, part, before)
    } else {
        some
    }
}

/// Splitting undoes putting together, where the first separator is the one in the middle.
pub proof fn splitting_undoes_joining(before: Seq<char>, separator: Seq<char>, after: Seq<char>)
    requires
        forall|at: int|
            0 <= at < before.len() ==> !occurs_at(before + separator + after, separator, at),
    ensures
        split_once_of(before + separator + after, separator) == Some((before, after)),
{
    let text = before + separator + after;
    part_is_contained(before, separator, after);
    assert(first_occurrence(text, separator, before.len() as int));
    split_once_at(text, separator, before.len() as int);
    assert(text.take(before.len() as int) =~= before);
    assert(text.skip(before.len() as int + separator.len()) =~= after);
}

/// Joining two lists is joining what each comes to.
pub proof fn joining_in_parts(
    first: Seq<Seq<char>>,
    second: Seq<Seq<char>>,
    separator: Seq<char>,
)
    requires
        first.len() > 0,
        second.len() > 0,
    ensures
        joined(first + second, separator) == joined(first, separator) + separator + joined(
            second,
            separator,
        ),
    decreases second.len(),
{
    let all = first + second;
    assert(all.drop_last() =~= first + second.drop_last());
    assert(all.last() == second.last());
    if second.len() == 1 {
        assert(all.drop_last() =~= first);
    } else {
        joining_in_parts(first, second.drop_last(), separator);
        assert(joined(all, separator) =~= joined(first, separator) + separator + joined(
            second,
            separator,
        ));
    }
}

/// One text is joined to itself, and nothing to nothing.
pub proof fn joining_one(text: Seq<char>, separator: Seq<char>)
    ensures
        joined(seq![text], separator) == text,
        joined(Seq::empty(), separator) == Seq::<char>::empty(),
{
}

/// Each of the texts that are joined stands in what they come to.
pub proof fn joined_texts_are_contained(parts: Seq<Seq<char>>, separator: Seq<char>, i: int)
    requires
        0 <= i < parts.len(),
    ensures
        contains_part(joined(parts, separator), parts[i]),
{
    let before = parts.take(i);
    let behind = parts.skip(i + 1);
    let one = seq![parts[i]];
    let nothing = Seq::<char>::empty();
    joining_one(parts[i], separator);
    let front = if i > 0 {
        joined(before, separator) + separator
    } else {
        nothing
    };
    let back = if i + 1 < parts.len() {
        separator + joined(behind, separator)
    } else {
        nothing
    };
    if i > 0 {
        joining_in_parts(before, one, separator);
    } else {
        assert(before + one =~= one);
    }
    if i + 1 < parts.len() {
        joining_in_parts(before + one, behind, separator);
    }
    assert(parts =~= before + one + behind);
    if i + 1 == parts.len() {
        assert(parts =~= before + one);
    }
    assert(joined(parts, separator) =~= front + parts[i] + back);
    part_is_contained(front, parts[i], back);
}

/// The pieces of a text hold no separator, and joined by it they are the text again.
pub proof fn pieces_make_the_text(text: Seq<char>, separator: char)
    ensures
        pieces(text, separator).len() > 0,
        joined(pieces(text, separator), seq![separator]) == text,
        forall|i: int|
            0 <= i < pieces(text, separator).len() ==> !(#[trigger] pieces(
                text,
                separator,
            )[i]).contains(separator),
    decreases text.len(),
{
    let all = pieces(text, separator);
    if text.len() > 0 {
        let before = pieces(text.drop_last(), separator);
        pieces_make_the_text(text.drop_last(), separator);
        assert(before.drop_last().push(before.last()) =~= before);
        assert(!before[before.len() - 1].contains(separator));
        if text.last() == separator {
            assert(all.drop_last() =~= before);
            assert(joined(all, seq![separator]) =~= text);
            assert forall|i: int| 0 <= i < all.len() implies !(#[trigger] all[i]).contains(
                separator,
            ) by {
                if i < before.len() {
                    assert(all[i] == before[i]);
                }
            }
        } else {
            assert(all.drop_last() =~= before.drop_last());
            assert(joined(all, seq![separator]) =~= joined(before, seq![separator]).push(
                text.last(),
            ));
            assert(joined(all, seq![separator]) =~= text);
            assert forall|i: int| 0 <= i < all.len() implies !(#[trigger] all[i]).contains(
                separator,
            ) by {
                if i < before.len() - 1 {
                    assert(all[i] == before[i]);
                } else {
                    let longer = before.last().push(text.last());
                    assert(all[i] == longer);
                    if longer.contains(separator) {
                        let k = choose|k: int| 0 <= k < longer.len() && longer[k] == separator;
                        assert(before.last()[k] == separator);
                        assert(before.last().contains(separator));
                    }
                }
            }
        }
    } else {
        joining_one(Seq::empty(), seq![separator]);
    }
}

/// What has no separator goes on with the last piece.
proof fn piece_goes_on(text: Seq<char>, separator: char, more: Seq<char>)
    requires
        !more.contains(separator),
    ensures
        pieces(text, separator).len() > 0,
        pieces(text + more, separator) == pieces(text, separator).drop_last().push(
            pieces(text, separator).last() + more,
        ),
    decreases more.len(),
{
    pieces_make_the_text(text, separator);
    let last = pieces(text, separator).last();
    if more.len() == 0 {
        assert(text + more =~= text);
        assert(last + more =~= last);
        assert(pieces(text, separator).drop_last().push(last) =~= pieces(text, separator));
    } else {
        let shorter = more.drop_last();
        assert forall|i: int| 0 <= i < shorter.len() implies shorter[i] != separator by {
            assert(more[i] == shorter[i]);
            assert(more.contains(more[i]));
        }
        assert(more[more.len() - 1] != separator) by {
            assert(more.contains(more[more.len() - 1]));
        }
        piece_goes_on(text, separator, shorter);
        assert((text + more).drop_last() =~= text + shorter);
        assert((last + shorter).push(more.last()) =~= last + more);
        let before = pieces(text + shorter, separator);
        assert(before.drop_last() =~= pieces(text, separator).drop_last());
    }
}

/// A text is read line by line: a line more adds itself, whether it ends with a line feed, with a
/// carriage return and a line feed, or with the text. No line holds a line feed.
#[verifier::rlimit(40)]
pub proof fn text_is_read_by_lines(text: Seq<char>, line: Seq<char>)
    requires
        text.len() > 0 ==> text.last() == '\n',
        !line.contains('\n'),
        line.len() > 0 ==> line.last() != '\r',
    ensures
        lines_of(Seq::empty()) == Seq::<Seq<char>>::empty(),
        lines_of(text + line + seq!['\n']) == lines_of(text).push(line),
        lines_of(text + line + seq!['\r', '\n']) == lines_of(text).push(line),
        line.len() > 0 ==> lines_of(text + line) == lines_of(text).push(line),
{
    let parts = pieces(text, '\n');
    pieces_make_the_text(text, '\n');
    let ended = |line: Seq<char>| without_return(line);
    assert(lines_of(Seq::empty()) =~= Seq::<Seq<char>>::empty());
    assert(parts.last() =~= Seq::<char>::empty());
    assert(lines_of(text) =~= parts.drop_last().map_values(ended));
    piece_goes_on(text, '\n', line);
    assert(parts.last() + line =~= line);
    let open = pieces(text + line, '\n');
    assert(open =~= parts.drop_last().push(line));
    assert(open.drop_last() =~= parts.drop_last());
    let closed = text + line + seq!['\n'];
    assert(closed.drop_last() =~= text + line);
    assert(pieces(closed, '\n') =~= open.push(Seq::empty()));
    assert(pieces(closed, '\n').drop_last() =~= open);
    assert(open.map_values(ended) =~= parts.drop_last().map_values(ended).push(line));
    let returned = line.push('\r');
    assert(!returned.contains('\n')) by {
        if returned.contains('\n') {
            let i = choose|i: int| 0 <= i < returned.len() && returned[i] == '\n';
            assert(line[i] == '\n');
            assert(line.contains('\n'));
        }
    }
    piece_goes_on(text, '\n', returned);
    assert(parts.last() + returned =~= returned);
    let other = text + line + seq!['\r', '\n'];
    assert(other.drop_last() =~= text + returned);
    let open_other = pieces(text + returned, '\n');
    assert(open_other =~= parts.drop_last().push(returned));
    assert(pieces(other, '\n') =~= open_other.push(Seq::empty()));
    assert(pieces(other, '\n').drop_last() =~= open_other);
    assert(without_return(returned) =~= line);
    assert(open_other.map_values(ended) =~= parts.drop_last().map_values(ended).push(line));
}

/// A text that is not too long stays as it is; of a longer one the start is kept, and an ellipsis
/// says that it is not all.
pub proof fn only_long_texts_are_cut(text: Seq<char>, max_len: nat)
    ensures
        text.len() <= max_len ==> truncated(text, max_len) == text,
        text.len() > max_len ==> {
            &&& truncated(text, max_len).len() == max_len + 1
            &&& truncated(text, max_len).take(max_len as int) == text.take(max_len as int)
            &&& truncated(text, max_len).last() == '…'
        },
{
    reveal_strlit("…");
    if text.len() > max_len {
        assert(truncated(text, max_len).take(max_len as int) =~= text.take(max_len as int));
    }
}

/// The number that digits stand for.
pub open spec fn number_of(digits: Seq<char>) -> int
    decreases digits.len(),
{
    if digits.len() == 0 {
        0
    } else {
        10 * number_of(digits.drop_last()) + (digits.last() as int - '0' as int)
    }
}

/// A number in decimal is made of digits that stand for it, without a zero in front.
pub proof fn decimal_stands_for_its_value(value: nat)
    ensures
        number_of(decimal(value)) == value,
        decimal(value).len() > 0,
        decimal(value).len() > 1 ==> decimal(value)[0] != '0',
        forall|i: int| 0 <= i < decimal(value).len() ==> '0' <= #[trigger] decimal(value)[i] <= '9',
    decreases value,
{
    assert(number_of(Seq::<char>::empty()) == 0);
    assert(digit(value % 10) as int - '0' as int == value % 10);
    if value >= 10 {
        decimal_stands_for_its_value(value / 10);
        let before = decimal(value / 10);
        assert(decimal(value).drop_last() =~= before);
        assert(decimal(value)[0] == before[0]);
        if before.len() == 1 && before[0] == '0' {
            assert(before.drop_last() =~= Seq::<char>::empty());
            assert(number_of(before) == 0);
        }
    } else {
        assert(decimal(value).drop_last() =~= Seq::<char>::empty());
        assert(decimal(value).last() == digit(value % 10));
    }
}

/// A negative number in decimal is its size behind a minus sign; any other number has none.
pub proof fn negative_numbers_have_a_sign(value: int)
    ensures
        value < 0 ==> signed_decimal(value) == seq!['-'] + signed_decimal(-value),
        value >= 0 ==> signed_decimal(value) == decimal(value as nat),
{
    reveal_strlit("-");
    assert("-"@ =~= seq!['-']);
}

} // verus!
