use vstd::prelude::*;
use vstd::std_specs::hash::DefaultHasherAdditionalSpecFns;
use vstd::std_specs::iter::IteratorSpec;
use vstd::utf8::encode_utf8;
use std::collections::hash_map::DefaultHasher;
use std::hash::Hasher;
use crate::models::{word_views, Group, GroupView, Ranking, Word, WordView};
use crate::text::{lowercase, to_lower};

verus! {

/// The characters of a text, one by one.
pub fn chars_of(text: &str) -> (out: Vec<char>)
    ensures
        out@ == text@,
{
    let mut out: Vec<char> = Vec::new();
    let mut rest = text.chars();
    loop
        invariant
            rest.obeys_prophetic_iter_laws(),
            rest.decrease() is Some,
            out@ + rest.remaining() == text@,
        decreases rest.decrease()->0,
    {
        let ghost before = rest.remaining();
        match rest.next() {
            Some(c) => {
                out.push(c);
                assert(out@ + rest.remaining() =~= text@) by {
                    assert(before =~= seq![c] + before.drop_first());
                }
            },
            None => {
                assert(out@ =~= text@);
                return out;
            },
        }
    }
}

/// A text made of the given characters.
pub fn text_of(chars: &[char]) -> (out: String)
    ensures
        out@ == chars@,
{
    let mut out = String::new();
    let mut i: usize = 0;
    while i < chars.len()
        invariant
            i <= chars.len(),
            out@.len() == i,
            forall|j: int| 0 <= j < i ==> out@[j] == chars@[j],
        decreases chars.len() - i,
    {
        out.push(chars[i]);
        i += 1;
    }
    assert(out@ =~= chars@);
    out
}

/// The characters from place `from` up to, not including, place `to`.
fn slice_of(chars: &[char], from: usize, to: usize) -> (out: Vec<char>)
    requires
        from <= to <= chars@.len(),
    ensures
        out@ == chars@.subrange(from as int, to as int),
{
    let mut out: Vec<char> = Vec::new();
    let mut i: usize = from;
    while i < to
        invariant
            from <= i <= to,
            to <= chars@.len(),
            out@.len() == i - from,
            forall|j: int| 0 <= j < i - from ==> out@[j] == chars@[from + j],
        decreases to - i,
    {
        out.push(chars[i]);
        i += 1;
    }
    assert(out@ =~= chars@.subrange(from as int, to as int));
    out
}

/// The needle stands in the text at place `i`.
pub open spec fn occurs_at(hay: Seq<char>, needle: Seq<char>, i: int) -> bool {
    &&& 0 <= i
    &&& i + needle.len() <= hay.len()
    &&& forall|k: int| 0 <= k < needle.len() ==> hay[i + k] == needle[k]
}

/// The first place at or after `from` where the needle stands in the text.
pub open spec fn find_from(hay: Seq<char>, needle: Seq<char>, from: int) -> Option<int>
    decreases hay.len() - from,
{
    if from < 0 || from + needle.len() > hay.len() {
        None
    } else if occurs_at(hay, needle, from) {
        Some(from)
    } else {
        find_from(hay, needle, from + 1)
    }
}

/// Tells whether the needle stands in the text at place `i`.
fn stands_at(hay: &[char], needle: &[char], i: usize) -> (out: bool)
    requires
        i + needle@.len() <= hay@.len(),
    ensures
        out == occurs_at(hay@, needle@, i as int),
{
    let n: usize = hay.len();
    let mut k: usize = 0;
    while k < needle.len()
        invariant
            k <= needle.len(),
            n == hay@.len(),
            i + needle@.len() <= n,
            forall|j: int| 0 <= j < k ==> hay@[i + j] == needle@[j],
        decreases needle.len() - k,
    {
        if hay[i + k] != needle[k] {
            return false;
        }
        k += 1;
    }
    true
}

/// Finds the first place where the needle stands in the text.
pub fn find(hay: &[char], needle: &[char]) -> (out: Option<usize>)
    ensures
        match out {
            Some(i) => find_from(hay@, needle@, 0) == Some(i as int) && i + needle@.len()
                <= hay@.len(),
            None => find_from(hay@, needle@, 0) is None,
        },
{
    if needle.len() > hay.len() {
        return None;
    }
    let last: usize = hay.len() - needle.len();
    let mut i: usize = 0;
    loop
        invariant
            i <= last,
            last + needle@.len() == hay@.len(),
            find_from(hay@, needle@, 0) == find_from(hay@, needle@, i as int),
        decreases last - i,
    {
        if stands_at(hay, needle, i) {
            return Some(i);
        }
        if i == last {
            assert(find_from(hay@, needle@, i + 1) is None);
            return None;
        }
        i += 1;
    }
}

/// The heading after which a page gives the groups of the day.
pub const ANSWER_HEADING: &'static str = "<h2 id=what-is-the-answer-to-connections-today>";

/// The tag that opens the list of groups.
pub const LIST_OPEN: &'static str = "<ul>";

/// The tag that closes the list of groups.
pub const LIST_CLOSE: &'static str = "</ul>";

/// The text between the first heading and the next one, or the end.
pub open spec fn after_heading(page: Seq<char>) -> Option<Seq<char>> {
    match find_from(page, ANSWER_HEADING@, 0) {
        None => None,
        Some(at) => {
            let rest = page.subrange(at + ANSWER_HEADING@.len(), page.len() as int);
            match find_from(rest, ANSWER_HEADING@, 0) {
                Some(next) => Some(rest.subrange(0, next)),
                None => Some(rest),
            }
        },
    }
}

/// The list of groups in a page: the text after the heading, from its
/// first opening tag of a list up to its first closing tag. A page
/// without the heading or without either tag has none, and neither has
/// one whose closing tag comes first.
pub open spec fn section_spec(page: Seq<char>) -> Option<Seq<char>> {
    match after_heading(page) {
        None => None,
        Some(body) => match (find_from(body, LIST_OPEN@, 0), find_from(body, LIST_CLOSE@, 0)) {
            (Some(start), Some(end)) => if start <= end {
                Some(body.subrange(start, end))
            } else {
                None
            },
            _ => None,
        },
    }
}

/// Cuts the list of groups out of a page.
pub fn section_of(page: &[char]) -> (out: Option<Vec<char>>)
    ensures
        match out {
            Some(list) => section_spec(page@) == Some(list@),
            None => section_spec(page@) is None,
        },
{
    let heading = chars_of(ANSWER_HEADING);
    let at = match find(page, heading.as_slice()) {
        Some(at) => at,
        None => {
            return None;
        },
    };
    let n: usize = page.len();
    let rest = slice_of(page, at + heading.len(), n);
    let body = match find(rest.as_slice(), heading.as_slice()) {
        Some(next) => slice_of(rest.as_slice(), 0, next),
        None => rest,
    };
    assert(after_heading(page@) == Some(body@));
    let open = chars_of(LIST_OPEN);
    let close = chars_of(LIST_CLOSE);
    match (find(body.as_slice(), open.as_slice()), find(body.as_slice(), close.as_slice())) {
        (Some(start), Some(end)) => {
            if start <= end {
                Some(slice_of(body.as_slice(), start, end))
            } else {
                None
            }
        },
        _ => None,
    }
}

/// Whether a character is white space, as std's `char::is_whitespace`
/// reports it from the Unicode character tables.
pub uninterp spec fn whitespace(c: char) -> bool;

/// A text with its HTML entities replaced by the characters they stand
/// for, as `html_escape::decode_html_entities` computes it.
pub uninterp spec fn decoded(text: Seq<char>) -> Seq<char>;

/// For each match of a pattern in a text, from left to right, what its
/// first group caught, as the `regex` crate finds it; nothing where the
/// pattern is not a valid one.
pub uninterp spec fn captured(pattern: Seq<char>, text: Seq<char>) -> Option<
    Seq<Option<Seq<char>>>,
>;

/// Calls std's `char::is_whitespace`. The result is a function of the
/// character alone; it is known here only by the name `whitespace`.
#[verifier::external_body]
fn is_space(c: char) -> (out: bool)
    ensures
        out == whitespace(c),
{
    c.is_whitespace()
}

/// Calls `html_escape::decode_html_entities`. The result is a function of
/// the text alone, known here by the name `decoded`. The decoder leaves
/// every character alone until it meets a `&`, so a text without one comes
/// back as it is.
#[verifier::external_body]
fn decode(text: &str) -> (out: String)
    ensures
        out@ == decoded(text@),
        !text@.contains('&') ==> out@ == text@,
{
    html_escape::decode_html_entities(text).into_owned()
}

/// What a list of optional texts holds, as plain values.
pub open spec fn catches(list: Seq<Option<String>>) -> Seq<Option<Seq<char>>> {
    Seq::new(
        list.len(),
        |i: int|
            match list[i] {
                Some(text) => Some(text@),
                None => None,
            },
    )
}

/// Calls `regex::Regex::new` on the pattern and, where that gives a
/// regex, `Regex::captures_iter` on the text, and hands out what group 1
/// of each match caught (`Captures::get(1)`). The result is a function of
/// pattern and text alone, known here by the name `captured`.
#[verifier::external_body]
fn first_groups(pattern: &str, text: &str) -> (out: Option<Vec<Option<String>>>)
    ensures
        captured(pattern@, text@) == match out {
            Some(list) => Some(catches(list@)),
            None => None,
        },
{
    match regex::Regex::new(pattern) {
        Ok(re) => Some(
            re.captures_iter(text).map(|caps| caps.get(1).map(|m| m.as_str().to_string())).collect(),
        ),
        Err(_) => None,
    }
}

/// The highest code point of a character that is kept.
pub const LAST_BASIC: u32 = 0xFFFF;

/// The characters of a text that lie in the basic plane, in their order.
pub open spec fn basic(text: Seq<char>) -> Seq<char>
    decreases text.len(),
{
    if text.len() == 0 {
        Seq::empty()
    } else if text.last() as u32 <= LAST_BASIC {
        basic(text.drop_last()).push(text.last())
    } else {
        basic(text.drop_last())
    }
}

/// Drops the characters above the basic plane.
pub fn keep_basic(text: &[char]) -> (out: Vec<char>)
    ensures
        out@ == basic(text@),
{
    let mut out: Vec<char> = Vec::new();
    let mut i: usize = 0;
    assert(text@.take(0) =~= Seq::<char>::empty());
    while i < text.len()
        invariant
            i <= text.len(),
            out@ == basic(text@.take(i as int)),
        decreases text.len() - i,
    {
        assert(text@.take(i + 1).drop_last() =~= text@.take(i as int));
        assert(text@.take(i + 1).last() == text@[i as int]);
        if text[i] as u32 <= LAST_BASIC {
            out.push(text[i]);
        }
        i += 1;
    }
    assert(text@.take(i as int) =~= text@);
    out
}

/// The pieces of a text between the separators. A text without a
/// separator is one piece; a separator at either end leaves an empty piece
/// there.
pub open spec fn pieces(text: Seq<char>, sep: char) -> Seq<Seq<char>>
    decreases text.len(),
{
    if text.len() == 0 {
        seq![Seq::empty()]
    } else {
        let before = pieces(text.drop_last(), sep);
        if text.last() == sep {
            before.push(Seq::empty())
        } else {
            before.drop_last().push(before.last().push(text.last()))
        }
    }
}

/// The rows of a table of characters, as plain values.
pub open spec fn rows(table: Seq<Vec<char>>) -> Seq<Seq<char>> {
    Seq::new(table.len(), |i: int| table[i]@)
}

/// Cuts a text at each separator.
pub fn split(text: &[char], sep: char) -> (out: Vec<Vec<char>>)
    ensures
        rows(out@) == pieces(text@, sep),
{
    let mut done: Vec<Vec<char>> = Vec::new();
    let mut current: Vec<char> = Vec::new();
    let mut i: usize = 0;
    assert(text@.take(0) =~= Seq::<char>::empty());
    assert(rows(done@).push(current@) =~= seq![Seq::<char>::empty()]);
    while i < text.len()
        invariant
            i <= text.len(),
            pieces(text@.take(i as int), sep) == rows(done@).push(current@),
        decreases text.len() - i,
    {
        assert(text@.take(i + 1).drop_last() =~= text@.take(i as int));
        assert(text@.take(i + 1).last() == text@[i as int]);
        let ghost before = rows(done@).push(current@);
        if text[i] == sep {
            done.push(current);
            current = Vec::new();
            assert(rows(done@).push(current@) =~= before.push(Seq::empty()));
        } else {
            current.push(text[i]);
            assert(rows(done@).push(current@) =~= before.drop_last().push(
                before.last().push(text@[i as int]),
            ));
        }
        i += 1;
    }
    assert(text@.take(i as int) =~= text@);
    let ghost before = rows(done@).push(current@);
    done.push(current);
    assert(rows(done@) =~= before);
    done
}

/// A text without the white space at its end.
pub open spec fn trim_end(text: Seq<char>) -> Seq<char>
    decreases text.len(),
{
    if text.len() > 0 && whitespace(text.last()) {
        trim_end(text.drop_last())
    } else {
        text
    }
}

/// A text without the white space at its start.
pub open spec fn trim_start(text: Seq<char>) -> Seq<char>
    decreases text.len(),
{
    if text.len() > 0 && whitespace(text[0]) {
        trim_start(text.skip(1))
    } else {
        text
    }
}

/// A text without the white space at its start and at its end.
pub open spec fn trimmed(text: Seq<char>) -> Seq<char> {
    trim_start(trim_end(text))
}

/// Drops the white space at the start and at the end of a text.
pub fn trim(text: &[char]) -> (out: Vec<char>)
    ensures
        out@ == trimmed(text@),
{
    let mut end: usize = text.len();
    assert(text@.take(end as int) =~= text@);
    loop
        invariant
            end <= text.len(),
            trim_end(text@) == trim_end(text@.take(end as int)),
        ensures
            end <= text.len(),
            trim_end(text@) == text@.take(end as int),
        decreases end,
    {
        if end == 0 {
            break ;
        }
        assert(text@.take(end as int).last() == text@[end - 1]);
        if !is_space(text[end - 1]) {
            break ;
        }
        assert(text@.take(end as int).drop_last() =~= text@.take(end - 1));
        end -= 1;
    }
    let ghost kept = text@.take(end as int);
    let mut start: usize = 0;
    assert(kept.skip(0) =~= kept);
    loop
        invariant
            start <= end <= text.len(),
            kept == text@.take(end as int),
            trim_start(kept) == trim_start(kept.skip(start as int)),
        ensures
            start <= end <= text.len(),
            trim_start(kept) == kept.skip(start as int),
        decreases end - start,
    {
        if start == end {
            break ;
        }
        assert(kept.skip(start as int)[0] == text@[start as int]);
        if !is_space(text[start]) {
            break ;
        }
        assert(kept.skip(start as int).skip(1) =~= kept.skip(start + 1));
        start += 1;
    }
    assert(kept.skip(start as int) =~= text@.subrange(start as int, end as int));
    slice_of(text, start, end)
}

/// The ranking of the group that a page lists at place `i`: the first
/// four from easy to very difficult, any later one easy.
pub open spec fn rank_at(i: int) -> Ranking {
    if i == 1 {
        Ranking::Medium
    } else if i == 2 {
        Ranking::Hard
    } else if i == 3 {
        Ranking::VeryDifficult
    } else {
        Ranking::Easy
    }
}

/// The name given to every group of a page.
pub const GROUP_NAME: &'static str = "Unknown";

/// The group that a page lists at place `i`.
pub open spec fn group_at(i: int) -> GroupView {
    GroupView { name: GROUP_NAME@, ranking: rank_at(i) }
}

/// The text of a word, from its piece of the page: without the white
/// space around it, in lower case, its HTML entities decoded.
pub open spec fn word_text(piece: Seq<char>) -> Seq<char> {
    decoded(lowercase(trimmed(piece)))
}

/// The words of the group that a page lists at place `i`, from what the
/// page gives for the group: its basic characters, cut at the commas.
pub open spec fn words_in(caught: Seq<char>, i: int) -> Seq<WordView> {
    Seq::new(
        pieces(basic(caught), ',').len(),
        |j: int| WordView { text: word_text(pieces(basic(caught), ',')[j]), group: group_at(i) },
    )
}

/// The words of a page, group after group, from what the page gives for
/// each group.
pub open spec fn words_of(caught: Seq<Option<Seq<char>>>) -> Seq<WordView>
    decreases caught.len(),
{
    if caught.len() == 0 {
        Seq::empty()
    } else {
        match caught.last() {
            Some(text) => words_of(caught.drop_last()) + words_in(text, caught.len() - 1),
            None => words_of(caught.drop_last()),
        }
    }
}

/// The groups of a page, in the order in which it lists them.
pub open spec fn groups_of(caught: Seq<Option<Seq<char>>>) -> Seq<GroupView>
    decreases caught.len(),
{
    if caught.len() == 0 {
        Seq::empty()
    } else {
        match caught.last() {
            Some(_) => groups_of(caught.drop_last()).push(group_at(caught.len() - 1)),
            None => groups_of(caught.drop_last()),
        }
    }
}

/// The groups of a list as plain values.
pub open spec fn group_views(groups: Seq<Group>) -> Seq<GroupView> {
    Seq::new(groups.len(), |i: int| groups[i]@)
}

/// The group that a page lists at place `i`.
pub fn group_for(i: usize) -> (out: Group)
    ensures
        out@ == group_at(i as int),
{
    Group { name: String::from_str(GROUP_NAME), ranking: Ranking::from_index(i) }
}

/// Makes the words of the group at place `i` from what the page gives for
/// the group.
pub fn words_from(caught: &str, i: usize) -> (out: Vec<Word>)
    ensures
        word_views(out@) == words_in(caught@, i as int),
{
    let kept = keep_basic(chars_of(caught).as_slice());
    let parts = split(kept.as_slice(), ',');
    let ghost cut = pieces(basic(caught@), ',');
    let mut out: Vec<Word> = Vec::new();
    let mut j: usize = 0;
    while j < parts.len()
        invariant
            j <= parts.len(),
            rows(parts@) == cut,
            cut == pieces(basic(caught@), ','),
            out@.len() == j,
            forall|k: int|
                0 <= k < j ==> (#[trigger] out@[k])@ == (WordView {
                    text: word_text(cut[k]),
                    group: group_at(i as int),
                }),
        decreases parts.len() - j,
    {
        assert(cut[j as int] == parts@[j as int]@);
        let bare = text_of(trim(parts[j].as_slice()).as_slice());
        let text = decode(to_lower(bare.as_str()).as_str());
        out.push(Word { text, group: group_for(i) });
        j += 1;
    }
    assert(word_views(out@) =~= words_in(caught@, i as int));
    out
}

/// Makes the groups and the words of a page from what the page gives for
/// each group.
pub fn entries(caught: &Vec<Option<String>>) -> (out: (Vec<Group>, Vec<Word>))
    ensures
        group_views(out.0@) == groups_of(catches(caught@)),
        word_views(out.1@) == words_of(catches(caught@)),
{
    let ghost all = catches(caught@);
    let mut groups: Vec<Group> = Vec::new();
    let mut words: Vec<Word> = Vec::new();
    let mut i: usize = 0;
    assert(group_views(groups@) =~= groups_of(all.take(0)));
    assert(word_views(words@) =~= words_of(all.take(0)));
    while i < caught.len()
        invariant
            i <= caught.len(),
            all == catches(caught@),
            group_views(groups@) == groups_of(all.take(i as int)),
            word_views(words@) == words_of(all.take(i as int)),
        decreases caught.len() - i,
    {
        assert(all.take(i + 1).drop_last() =~= all.take(i as int));
        assert(all.take(i + 1).last() == all[i as int]);
        match &caught[i] {
            Some(text) => {
                let ghost groups_before = group_views(groups@);
                groups.push(group_for(i));
                assert(group_views(groups@) =~= groups_before.push(group_at(i as int)));
                let found = words_from(text.as_str(), i);
                let ghost words_before = word_views(words@);
                let mut j: usize = 0;
                while j < found.len()
                    invariant
                        j <= found.len(),
                        word_views(words@) == words_before + word_views(found@).take(j as int),
                    decreases found.len() - j,
                {
                    let ghost sofar = word_views(words@);
                    words.push(found[j].copy());
                    assert(word_views(words@) =~= sofar.push(found@[j as int]@));
                    assert(word_views(found@).take(j + 1) =~= word_views(found@).take(j as int).push(
                        found@[j as int]@,
                    ));
                    j += 1;
                }
                assert(word_views(found@).take(j as int) =~= word_views(found@));
            },
            None => {},
        }
        i += 1;
    }
    assert(all.take(i as int) =~= all);
    (groups, words)
}

/// The number by which a word is put in order: the hash that std's
/// default hasher gives for its text, the name of its group and the number
/// of its ranking.
pub open spec fn word_key(word: WordView) -> u64 {
    DefaultHasher::spec_finish(
        seq![
            encode_utf8(word.text),
            encode_utf8(word.group.name),
            seq![word.group.ranking.index() as u8],
        ],
    )
}

/// The number by which a word is put in order.
pub fn key_of(word: &Word) -> (out: u64)
    ensures
        out == word_key(word@),
{
    let rank: u8 = match word.group.ranking {
        Ranking::Easy => 0,
        Ranking::Medium => 1,
        Ranking::Hard => 2,
        Ranking::VeryDifficult => 3,
    };
    let last: Vec<u8> = vec![rank];
    let mut hasher = DefaultHasher::new();
    hasher.write(word.text.as_str().as_bytes());
    hasher.write(word.group.name.as_str().as_bytes());
    hasher.write(last.as_slice());
    assert(last@ =~= seq![word@.group.ranking.index() as u8]);
    assert(hasher@ =~= seq![
        encode_utf8(word@.text),
        encode_utf8(word@.group.name),
        seq![word@.group.ranking.index() as u8],
    ]);
    hasher.finish()
}

/// The place `a` comes before the place `b`: its key is smaller, or the
/// keys are equal and `a` is the earlier place.
pub open spec fn comes_before(keys: Seq<u64>, a: int, b: int) -> bool {
    keys[a] < keys[b] || (keys[a] == keys[b] && a < b)
}

/// The list holds every place of the keys once, each before the next.
pub open spec fn is_key_order(order: Seq<usize>, keys: Seq<u64>) -> bool {
    &&& order.len() == keys.len()
    &&& forall|i: int| 0 <= i < order.len() ==> (#[trigger] order[i]) < keys.len()
    &&& forall|i: int, j: int|
        0 <= i < j < order.len() ==> comes_before(keys, order[i] as int, order[j] as int)
}

/// Puts the places of a list of keys in the order of the keys; places
/// with equal keys stay in their order.
pub fn order_of(keys: &Vec<u64>) -> (out: Vec<usize>)
    ensures
        is_key_order(out@, keys@),
{
    let mut order: Vec<usize> = Vec::new();
    let mut n: usize = 0;
    while n < keys.len()
        invariant
            n <= keys.len(),
            order@.len() == n,
            forall|i: int| 0 <= i < n ==> (#[trigger] order@[i]) < n,
            forall|i: int, j: int|
                0 <= i < j < n ==> comes_before(keys@, order@[i] as int, order@[j] as int),
        decreases keys.len() - n,
    {
        let mut p: usize = 0;
        while p < n && keys[order[p]] <= keys[n]
            invariant
                p <= n,
                n < keys.len(),
                order@.len() == n,
                forall|i: int| 0 <= i < n ==> (#[trigger] order@[i]) < n,
                forall|i: int| 0 <= i < p ==> keys@[order@[i] as int] <= keys@[n as int],
            decreases n - p,
        {
            p += 1;
        }
        let ghost before = order@;
        assert forall|i: int| p <= i < n implies keys@[before[i] as int] > keys@[n as int] by {
            if i > p {
                assert(comes_before(keys@, before[p as int] as int, before[i] as int));
            }
        }
        order.insert(p, n);
        assert forall|i: int, j: int| 0 <= i < j < n + 1 implies comes_before(
            keys@,
            order@[i] as int,
            order@[j] as int,
        ) by {
            if j < p {
                assert(order@[i] == before[i] && order@[j] == before[j]);
            } else if j == p {
                assert(order@[i] == before[i]);
            } else if i < p {
                assert(order@[i] == before[i] && order@[j] == before[j - 1]);
                assert(keys@[before[j - 1] as int] > keys@[n as int]);
            } else if i == p {
                assert(order@[j] == before[j - 1]);
            } else {
                assert(order@[i] == before[i - 1] && order@[j] == before[j - 1]);
            }
        }
        n += 1;
    }
    order
}

/// The keys of a list of words.
pub open spec fn keys_of(words: Seq<WordView>) -> Seq<u64> {
    Seq::new(words.len(), |i: int| word_key(words[i]))
}

/// The first list is the second put in the order of its keys.
pub open spec fn in_key_order(out: Seq<WordView>, words: Seq<WordView>) -> bool {
    exists|order: Seq<usize>|
        {
            &&& #[trigger] is_key_order(order, keys_of(words))
            &&& out.len() == words.len()
            &&& forall|i: int| 0 <= i < out.len() ==> out[i] == words[order[i] as int]
        }
}

/// Puts words in the order of their keys; words with equal keys stay in
/// their order.
pub fn arrange(words: &Vec<Word>) -> (out: Vec<Word>)
    ensures
        in_key_order(word_views(out@), word_views(words@)),
{
    let ghost all = word_views(words@);
    let mut keys: Vec<u64> = Vec::new();
    let mut i: usize = 0;
    while i < words.len()
        invariant
            i <= words.len(),
            keys@.len() == i,
            forall|k: int| 0 <= k < i ==> keys@[k] == word_key(#[trigger] words@[k]@),
        decreases words.len() - i,
    {
        keys.push(key_of(&words[i]));
        i += 1;
    }
    assert(keys@ =~= keys_of(all));
    let order = order_of(&keys);
    let mut out: Vec<Word> = Vec::new();
    let mut k: usize = 0;
    while k < order.len()
        invariant
            k <= order.len(),
            is_key_order(order@, keys@),
            keys@.len() == words@.len(),
            out@.len() == k,
            forall|j: int| 0 <= j < k ==> (#[trigger] out@[j])@ == words@[order@[j] as int]@,
        decreases order.len() - k,
    {
        out.push(words[order[k]].copy());
        k += 1;
    }
    assert(in_key_order(word_views(out@), all)) by {
        assert(is_key_order(order@, keys_of(all)));
    }
    out
}

/// The pattern that catches what a page gives for one group.
pub const GROUP_PATTERN: &'static str = "<font[^>]*>(.*?)</font>";

/// The groups and the words that a page gives, before the words are put
/// in order. A page without a list of groups gives none.
pub open spec fn page_spec(page: Seq<char>) -> Option<(Seq<GroupView>, Seq<WordView>)> {
    match section_spec(page) {
        None => None,
        Some(list) => match captured(GROUP_PATTERN@, list) {
            None => None,
            Some(caught) => Some((groups_of(caught), words_of(caught))),
        },
    }
}

/// Reads the groups and the words of the day from a page. The groups come
/// in the order of the page, the words in the order of their keys.
pub fn parse_page(page: &str) -> (out: Option<(Vec<Group>, Vec<Word>)>)
    ensures
        match out {
            Some((groups, words)) => {
                &&& page_spec(page@) is Some
                &&& group_views(groups@) == page_spec(page@)->Some_0.0
                &&& in_key_order(word_views(words@), page_spec(page@)->Some_0.1)
            },
            None => page_spec(page@) is None,
        },
{
    let list = match section_of(chars_of(page).as_slice()) {
        Some(list) => list,
        None => {
            return None;
        },
    };
    let caught = match first_groups(GROUP_PATTERN, text_of(list.as_slice()).as_str()) {
        Some(caught) => caught,
        None => {
            return None;
        },
    };
    let (groups, words) = entries(&caught);
    Some((groups, arrange(&words)))
}

/// The most days that a puzzle may lie back.
pub const MAXIMUM_OFFSET: usize = 365;

/// The number of days back that is asked of the source: the offset, but
/// no more than a year.
pub fn clamp_offset(date_offset: usize) -> (out: usize)
    ensures
        out == if date_offset <= MAXIMUM_OFFSET {
            date_offset
        } else {
            MAXIMUM_OFFSET
        },
{
    if date_offset <= MAXIMUM_OFFSET {
        date_offset
    } else {
        MAXIMUM_OFFSET
    }
}

/// The pattern by which a date is written into the address of its page:
/// the name of the month, the day, the year.
pub const DATE_PATTERN: &'static str = "%B-%e-%Y";

/// The start of the address of every page.
pub const ADDRESS_HEAD: &'static str =
    "https://www.connections-answer.com/posts/nyt-connections-answer-hint-";

/// A date written by a pattern, as `chrono` writes it; nothing where the
/// three numbers are no date of the calendar or the pattern is not a
/// valid one.
pub uninterp spec fn written_date(pattern: Seq<char>, year: i32, month: u32, day: u32) -> Option<
    Seq<char>,
>;

/// Calls `chrono::NaiveDate::from_ymd_opt` on the three numbers and, where
/// they are a date, `NaiveDate::format` with the pattern, and writes the
/// outcome into a text. The result is a function of the pattern and the
/// numbers alone, known here by the name `written_date`.
#[verifier::external_body]
fn write_date(pattern: &str, year: i32, month: u32, day: u32) -> (out: Option<String>)
    ensures
        written_date(pattern@, year, month, day) == match out {
            Some(text) => Some(text@),
            None => None,
        },
{
    let date = chrono::NaiveDate::from_ymd_opt(year, month, day)?;
    let mut out = String::new();
    match date.format(pattern).write_to(&mut out) {
        Ok(()) => Some(out),
        Err(_) => None,
    }
}

/// A text in which every hyphen followed by a blank has lost the blank.
/// The text is read from the left, and a blank that was dropped is not
/// read again.
pub open spec fn squeezed(text: Seq<char>) -> Seq<char>
    decreases text.len(),
{
    if text.len() == 0 {
        Seq::empty()
    } else if text.len() >= 2 && text[0] == '-' && text[1] == ' ' {
        seq!['-'] + squeezed(text.skip(2))
    } else {
        seq![text[0]] + squeezed(text.skip(1))
    }
}

/// Drops the blank after every hyphen.
pub fn squeeze(text: &[char]) -> (out: Vec<char>)
    ensures
        out@ == squeezed(text@),
{
    let n: usize = text.len();
    let mut out: Vec<char> = Vec::new();
    let mut i: usize = 0;
    assert(text@.skip(0) =~= text@);
    assert(out@ + squeezed(text@) =~= squeezed(text@));
    while i < n
        invariant
            i <= n,
            n == text@.len(),
            squeezed(text@) == out@ + squeezed(text@.skip(i as int)),
        decreases n - i,
    {
        let ghost rest = text@.skip(i as int);
        let ghost before = out@;
        assert(rest[0] == text@[i as int]);
        if text[i] == '-' && n - i >= 2 && text[i + 1] == ' ' {
            assert(rest[1] == text@[i + 1]);
            assert(rest.skip(2) =~= text@.skip(i + 2));
            out.push('-');
            assert(out@ + squeezed(text@.skip(i + 2)) =~= before + squeezed(rest));
            i += 2;
        } else {
            assert(rest.skip(1) =~= text@.skip(i + 1));
            out.push(text[i]);
            assert(out@ + squeezed(text@.skip(i + 1)) =~= before + squeezed(rest));
            i += 1;
        }
    }
    assert(text@.skip(i as int).len() == 0);
    assert(out@ + Seq::<char>::empty() =~= out@);
    out
}

/// The address of the page of a date, from the date as it is written by
/// `DATE_PATTERN`: in lower case, without the blank that pads a day of
/// one digit, without white space around it, after the start of every
/// address.
pub open spec fn address_spec(date: Seq<char>) -> Seq<char> {
    ADDRESS_HEAD@ + trimmed(squeezed(lowercase(date)))
}

/// Makes the address of the page of a date from the written date.
pub fn address_from(date: &str) -> (out: String)
    ensures
        out@ == address_spec(date@),
{
    let lowered = to_lower(date);
    let tail = trim(squeeze(chars_of(lowered.as_str()).as_slice()).as_slice());
    let mut out = String::from_str(ADDRESS_HEAD);
    out.append(text_of(tail.as_slice()).as_str());
    out
}

/// The address of the page of the given date; nothing where the three
/// numbers are no date of the calendar.
pub fn page_address(year: i32, month: u32, day: u32) -> (out: Option<String>)
    ensures
        match out {
            Some(address) => written_date(DATE_PATTERN@, year, month, day) is Some && address@
                == address_spec(written_date(DATE_PATTERN@, year, month, day)->Some_0),
            None => written_date(DATE_PATTERN@, year, month, day) is None,
        },
{
    match write_date(DATE_PATTERN, year, month, day) {
        Some(date) => Some(address_from(date.as_str())),
        None => None,
    }
}

} // verus!
