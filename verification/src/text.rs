use vstd::prelude::*;

verus! {

/// The lower-case form of a text, as std's `str::to_lowercase` computes it
/// from the Unicode character tables.
pub uninterp spec fn lowercase(s: Seq<char>) -> Seq<char>;

/// Whether a character has the Unicode property Alphabetic, as std's
/// `char::is_alphabetic` reports it.
pub uninterp spec fn alphabetic(c: char) -> bool;

/// Calls std's `str::to_lowercase`. The result is a function of the text
/// alone; it is known here only by the name `lowercase`.
#[verifier::external_body]
pub(crate) fn to_lower(s: &str) -> (out: String)
    ensures
        out@ == lowercase(s@),
{
    s.to_lowercase()
}

/// Calls std's `char::is_alphabetic`. The result is a function of the
/// character alone; it is known here only by the name `alphabetic`.
#[verifier::external_body]
pub(crate) fn is_letter(c: char) -> (out: bool)
    ensures
        out == alphabetic(c),
{
    c.is_alphabetic()
}

/// std's `String::push` appends one character at the end of the text.
pub assume_specification[ String::push ](s: &mut String, c: char)
    ensures
        final(s)@ == old(s)@.push(c),
;

/// Tells whether two texts are made of the same characters.
pub fn same(a: &str, b: &str) -> (out: bool)
    ensures
        out == (a@ == b@),
{
    let n: usize = a.unicode_len();
    if b.unicode_len() != n {
        return false;
    }
    let mut i: usize = 0;
    while i < n
        invariant
            i <= n,
            n == a@.len(),
            n == b@.len(),
            forall|j: int| 0 <= j < i ==> a@[j] == b@[j],
        decreases n - i,
    {
        if a.get_char(i) != b.get_char(i) {
            return false;
        }
        i += 1;
    }
    assert(a@ =~= b@);
    true
}

/// Every character of the text is alphabetic.
pub open spec fn all_alphabetic(s: Seq<char>) -> bool {
    forall|i: int| 0 <= i < s.len() ==> alphabetic(#[trigger] s[i])
}

/// Tells whether every character of the text is alphabetic.
pub fn is_word(s: &str) -> (out: bool)
    ensures
        out == all_alphabetic(s@),
{
    let n: usize = s.unicode_len();
    let mut i: usize = 0;
    while i < n
        invariant
            n == s@.len(),
            i <= n,
            forall|j: int| 0 <= j < i ==> alphabetic(#[trigger] s@[j]),
        decreases n - i,
    {
        if !is_letter(s.get_char(i)) {
            return false;
        }
        i += 1;
    }
    true
}

/// Joins two texts.
pub fn join(head: &str, tail: &str) -> (out: String)
    ensures
        out@ == head@ + tail@,
{
    let mut out = String::from_str(head);
    out.append(tail);
    out
}

/// The texts of a list of strings, each as a sequence of characters.
pub open spec fn texts(list: Seq<String>) -> Seq<Seq<char>> {
    Seq::new(list.len(), |i: int| list[i]@)
}

/// Tells whether a list of texts holds the given text.
pub fn holds(list: &Vec<String>, text: &str) -> (out: bool)
    ensures
        out == texts(list@).contains(text@),
{
    let mut i: usize = 0;
    while i < list.len()
        invariant
            i <= list.len(),
            forall|j: int| 0 <= j < i ==> #[trigger] texts(list@)[j] != text@,
        decreases list.len() - i,
    {
        if same(list[i].as_str(), text) {
            assert(texts(list@)[i as int] == text@);
            return true;
        }
        i += 1;
    }
    false
}

} // verus!
