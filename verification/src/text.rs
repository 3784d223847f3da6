//! Characters and strings as the game compares them.
//!
//! Case is set aside by putting text in lower case, as `str::to_lowercase`
//! of std does it for every alphabet. On text of ASCII characters that is
//! the folding of `'A'..='Z'` onto `'a'..='z'`, which `folded` writes out;
//! beyond ASCII the result is known by its name, `lower`, only. All
//! contracts of this crate speak of strings through their view, a
//! `Seq<char>`.

use vstd::prelude::*;
use vstd::std_specs::iter::IteratorSpec;
use vstd::utf8::is_ascii_chars;

verus! {

/// The ASCII lower-case form of `c`.
pub open spec fn ascii_lower(c: char) -> char {
    if 'A' <= c && c <= 'Z' {
        ((c as u8) + 32) as char
    } else {
        c
    }
}

/// `s` with every character in its ASCII lower-case form.
pub open spec fn folded(s: Seq<char>) -> Seq<char> {
    Seq::new(s.len(), |i: int| ascii_lower(s[i]))
}

/// What `str::to_lowercase` of std returns for the text `s`.
pub uninterp spec fn lower(s: Seq<char>) -> Seq<char>;

/// `s` in lower case: folded where it is text of ASCII characters, and
/// what std returns for it where it is not.
pub open spec fn lowercase(s: Seq<char>) -> Seq<char> {
    if is_ascii_chars(s) {
        folded(s)
    } else {
        lower(s)
    }
}

/// Whether `needle` occurs in `hay` as a run of adjacent characters.
pub open spec fn is_infix(needle: Seq<char>, hay: Seq<char>) -> bool {
    exists|k: int| occurs_at(needle, hay, k)
}

/// Whether `needle` occurs in `hay` starting at position `k`.
pub open spec fn occurs_at(needle: Seq<char>, hay: Seq<char>, k: int) -> bool {
    0 <= k && k + needle.len() <= hay.len() && hay.subrange(k, k + needle.len()) == needle
}

/// Folding twice is folding once.
pub proof fn lemma_ascii_lower_idempotent(c: char)
    ensures
        ascii_lower(ascii_lower(c)) == ascii_lower(c),
{
}

/// Text of ASCII characters stays text of ASCII characters when folded,
/// so putting it in lower case twice is putting it in lower case once.
pub proof fn lemma_lowercase_of_ascii(s: Seq<char>)
    requires
        is_ascii_chars(s),
    ensures
        lowercase(s) == folded(s),
        is_ascii_chars(lowercase(s)),
        lowercase(lowercase(s)) == lowercase(s),
{
    assert forall|i: int| 0 <= i < s.len() implies folded(folded(s))[i] == folded(s)[i] by {
        lemma_ascii_lower_idempotent(s[i]);
    }
    assert(folded(folded(s)) =~= folded(s));
}

/// `String::push` of std, which vstd leaves without a specification: the
/// string afterwards is the string before with `c` appended as its last
/// character.
pub assume_specification[ String::push ](s: &mut String, c: char)
    ensures
        final(s)@ == old(s)@.push(c),
;

/// The ASCII lower-case form of `c`.
pub fn to_ascii_lower(c: char) -> (lowered: char)
    ensures
        lowered == ascii_lower(c),
{
    if c >= 'A' && c <= 'Z' {
        ((c as u8) + 32) as char
    } else {
        c
    }
}

/// The characters of `s`, in order.
pub fn chars_of(s: &str) -> (chars: Vec<char>)
    ensures
        chars@ == s@,
{
    broadcast use vstd::string::group_string_axioms;

    let mut chars: Vec<char> = Vec::new();
    let mut rest = s.chars();
    loop
        invariant
            rest.obeys_prophetic_iter_laws(),
            rest.decrease() is Some,
            chars@ + rest.remaining() == s@,
        ensures
            chars@ == s@,
        decreases rest.decrease()->0,
    {
        match rest.next() {
            Some(c) => {
                chars.push(c);
            },
            None => {
                break ;
            },
        }
    }
    chars
}

/// `str::to_lowercase` of std: the lower-case form of `s` by the rules of
/// Unicode, which is a function of the text alone and goes by the name
/// `lower`. On text of ASCII characters those rules are the ASCII ones:
/// `'A'..='Z'` become `'a'..='z'` and nothing else changes.
#[verifier::external_body]
fn std_lowercase(s: &str) -> (lowered: String)
    ensures
        lowered@ == lower(s@),
        is_ascii_chars(s@) ==> lowered@ == folded(s@),
{
    s.to_lowercase()
}

/// `s` in lower case.
pub fn to_lowercase(s: &str) -> (lowered: String)
    ensures
        lowered@ == lowercase(s@),
        lowered@ == lower(s@),
{
    std_lowercase(s)
}

/// The strings of `parts` one after another, as one string.
pub fn joined(parts: &Vec<String>) -> (text: String)
    ensures
        text@ == parts.deep_view().flatten(),
{
    let mut text = String::new();
    let mut i: usize = 0;
    assert(parts.deep_view().take(0) =~= Seq::<Seq<char>>::empty());
    while i < parts.len()
        invariant
            i <= parts.len(),
            text@ == parts.deep_view().take(i as int).flatten(),
        decreases parts.len() - i,
    {
        text.append(parts[i].as_str());
        proof {
            let done = parts.deep_view().take(i as int);
            done.lemma_flatten_push(parts[i as int]@);
            assert(parts.deep_view().take(i + 1) =~= done.push(parts[i as int]@));
        }
        i += 1;
    }
    assert(parts.deep_view().take(parts.len() as int) =~= parts.deep_view());
    text
}

/// Whether `needle` stands in `hay` at position `start`.
fn stands_at(hay: &Vec<char>, needle: &Vec<char>, start: usize) -> (found: bool)
    requires
        start + needle.len() <= hay.len(),
    ensures
        found == occurs_at(needle@, hay@, start as int),
{
    let mut j: usize = 0;
    while j < needle.len()
        invariant
            j <= needle.len(),
            start + needle.len() <= hay.len(),
            forall|k: int| 0 <= k < j ==> hay@[start + k] == needle@[k],
        decreases needle.len() - j,
    {
        if hay[start + j] != needle[j] {
            assert(hay@.subrange(start as int, start + needle.len())[j as int] != needle@[j as int]);
            return false;
        }
        j += 1;
    }
    assert(hay@.subrange(start as int, start + needle.len()) =~= needle@);
    true
}

/// Whether `needle` occurs in `hay` as a run of adjacent characters.
pub fn contains(hay: &str, needle: &str) -> (found: bool)
    ensures
        found == is_infix(needle@, hay@),
{
    let within = chars_of(hay);
    let sought = chars_of(needle);
    if sought.len() > within.len() {
        return false;
    }
    let last = within.len() - sought.len();
    let mut start: usize = 0;
    loop
        invariant
            start <= last,
            last == within.len() - sought.len(),
            within@ == hay@,
            sought@ == needle@,
            forall|k: int| 0 <= k < start ==> !occurs_at(needle@, hay@, k),
        decreases last - start,
    {
        if stands_at(&within, &sought, start) {
            return true;
        }
        if start == last {
            return false;
        }
        start += 1;
    }
}

} // verus!
