//! Strings as sequences of characters: comparing, trimming, adding to.

use vstd::prelude::*;

verus! {

/// The characters of `s`, in order.
pub fn chars_of(s: &str) -> (res: Vec<char>)
    ensures
        res@ == s@,
{
    let mut out: Vec<char> = Vec::new();
    for c in it: s.chars()
        invariant
            it.seq() == s@,
            out@ == it.seq().take(it.index() as int),
    {
        out.push(c);
        assert(it.seq().take(it.index() + 1) == it.seq().take(it.index() as int).push(c));
    }
    assert(s@.take(s@.len() as int) == s@);
    out
}

/// Whether two character vectors hold the same characters.
pub fn chars_eq(a: &Vec<char>, b: &Vec<char>) -> (res: bool)
    ensures
        res == (a@ == b@),
{
    if a.len() != b.len() {
        return false;
    }
    let mut i: usize = 0;
    while i < a.len()
        invariant
            a.len() == b.len(),
            i <= a.len(),
            forall|j: int| 0 <= j < i ==> a@[j] == b@[j],
        decreases a.len() - i,
    {
        if a[i] != b[i] {
            return false;
        }
        i += 1;
    }
    assert(a@ =~= b@);
    true
}

/// Whether two strings hold the same text.
pub fn text_eq(a: &str, b: &str) -> (res: bool)
    ensures
        res == (a@ == b@),
{
    let ca = chars_of(a);
    let cb = chars_of(b);
    chars_eq(&ca, &cb)
}

/// Whether `char::is_whitespace` holds of a character: whether Unicode
/// gives it the property `White_Space`.
pub uninterp spec fn is_whitespace(c: char) -> bool;

/// Asks `char::is_whitespace`.
///
/// Trusted: the answer depends on the character alone.
#[verifier::external_body]
fn char_is_whitespace(c: char) -> (res: bool)
    ensures
        res == is_whitespace(c),
{
    c.is_whitespace()
}

/// A text without the white space at its front.
pub open spec fn trimmed_start(text: Seq<char>) -> Seq<char>
    decreases text.len(),
{
    if text.len() == 0 || !is_whitespace(text.first()) {
        text
    } else {
        trimmed_start(text.drop_first())
    }
}

/// A text without the white space at its end.
pub open spec fn trimmed_end(text: Seq<char>) -> Seq<char>
    decreases text.len(),
{
    if text.len() == 0 || !is_whitespace(text.last()) {
        text
    } else {
        trimmed_end(text.drop_last())
    }
}

/// A text without the white space at its front and at its end.
pub open spec fn trimmed(text: Seq<char>) -> Seq<char> {
    trimmed_end(trimmed_start(text))
}

/// Takes the white space off both ends of a text.
pub fn trim(text: &str) -> (res: String)
    ensures
        res@ == trimmed(text@),
{
    let chars = chars_of(text);
    let n = chars.len();
    let mut start: usize = 0;
    assert(chars@.skip(0) =~= chars@);
    while start < n && char_is_whitespace(chars[start])
        invariant
            start <= n,
            n == chars.len(),
            trimmed_start(chars@) == trimmed_start(chars@.skip(start as int)),
        decreases n - start,
    {
        assert(chars@.skip(start as int).first() == chars@[start as int]);
        assert(chars@.skip(start as int).drop_first() =~= chars@.skip(start + 1));
        start += 1;
    }
    proof {
        if start < n {
            assert(chars@.skip(start as int).first() == chars@[start as int]);
        }
    }
    let ghost rest = chars@.skip(start as int);
    let mut end: usize = n;
    assert(chars@.subrange(start as int, n as int) =~= rest);
    while end > start && char_is_whitespace(chars[end - 1])
        invariant
            start <= end <= n,
            n == chars.len(),
            trimmed_end(rest) == trimmed_end(chars@.subrange(start as int, end as int)),
        decreases end,
    {
        assert(chars@.subrange(start as int, end as int).last() == chars@[end - 1]);
        assert(chars@.subrange(start as int, end as int).drop_last() =~= chars@.subrange(
            start as int,
            end - 1,
        ));
        end -= 1;
    }
    proof {
        if end > start {
            assert(chars@.subrange(start as int, end as int).last() == chars@[end - 1]);
        }
    }
    String::from_str(text.substring_char(start, end))
}

/// What is left after white space is taken off the front is the end of the
/// text, and does not start with white space.
pub proof fn lemma_trimmed_start(text: Seq<char>)
    ensures
        trimmed_start(text).len() <= text.len(),
        trimmed_start(text) == text.skip(text.len() - trimmed_start(text).len()),
        trimmed_start(text).len() > 0 ==> !is_whitespace(trimmed_start(text).first()),
    decreases text.len(),
{
    if text.len() == 0 || !is_whitespace(text.first()) {
        assert(text.skip(0) =~= text);
    } else {
        let rest = text.drop_first();
        lemma_trimmed_start(rest);
        let kept = trimmed_start(rest);
        assert(rest.skip(rest.len() - kept.len()) =~= text.skip(text.len() - kept.len()));
    }
}

/// What is left after white space is taken off the end is the start of the
/// text, and does not end with white space.
pub proof fn lemma_trimmed_end(text: Seq<char>)
    ensures
        trimmed_end(text).len() <= text.len(),
        trimmed_end(text) == text.take(trimmed_end(text).len() as int),
        trimmed_end(text).len() > 0 ==> !is_whitespace(trimmed_end(text).last()),
    decreases text.len(),
{
    if text.len() == 0 || !is_whitespace(text.last()) {
        assert(text.take(text.len() as int) =~= text);
    } else {
        let rest = text.drop_last();
        lemma_trimmed_end(rest);
        let kept = trimmed_end(rest);
        assert(rest.take(kept.len() as int) =~= text.take(kept.len() as int));
    }
}

/// A trimmed text neither starts nor ends with white space, and trimming it
/// again changes nothing.
pub proof fn lemma_trimmed(text: Seq<char>)
    ensures
        trimmed(text).len() > 0 ==> !is_whitespace(trimmed(text).first()) && !is_whitespace(
            trimmed(text).last(),
        ),
        trimmed(trimmed(text)) == trimmed(text),
{
    let front = trimmed_start(text);
    let both = trimmed_end(front);
    lemma_trimmed_start(text);
    lemma_trimmed_end(front);
    if both.len() > 0 {
        assert(both.first() == front.first());
        assert(trimmed_start(both) == both);
        assert(trimmed_end(both) == both);
    } else {
        assert(trimmed_start(both) == both);
        assert(trimmed_end(both) == both);
    }
}

/// Adds a character to the end of a string with `String::push`.
///
/// Trusted: the string afterwards is the string before with the character
/// at its end.
#[verifier::external_body]
pub(crate) fn push_char(text: &mut String, c: char)
    ensures
        final(text)@ == old(text)@.push(c),
{
    text.push(c);
}

} // verus!
