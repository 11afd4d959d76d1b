//! Character classes and string primitives that the rest of the library
//! builds on, together with their mathematical meaning on `Seq<char>`.

use vstd::prelude::*;

verus! {

/// Whether `c` is one of the 128 ASCII characters.
pub open spec fn is_ascii_char(c: char) -> bool {
    (c as u32) < 128
}

/// The ASCII letters and digits.
pub open spec fn ascii_alphanumeric(c: char) -> bool {
    let n = c as u32;
    (48 <= n <= 57) || (65 <= n <= 90) || (97 <= n <= 122)
}

/// The ASCII characters that count as whitespace: tab, line feed, vertical
/// tab, form feed, carriage return and space.
pub open spec fn ascii_whitespace(c: char) -> bool {
    let n = c as u32;
    (9 <= n <= 13) || n == 32
}

/// Whether a character outside ASCII is a letter or a number in the sense of
/// `char::is_alphanumeric`. The Unicode tables behind it are not spelled out.
pub uninterp spec fn unicode_alphanumeric(c: char) -> bool;

/// Whether a character outside ASCII is whitespace in the sense of
/// `str::trim`. The Unicode tables behind it are not spelled out.
pub uninterp spec fn unicode_whitespace(c: char) -> bool;

/// Letters and digits of any script.
pub open spec fn is_alphanumeric(c: char) -> bool {
    if is_ascii_char(c) {
        ascii_alphanumeric(c)
    } else {
        unicode_alphanumeric(c)
    }
}

/// Whitespace of any script.
pub open spec fn is_whitespace(c: char) -> bool {
    if is_ascii_char(c) {
        ascii_whitespace(c)
    } else {
        unicode_whitespace(c)
    }
}

/// `s` without its leading whitespace.
pub open spec fn without_leading_whitespace(s: Seq<char>) -> Seq<char>
    decreases s.len(),
{
    if s.len() > 0 && is_whitespace(s[0]) {
        without_leading_whitespace(s.drop_first())
    } else {
        s
    }
}

/// `s` without its trailing whitespace.
pub open spec fn without_trailing_whitespace(s: Seq<char>) -> Seq<char>
    decreases s.len(),
{
    if s.len() > 0 && is_whitespace(s.last()) {
        without_trailing_whitespace(s.drop_last())
    } else {
        s
    }
}

/// `s` without the whitespace at either end.
pub open spec fn trimmed(s: Seq<char>) -> Seq<char> {
    without_trailing_whitespace(without_leading_whitespace(s))
}

/// `s` without the prefix `p`, where it begins with `p`.
pub open spec fn stripped_prefix(s: Seq<char>, p: Seq<char>) -> Option<Seq<char>> {
    if p.is_prefix_of(s) {
        Some(s.skip(p.len() as int))
    } else {
        None
    }
}

/// `s` without the suffix `p`, where it ends with `p`.
pub open spec fn stripped_suffix(s: Seq<char>, p: Seq<char>) -> Option<Seq<char>> {
    if p.is_suffix_of(s) {
        Some(s.take(s.len() - p.len()))
    } else {
        None
    }
}

/// A text that neither begins nor ends with whitespace is its own trimmed
/// form.
pub proof fn lemma_trimmed_is_identity(s: Seq<char>)
    requires
        s.len() > 0 ==> !is_whitespace(s.first()) && !is_whitespace(s.last()),
    ensures
        trimmed(s) == s,
{
}

/// What is left of a text without its leading whitespace is the end of the
/// text, and does not begin with whitespace.
pub proof fn lemma_without_leading_whitespace(s: Seq<char>)
    ensures
        without_leading_whitespace(s).is_suffix_of(s),
        without_leading_whitespace(s).len() > 0 ==> !is_whitespace(
            without_leading_whitespace(s).first(),
        ),
    decreases s.len(),
{
    if s.len() > 0 && is_whitespace(s[0]) {
        let rest = s.drop_first();
        lemma_without_leading_whitespace(rest);
        let kept = without_leading_whitespace(rest);
        assert(kept =~= rest.skip(rest.len() - kept.len()));
        assert(kept =~= s.skip(s.len() - kept.len()));
    } else {
        assert(s =~= s.skip(0));
    }
}

/// What is left of a text without its trailing whitespace is the beginning
/// of the text, and does not end with whitespace.
pub proof fn lemma_without_trailing_whitespace(s: Seq<char>)
    ensures
        without_trailing_whitespace(s).is_prefix_of(s),
        without_trailing_whitespace(s).len() > 0 ==> !is_whitespace(
            without_trailing_whitespace(s).last(),
        ),
    decreases s.len(),
{
    if s.len() > 0 && is_whitespace(s.last()) {
        let rest = s.drop_last();
        lemma_without_trailing_whitespace(rest);
        let kept = without_trailing_whitespace(rest);
        assert(kept =~= rest.take(kept.len() as int));
        assert(kept =~= s.take(kept.len() as int));
    } else {
        assert(s =~= s.take(s.len() as int));
    }
}

/// A trimmed text is a stretch of the text it was made from, and neither
/// begins nor ends with whitespace.
pub proof fn lemma_trimmed_has_no_surrounding_whitespace(s: Seq<char>)
    ensures
        exists|from: int, to: int|
            0 <= from <= to <= s.len() && trimmed(s) == #[trigger] s.subrange(from, to),
        trimmed(s).len() > 0 ==> !is_whitespace(trimmed(s).first()) && !is_whitespace(
            trimmed(s).last(),
        ),
{
    let inner = without_leading_whitespace(s);
    lemma_without_leading_whitespace(s);
    lemma_without_trailing_whitespace(inner);
    let t = trimmed(s);
    let from = s.len() - inner.len();
    assert(inner =~= s.skip(from));
    assert(t =~= inner.take(t.len() as int));
    assert(t =~= s.subrange(from, from + t.len()));
    if t.len() > 0 {
        assert(t.first() == inner.first());
    }
}

/// Calls `char::is_alphanumeric`. Trusted: on ASCII the answer is that of
/// the letters and digits; elsewhere it is whatever the Unicode tables say,
/// which the contract only names.
#[verifier::external_body]
pub(crate) fn char_is_alphanumeric(c: char) -> (r: bool)
    ensures
        r == (if is_ascii_char(c) {
            ascii_alphanumeric(c)
        } else {
            unicode_alphanumeric(c)
        }),
{
    c.is_alphanumeric()
}

/// Calls `str::trim`. Trusted: the result is the text with the whitespace at
/// both ends taken off, so that what is left neither begins nor ends with
/// whitespace. Whitespace is the six ASCII characters above and, outside
/// ASCII, whatever the Unicode tables say.
#[verifier::external_body]
pub(crate) fn trim_text<'a>(s: &'a str) -> (r: &'a str)
    ensures
        r@ == trimmed(s@),
        r@.len() > 0 ==> !(if is_ascii_char(r@.first()) {
            ascii_whitespace(r@.first())
        } else {
            unicode_whitespace(r@.first())
        }),
        r@.len() > 0 ==> !(if is_ascii_char(r@.last()) {
            ascii_whitespace(r@.last())
        } else {
            unicode_whitespace(r@.last())
        }),
{
    s.trim()
}

/// Calls `str::strip_prefix` with a string pattern. Trusted: `Some` of the
/// rest exactly when the text begins with the pattern.
#[verifier::external_body]
pub(crate) fn strip_text_prefix<'a>(s: &'a str, prefix: &str) -> (r: Option<&'a str>)
    ensures
        r is Some == prefix@.is_prefix_of(s@),
        r matches Some(rest) ==> rest@ == s@.skip(prefix@.len() as int),
{
    s.strip_prefix(prefix)
}

/// Calls `str::strip_suffix` with a string pattern. Trusted: `Some` of what
/// stands before it exactly when the text ends with the pattern.
#[verifier::external_body]
pub(crate) fn strip_text_suffix<'a>(s: &'a str, suffix: &str) -> (r: Option<&'a str>)
    ensures
        r is Some == suffix@.is_suffix_of(s@),
        r matches Some(rest) ==> rest@ == s@.take(s@.len() - suffix@.len()),
{
    s.strip_suffix(suffix)
}

/// Compares two texts with `str`'s `==`. Trusted: it holds exactly when
/// both are the same sequence of characters.
#[verifier::external_body]
pub(crate) fn same_text(a: &str, b: &str) -> (r: bool)
    ensures
        r == (a@ == b@),
{
    a == b
}

/// Calls `String::push`. Trusted: the character is appended.
#[verifier::external_body]
pub(crate) fn push_char(s: &mut String, c: char)
    ensures
        final(s)@ == old(s)@.push(c),
{
    s.push(c)
}

} // verus!
