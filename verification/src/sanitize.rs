//! Turning a free-text category into a directory name.

use vstd::prelude::*;
use crate::text::{char_is_alphanumeric, is_alphanumeric, push_char};

verus! {

/// The directory name used where a category holds no letter or digit.
pub const FALLBACK_CATEGORY: &'static str = "Other";

/// The letters and digits of `raw`, in their order.
pub open spec fn alphanumeric_part(raw: Seq<char>) -> Seq<char> {
    raw.filter(|c: char| is_alphanumeric(c))
}

/// The directory name for the category `raw`: its letters and digits, or the
/// fallback where it has none.
pub open spec fn sanitized(raw: Seq<char>) -> Seq<char> {
    if alphanumeric_part(raw).len() == 0 {
        FALLBACK_CATEGORY@
    } else {
        alphanumeric_part(raw)
    }
}

/// Whether `name` can serve as a directory name: it is not empty and holds
/// letters and digits only.
pub open spec fn is_directory_token(name: Seq<char>) -> bool {
    &&& name.len() > 0
    &&& forall|i: int| 0 <= i < name.len() ==> is_alphanumeric(#[trigger] name[i])
}

/// Keeps the letters and digits of `raw`, case untouched, and drops all else.
pub fn keep_alphanumeric(raw: &str) -> (kept: String)
    ensures
        kept@ == alphanumeric_part(raw@),
{
    let mut kept = String::new();
    let n = raw.unicode_len();
    let mut i: usize = 0;
    while i < n
        invariant
            n == raw@.len(),
            i <= n,
            kept@ == alphanumeric_part(raw@.take(i as int)),
        decreases n - i,
    {
        let c = raw.get_char(i);
        proof {
            lemma_alphanumeric_part_push(raw@.take(i as int), c);
            assert(raw@.take(i + 1) == raw@.take(i as int).push(c));
        }
        if char_is_alphanumeric(c) {
            push_char(&mut kept, c);
        }
        i = i + 1;
    }
    assert(raw@.take(n as int) == raw@);
    kept
}

/// The directory name for a category: `raw` with everything but letters and
/// digits removed, or `"Other"` where nothing is left.
pub fn sanitize(raw: &str) -> (name: String)
    ensures
        name@ == sanitized(raw@),
        is_directory_token(name@),
{
    let kept = keep_alphanumeric(raw);
    proof {
        lemma_sanitized_is_directory_token(raw@);
    }
    if kept.as_str().unicode_len() == 0 {
        String::from_str(FALLBACK_CATEGORY)
    } else {
        kept
    }
}

/// Appending a character appends it to the letters and digits exactly when
/// it is one of them.
pub proof fn lemma_alphanumeric_part_push(s: Seq<char>, c: char)
    ensures
        alphanumeric_part(s.push(c)) == if is_alphanumeric(c) {
            alphanumeric_part(s).push(c)
        } else {
            alphanumeric_part(s)
        },
{
    reveal(Seq::filter);
    assert(s.push(c).drop_last() == s);
}

/// The fallback itself is made of five letters.
pub proof fn lemma_fallback_is_directory_token()
    ensures
        FALLBACK_CATEGORY@ == seq!['O', 't', 'h', 'e', 'r'],
        is_directory_token(FALLBACK_CATEGORY@),
{
    reveal_strlit("Other");
    assert(FALLBACK_CATEGORY@ =~= seq!['O', 't', 'h', 'e', 'r']);
}

/// Whatever the category, its directory name is never empty and holds only
/// letters and digits.
pub proof fn lemma_sanitized_is_directory_token(raw: Seq<char>)
    ensures
        is_directory_token(sanitized(raw)),
{
    lemma_fallback_is_directory_token();
    let pred = |c: char| is_alphanumeric(c);
    let kept = raw.filter(pred);
    assert forall|i: int| 0 <= i < kept.len() implies is_alphanumeric(#[trigger] kept[i]) by {
        raw.lemma_filter_pred(pred, i);
    }
}

} // verus!
