//! Glob patterns, as capabilities and scopes use them.

use vstd::prelude::*;
use crate::scope::Scopes;
use crate::text::strs;

verus! {

/// What the `glob` crate says of a pattern and a text: whether the text
/// matches, or `None` where the pattern does not compile. It depends on the
/// pattern and the text alone, as `glob` reads them on the platform that
/// the library is built for.
pub uninterp spec fn glob_outcome(pattern: Seq<char>, text: Seq<char>) -> Option<bool>;

/// Compiles the pattern with `glob::Pattern::new` and asks
/// `glob::Pattern::matches` whether the text matches it; `None` where the
/// pattern does not compile.
#[verifier::external_body]
fn glob_match(pattern: &str, text: &str) -> (r: Option<bool>)
    ensures
        r == glob_outcome(pattern@, text@),
{
    match glob::Pattern::new(pattern) {
        Ok(compiled) => Some(compiled.matches(text)),
        Err(_) => None,
    }
}

/// Whether the text matches the glob pattern. A pattern that does not
/// compile matches nothing.
pub open spec fn glob_matches(pattern: Seq<char>, text: Seq<char>) -> bool {
    glob_outcome(pattern, text) == Some(true)
}

/// Whether one of the patterns matches the text.
pub open spec fn any_match(patterns: Seq<Seq<char>>, text: Seq<char>) -> bool {
    exists|i: int| 0 <= i < patterns.len() && glob_matches(#[trigger] patterns[i], text)
}

/// Whether the text matches the glob pattern. A pattern that does not
/// compile matches nothing.
pub fn pattern_matches(pattern: &str, text: &str) -> (r: bool)
    ensures
        r == glob_matches(pattern@, text@),
{
    match glob_match(pattern, text) {
        Some(matched) => matched,
        None => false,
    }
}

/// For each pattern, whether the label matches it.
pub fn label_hits(patterns: &Vec<String>, label: &str) -> (hits: Vec<bool>)
    ensures
        hits@.len() == patterns@.len(),
        forall|i: int|
            0 <= i < hits@.len() ==> hits@[i] == glob_matches((#[trigger] patterns@[i])@, label@),
{
    let mut hits: Vec<bool> = Vec::new();
    let mut i: usize = 0;
    while i < patterns.len()
        invariant
            i <= patterns.len(),
            hits@.len() == i,
            forall|j: int|
                0 <= j < i ==> hits@[j] == glob_matches((#[trigger] patterns@[j])@, label@),
        decreases patterns.len() - i,
    {
        hits.push(pattern_matches(patterns[i].as_str(), label));
        i += 1;
    }
    hits
}

/// Whether one of the answers is a yes.
pub fn any_true(hits: &Vec<bool>) -> (b: bool)
    ensures
        b == hits@.contains(true),
{
    let mut i: usize = 0;
    while i < hits.len()
        invariant
            i <= hits.len(),
            forall|j: int| 0 <= j < i ==> !hits@[j],
        decreases hits.len() - i,
    {
        if hits[i] {
            assert(hits@[i as int] == true);
            return true;
        }
        i += 1;
    }
    false
}

/// Whether one of the glob patterns matches the label. A pattern that does
/// not compile matches nothing, and so does an empty list.
pub fn any_pattern_matches(patterns: &Vec<String>, label: &str) -> (hit: bool)
    ensures
        hit == any_match(strs(patterns@), label@),
{
    let hits = label_hits(patterns, label);
    let hit = any_true(&hits);
    proof {
        let texts = strs(patterns@);
        if hit {
            let i = choose|i: int| 0 <= i < hits@.len() && hits@[i] == true;
            assert(glob_matches(patterns@[i]@, label@));
            assert(texts[i] == patterns@[i]@);
        }
        if any_match(texts, label@) {
            let i = choose|i: int| 0 <= i < texts.len() && glob_matches(#[trigger] texts[i], label@);
            assert(texts[i] == patterns@[i]@);
            assert(hits@[i] == true);
        }
    }
    hit
}

/// Whether a scope lets a value through, given whether one of its allow
/// patterns and one of its deny patterns matched: a deny always wins.
pub fn permits(allow_hit: bool, deny_hit: bool) -> (b: bool)
    ensures
        b == (allow_hit && !deny_hit),
{
    allow_hit && !deny_hit
}

/// Whether the scope lets `value` through: one of its allow patterns has to
/// match and none of its deny patterns may. A scope that allows nothing
/// lets nothing through.
pub fn scope_permits(scope: &Scopes, value: &str) -> (b: bool)
    ensures
        b == (any_match(scope@.allow, value@) && !any_match(scope@.deny, value@)),
{
    let allow_hit = any_pattern_matches(&scope.allow, value);
    let deny_hit = any_pattern_matches(&scope.deny, value);
    permits(allow_hit, deny_hit)
}

} // verus!
