//! Scope data: what an allowed command may touch.

use vstd::prelude::*;
use vstd::string::*;
use crate::text::{clone_strings, strs};

verus! {

/// The allow and deny patterns attached to a permission.
#[derive(Debug, PartialEq, Eq)]
pub struct Scopes {
    /// Patterns of what the command may touch.
    pub allow: Vec<String>,
    /// Patterns of what the command may never touch.
    pub deny: Vec<String>,
}

/// The mathematical value of a [`Scopes`].
pub struct ScopesView {
    pub allow: Seq<Seq<char>>,
    pub deny: Seq<Seq<char>>,
}

impl View for Scopes {
    type V = ScopesView;

    open spec fn view(&self) -> ScopesView {
        ScopesView { allow: strs(self.allow@), deny: strs(self.deny@) }
    }
}

/// The scope without any pattern.
pub open spec fn empty_scope() -> ScopesView {
    ScopesView { allow: Seq::empty(), deny: Seq::empty() }
}

/// Overlaying `extra` on `base` keeps every pattern of `base` and adds those
/// of `extra` behind them, allow to allow and deny to deny. Nothing of
/// `base` is dropped or replaced.
pub open spec fn merge(base: ScopesView, extra: ScopesView) -> ScopesView {
    ScopesView { allow: base.allow + extra.allow, deny: base.deny + extra.deny }
}

/// The pattern for what a directory holds.
pub open spec fn directory_pattern(path: Seq<char>, recursive: bool) -> Seq<char> {
    if recursive {
        path + "/**"@
    } else {
        path + "/*"@
    }
}

/// Appends copies of the strings of `extra` to `out`.
pub fn extend_strings(out: &mut Vec<String>, extra: &Vec<String>)
    ensures
        strs(final(out)@) == strs(old(out)@) + strs(extra@),
{
    let mut i: usize = 0;
    assert(strs(out@) =~= strs(old(out)@) + strs(extra@.subrange(0, 0)));
    while i < extra.len()
        invariant
            i <= extra.len(),
            strs(out@) == strs(old(out)@) + strs(extra@.subrange(0, i as int)),
        decreases extra.len() - i,
    {
        let ghost before = strs(out@);
        out.push(extra[i].clone());
        i += 1;
        assert(strs(out@) =~= before.push(extra@[i - 1]@));
        assert(strs(extra@.subrange(0, i as int)) =~= strs(extra@.subrange(0, i - 1)).push(
            extra@[i - 1]@,
        ));
        assert(strs(out@) =~= strs(old(out)@) + strs(extra@.subrange(0, i as int)));
    }
    assert(extra@.subrange(0, i as int) =~= extra@);
}

impl Scopes {
    /// The scope without any pattern.
    pub fn new() -> (r: Scopes)
        ensures
            r@ == empty_scope(),
    {
        let r = Scopes { allow: Vec::new(), deny: Vec::new() };
        assert(r@.allow =~= Seq::empty());
        assert(r@.deny =~= Seq::empty());
        r
    }

    /// Allows one more file: its path joins the allow patterns.
    pub fn allow_file(&mut self, path: &str)
        ensures
            final(self)@.allow == old(self)@.allow.push(path@),
            final(self)@.deny == old(self)@.deny,
    {
        self.allow.push(String::from_str(path));
        assert(self@.allow =~= old(self)@.allow.push(path@));
    }

    /// Allows what a directory holds: its path followed by `/*`, or by
    /// `/**` where everything below it is meant, joins the allow patterns.
    pub fn allow_directory(&mut self, path: &str, recursive: bool)
        ensures
            final(self)@.allow == old(self)@.allow.push(directory_pattern(path@, recursive)),
            final(self)@.deny == old(self)@.deny,
    {
        let mut pattern = String::from_str(path);
        if recursive {
            pattern.append("/**");
        } else {
            pattern.append("/*");
        }
        self.allow.push(pattern);
        assert(self@.allow =~= old(self)@.allow.push(directory_pattern(path@, recursive)));
    }

    /// A copy of this scope overlaid with `extra`. Neither operand changes.
    pub fn merged(&self, extra: &Scopes) -> (r: Scopes)
        ensures
            r@ == merge(self@, extra@),
    {
        let mut allow = clone_strings(&self.allow);
        extend_strings(&mut allow, &extra.allow);
        let mut deny = clone_strings(&self.deny);
        extend_strings(&mut deny, &extra.deny);
        Scopes { allow, deny }
    }
}

impl Clone for Scopes {
    fn clone(&self) -> (r: Scopes)
        ensures
            r@ == self@,
    {
        Scopes { allow: clone_strings(&self.allow), deny: clone_strings(&self.deny) }
    }
}

} // verus!
