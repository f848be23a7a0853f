//! The authorization engine: which permissions a window has, and whether
//! they allow a command.

use vstd::prelude::*;
use crate::capability::{
    entries_view, platform_ok, Capability, PermissionEntry, PermissionEntryView, Target,
};
use crate::error::Error;
use crate::expand::{error_is, expand, expand_permission, extend_permissions, Fault};
use crate::permission::{
    perms_view, qualified_permission, qualified_set, qualify_permission, qualify_set, sets_view,
    ManifestView, Permission, PermissionSet, PermissionSetView, PermissionView, PluginManifest,
};
use crate::scope::{empty_scope, merge, Scopes, ScopesView};
use crate::pattern::{any_match, any_pattern_matches};
use crate::text::{chars_of, clone_strings, contains_str, strs};

verus! {

/// Whether a capability applies, given whether one of its window patterns
/// and one of its webview patterns matched: one of the two has to, and the
/// platform has to be among those it is limited to.
pub fn capability_applies(
    capability: &Capability,
    window_hit: bool,
    webview_hit: bool,
    platform: Target,
) -> (b: bool)
    ensures
        b == ((window_hit || webview_hit) && platform_ok(capability.platforms, platform)),
{
    (window_hit || webview_hit) && capability.targets(platform)
}

/// Whether a capability applies to a window and webview on a platform: one
/// of its window patterns has to match the window label or one of its
/// webview patterns the webview label, and the platform has to be among
/// those it is limited to.
pub open spec fn applies(
    capability: Capability,
    window_label: Seq<char>,
    webview_label: Seq<char>,
    platform: Target,
) -> bool {
    (any_match(strs(capability.windows@), window_label) || any_match(
        strs(capability.webviews@),
        webview_label,
    )) && platform_ok(capability.platforms, platform)
}

/// For each capability, whether it applies.
pub open spec fn hits_of(
    capabilities: Seq<Capability>,
    window_label: Seq<char>,
    webview_label: Seq<char>,
    platform: Target,
) -> Seq<bool> {
    Seq::new(
        capabilities.len(),
        |i: int| applies(capabilities[i], window_label, webview_label, platform),
    )
}

/// The permission with `extra` overlaid on its scope.
pub open spec fn with_scope(p: PermissionView, extra: ScopesView) -> PermissionView {
    PermissionView { scope: merge(p.scope, extra), ..p }
}

/// Every permission of the list with `extra` overlaid on its scope.
pub open spec fn extend_all(ps: Seq<PermissionView>, extra: ScopesView) -> Seq<PermissionView> {
    ps.map_values(|p: PermissionView| with_scope(p, extra))
}

/// What one entry of a capability grants: the expansion of its identifier,
/// with the entry's scope overlaid on a copy of each permission where the
/// entry carries one.
pub open spec fn entry_grants(
    perms: Seq<PermissionView>,
    sets: Seq<PermissionSetView>,
    entry: PermissionEntryView,
) -> Result<Seq<PermissionView>, Fault> {
    match expand(perms, sets, entry.identifier(), sets.len()) {
        Err(f) => Err(f),
        Ok(ps) => match entry {
            PermissionEntryView::PermissionRef(_) => Ok(ps),
            PermissionEntryView::ExtendedPermission { identifier, scope } => Ok(
                extend_all(ps, scope),
            ),
        },
    }
}

/// What the entries of a capability grant, in order, or the fault of the
/// first entry that has one.
pub open spec fn capability_grants(
    perms: Seq<PermissionView>,
    sets: Seq<PermissionSetView>,
    entries: Seq<PermissionEntryView>,
) -> Result<Seq<PermissionView>, Fault>
    decreases entries.len(),
{
    if entries.len() == 0 {
        Ok(Seq::empty())
    } else {
        match capability_grants(perms, sets, entries.drop_last()) {
            Err(f) => Err(f),
            Ok(head) => match entry_grants(perms, sets, entries.last()) {
                Err(f) => Err(f),
                Ok(tail) => Ok(head + tail),
            },
        }
    }
}

/// What each capability grants, or the fault of the first capability that
/// has one.
pub open spec fn all_grants(
    perms: Seq<PermissionView>,
    sets: Seq<PermissionSetView>,
    capabilities: Seq<Capability>,
) -> Result<Seq<Seq<PermissionView>>, Fault>
    decreases capabilities.len(),
{
    if capabilities.len() == 0 {
        Ok(Seq::empty())
    } else {
        match all_grants(perms, sets, capabilities.drop_last()) {
            Err(f) => Err(f),
            Ok(head) => match capability_grants(
                perms,
                sets,
                entries_view(capabilities.last().permissions@),
            ) {
                Err(f) => Err(f),
                Ok(tail) => Ok(head.push(tail)),
            },
        }
    }
}

/// The default permission of a manifest, qualified, as a list of none or
/// one.
pub open spec fn default_of(plugin: Seq<char>, m: ManifestView) -> Seq<PermissionView> {
    match m.default_permission {
        Some(p) => seq![qualified_permission(plugin, p)],
        None => Seq::empty(),
    }
}

/// The named permissions of a manifest, qualified.
pub open spec fn named_of(plugin: Seq<char>, perms: Seq<PermissionView>) -> Seq<PermissionView> {
    perms.map_values(|p: PermissionView| qualified_permission(plugin, p))
}

/// The permission sets of a manifest, qualified.
pub open spec fn sets_of(plugin: Seq<char>, sets: Seq<PermissionSetView>) -> Seq<
    PermissionSetView,
> {
    sets.map_values(|s: PermissionSetView| qualified_set(plugin, s))
}

/// Every permission that the manifests declare, under its qualified
/// identifier, the default of each manifest in front of its named
/// permissions.
pub open spec fn declared_permissions(ms: Seq<PluginManifest>) -> Seq<PermissionView>
    decreases ms.len(),
{
    if ms.len() == 0 {
        Seq::empty()
    } else {
        declared_permissions(ms.drop_last()) + default_of(ms.last().plugin@, ms.last().manifest@)
            + named_of(ms.last().plugin@, ms.last().manifest@.permissions)
    }
}

/// Whether a command is one of the plugin's own: the plugin's name and a
/// colon stand in front of it; for the application itself, whose name is
/// empty, the command holds no colon.
pub open spec fn belongs(plugin: Seq<char>, command: Seq<char>) -> bool {
    if plugin.len() == 0 {
        !command.contains(':')
    } else {
        command.len() > plugin.len() && command.subrange(0, plugin.len() as int) == plugin
            && command[plugin.len() as int] == ':'
    }
}

/// The commands of the list that are the plugin's own, in order.
pub open spec fn own_commands(plugin: Seq<char>, commands: Seq<Seq<char>>) -> Seq<Seq<char>>
    decreases commands.len(),
{
    if commands.len() == 0 {
        Seq::empty()
    } else if belongs(plugin, commands.last()) {
        own_commands(plugin, commands.drop_last()).push(commands.last())
    } else {
        own_commands(plugin, commands.drop_last())
    }
}

/// What the default permission of a plugin grants without being named by a
/// capability: those of its commands that are the plugin's own, under the
/// qualified identifier and within the declared scope.
pub open spec fn implicit_grant(plugin: Seq<char>, p: PermissionView) -> PermissionView {
    PermissionView {
        commands: own_commands(plugin, p.commands),
        ..qualified_permission(plugin, p)
    }
}

/// The implicit grant of a manifest, as a list of none or one.
pub open spec fn implicit_of(plugin: Seq<char>, m: ManifestView) -> Seq<PermissionView> {
    match m.default_permission {
        Some(p) => seq![implicit_grant(plugin, p)],
        None => Seq::empty(),
    }
}

/// The implicit grants of the manifests.
pub open spec fn declared_defaults(ms: Seq<PluginManifest>) -> Seq<PermissionView>
    decreases ms.len(),
{
    if ms.len() == 0 {
        Seq::empty()
    } else {
        declared_defaults(ms.drop_last()) + implicit_of(ms.last().plugin@, ms.last().manifest@)
    }
}

/// Whether a command is one of the plugin's own.
pub fn command_belongs(plugin: &str, command: &str) -> (b: bool)
    ensures
        b == belongs(plugin@, command@),
{
    let p = chars_of(plugin);
    let c = chars_of(command);
    if p.len() == 0 {
        let mut i: usize = 0;
        while i < c.len()
            invariant
                i <= c.len(),
                p@ == plugin@,
                c@ == command@,
                p@.len() == 0,
                forall|j: int| 0 <= j < i ==> c@[j] != ':',
            decreases c.len() - i,
        {
            if c[i] == ':' {
                assert(c@.contains(':'));
                return false;
            }
            i += 1;
        }
        true
    } else {
        if c.len() <= p.len() {
            return false;
        }
        let mut i: usize = 0;
        while i < p.len()
            invariant
                i <= p.len(),
                p.len() < c.len(),
                p@ == plugin@,
                c@ == command@,
                p@.len() > 0,
                forall|j: int| 0 <= j < i ==> c@[j] == p@[j],
            decreases p.len() - i,
        {
            if c[i] != p[i] {
                assert(c@.subrange(0, p@.len() as int)[i as int] != p@[i as int]);
                return false;
            }
            i += 1;
        }
        assert(c@.subrange(0, p@.len() as int) =~= p@);
        c[p.len()] == ':'
    }
}

/// A copy of the default permission of a plugin as it holds implicitly.
pub fn implicit_default(plugin: &str, p: &Permission) -> (r: Permission)
    ensures
        r@ == implicit_grant(plugin@, p@),
{
    let qualified = qualify_permission(plugin, p);
    let mut commands: Vec<String> = Vec::new();
    let mut i: usize = 0;
    assert(strs(p.commands@.subrange(0, 0)) =~= Seq::<Seq<char>>::empty());
    assert(strs(commands@) =~= Seq::<Seq<char>>::empty());
    while i < p.commands.len()
        invariant
            i <= p.commands.len(),
            strs(commands@) == own_commands(plugin@, strs(p.commands@.subrange(0, i as int))),
        decreases p.commands.len() - i,
    {
        let ghost next = strs(p.commands@.subrange(0, i + 1));
        assert(next.drop_last() =~= strs(p.commands@.subrange(0, i as int)));
        assert(next.last() == p.commands@[i as int]@);
        if command_belongs(plugin, p.commands[i].as_str()) {
            let ghost before = strs(commands@);
            commands.push(p.commands[i].clone());
            assert(strs(commands@) =~= before.push(p.commands@[i as int]@));
        }
        i += 1;
    }
    assert(p.commands@.subrange(0, i as int) =~= p.commands@);
    Permission {
        identifier: qualified.identifier,
        version: qualified.version,
        description: qualified.description,
        commands,
        scope: qualified.scope,
    }
}

/// Every permission set that the manifests declare, qualified.
pub open spec fn declared_sets(ms: Seq<PluginManifest>) -> Seq<PermissionSetView>
    decreases ms.len(),
{
    if ms.len() == 0 {
        Seq::empty()
    } else {
        declared_sets(ms.drop_last()) + sets_of(
            ms.last().plugin@,
            ms.last().manifest@.permission_sets,
        )
    }
}

/// The fault of the first of the first `n` declared permission sets that
/// cannot be expanded: one that reaches itself, or one with a member that
/// names nothing.
pub open spec fn sets_fault(perms: Seq<PermissionView>, sets: Seq<PermissionSetView>, n: nat) -> Option<
    Fault,
>
    decreases n,
{
    if n == 0 || n > sets.len() {
        None
    } else {
        match sets_fault(perms, sets, (n - 1) as nat) {
            Some(f) => Some(f),
            None => match expand(perms, sets, sets[n - 1].identifier, sets.len()) {
                Err(f) => Some(f),
                Ok(_) => None,
            },
        }
    }
}

/// What loading comes to: the fault of the first declared permission set
/// that has one; where none has, what each capability grants, or the fault
/// of the first capability that has one.
pub open spec fn load_outcome(
    perms: Seq<PermissionView>,
    sets: Seq<PermissionSetView>,
    capabilities: Seq<Capability>,
) -> Result<Seq<Seq<PermissionView>>, Fault> {
    match sets_fault(perms, sets, sets.len()) {
        Some(f) => Err(f),
        None => all_grants(perms, sets, capabilities),
    }
}

/// A fault among the first `n` declared sets is the fault of them all.
pub proof fn lemma_sets_fault_stays(
    perms: Seq<PermissionView>,
    sets: Seq<PermissionSetView>,
    n: nat,
    m: nat,
)
    requires
        n <= m <= sets.len(),
        sets_fault(perms, sets, n) is Some,
    ensures
        sets_fault(perms, sets, m) == sets_fault(perms, sets, n),
    decreases m - n,
{
    if n < m {
        lemma_sets_fault_stays(perms, sets, n, (m - 1) as nat);
    }
}

/// The values of the permission lists of the capabilities.
pub open spec fn grants_view(g: Seq<Vec<Permission>>) -> Seq<Seq<PermissionView>> {
    g.map_values(|v: Vec<Permission>| perms_view(v@))
}

/// The permissions of the first `n` capabilities that apply, in order.
pub open spec fn selected(granted: Seq<Seq<PermissionView>>, hits: Seq<bool>, n: nat) -> Seq<
    PermissionView,
>
    decreases n,
{
    if n == 0 || n > granted.len() {
        Seq::empty()
    } else {
        let before = selected(granted, hits, (n - 1) as nat);
        if n - 1 < hits.len() && hits[n - 1] {
            before + granted[n - 1]
        } else {
            before
        }
    }
}

/// Whether one of the first `n` capabilities applies.
pub open spec fn any_applies(hits: Seq<bool>, n: nat) -> bool {
    exists|i: int| 0 <= i < n && i < hits.len() && hits[i]
}

/// The permissions in force where `hits` says which capabilities apply: the
/// permissions of each capability that applies, in order, followed by the
/// implicit grant of every plugin's default permission if at least one
/// capability applies. Nothing at all where none applies.
pub open spec fn effective_permissions(
    granted: Seq<Seq<PermissionView>>,
    defaults: Seq<PermissionView>,
    hits: Seq<bool>,
) -> Seq<PermissionView> {
    if any_applies(hits, granted.len()) {
        selected(granted, hits, granted.len()) + defaults
    } else {
        Seq::empty()
    }
}

/// Whether the permission lists the command.
pub open spec fn grants(p: PermissionView, command: Seq<char>) -> bool {
    p.commands.contains(command)
}

/// Whether one of the permissions lists the command.
pub open spec fn allowed(perms: Seq<PermissionView>, command: Seq<char>) -> bool {
    exists|i: int| 0 <= i < perms.len() && grants(perms[i], command)
}

/// The scopes of the permissions that list the command, overlaid in order.
pub open spec fn granted_scope(perms: Seq<PermissionView>, command: Seq<char>) -> ScopesView
    decreases perms.len(),
{
    if perms.len() == 0 {
        empty_scope()
    } else {
        let before = granted_scope(perms.drop_last(), command);
        if grants(perms.last(), command) {
            merge(before, perms.last().scope)
        } else {
            before
        }
    }
}

/// The answer to a request to run a command.
#[derive(Debug, Clone, PartialEq, Eq)]
pub enum Decision {
    /// The command may run, within this scope.
    Allow(Scopes),
    /// The command may not run.
    Deny,
}

/// Decides whether the permissions in force allow the command: they do if
/// one of them lists it, and the scope is then the union of the scopes of
/// all that list it.
pub fn authorize(effective: &Vec<Permission>, command: &str) -> (d: Decision)
    ensures
        match d {
            Decision::Allow(scope) => allowed(perms_view(effective@), command@) && scope@
                == granted_scope(perms_view(effective@), command@),
            Decision::Deny => !allowed(perms_view(effective@), command@),
        },
{
    let ghost all = perms_view(effective@);
    let mut found = false;
    let mut scope = Scopes::new();
    let mut i: usize = 0;
    while i < effective.len()
        invariant
            i <= effective.len(),
            all == perms_view(effective@),
            found == allowed(all.subrange(0, i as int), command@),
            scope@ == granted_scope(all.subrange(0, i as int), command@),
        decreases effective.len() - i,
    {
        let ghost before = all.subrange(0, i as int);
        let ghost next = all.subrange(0, i + 1);
        assert(next.drop_last() =~= before);
        assert(next.last() == effective@[i as int]@);
        if contains_str(&effective[i].commands, command) {
            scope = scope.merged(&effective[i].scope);
            found = true;
            assert(grants(next[i as int], command@));
        } else {
            assert(allowed(next, command@) ==> allowed(before, command@)) by {
                if allowed(next, command@) {
                    let j = choose|j: int| 0 <= j < next.len() && grants(next[j], command@);
                    assert(before[j] == next[j]);
                }
            }
        }
        assert(allowed(before, command@) ==> allowed(next, command@)) by {
            if allowed(before, command@) {
                let j = choose|j: int| 0 <= j < before.len() && grants(before[j], command@);
                assert(before[j] == next[j]);
            }
        }
        i += 1;
    }
    assert(all.subrange(0, i as int) =~= all);
    if found {
        Decision::Allow(scope)
    } else {
        Decision::Deny
    }
}

/// Copies of the permissions, each with `extra` overlaid on its scope. The
/// permissions handed in are left as they were.
pub fn extend_scopes(ps: &Vec<Permission>, extra: &Scopes) -> (r: Vec<Permission>)
    ensures
        perms_view(r@) == extend_all(perms_view(ps@), extra@),
{
    let mut r: Vec<Permission> = Vec::new();
    let mut i: usize = 0;
    while i < ps.len()
        invariant
            i <= ps.len(),
            r@.len() == i,
            forall|j: int| 0 <= j < i ==> r@[j]@ == with_scope(#[trigger] ps@[j]@, extra@),
        decreases ps.len() - i,
    {
        let p = &ps[i];
        r.push(
            Permission {
                identifier: p.identifier.clone(),
                version: p.version,
                description: p.description.clone(),
                commands: clone_strings(&p.commands),
                scope: p.scope.merged(extra),
            },
        );
        i += 1;
    }
    assert(perms_view(r@) =~= extend_all(perms_view(ps@), extra@));
    r
}

/// What one entry of a capability grants.
pub fn grant_entry(perms: &Vec<Permission>, sets: &Vec<PermissionSet>, entry: &PermissionEntry) -> (r:
    Result<Vec<Permission>, Error>)
    ensures
        crate::expand::expansion_is(
            r,
            entry_grants(perms_view(perms@), sets_view(sets@), entry@),
        ),
{
    match expand_permission(perms, sets, entry.identifier().as_str(), sets.len()) {
        Err(e) => Err(e),
        Ok(ps) => match entry {
            PermissionEntry::PermissionRef(_) => Ok(ps),
            PermissionEntry::ExtendedPermission { identifier: _, scope } => Ok(
                extend_scopes(&ps, scope),
            ),
        },
    }
}

/// A fault among the first `n` entries is the fault of the whole list.
pub proof fn lemma_entry_fault_stays(
    perms: Seq<PermissionView>,
    sets: Seq<PermissionSetView>,
    entries: Seq<PermissionEntryView>,
    n: int,
)
    requires
        0 <= n <= entries.len(),
        capability_grants(perms, sets, entries.subrange(0, n)) is Err,
    ensures
        capability_grants(perms, sets, entries) == capability_grants(
            perms,
            sets,
            entries.subrange(0, n),
        ),
    decreases entries.len() - n,
{
    if n == entries.len() {
        assert(entries.subrange(0, n) =~= entries);
    } else {
        assert(entries.subrange(0, n + 1).drop_last() =~= entries.subrange(0, n));
        lemma_entry_fault_stays(perms, sets, entries, n + 1);
    }
}

/// A fault among the first `n` capabilities is the fault of the whole list.
pub proof fn lemma_capability_fault_stays(
    perms: Seq<PermissionView>,
    sets: Seq<PermissionSetView>,
    capabilities: Seq<Capability>,
    n: int,
)
    requires
        0 <= n <= capabilities.len(),
        all_grants(perms, sets, capabilities.subrange(0, n)) is Err,
    ensures
        all_grants(perms, sets, capabilities) == all_grants(
            perms,
            sets,
            capabilities.subrange(0, n),
        ),
    decreases capabilities.len() - n,
{
    if n == capabilities.len() {
        assert(capabilities.subrange(0, n) =~= capabilities);
    } else {
        assert(capabilities.subrange(0, n + 1).drop_last() =~= capabilities.subrange(0, n));
        lemma_capability_fault_stays(perms, sets, capabilities, n + 1);
    }
}

/// What the entries of one capability grant, in order.
pub fn grant_capability(
    perms: &Vec<Permission>,
    sets: &Vec<PermissionSet>,
    entries: &Vec<PermissionEntry>,
) -> (r: Result<Vec<Permission>, Error>)
    ensures
        crate::expand::expansion_is(
            r,
            capability_grants(perms_view(perms@), sets_view(sets@), entries_view(entries@)),
        ),
{
    let ghost all = entries_view(entries@);
    let mut out: Vec<Permission> = Vec::new();
    let mut i: usize = 0;
    assert(perms_view(out@) =~= Seq::empty());
    while i < entries.len()
        invariant
            i <= entries.len(),
            all == entries_view(entries@),
            capability_grants(perms_view(perms@), sets_view(sets@), all.subrange(0, i as int))
                == Ok::<Seq<PermissionView>, Fault>(perms_view(out@)),
        decreases entries.len() - i,
    {
        let ghost next = all.subrange(0, i + 1);
        assert(next.drop_last() =~= all.subrange(0, i as int));
        assert(next.last() == entries@[i as int]@);
        match grant_entry(perms, sets, &entries[i]) {
            Err(e) => {
                proof {
                    lemma_entry_fault_stays(perms_view(perms@), sets_view(sets@), all, i + 1);
                }
                return Err(e);
            },
            Ok(more) => {
                extend_permissions(&mut out, &more);
            },
        }
        i += 1;
    }
    assert(all.subrange(0, i as int) =~= all);
    Ok(out)
}

/// The authorization data of an application, read once and never changed:
/// what the manifests declare, the capabilities, and what each capability
/// grants.
#[derive(Debug, PartialEq, Eq)]
pub struct Acl {
    /// Every declared permission, defaults included.
    pub permissions: Vec<Permission>,
    /// Every declared permission set.
    pub sets: Vec<PermissionSet>,
    /// What the default permission of each manifest grants implicitly.
    pub defaults: Vec<Permission>,
    /// The capabilities.
    pub capabilities: Vec<Capability>,
    /// What each capability grants, in the order of `capabilities`.
    pub granted: Vec<Vec<Permission>>,
}

impl Acl {
    /// Every capability has been resolved against the declared permissions
    /// and permission sets, and `granted` holds the outcome.
    pub open spec fn wf(&self) -> bool {
        load_outcome(perms_view(self.permissions@), sets_view(self.sets@), self.capabilities@)
            == Ok::<Seq<Seq<PermissionView>>, Fault>(grants_view(self.granted@))
    }

    /// Reads the manifests, expands every declared permission set and
    /// resolves every capability.
    ///
    /// Fails on the first declared permission set, in order, that reaches
    /// itself or has a member that names nothing, whether or not a
    /// capability refers to it; then on the first capability with an entry
    /// that names an unknown identifier.
    pub fn load(manifests: &Vec<PluginManifest>, capabilities: Vec<Capability>) -> (r: Result<
        Acl,
        Error,
    >)
        ensures
            match load_outcome(
                declared_permissions(manifests@),
                declared_sets(manifests@),
                capabilities@,
            ) {
                Ok(g) => {
                    &&& r is Ok
                    &&& r->Ok_0.wf()
                    &&& grants_view(r->Ok_0.granted@) == g
                    &&& r->Ok_0.capabilities@ == capabilities@
                    &&& perms_view(r->Ok_0.permissions@) == declared_permissions(manifests@)
                    &&& sets_view(r->Ok_0.sets@) == declared_sets(manifests@)
                    &&& perms_view(r->Ok_0.defaults@) == declared_defaults(manifests@)
                },
                Err(f) => r is Err && error_is(r->Err_0, f),
            },
    {
        let mut permissions: Vec<Permission> = Vec::new();
        let mut sets: Vec<PermissionSet> = Vec::new();
        let mut defaults: Vec<Permission> = Vec::new();
        let mut m: usize = 0;
        assert(manifests@.subrange(0, 0) =~= Seq::<PluginManifest>::empty());
        assert(perms_view(permissions@) =~= Seq::empty());
        assert(perms_view(defaults@) =~= Seq::empty());
        assert(sets_view(sets@) =~= Seq::empty());
        while m < manifests.len()
            invariant
                m <= manifests.len(),
                perms_view(permissions@) == declared_permissions(manifests@.subrange(0, m as int)),
                sets_view(sets@) == declared_sets(manifests@.subrange(0, m as int)),
                perms_view(defaults@) == declared_defaults(manifests@.subrange(0, m as int)),
            decreases manifests.len() - m,
        {
            let plugin = manifests[m].plugin.as_str();
            let manifest = &manifests[m].manifest;
            let ghost next = manifests@.subrange(0, m + 1);
            assert(next.drop_last() =~= manifests@.subrange(0, m as int));
            assert(next.last() == manifests@[m as int]);
            let ghost before_p = perms_view(permissions@);
            let ghost before_d = perms_view(defaults@);
            if let Some(p) = &manifest.default_permission {
                permissions.push(qualify_permission(plugin, p));
                defaults.push(implicit_default(plugin, p));
            }
            assert(perms_view(permissions@) =~= before_p + default_of(plugin@, manifest@));
            assert(perms_view(defaults@) =~= before_d + implicit_of(plugin@, manifest@));
            extend_qualified_permissions(&mut permissions, plugin, &manifest.permissions);
            extend_qualified_sets(&mut sets, plugin, &manifest.permission_sets);
            m += 1;
        }
        assert(manifests@.subrange(0, m as int) =~= manifests@);

        let mut k: usize = 0;
        while k < sets.len()
            invariant
                k <= sets.len(),
                perms_view(permissions@) == declared_permissions(manifests@),
                sets_view(sets@) == declared_sets(manifests@),
                sets_fault(perms_view(permissions@), sets_view(sets@), k as nat) is None,
            decreases sets.len() - k,
        {
            assert(sets_view(sets@)[k as int].identifier == sets@[k as int].identifier@);
            match expand_permission(&permissions, &sets, sets[k].identifier.as_str(), sets.len()) {
                Err(e) => {
                    proof {
                        lemma_sets_fault_stays(
                            perms_view(permissions@),
                            sets_view(sets@),
                            (k + 1) as nat,
                            sets@.len(),
                        );
                    }
                    return Err(e);
                },
                Ok(_) => {},
            }
            k += 1;
        }

        let mut granted: Vec<Vec<Permission>> = Vec::new();
        let mut c: usize = 0;
        assert(capabilities@.subrange(0, 0) =~= Seq::<Capability>::empty());
        assert(grants_view(granted@) =~= Seq::empty());
        while c < capabilities.len()
            invariant
                c <= capabilities.len(),
                perms_view(permissions@) == declared_permissions(manifests@),
                sets_view(sets@) == declared_sets(manifests@),
                sets_fault(perms_view(permissions@), sets_view(sets@), sets@.len()) is None,
                all_grants(
                    perms_view(permissions@),
                    sets_view(sets@),
                    capabilities@.subrange(0, c as int),
                ) == Ok::<Seq<Seq<PermissionView>>, Fault>(grants_view(granted@)),
            decreases capabilities.len() - c,
        {
            let ghost next = capabilities@.subrange(0, c + 1);
            assert(next.drop_last() =~= capabilities@.subrange(0, c as int));
            assert(next.last() == capabilities@[c as int]);
            match grant_capability(&permissions, &sets, &capabilities[c].permissions) {
                Err(e) => {
                    proof {
                        lemma_capability_fault_stays(
                            perms_view(permissions@),
                            sets_view(sets@),
                            capabilities@,
                            c + 1,
                        );
                    }
                    return Err(e);
                },
                Ok(list) => {
                    let ghost before = grants_view(granted@);
                    granted.push(list);
                    assert(grants_view(granted@) =~= before.push(perms_view(list@)));
                },
            }
            c += 1;
        }
        assert(capabilities@.subrange(0, c as int) =~= capabilities@);
        Ok(Acl { permissions, sets, defaults, capabilities, granted })
    }

    /// Which capabilities apply to a window and webview on a platform, one
    /// answer per capability.
    pub fn applying(&self, window_label: &str, webview_label: &str, platform: Target) -> (hits: Vec<
        bool,
    >)
        ensures
            hits@ == hits_of(self.capabilities@, window_label@, webview_label@, platform),
    {
        let mut hits: Vec<bool> = Vec::new();
        let mut i: usize = 0;
        while i < self.capabilities.len()
            invariant
                i <= self.capabilities.len(),
                hits@.len() == i,
                forall|j: int|
                    0 <= j < i ==> hits@[j] == applies(
                        #[trigger] self.capabilities@[j],
                        window_label@,
                        webview_label@,
                        platform,
                    ),
            decreases self.capabilities.len() - i,
        {
            let capability = &self.capabilities[i];
            let window_hit = any_pattern_matches(&capability.windows, window_label);
            let webview_hit = any_pattern_matches(&capability.webviews, webview_label);
            hits.push(capability_applies(capability, window_hit, webview_hit, platform));
            i += 1;
        }
        assert(hits@ =~= hits_of(self.capabilities@, window_label@, webview_label@, platform));
        hits
    }

    /// The permissions in force where `applies` says which capabilities
    /// apply.
    pub fn effective(&self, applies: &Vec<bool>) -> (r: Vec<Permission>)
        ensures
            perms_view(r@) == effective_permissions(
                grants_view(self.granted@),
                perms_view(self.defaults@),
                applies@,
            ),
    {
        let ghost g = grants_view(self.granted@);
        let mut out: Vec<Permission> = Vec::new();
        let mut any = false;
        let mut i: usize = 0;
        assert(perms_view(out@) =~= Seq::empty());
        while i < self.granted.len()
            invariant
                i <= self.granted.len(),
                g == grants_view(self.granted@),
                perms_view(out@) == selected(g, applies@, i as nat),
                any == any_applies(applies@, i as nat),
            decreases self.granted.len() - i,
        {
            if i < applies.len() && applies[i] {
                extend_permissions(&mut out, &self.granted[i]);
                any = true;
            }
            i += 1;
        }
        if any {
            extend_permissions(&mut out, &self.defaults);
            out
        } else {
            let none: Vec<Permission> = Vec::new();
            assert(perms_view(none@) =~= Seq::empty());
            none
        }
    }

    /// The permissions in force for a window and webview on a platform:
    /// those of [`Acl::effective`] for the capabilities that apply.
    pub fn resolve(&self, window_label: &str, webview_label: &str, platform: Target) -> (r: Vec<
        Permission,
    >)
        ensures
            perms_view(r@) == effective_permissions(
                grants_view(self.granted@),
                perms_view(self.defaults@),
                hits_of(self.capabilities@, window_label@, webview_label@, platform),
            ),
    {
        let hits = self.applying(window_label, webview_label, platform);
        self.effective(&hits)
    }
}

/// Appends qualified copies of the permissions of `extra` to `out`.
pub fn extend_qualified_permissions(out: &mut Vec<Permission>, plugin: &str, extra: &Vec<Permission>)
    ensures
        perms_view(final(out)@) == perms_view(old(out)@) + named_of(plugin@, perms_view(extra@)),
{
    let mut i: usize = 0;
    assert(perms_view(out@) =~= perms_view(old(out)@) + named_of(
        plugin@,
        perms_view(extra@.subrange(0, 0)),
    ));
    while i < extra.len()
        invariant
            i <= extra.len(),
            perms_view(out@) == perms_view(old(out)@) + named_of(
                plugin@,
                perms_view(extra@.subrange(0, i as int)),
            ),
        decreases extra.len() - i,
    {
        let ghost before = perms_view(out@);
        out.push(qualify_permission(plugin, &extra[i]));
        i += 1;
        assert(perms_view(out@) =~= before.push(qualified_permission(plugin@, extra@[i - 1]@)));
        assert(named_of(plugin@, perms_view(extra@.subrange(0, i as int))) =~= named_of(
            plugin@,
            perms_view(extra@.subrange(0, i - 1)),
        ).push(qualified_permission(plugin@, extra@[i - 1]@)));
        assert(perms_view(out@) =~= perms_view(old(out)@) + named_of(
            plugin@,
            perms_view(extra@.subrange(0, i as int)),
        ));
    }
    assert(extra@.subrange(0, i as int) =~= extra@);
}

/// Appends qualified copies of the permission sets of `extra` to `out`.
pub fn extend_qualified_sets(out: &mut Vec<PermissionSet>, plugin: &str, extra: &Vec<PermissionSet>)
    ensures
        sets_view(final(out)@) == sets_view(old(out)@) + sets_of(plugin@, sets_view(extra@)),
{
    let mut i: usize = 0;
    assert(sets_view(out@) =~= sets_view(old(out)@) + sets_of(
        plugin@,
        sets_view(extra@.subrange(0, 0)),
    ));
    while i < extra.len()
        invariant
            i <= extra.len(),
            sets_view(out@) == sets_view(old(out)@) + sets_of(
                plugin@,
                sets_view(extra@.subrange(0, i as int)),
            ),
        decreases extra.len() - i,
    {
        let ghost before = sets_view(out@);
        out.push(qualify_set(plugin, &extra[i]));
        i += 1;
        assert(sets_view(out@) =~= before.push(qualified_set(plugin@, extra@[i - 1]@)));
        assert(sets_of(plugin@, sets_view(extra@.subrange(0, i as int))) =~= sets_of(
            plugin@,
            sets_view(extra@.subrange(0, i - 1)),
        ).push(qualified_set(plugin@, extra@[i - 1]@)));
        assert(sets_view(out@) =~= sets_view(old(out)@) + sets_of(
            plugin@,
            sets_view(extra@.subrange(0, i as int)),
        ));
    }
    assert(extra@.subrange(0, i as int) =~= extra@);
}

} // verus!
