//! What the authorization engine guarantees, proved from its definitions.

use vstd::prelude::*;
use crate::acl::{
    all_grants, allowed, any_applies, applies, capability_grants, declared_permissions,
    declared_sets, default_of, effective_permissions, entry_grants, extend_all, grants, hits_of,
    lemma_sets_fault_stays, load_outcome, named_of, sets_fault, sets_of, with_scope,
};
use crate::capability::{entries_view, Capability, PermissionEntryView, Target};
use crate::expand::{expand, expand_all, find_permission, find_set, Fault};
use crate::permission::{
    qualified, qualified_permission, qualified_set, PermissionSetView, PermissionView,
    PluginManifest,
};
use crate::scope::ScopesView;

verus! {

/// A window to which no capability applies has no permission in force, so
/// every command is denied to it.
pub proof fn lemma_no_capability_no_access(
    granted: Seq<Seq<PermissionView>>,
    defaults: Seq<PermissionView>,
    hits: Seq<bool>,
    command: Seq<char>,
)
    requires
        forall|i: int| 0 <= i < hits.len() ==> !hits[i],
    ensures
        effective_permissions(granted, defaults, hits) == Seq::<PermissionView>::empty(),
        !allowed(effective_permissions(granted, defaults, hits), command),
{
    assert(!any_applies(hits, granted.len()));
}

/// Where one identifier of a list has a fault, the list has one.
pub proof fn lemma_member_fault(
    perms: Seq<PermissionView>,
    sets: Seq<PermissionSetView>,
    ids: Seq<Seq<char>>,
    fuel: nat,
    i: int,
)
    requires
        0 <= i < ids.len(),
        expand(perms, sets, ids[i], fuel) is Err,
    ensures
        expand_all(perms, sets, ids, fuel) is Err,
    decreases ids.len(),
{
    if i == ids.len() - 1 {
    } else {
        assert(ids.drop_last()[i] == ids[i]);
        lemma_member_fault(perms, sets, ids.drop_last(), fuel, i);
    }
}

/// The identifiers form a ring of permission sets: each names a set, no
/// permission hides it, and the set lists the next identifier of the ring,
/// the last one listing the first.
pub open spec fn is_cycle(
    perms: Seq<PermissionView>,
    sets: Seq<PermissionSetView>,
    ring: Seq<Seq<char>>,
) -> bool {
    &&& ring.len() > 0
    &&& forall|i: int|
        0 <= i < ring.len() ==> {
            &&& find_permission(perms, #[trigger] ring[i]) is None
            &&& find_set(sets, ring[i]) is Some
            &&& find_set(sets, ring[i])->0.permissions.contains(
                ring[if i + 1 < ring.len() {
                    i + 1
                } else {
                    0
                }],
            )
        }
}

/// A permission set that reaches itself cannot be expanded, however much
/// nesting is allowed: the expansion ends in a fault instead of running on.
pub proof fn lemma_cycle_has_fault(
    perms: Seq<PermissionView>,
    sets: Seq<PermissionSetView>,
    ring: Seq<Seq<char>>,
    k: int,
    fuel: nat,
)
    requires
        is_cycle(perms, sets, ring),
        0 <= k < ring.len(),
    ensures
        expand(perms, sets, ring[k], fuel) is Err,
    decreases fuel,
{
    if fuel == 0 {
    } else {
        let set = find_set(sets, ring[k])->0;
        let next = if k + 1 < ring.len() {
            k + 1
        } else {
            0
        };
        assert(set.permissions.contains(ring[next]));
        let j = choose|j: int| 0 <= j < set.permissions.len() && set.permissions[j] == ring[next];
        lemma_cycle_has_fault(perms, sets, ring, next, (fuel - 1) as nat);
        lemma_member_fault(perms, sets, set.permissions, (fuel - 1) as nat, j);
    }
}

/// The identifiers form a descending chain of permission sets: each names
/// a set, no permission hides it, and the set lists the identifier that
/// comes next.
pub open spec fn is_chain(
    perms: Seq<PermissionView>,
    sets: Seq<PermissionSetView>,
    chain: Seq<Seq<char>>,
) -> bool {
    forall|i: int|
        0 <= i < chain.len() ==> {
            &&& find_permission(perms, #[trigger] chain[i]) is None
            &&& find_set(sets, chain[i]) is Some
            &&& (i + 1 < chain.len() ==> find_set(sets, chain[i])->0.permissions.contains(
                chain[i + 1],
            ))
        }
}

/// Where the expansion of an identifier runs out of fuel, a chain of
/// permission sets descends from the identifier, one set per unit of fuel
/// and one more.
pub proof fn lemma_chain_of_fault(
    perms: Seq<PermissionView>,
    sets: Seq<PermissionSetView>,
    id: Seq<char>,
    fuel: nat,
) -> (chain: Seq<Seq<char>>)
    requires
        expand(perms, sets, id, fuel) is Err,
        expand(perms, sets, id, fuel)->Err_0 is Cyclic,
    ensures
        is_chain(perms, sets, chain),
        chain.len() == fuel + 1,
        chain[0] == id,
    decreases fuel, 0nat,
{
    if fuel == 0 {
        seq![id]
    } else {
        let set = find_set(sets, id)->0;
        let below = lemma_chain_of_list_fault(perms, sets, set.permissions, (fuel - 1) as nat);
        let chain = seq![id] + below;
        assert forall|i: int| 0 <= i < chain.len() implies {
            &&& find_permission(perms, #[trigger] chain[i]) is None
            &&& find_set(sets, chain[i]) is Some
            &&& (i + 1 < chain.len() ==> find_set(sets, chain[i])->0.permissions.contains(
                chain[i + 1],
            ))
        } by {
            if i > 0 {
                assert(chain[i] == below[i - 1]);
                if i + 1 < chain.len() {
                    assert(chain[i + 1] == below[i]);
                }
            } else {
                assert(chain[1] == below[0]);
            }
        }
        chain
    }
}

/// Where the expansion of a list runs out of fuel, the chain descends from
/// one of the identifiers of the list.
pub proof fn lemma_chain_of_list_fault(
    perms: Seq<PermissionView>,
    sets: Seq<PermissionSetView>,
    ids: Seq<Seq<char>>,
    fuel: nat,
) -> (chain: Seq<Seq<char>>)
    requires
        expand_all(perms, sets, ids, fuel) is Err,
        expand_all(perms, sets, ids, fuel)->Err_0 is Cyclic,
    ensures
        is_chain(perms, sets, chain),
        chain.len() == fuel + 1,
        ids.contains(chain[0]),
    decreases fuel, ids.len() + 1,
{
    if expand_all(perms, sets, ids.drop_last(), fuel) is Err {
        let chain = lemma_chain_of_list_fault(perms, sets, ids.drop_last(), fuel);
        let i = choose|i: int| 0 <= i < ids.drop_last().len() && ids.drop_last()[i] == chain[0];
        assert(ids[i] == chain[0]);
        chain
    } else {
        let chain = lemma_chain_of_fault(perms, sets, ids.last(), fuel);
        assert(ids[ids.len() - 1] == chain[0]);
        chain
    }
}

/// The identifier of every permission set that can be found is the
/// identifier of one of the sets.
pub proof fn lemma_found_set_is_declared(sets: Seq<PermissionSetView>, id: Seq<char>)
    requires
        find_set(sets, id) is Some,
    ensures
        sets.map_values(|s: PermissionSetView| s.identifier).contains(id),
    decreases sets.len(),
{
    let names = sets.map_values(|s: PermissionSetView| s.identifier);
    if sets.last().identifier == id {
        assert(names[sets.len() - 1] == id);
    } else {
        lemma_found_set_is_declared(sets.drop_last(), id);
        let rest = sets.drop_last().map_values(|s: PermissionSetView| s.identifier);
        let j = choose|j: int| 0 <= j < rest.len() && rest[j] == id;
        assert(names[j] == id);
    }
}

/// A chain longer than there are permission sets holds one identifier
/// twice.
pub proof fn lemma_long_chain_repeats(
    perms: Seq<PermissionView>,
    sets: Seq<PermissionSetView>,
    chain: Seq<Seq<char>>,
) -> (pair: (int, int))
    requires
        is_chain(perms, sets, chain),
        chain.len() > sets.len(),
    ensures
        0 <= pair.0 < pair.1 < chain.len(),
        chain[pair.0] == chain[pair.1],
{
    let names = sets.map_values(|s: PermissionSetView| s.identifier);
    if chain.no_duplicates() {
        chain.unique_seq_to_set();
        names.lemma_cardinality_of_set();
        vstd::seq_lib::seq_to_set_is_finite(names);
        assert(chain.to_set().subset_of(names.to_set())) by {
            assert forall|c: Seq<char>| chain.to_set().contains(c) implies names.to_set().contains(
                c,
            ) by {
                let i = choose|i: int| 0 <= i < chain.len() && chain[i] == c;
                lemma_found_set_is_declared(sets, chain[i]);
            }
        }
        vstd::set_lib::lemma_len_subset(chain.to_set(), names.to_set());
        assert(false);
    }
    let (i, j) = choose|i: int, j: int|
        0 <= i < chain.len() && 0 <= j < chain.len() && i != j && chain[i] == chain[j];
    if i < j {
        (i, j)
    } else {
        (j, i)
    }
}

/// Loading reports a cyclic permission set only where one exists: where the
/// expansion of an identifier runs out of fuel although it had as much as
/// there are permission sets, some permission set reaches itself.
pub proof fn lemma_cyclic_fault_has_cycle(
    perms: Seq<PermissionView>,
    sets: Seq<PermissionSetView>,
    id: Seq<char>,
) -> (ring: Seq<Seq<char>>)
    requires
        expand(perms, sets, id, sets.len()) is Err,
        expand(perms, sets, id, sets.len())->Err_0 is Cyclic,
    ensures
        is_cycle(perms, sets, ring),
{
    let chain = lemma_chain_of_fault(perms, sets, id, sets.len());
    let (a, b) = lemma_long_chain_repeats(perms, sets, chain);
    let ring = chain.subrange(a, b);
    assert forall|i: int| 0 <= i < ring.len() implies {
        &&& find_permission(perms, #[trigger] ring[i]) is None
        &&& find_set(sets, ring[i]) is Some
        &&& find_set(sets, ring[i])->0.permissions.contains(
            ring[if i + 1 < ring.len() {
                i + 1
            } else {
                0
            }],
        )
    } by {
        assert(ring[i] == chain[a + i]);
        if i + 1 < ring.len() {
            assert(ring[i + 1] == chain[a + i + 1]);
        } else {
            assert(ring[0] == chain[a]);
            assert(chain[a + i + 1] == chain[b]);
        }
    }
    ring
}

/// The permission declared under each identifier of the list.
pub open spec fn members_of(perms: Seq<PermissionView>, ids: Seq<Seq<char>>) -> Seq<
    PermissionView,
> {
    ids.map_values(|id: Seq<char>| find_permission(perms, id)->0)
}

/// A list of identifiers that all name permissions stands for exactly those
/// permissions, in order, and so does a permission set with such members.
pub proof fn lemma_flat_list_expands_to_members(
    perms: Seq<PermissionView>,
    sets: Seq<PermissionSetView>,
    ids: Seq<Seq<char>>,
    fuel: nat,
)
    requires
        forall|i: int| 0 <= i < ids.len() ==> find_permission(perms, #[trigger] ids[i]) is Some,
    ensures
        expand_all(perms, sets, ids, fuel) == Ok::<Seq<PermissionView>, Fault>(
            members_of(perms, ids),
        ),
    decreases ids.len(),
{
    if ids.len() == 0 {
        assert(members_of(perms, ids) =~= Seq::empty());
    } else {
        let rest = ids.drop_last();
        assert forall|i: int| 0 <= i < rest.len() implies find_permission(
            perms,
            #[trigger] rest[i],
        ) is Some by {
            assert(rest[i] == ids[i]);
        }
        lemma_flat_list_expands_to_members(perms, sets, rest, fuel);
        assert(find_permission(perms, ids[ids.len() - 1]) is Some);
        assert(expand(perms, sets, ids.last(), fuel) == Ok::<Seq<PermissionView>, Fault>(
            seq![find_permission(perms, ids.last())->0],
        ));
        assert(members_of(perms, rest) + seq![find_permission(perms, ids.last())->0]
            =~= members_of(perms, ids));
    }
}

/// Where one entry of a capability has a fault, the capability has one.
pub proof fn lemma_entry_fault(
    perms: Seq<PermissionView>,
    sets: Seq<PermissionSetView>,
    entries: Seq<PermissionEntryView>,
    i: int,
)
    requires
        0 <= i < entries.len(),
        entry_grants(perms, sets, entries[i]) is Err,
    ensures
        capability_grants(perms, sets, entries) is Err,
    decreases entries.len(),
{
    if i == entries.len() - 1 {
    } else {
        assert(entries.drop_last()[i] == entries[i]);
        lemma_entry_fault(perms, sets, entries.drop_last(), i);
    }
}

/// Where one capability has a fault, loading fails.
pub proof fn lemma_capability_fault(
    perms: Seq<PermissionView>,
    sets: Seq<PermissionSetView>,
    capabilities: Seq<Capability>,
    c: int,
)
    requires
        0 <= c < capabilities.len(),
        capability_grants(perms, sets, entries_view(capabilities[c].permissions@)) is Err,
    ensures
        all_grants(perms, sets, capabilities) is Err,
    decreases capabilities.len(),
{
    if c == capabilities.len() - 1 {
    } else {
        assert(capabilities.drop_last()[c] == capabilities[c]);
        lemma_capability_fault(perms, sets, capabilities.drop_last(), c);
    }
}

/// A permission set that can be found stands among the declared sets.
pub proof fn lemma_found_set_has_place(sets: Seq<PermissionSetView>, id: Seq<char>) -> (j: int)
    requires
        find_set(sets, id) is Some,
    ensures
        0 <= j < sets.len(),
        sets[j].identifier == id,
    decreases sets.len(),
{
    if sets.last().identifier == id {
        sets.len() - 1
    } else {
        lemma_found_set_has_place(sets.drop_last(), id)
    }
}

/// Where the declared permission sets hold a ring, loading fails, whatever
/// the capabilities are and whether or not one of them refers to the ring.
pub proof fn lemma_cycle_fails_load(
    perms: Seq<PermissionView>,
    sets: Seq<PermissionSetView>,
    capabilities: Seq<Capability>,
    ring: Seq<Seq<char>>,
)
    requires
        is_cycle(perms, sets, ring),
    ensures
        load_outcome(perms, sets, capabilities) is Err,
{
    let j = lemma_found_set_has_place(sets, ring[0]);
    lemma_cycle_has_fault(perms, sets, ring, 0, sets.len());
    assert(sets_fault(perms, sets, (j + 1) as nat) is Some);
    lemma_sets_fault_stays(perms, sets, (j + 1) as nat, sets.len());
}

/// A capability with an entry that cannot be expanded makes loading fail.
pub proof fn lemma_faulty_entry_fails_load(
    perms: Seq<PermissionView>,
    sets: Seq<PermissionSetView>,
    capabilities: Seq<Capability>,
    c: int,
    e: int,
)
    requires
        0 <= c < capabilities.len(),
        0 <= e < capabilities[c].permissions@.len(),
        entry_grants(perms, sets, capabilities[c].permissions@[e]@) is Err,
    ensures
        load_outcome(perms, sets, capabilities) is Err,
{
    let entries = entries_view(capabilities[c].permissions@);
    assert(entries[e] == capabilities[c].permissions@[e]@);
    lemma_entry_fault(perms, sets, entries, e);
    lemma_capability_fault(perms, sets, capabilities, c);
}

/// A permission set that aggregates permissions stands for exactly those
/// permissions, and so allows a command exactly when one of them does.
pub proof fn lemma_set_grants_union(
    perms: Seq<PermissionView>,
    sets: Seq<PermissionSetView>,
    id: Seq<char>,
    command: Seq<char>,
)
    requires
        find_permission(perms, id) is None,
        find_set(sets, id) is Some,
        forall|i: int|
            0 <= i < find_set(sets, id)->0.permissions.len() ==> find_permission(
                perms,
                #[trigger] find_set(sets, id)->0.permissions[i],
            ) is Some,
    ensures
        expand(perms, sets, id, sets.len()) == Ok::<Seq<PermissionView>, Fault>(
            members_of(perms, find_set(sets, id)->0.permissions),
        ),
        allowed(members_of(perms, find_set(sets, id)->0.permissions), command) <==> exists|i: int|
            0 <= i < find_set(sets, id)->0.permissions.len() && grants(
                find_permission(perms, #[trigger] find_set(sets, id)->0.permissions[i])->0,
                command,
            ),
{
    let members = find_set(sets, id)->0.permissions;
    let granted = members_of(perms, members);
    assert(sets.len() > 0);
    lemma_flat_list_expands_to_members(perms, sets, members, (sets.len() - 1) as nat);
    if allowed(granted, command) {
        let i = choose|i: int| 0 <= i < granted.len() && grants(granted[i], command);
        assert(grants(find_permission(perms, members[i])->0, command));
    }
    if exists|i: int|
        0 <= i < members.len() && grants(find_permission(perms, #[trigger] members[i])->0, command) {
        let i = choose|i: int|
            0 <= i < members.len() && grants(
                find_permission(perms, #[trigger] members[i])->0,
                command,
            );
        assert(grants(granted[i], command));
    }
}

/// An entry that extends the scope of a permission grants a copy of the
/// permission with the overlaid scope, while a bare reference to the same
/// permission, from any capability, still grants it as it was declared.
pub proof fn lemma_extension_leaves_declaration(
    perms: Seq<PermissionView>,
    sets: Seq<PermissionSetView>,
    id: Seq<char>,
    extra: ScopesView,
)
    requires
        find_permission(perms, id) is Some,
    ensures
        entry_grants(
            perms,
            sets,
            PermissionEntryView::ExtendedPermission { identifier: id, scope: extra },
        ) == Ok::<Seq<PermissionView>, crate::expand::Fault>(
            seq![with_scope(find_permission(perms, id)->0, extra)],
        ),
        entry_grants(perms, sets, PermissionEntryView::PermissionRef(id)) == Ok::<
            Seq<PermissionView>,
            crate::expand::Fault,
        >(seq![find_permission(perms, id)->0]),
{
    let p = find_permission(perms, id)->0;
    assert(extend_all(seq![p], extra) =~= seq![with_scope(p, extra)]);
}

/// A window and webview that no capability applies to are denied every
/// command.
pub proof fn lemma_unmatched_window_is_denied(
    capabilities: Seq<Capability>,
    granted: Seq<Seq<PermissionView>>,
    defaults: Seq<PermissionView>,
    window_label: Seq<char>,
    webview_label: Seq<char>,
    platform: Target,
    command: Seq<char>,
)
    requires
        forall|i: int|
            0 <= i < capabilities.len() ==> !applies(
                #[trigger] capabilities[i],
                window_label,
                webview_label,
                platform,
            ),
    ensures
        !allowed(
            effective_permissions(
                granted,
                defaults,
                hits_of(capabilities, window_label, webview_label, platform),
            ),
            command,
        ),
{
    lemma_no_capability_no_access(
        granted,
        defaults,
        hits_of(capabilities, window_label, webview_label, platform),
        command,
    );
}

/// No two permissions of the list share an identifier.
pub open spec fn unique_permissions(perms: Seq<PermissionView>) -> bool {
    forall|i: int, j: int|
        0 <= i < j < perms.len() ==> (#[trigger] perms[i]).identifier != (
        #[trigger] perms[j]).identifier
}

/// No two permission sets of the list share an identifier.
pub open spec fn unique_sets(sets: Seq<PermissionSetView>) -> bool {
    forall|i: int, j: int|
        0 <= i < j < sets.len() ==> (#[trigger] sets[i]).identifier != (
        #[trigger] sets[j]).identifier
}

/// Among permissions with identifiers of their own, each is found under
/// its identifier.
pub proof fn lemma_unique_permission_is_found(perms: Seq<PermissionView>, j: int)
    requires
        unique_permissions(perms),
        0 <= j < perms.len(),
    ensures
        find_permission(perms, perms[j].identifier) == Some(perms[j]),
    decreases perms.len(),
{
    if j < perms.len() - 1 {
        let rest = perms.drop_last();
        assert(perms[j].identifier != perms[perms.len() - 1].identifier);
        assert forall|a: int, b: int| 0 <= a < b < rest.len() implies (
        #[trigger] rest[a]).identifier != (#[trigger] rest[b]).identifier by {
            assert(rest[a] == perms[a] && rest[b] == perms[b]);
        }
        assert(rest[j] == perms[j]);
        lemma_unique_permission_is_found(rest, j);
    }
}

/// Among permission sets with identifiers of their own, each is found
/// under its identifier.
pub proof fn lemma_unique_set_is_found(sets: Seq<PermissionSetView>, j: int)
    requires
        unique_sets(sets),
        0 <= j < sets.len(),
    ensures
        find_set(sets, sets[j].identifier) == Some(sets[j]),
    decreases sets.len(),
{
    if j < sets.len() - 1 {
        let rest = sets.drop_last();
        assert(sets[j].identifier != sets[sets.len() - 1].identifier);
        assert forall|a: int, b: int| 0 <= a < b < rest.len() implies (
        #[trigger] rest[a]).identifier != (#[trigger] rest[b]).identifier by {
            assert(rest[a] == sets[a] && rest[b] == sets[b]);
        }
        assert(rest[j] == sets[j]);
        lemma_unique_set_is_found(rest, j);
    }
}

/// No permission is found under an identifier that none of them has.
pub proof fn lemma_absent_permission(perms: Seq<PermissionView>, id: Seq<char>)
    requires
        forall|j: int| 0 <= j < perms.len() ==> (#[trigger] perms[j]).identifier != id,
    ensures
        find_permission(perms, id) is None,
    decreases perms.len(),
{
    if perms.len() > 0 {
        let rest = perms.drop_last();
        assert(perms[perms.len() - 1].identifier != id);
        assert forall|j: int| 0 <= j < rest.len() implies (#[trigger] rest[j]).identifier
            != id by {
            assert(rest[j] == perms[j]);
        }
        lemma_absent_permission(rest, id);
    }
}

/// Every named permission of a manifest stands, qualified, among the
/// declared permissions.
pub proof fn lemma_named_place(ms: Seq<PluginManifest>, k: int, i: int) -> (j: int)
    requires
        0 <= k < ms.len(),
        0 <= i < ms[k].manifest@.permissions.len(),
    ensures
        0 <= j < declared_permissions(ms).len(),
        declared_permissions(ms)[j] == qualified_permission(
            ms[k].plugin@,
            ms[k].manifest@.permissions[i],
        ),
    decreases ms.len(),
{
    let before = declared_permissions(ms.drop_last());
    let own = default_of(ms.last().plugin@, ms.last().manifest@);
    let named = named_of(ms.last().plugin@, ms.last().manifest@.permissions);
    if k == ms.len() - 1 {
        let j = before.len() + own.len() + i;
        assert((before + own + named)[j] == named[i]);
        j
    } else {
        assert(ms.drop_last()[k] == ms[k]);
        let j = lemma_named_place(ms.drop_last(), k, i);
        assert((before + own + named)[j] == before[j]);
        j
    }
}

/// Every permission set of a manifest stands, qualified, among the
/// declared permission sets.
pub proof fn lemma_set_place(ms: Seq<PluginManifest>, k: int, s: int) -> (j: int)
    requires
        0 <= k < ms.len(),
        0 <= s < ms[k].manifest@.permission_sets.len(),
    ensures
        0 <= j < declared_sets(ms).len(),
        declared_sets(ms)[j] == qualified_set(ms[k].plugin@, ms[k].manifest@.permission_sets[s]),
    decreases ms.len(),
{
    let before = declared_sets(ms.drop_last());
    let own = sets_of(ms.last().plugin@, ms.last().manifest@.permission_sets);
    if k == ms.len() - 1 {
        let j = before.len() + s;
        assert((before + own)[j] == own[s]);
        j
    } else {
        assert(ms.drop_last()[k] == ms[k]);
        let j = lemma_set_place(ms.drop_last(), k, s);
        assert((before + own)[j] == before[j]);
        j
    }
}

/// A permission set of a plugin whose members name permissions of the same
/// plugin stands, once the manifests are read, for exactly those
/// permissions: a capability that refers to it is granted a command if and
/// only if one of the named permissions lists the command. This holds where
/// the declared identifiers are all different.
pub proof fn lemma_declared_set_grants_union(
    ms: Seq<PluginManifest>,
    k: int,
    s: int,
    command: Seq<char>,
)
    requires
        0 <= k < ms.len(),
        0 <= s < ms[k].manifest@.permission_sets.len(),
        unique_permissions(declared_permissions(ms)),
        unique_sets(declared_sets(ms)),
        forall|j: int|
            0 <= j < declared_permissions(ms).len() ==> (#[trigger] declared_permissions(
                ms,
            )[j]).identifier != qualified(
                ms[k].plugin@,
                ms[k].manifest@.permission_sets[s].identifier,
            ),
        forall|m: int|
            0 <= m < ms[k].manifest@.permission_sets[s].permissions.len() ==> exists|i: int|
                0 <= i < ms[k].manifest@.permissions.len() && (
                #[trigger] ms[k].manifest@.permissions[i]).identifier
                    == #[trigger] ms[k].manifest@.permission_sets[s].permissions[m],
    ensures
        expand(
            declared_permissions(ms),
            declared_sets(ms),
            qualified(ms[k].plugin@, ms[k].manifest@.permission_sets[s].identifier),
            declared_sets(ms).len(),
        ) is Ok,
        allowed(
            expand(
                declared_permissions(ms),
                declared_sets(ms),
                qualified(ms[k].plugin@, ms[k].manifest@.permission_sets[s].identifier),
                declared_sets(ms).len(),
            )->Ok_0,
            command,
        ) <==> exists|m: int, i: int|
            0 <= m < ms[k].manifest@.permission_sets[s].permissions.len() && 0 <= i
                < ms[k].manifest@.permissions.len() && (
            #[trigger] ms[k].manifest@.permissions[i]).identifier
                == #[trigger] ms[k].manifest@.permission_sets[s].permissions[m]
                && ms[k].manifest@.permissions[i].commands.contains(command),
{
    let plugin = ms[k].plugin@;
    let own = ms[k].manifest@.permissions;
    let set = ms[k].manifest@.permission_sets[s];
    let perms = declared_permissions(ms);
    let sets = declared_sets(ms);
    let id = qualified(plugin, set.identifier);
    let place = lemma_set_place(ms, k, s);
    lemma_unique_set_is_found(sets, place);
    lemma_absent_permission(perms, id);
    let members = qualified_set(plugin, set).permissions;
    assert(find_set(sets, id) == Some(qualified_set(plugin, set)));
    assert(members.len() == set.permissions.len());
    assert forall|m: int| 0 <= m < members.len() implies find_permission(
        perms,
        #[trigger] members[m],
    ) is Some by {
        let i = choose|i: int|
            0 <= i < own.len() && (#[trigger] own[i]).identifier == set.permissions[m];
        let j = lemma_named_place(ms, k, i);
        lemma_unique_permission_is_found(perms, j);
        assert(members[m] == qualified(plugin, set.permissions[m]));
    }
    lemma_set_grants_union(perms, sets, id, command);
    let granted = expand(perms, sets, id, sets.len())->Ok_0;
    if allowed(granted, command) {
        let m = choose|m: int|
            0 <= m < members.len() && grants(
                find_permission(perms, #[trigger] members[m])->0,
                command,
            );
        let i = choose|i: int|
            0 <= i < own.len() && (#[trigger] own[i]).identifier == set.permissions[m];
        let j = lemma_named_place(ms, k, i);
        lemma_unique_permission_is_found(perms, j);
        assert(members[m] == qualified(plugin, set.permissions[m]));
        assert(own[i].commands.contains(command));
        assert(own[i].identifier == set.permissions[m]);
    }
    if exists|m: int, i: int|
        0 <= m < set.permissions.len() && 0 <= i < own.len() && (#[trigger] own[i]).identifier
            == #[trigger] set.permissions[m] && own[i].commands.contains(command) {
        let (m, i) = choose|m: int, i: int|
            0 <= m < set.permissions.len() && 0 <= i < own.len() && (
            #[trigger] own[i]).identifier == #[trigger] set.permissions[m]
                && own[i].commands.contains(command);
        let j = lemma_named_place(ms, k, i);
        lemma_unique_permission_is_found(perms, j);
        assert(members[m] == qualified(plugin, set.permissions[m]));
        assert(grants(find_permission(perms, members[m])->0, command));
    }
}

} // verus!
