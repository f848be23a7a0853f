//! Looks identifiers up among the declared permissions and permission sets,
//! and expands a permission set into the permissions it stands for.

use vstd::prelude::*;
use crate::error::Error;
use crate::permission::{
    perms_view, sets_view, Permission, PermissionSet, PermissionSetView, PermissionView,
};
use crate::text::str_eq;

verus! {

/// Why an identifier cannot be expanded.
pub enum Fault {
    /// The identifier names neither a permission nor a permission set.
    Unknown(Seq<char>),
    /// The permission set with this identifier lies deeper below itself than
    /// there are permission sets, so some set reaches itself.
    Cyclic(Seq<char>),
}

/// Whether the error reports the fault.
pub open spec fn error_is(e: Error, f: Fault) -> bool {
    match f {
        Fault::Unknown(id) => e matches Error::UnknownPermission(s) && s@ == id,
        Fault::Cyclic(id) => e matches Error::CyclicPermissionSet(s) && s@ == id,
    }
}

/// Whether what a function returned is what the model asks for.
pub open spec fn expansion_is(
    r: Result<Vec<Permission>, Error>,
    s: Result<Seq<PermissionView>, Fault>,
) -> bool {
    match s {
        Ok(expected) => r is Ok && perms_view(r->Ok_0@) == expected,
        Err(f) => r is Err && error_is(r->Err_0, f),
    }
}

/// The permission declared under `id`. Where several share the identifier
/// the last declaration stands.
pub open spec fn find_permission(perms: Seq<PermissionView>, id: Seq<char>) -> Option<
    PermissionView,
>
    decreases perms.len(),
{
    if perms.len() == 0 {
        None
    } else if perms.last().identifier == id {
        Some(perms.last())
    } else {
        find_permission(perms.drop_last(), id)
    }
}

/// The permission set declared under `id`. Where several share the
/// identifier the last declaration stands.
pub open spec fn find_set(sets: Seq<PermissionSetView>, id: Seq<char>) -> Option<
    PermissionSetView,
>
    decreases sets.len(),
{
    if sets.len() == 0 {
        None
    } else if sets.last().identifier == id {
        Some(sets.last())
    } else {
        find_set(sets.drop_last(), id)
    }
}

/// The permissions that `id` stands for: the permission of that name, or,
/// for a permission set, the permissions of its members in order, nested
/// sets expanded in place. `fuel` bounds how deep sets may nest; with as much
/// fuel as there are sets it runs out only below a set that reaches itself.
pub open spec fn expand(
    perms: Seq<PermissionView>,
    sets: Seq<PermissionSetView>,
    id: Seq<char>,
    fuel: nat,
) -> Result<Seq<PermissionView>, Fault>
    decreases fuel, 0nat,
{
    match find_permission(perms, id) {
        Some(p) => Ok(seq![p]),
        None => match find_set(sets, id) {
            None => Err(Fault::Unknown(id)),
            Some(s) => if fuel == 0 {
                Err(Fault::Cyclic(id))
            } else {
                expand_all(perms, sets, s.permissions, (fuel - 1) as nat)
            },
        },
    }
}

/// The expansions of `ids`, one after the other, or the fault of the first
/// identifier that has one.
pub open spec fn expand_all(
    perms: Seq<PermissionView>,
    sets: Seq<PermissionSetView>,
    ids: Seq<Seq<char>>,
    fuel: nat,
) -> Result<Seq<PermissionView>, Fault>
    decreases fuel, ids.len() + 1,
{
    if ids.len() == 0 {
        Ok(Seq::empty())
    } else {
        match expand_all(perms, sets, ids.drop_last(), fuel) {
            Err(f) => Err(f),
            Ok(head) => match expand(perms, sets, ids.last(), fuel) {
                Err(f) => Err(f),
                Ok(tail) => Ok(head + tail),
            },
        }
    }
}

/// The position of the permission declared under `id`.
pub fn lookup_permission(perms: &Vec<Permission>, id: &str) -> (r: Option<usize>)
    ensures
        match r {
            Some(i) => i < perms@.len() && find_permission(perms_view(perms@), id@) == Some(
                perms@[i as int]@,
            ),
            None => find_permission(perms_view(perms@), id@) is None,
        },
{
    let mut i: usize = perms.len();
    assert(perms_view(perms@).subrange(0, i as int) =~= perms_view(perms@));
    while i > 0
        invariant
            i <= perms@.len(),
            find_permission(perms_view(perms@), id@) == find_permission(
                perms_view(perms@).subrange(0, i as int),
                id@,
            ),
        decreases i,
    {
        let ghost prefix = perms_view(perms@).subrange(0, i as int);
        assert(prefix.last() == perms@[i - 1]@);
        assert(prefix.drop_last() =~= perms_view(perms@).subrange(0, i - 1));
        i -= 1;
        if str_eq(perms[i].identifier.as_str(), id) {
            return Some(i);
        }
    }
    None
}

/// The position of the permission set declared under `id`.
pub fn lookup_set(sets: &Vec<PermissionSet>, id: &str) -> (r: Option<usize>)
    ensures
        match r {
            Some(i) => i < sets@.len() && find_set(sets_view(sets@), id@) == Some(
                sets@[i as int]@,
            ),
            None => find_set(sets_view(sets@), id@) is None,
        },
{
    let mut i: usize = sets.len();
    assert(sets_view(sets@).subrange(0, i as int) =~= sets_view(sets@));
    while i > 0
        invariant
            i <= sets@.len(),
            find_set(sets_view(sets@), id@) == find_set(
                sets_view(sets@).subrange(0, i as int),
                id@,
            ),
        decreases i,
    {
        let ghost prefix = sets_view(sets@).subrange(0, i as int);
        assert(prefix.last() == sets@[i - 1]@);
        assert(prefix.drop_last() =~= sets_view(sets@).subrange(0, i - 1));
        i -= 1;
        if str_eq(sets[i].identifier.as_str(), id) {
            return Some(i);
        }
    }
    None
}

/// Appends copies of the permissions of `extra` to `out`.
pub fn extend_permissions(out: &mut Vec<Permission>, extra: &Vec<Permission>)
    ensures
        perms_view(final(out)@) == perms_view(old(out)@) + perms_view(extra@),
{
    let mut i: usize = 0;
    assert(perms_view(out@) =~= perms_view(old(out)@) + perms_view(extra@.subrange(0, 0)));
    while i < extra.len()
        invariant
            i <= extra.len(),
            perms_view(out@) == perms_view(old(out)@) + perms_view(extra@.subrange(0, i as int)),
        decreases extra.len() - i,
    {
        let ghost before = perms_view(out@);
        out.push(extra[i].clone());
        i += 1;
        assert(perms_view(out@) =~= before.push(extra@[i - 1]@));
        assert(perms_view(extra@.subrange(0, i as int)) =~= perms_view(
            extra@.subrange(0, i - 1),
        ).push(extra@[i - 1]@));
        assert(perms_view(out@) =~= perms_view(old(out)@) + perms_view(
            extra@.subrange(0, i as int),
        ));
    }
    assert(extra@.subrange(0, i as int) =~= extra@);
}

/// Expands one identifier, with `fuel` levels of nesting allowed.
pub fn expand_permission(
    perms: &Vec<Permission>,
    sets: &Vec<PermissionSet>,
    id: &str,
    fuel: usize,
) -> (r: Result<Vec<Permission>, Error>)
    ensures
        expansion_is(r, expand(perms_view(perms@), sets_view(sets@), id@, fuel as nat)),
    decreases fuel, 0nat,
{
    match lookup_permission(perms, id) {
        Some(i) => {
            let mut out: Vec<Permission> = Vec::new();
            out.push(perms[i].clone());
            assert(perms_view(out@) =~= seq![perms@[i as int]@]);
            Ok(out)
        },
        None => match lookup_set(sets, id) {
            None => Err(Error::UnknownPermission(id.to_owned())),
            Some(j) => {
                if fuel == 0 {
                    Err(Error::CyclicPermissionSet(id.to_owned()))
                } else {
                    expand_permissions(perms, sets, &sets[j].permissions, fuel - 1)
                }
            },
        },
    }
}

/// Expands a list of identifiers in order and stops at the first fault.
pub fn expand_permissions(
    perms: &Vec<Permission>,
    sets: &Vec<PermissionSet>,
    ids: &Vec<String>,
    fuel: usize,
) -> (r: Result<Vec<Permission>, Error>)
    ensures
        expansion_is(
            r,
            expand_all(perms_view(perms@), sets_view(sets@), crate::text::strs(ids@), fuel as nat),
        ),
    decreases fuel, ids@.len() + 1,
{
    let ghost all = crate::text::strs(ids@);
    let mut out: Vec<Permission> = Vec::new();
    let mut i: usize = 0;
    assert(perms_view(out@) =~= Seq::empty());
    while i < ids.len()
        invariant
            i <= ids.len(),
            all == crate::text::strs(ids@),
            expand_all(
                perms_view(perms@),
                sets_view(sets@),
                all.subrange(0, i as int),
                fuel as nat,
            ) == Ok::<Seq<PermissionView>, Fault>(perms_view(out@)),
        decreases ids.len() - i,
    {
        let ghost next = all.subrange(0, i + 1);
        assert(next.drop_last() =~= all.subrange(0, i as int));
        assert(next.last() == ids@[i as int]@);
        match expand_permission(perms, sets, ids[i].as_str(), fuel) {
            Err(e) => {
                proof {
                    lemma_fault_stays(
                        perms_view(perms@),
                        sets_view(sets@),
                        all,
                        fuel as nat,
                        i + 1,
                    );
                }
                return Err(e);
            },
            Ok(more) => {
                extend_permissions(&mut out, &more);
            },
        }
        i += 1;
    }
    assert(all.subrange(0, i as int) =~= all);
    Ok(out)
}

/// A fault met among the first `n` identifiers is the fault of the whole
/// list.
pub proof fn lemma_fault_stays(
    perms: Seq<PermissionView>,
    sets: Seq<PermissionSetView>,
    ids: Seq<Seq<char>>,
    fuel: nat,
    n: int,
)
    requires
        0 <= n <= ids.len(),
        expand_all(perms, sets, ids.subrange(0, n), fuel) is Err,
    ensures
        expand_all(perms, sets, ids, fuel) == expand_all(perms, sets, ids.subrange(0, n), fuel),
    decreases ids.len() - n,
{
    if n == ids.len() {
        assert(ids.subrange(0, n) =~= ids);
    } else {
        assert(ids.subrange(0, n + 1).drop_last() =~= ids.subrange(0, n));
        lemma_fault_stays(perms, sets, ids, fuel, n + 1);
    }
}

} // verus!
