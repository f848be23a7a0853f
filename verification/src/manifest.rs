//! Builds the manifests of the plugins from their permission files, and the
//! list of capabilities from the capability files.

use vstd::prelude::*;
use vstd::string::*;
use crate::capability::{file_capabilities, Capability, CapabilityFile};
use crate::expand::extend_permissions;
use crate::permission::{
    perms_view, sets_view, Manifest, ManifestView, Permission, PermissionSet, PermissionSetView,
    PermissionView, PluginManifest,
};
use crate::scope::Scopes;
use crate::text::{clone_strings, str_eq, strs};

verus! {

/// The default permission as a permission file writes it: without a name.
#[derive(Debug, PartialEq, Eq)]
pub struct DefaultPermission {
    pub version: Option<u64>,
    pub description: String,
    pub commands: Vec<String>,
    pub scopes: Scopes,
}

/// What one permission file of a plugin declares.
#[derive(Debug, PartialEq, Eq)]
pub struct PermissionFile {
    /// The default permission.
    pub default: Option<DefaultPermission>,
    /// The named permissions.
    pub permission: Option<Vec<Permission>>,
    /// The named permission sets.
    pub set: Option<Vec<PermissionSet>>,
}

/// The permission files of one plugin.
#[derive(Debug, PartialEq, Eq)]
pub struct PluginPermissions {
    /// The name of the plugin.
    pub plugin: String,
    /// Its permission files, in the order in which they were read.
    pub files: Vec<PermissionFile>,
}

/// The default permission as a permission of its own, named `default`.
pub open spec fn default_view(d: DefaultPermission) -> PermissionView {
    PermissionView {
        identifier: "default"@,
        version: d.version,
        description: d.description@,
        commands: strs(d.commands@),
        scope: d.scopes@,
    }
}

/// The named permissions of a file.
pub open spec fn file_permissions(f: PermissionFile) -> Seq<PermissionView> {
    match f.permission {
        Some(list) => perms_view(list@),
        None => Seq::empty(),
    }
}

/// The named permission sets of a file.
pub open spec fn file_sets(f: PermissionFile) -> Seq<PermissionSetView> {
    match f.set {
        Some(list) => sets_view(list@),
        None => Seq::empty(),
    }
}

/// The manifest that the files of a plugin add up to: the default
/// permission of the last file that has one, and the named permissions and
/// permission sets of all files, in order.
pub open spec fn manifest_of(files: Seq<PermissionFile>) -> ManifestView
    decreases files.len(),
{
    if files.len() == 0 {
        ManifestView {
            default_permission: None,
            permissions: Seq::empty(),
            permission_sets: Seq::empty(),
        }
    } else {
        let before = manifest_of(files.drop_last());
        let f = files.last();
        ManifestView {
            default_permission: match f.default {
                Some(d) => Some(default_view(d)),
                None => before.default_permission,
            },
            permissions: before.permissions + file_permissions(f),
            permission_sets: before.permission_sets + file_sets(f),
        }
    }
}

/// Appends copies of the permission sets of `extra` to `out`.
pub fn extend_sets(out: &mut Vec<PermissionSet>, extra: &Vec<PermissionSet>)
    ensures
        sets_view(final(out)@) == sets_view(old(out)@) + sets_view(extra@),
{
    let mut i: usize = 0;
    assert(sets_view(out@) =~= sets_view(old(out)@) + sets_view(extra@.subrange(0, 0)));
    while i < extra.len()
        invariant
            i <= extra.len(),
            sets_view(out@) == sets_view(old(out)@) + sets_view(extra@.subrange(0, i as int)),
        decreases extra.len() - i,
    {
        let ghost before = sets_view(out@);
        out.push(extra[i].clone());
        i += 1;
        assert(sets_view(out@) =~= before.push(extra@[i - 1]@));
        assert(sets_view(extra@.subrange(0, i as int)) =~= sets_view(
            extra@.subrange(0, i - 1),
        ).push(extra@[i - 1]@));
        assert(sets_view(out@) =~= sets_view(old(out)@) + sets_view(
            extra@.subrange(0, i as int),
        ));
    }
    assert(extra@.subrange(0, i as int) =~= extra@);
}

/// The manifest of one plugin.
pub fn build_manifest(files: &Vec<PermissionFile>) -> (m: Manifest)
    ensures
        m@ == manifest_of(files@),
{
    let mut manifest = Manifest {
        default_permission: None,
        permissions: Vec::new(),
        permission_sets: Vec::new(),
    };
    let mut i: usize = 0;
    assert(files@.subrange(0, 0) =~= Seq::<PermissionFile>::empty());
    assert(manifest@.permissions =~= Seq::empty());
    assert(manifest@.permission_sets =~= Seq::empty());
    while i < files.len()
        invariant
            i <= files.len(),
            manifest@ == manifest_of(files@.subrange(0, i as int)),
        decreases files.len() - i,
    {
        let file = &files[i];
        let ghost next = files@.subrange(0, i + 1);
        assert(next.drop_last() =~= files@.subrange(0, i as int));
        assert(next.last() == files@[i as int]);
        let ghost before = manifest@;
        if let Some(d) = &file.default {
            manifest.default_permission = Some(
                Permission {
                    identifier: String::from_str("default"),
                    version: d.version,
                    description: d.description.clone(),
                    commands: clone_strings(&d.commands),
                    scope: d.scopes.clone(),
                },
            );
        }
        match &file.permission {
            Some(list) => {
                extend_permissions(&mut manifest.permissions, list);
            },
            None => {
                assert(manifest@.permissions =~= before.permissions + file_permissions(*file));
            },
        }
        match &file.set {
            Some(list) => {
                extend_sets(&mut manifest.permission_sets, list);
            },
            None => {
                assert(manifest@.permission_sets =~= before.permission_sets + file_sets(*file));
            },
        }
        i += 1;
    }
    assert(files@.subrange(0, i as int) =~= files@);
    manifest
}

/// Builds the manifest of every plugin from its permission files, one
/// manifest per plugin and in the same order.
pub fn process(permission_map: &Vec<PluginPermissions>) -> (processed: Vec<PluginManifest>)
    ensures
        processed@.len() == permission_map@.len(),
        forall|i: int|
            0 <= i < processed@.len() ==> (#[trigger] processed@[i]).plugin@
                == permission_map@[i].plugin@ && processed@[i].manifest@ == manifest_of(
                permission_map@[i].files@,
            ),
{
    let mut processed: Vec<PluginManifest> = Vec::new();
    let mut i: usize = 0;
    while i < permission_map.len()
        invariant
            i <= permission_map.len(),
            processed@.len() == i,
            forall|j: int|
                0 <= j < i ==> (#[trigger] processed@[j]).plugin@ == permission_map@[j].plugin@
                    && processed@[j].manifest@ == manifest_of(permission_map@[j].files@),
        decreases permission_map.len() - i,
    {
        processed.push(
            PluginManifest {
                plugin: permission_map[i].plugin.clone(),
                manifest: build_manifest(&permission_map[i].files),
            },
        );
        i += 1;
    }
    processed
}

/// The position of the capability with this identifier that comes first.
pub open spec fn capability_index(list: Seq<Capability>, identifier: Seq<char>) -> Option<int>
    decreases list.len(),
{
    if list.len() == 0 {
        None
    } else {
        match capability_index(list.drop_last(), identifier) {
            Some(i) => Some(i),
            None => if list.last().identifier@ == identifier {
                Some(list.len() - 1)
            } else {
                None
            },
        }
    }
}

/// The list with the capability put under its identifier: in the place of
/// the capability that had the identifier, or at the end.
pub open spec fn with_capability(list: Seq<Capability>, capability: Capability) -> Seq<Capability> {
    match capability_index(list, capability.identifier@) {
        Some(i) => list.update(i, capability),
        None => list.push(capability),
    }
}

/// The list with every capability of `more` put under its identifier, in
/// order.
pub open spec fn with_capabilities(list: Seq<Capability>, more: Seq<Capability>) -> Seq<Capability>
    decreases more.len(),
{
    if more.len() == 0 {
        list
    } else {
        with_capability(with_capabilities(list, more.drop_last()), more.last())
    }
}

/// The capabilities of the files, each identifier once: a later capability
/// replaces an earlier one of the same identifier, where that one stood.
pub open spec fn capabilities_of(files: Seq<CapabilityFile>) -> Seq<Capability>
    decreases files.len(),
{
    if files.len() == 0 {
        Seq::empty()
    } else {
        with_capabilities(capabilities_of(files.drop_last()), file_capabilities(files.last()))
    }
}

/// Puts a capability under its identifier.
pub fn insert_capability(list: &mut Vec<Capability>, capability: Capability)
    ensures
        final(list)@ == with_capability(old(list)@, capability),
{
    let mut i: usize = 0;
    assert(list@.subrange(0, 0) =~= Seq::<Capability>::empty());
    while i < list.len()
        invariant
            i <= list.len(),
            *list == *old(list),
            capability_index(list@.subrange(0, i as int), capability.identifier@) is None,
        decreases list.len() - i,
    {
        let ghost next = list@.subrange(0, i + 1);
        assert(next.drop_last() =~= list@.subrange(0, i as int));
        assert(next.last() == list@[i as int]);
        if str_eq(list[i].identifier.as_str(), capability.identifier.as_str()) {
            proof {
                lemma_index_stays(list@, capability.identifier@, i + 1);
            }
            list.set(i, capability);
            return ;
        }
        i += 1;
    }
    assert(list@.subrange(0, i as int) =~= list@);
    list.push(capability);
}

/// A capability found among the first `n` is the one found in the whole
/// list.
pub proof fn lemma_index_stays(list: Seq<Capability>, identifier: Seq<char>, n: int)
    requires
        0 <= n <= list.len(),
        capability_index(list.subrange(0, n), identifier) is Some,
    ensures
        capability_index(list, identifier) == capability_index(list.subrange(0, n), identifier),
    decreases list.len() - n,
{
    if n == list.len() {
        assert(list.subrange(0, n) =~= list);
    } else {
        assert(list.subrange(0, n + 1).drop_last() =~= list.subrange(0, n));
        lemma_index_stays(list, identifier, n + 1);
    }
}

/// The same items in the opposite order.
pub fn reversed<T>(v: Vec<T>) -> (r: Vec<T>)
    ensures
        r@.len() == v@.len(),
        forall|j: int| 0 <= j < r@.len() ==> r@[j] == v@[v@.len() - 1 - j],
{
    let mut v = v;
    let ghost all = v@;
    let mut r: Vec<T> = Vec::new();
    while v.len() > 0
        invariant
            r@.len() + v@.len() == all.len(),
            forall|j: int| 0 <= j < v@.len() ==> v@[j] == all[j],
            forall|j: int| 0 <= j < r@.len() ==> r@[j] == all[all.len() - 1 - j],
        decreases v.len(),
    {
        if let Some(item) = v.pop() {
            r.push(item);
        }
    }
    r
}

/// Puts every capability of `more` under its identifier, in order.
pub fn insert_capabilities(list: &mut Vec<Capability>, more: Vec<Capability>)
    ensures
        final(list)@ == with_capabilities(old(list)@, more@),
{
    let mut rest = reversed(more);
    assert(more@.subrange(0, 0) =~= Seq::<Capability>::empty());
    while rest.len() > 0
        invariant
            rest@.len() <= more@.len(),
            forall|j: int| 0 <= j < rest@.len() ==> rest@[j] == more@[more@.len() - 1 - j],
            list@ == with_capabilities(old(list)@, more@.subrange(0, more@.len() - rest@.len())),
        decreases rest.len(),
    {
        let ghost n = more@.len() - rest@.len();
        let ghost upto = more@.subrange(0, n + 1);
        assert(upto.drop_last() =~= more@.subrange(0, n));
        assert(upto.last() == more@[n]);
        if let Some(c) = rest.pop() {
            insert_capability(list, c);
        }
    }
    assert(more@.subrange(0, more@.len() as int) =~= more@);
}

/// Gathers the capabilities of the capability files, each identifier once.
pub fn parse_capabilities(files: Vec<CapabilityFile>) -> (capabilities: Vec<Capability>)
    ensures
        capabilities@ == capabilities_of(files@),
{
    let mut capabilities: Vec<Capability> = Vec::new();
    let mut rest = reversed(files);
    assert(files@.subrange(0, 0) =~= Seq::<CapabilityFile>::empty());
    while rest.len() > 0
        invariant
            rest@.len() <= files@.len(),
            forall|j: int| 0 <= j < rest@.len() ==> rest@[j] == files@[files@.len() - 1 - j],
            capabilities@ == capabilities_of(files@.subrange(0, files@.len() - rest@.len())),
        decreases rest.len(),
    {
        let ghost k = files@.len() - rest@.len();
        let ghost next = files@.subrange(0, k + 1);
        assert(next.drop_last() =~= files@.subrange(0, k));
        assert(next.last() == files@[k]);
        if let Some(file) = rest.pop() {
            insert_capabilities(&mut capabilities, file.into_capabilities());
        }
    }
    assert(files@.subrange(0, files@.len() as int) =~= files@);
    capabilities
}

/// No two capabilities of the list share an identifier.
pub open spec fn distinct(list: Seq<Capability>) -> bool {
    forall|i: int, j: int|
        0 <= i < j < list.len() ==> (#[trigger] list[i]).identifier@ != (
        #[trigger] list[j]).identifier@
}

/// The capability that the list holds under an identifier.
pub open spec fn held(list: Seq<Capability>, identifier: Seq<char>) -> Option<Capability> {
    match capability_index(list, identifier) {
        Some(i) => Some(list[i]),
        None => None,
    }
}

/// The capability with this identifier that was read last.
pub open spec fn last_read(read: Seq<Capability>, identifier: Seq<char>) -> Option<Capability>
    decreases read.len(),
{
    if read.len() == 0 {
        None
    } else if read.last().identifier@ == identifier {
        Some(read.last())
    } else {
        last_read(read.drop_last(), identifier)
    }
}

/// The capability with this identifier that was read last from the files.
pub open spec fn last_in_files(files: Seq<CapabilityFile>, identifier: Seq<char>) -> Option<
    Capability,
>
    decreases files.len(),
{
    if files.len() == 0 {
        None
    } else {
        match last_read(file_capabilities(files.last()), identifier) {
            Some(c) => Some(c),
            None => last_in_files(files.drop_last(), identifier),
        }
    }
}

/// The position found for an identifier is the first that holds it, and
/// none is found only where none holds it.
pub proof fn lemma_index_is_first(list: Seq<Capability>, identifier: Seq<char>)
    ensures
        match capability_index(list, identifier) {
            Some(i) => 0 <= i < list.len() && list[i].identifier@ == identifier && forall|j: int|
                0 <= j < i ==> (#[trigger] list[j]).identifier@ != identifier,
            None => forall|j: int|
                0 <= j < list.len() ==> (#[trigger] list[j]).identifier@ != identifier,
        },
    decreases list.len(),
{
    if list.len() > 0 {
        let rest = list.drop_last();
        lemma_index_is_first(rest, identifier);
        assert forall|j: int| 0 <= j < rest.len() implies rest[j] == list[j] by {}
        match capability_index(rest, identifier) {
            Some(i) => {
                assert(list[i] == rest[i]);
                assert forall|j: int| 0 <= j < i implies (#[trigger] list[j]).identifier@
                    != identifier by {
                    assert(rest[j] == list[j]);
                }
            },
            None => {
                assert forall|j: int| 0 <= j < rest.len() implies (#[trigger] list[j]).identifier@
                    != identifier by {
                    assert(rest[j] == list[j]);
                }
            },
        }
    }
}

/// The first position that holds an identifier is the one found for it.
pub proof fn lemma_first_is_index(list: Seq<Capability>, identifier: Seq<char>, i: int)
    requires
        0 <= i < list.len(),
        list[i].identifier@ == identifier,
        forall|j: int| 0 <= j < i ==> (#[trigger] list[j]).identifier@ != identifier,
    ensures
        capability_index(list, identifier) == Some(i),
{
    lemma_index_is_first(list, identifier);
}

/// Putting a capability under its identifier keeps every identifier once,
/// makes the list hold that capability under its identifier, and leaves
/// what it holds under every other identifier.
pub proof fn lemma_with_capability(list: Seq<Capability>, c: Capability, identifier: Seq<char>)
    requires
        distinct(list),
    ensures
        distinct(with_capability(list, c)),
        held(with_capability(list, c), identifier) == (if identifier == c.identifier@ {
            Some(c)
        } else {
            held(list, identifier)
        }),
{
    let after = with_capability(list, c);
    lemma_index_is_first(list, c.identifier@);
    lemma_index_is_first(list, identifier);
    lemma_index_is_first(after, identifier);
    match capability_index(list, c.identifier@) {
        Some(i) => {
            assert(after =~= list.update(i, c));
            assert forall|j: int| 0 <= j < after.len() implies (#[trigger] after[j]).identifier@
                == list[j].identifier@ by {}
            assert(distinct(after)) by {
                assert forall|a: int, b: int| 0 <= a < b < after.len() implies (
                #[trigger] after[a]).identifier@ != (#[trigger] after[b]).identifier@ by {
                    assert(after[a].identifier@ == list[a].identifier@);
                    assert(after[b].identifier@ == list[b].identifier@);
                }
            }
            if identifier == c.identifier@ {
                assert(after[i] == c);
                assert forall|j: int| 0 <= j < i implies (#[trigger] after[j]).identifier@
                    != identifier by {
                    assert(after[j].identifier@ == list[j].identifier@);
                }
                lemma_first_is_index(after, identifier, i);
            } else {
                match capability_index(list, identifier) {
                    Some(k) => {
                        assert(k != i);
                        assert(after[k] == list[k]);
                        assert forall|j: int| 0 <= j < k implies (#[trigger] after[j]).identifier@
                            != identifier by {
                            assert(after[j].identifier@ == list[j].identifier@);
                        }
                        lemma_first_is_index(after, identifier, k);
                    },
                    None => {
                        if capability_index(after, identifier) is Some {
                            let k = capability_index(after, identifier)->0;
                            assert(after[k].identifier@ == list[k].identifier@);
                        }
                    },
                }
            }
        },
        None => {
            assert(after =~= list.push(c));
            assert(distinct(after)) by {
                assert forall|a: int, b: int| 0 <= a < b < after.len() implies (
                #[trigger] after[a]).identifier@ != (#[trigger] after[b]).identifier@ by {
                    assert(after[a] == list[a]);
                    if b < list.len() {
                        assert(after[b] == list[b]);
                    }
                }
            }
            if identifier == c.identifier@ {
                assert forall|j: int| 0 <= j < list.len() implies (#[trigger] after[j]).identifier@
                    != identifier by {
                    assert(after[j] == list[j]);
                }
                lemma_first_is_index(after, identifier, list.len() as int);
            } else {
                match capability_index(list, identifier) {
                    Some(k) => {
                        assert(after[k] == list[k]);
                        assert forall|j: int| 0 <= j < k implies (#[trigger] after[j]).identifier@
                            != identifier by {
                            assert(after[j] == list[j]);
                        }
                        lemma_first_is_index(after, identifier, k);
                    },
                    None => {
                        if capability_index(after, identifier) is Some {
                            let k = capability_index(after, identifier)->0;
                            if k < list.len() {
                                assert(after[k] == list[k]);
                            }
                        }
                    },
                }
            }
        },
    }
}

/// Putting a run of capabilities under their identifiers keeps every
/// identifier once; under each identifier of the run stands the capability
/// of the run that came last, and under every other what stood before.
pub proof fn lemma_with_capabilities(
    list: Seq<Capability>,
    more: Seq<Capability>,
    identifier: Seq<char>,
)
    requires
        distinct(list),
    ensures
        distinct(with_capabilities(list, more)),
        held(with_capabilities(list, more), identifier) == (match last_read(more, identifier) {
            Some(c) => Some(c),
            None => held(list, identifier),
        }),
    decreases more.len(),
{
    if more.len() > 0 {
        lemma_with_capabilities(list, more.drop_last(), identifier);
        lemma_with_capability(with_capabilities(list, more.drop_last()), more.last(), identifier);
    }
}

/// The capabilities gathered from the files hold every identifier once,
/// and under each identifier stands the capability that was read last.
pub proof fn lemma_capabilities_once(files: Seq<CapabilityFile>, identifier: Seq<char>)
    ensures
        distinct(capabilities_of(files)),
        held(capabilities_of(files), identifier) == last_in_files(files, identifier),
    decreases files.len(),
{
    if files.len() == 0 {
        assert(capability_index(Seq::<Capability>::empty(), identifier) is None);
    } else {
        lemma_capabilities_once(files.drop_last(), identifier);
        lemma_with_capabilities(
            capabilities_of(files.drop_last()),
            file_capabilities(files.last()),
            identifier,
        );
    }
}

} // verus!
