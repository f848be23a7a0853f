//! Permissions, permission sets and the manifests that declare them.

use vstd::prelude::*;
use vstd::string::*;
use crate::scope::{Scopes, ScopesView};
use crate::text::{clone_strings, strs};

verus! {

/// A named allowlist of commands with the scope that goes with them.
#[derive(Debug, PartialEq, Eq)]
pub struct Permission {
    /// Identifier, unique among all permissions and permission sets.
    pub identifier: String,
    /// Version of the permission format, if stated.
    pub version: Option<u64>,
    /// What the permission is for.
    pub description: String,
    /// The commands it allows, each written `plugin:command` or, for a
    /// command of the application itself, `command`.
    pub commands: Vec<String>,
    /// What those commands may touch.
    pub scope: Scopes,
}

/// The mathematical value of a [`Permission`].
pub struct PermissionView {
    pub identifier: Seq<char>,
    pub version: Option<u64>,
    pub description: Seq<char>,
    pub commands: Seq<Seq<char>>,
    pub scope: ScopesView,
}

impl View for Permission {
    type V = PermissionView;

    open spec fn view(&self) -> PermissionView {
        PermissionView {
            identifier: self.identifier@,
            version: self.version,
            description: self.description@,
            commands: strs(self.commands@),
            scope: self.scope@,
        }
    }
}

impl Clone for Permission {
    fn clone(&self) -> (r: Permission)
        ensures
            r@ == self@,
    {
        Permission {
            identifier: self.identifier.clone(),
            version: self.version,
            description: self.description.clone(),
            commands: clone_strings(&self.commands),
            scope: self.scope.clone(),
        }
    }
}

/// A named aggregate of permissions and of other permission sets.
#[derive(Debug, PartialEq, Eq)]
pub struct PermissionSet {
    /// Identifier, unique among all permissions and permission sets.
    pub identifier: String,
    /// What the set is for.
    pub description: String,
    /// Identifiers of its members, in order.
    pub permissions: Vec<String>,
}

/// The mathematical value of a [`PermissionSet`].
pub struct PermissionSetView {
    pub identifier: Seq<char>,
    pub description: Seq<char>,
    pub permissions: Seq<Seq<char>>,
}

impl View for PermissionSet {
    type V = PermissionSetView;

    open spec fn view(&self) -> PermissionSetView {
        PermissionSetView {
            identifier: self.identifier@,
            description: self.description@,
            permissions: strs(self.permissions@),
        }
    }
}

impl Clone for PermissionSet {
    fn clone(&self) -> (r: PermissionSet)
        ensures
            r@ == self@,
    {
        PermissionSet {
            identifier: self.identifier.clone(),
            description: self.description.clone(),
            permissions: clone_strings(&self.permissions),
        }
    }
}

/// What one plugin declares.
#[derive(Debug, PartialEq, Eq)]
pub struct Manifest {
    /// The permission that every window with a capability has.
    pub default_permission: Option<Permission>,
    /// The named permissions.
    pub permissions: Vec<Permission>,
    /// The named permission sets.
    pub permission_sets: Vec<PermissionSet>,
}

/// The mathematical value of a [`Manifest`].
pub struct ManifestView {
    pub default_permission: Option<PermissionView>,
    pub permissions: Seq<PermissionView>,
    pub permission_sets: Seq<PermissionSetView>,
}

impl View for Manifest {
    type V = ManifestView;

    open spec fn view(&self) -> ManifestView {
        ManifestView {
            default_permission: match self.default_permission {
                Some(p) => Some(p@),
                None => None,
            },
            permissions: perms_view(self.permissions@),
            permission_sets: sets_view(self.permission_sets@),
        }
    }
}

/// The manifest of a plugin under the plugin's name. The manifest of the
/// application itself goes under the empty name.
#[derive(Debug, PartialEq, Eq)]
pub struct PluginManifest {
    /// The name of the plugin.
    pub plugin: String,
    /// What the plugin declares.
    pub manifest: Manifest,
}

/// An identifier as capabilities write it: the plugin's name, a colon and
/// the identifier within the plugin; the bare identifier for the
/// application itself.
pub open spec fn qualified(plugin: Seq<char>, id: Seq<char>) -> Seq<char> {
    if plugin.len() == 0 {
        id
    } else {
        plugin + ":"@ + id
    }
}

/// A permission under its qualified identifier.
pub open spec fn qualified_permission(plugin: Seq<char>, p: PermissionView) -> PermissionView {
    PermissionView { identifier: qualified(plugin, p.identifier), ..p }
}

/// A permission set under its qualified identifier, its members qualified
/// likewise: they are of the same plugin.
pub open spec fn qualified_set(plugin: Seq<char>, s: PermissionSetView) -> PermissionSetView {
    PermissionSetView {
        identifier: qualified(plugin, s.identifier),
        permissions: s.permissions.map_values(|m: Seq<char>| qualified(plugin, m)),
        ..s
    }
}

/// Qualifies an identifier with the name of its plugin.
pub fn qualify(plugin: &str, id: &str) -> (r: String)
    ensures
        r@ == qualified(plugin@, id@),
{
    if plugin.is_empty() {
        String::from_str(id)
    } else {
        let mut r = String::from_str(plugin);
        r.append(":");
        r.append(id);
        r
    }
}

/// A copy of the permission under its qualified identifier.
pub fn qualify_permission(plugin: &str, p: &Permission) -> (r: Permission)
    ensures
        r@ == qualified_permission(plugin@, p@),
{
    Permission {
        identifier: qualify(plugin, p.identifier.as_str()),
        version: p.version,
        description: p.description.clone(),
        commands: clone_strings(&p.commands),
        scope: p.scope.clone(),
    }
}

/// A copy of the permission set under its qualified identifier, with its
/// members qualified.
pub fn qualify_set(plugin: &str, s: &PermissionSet) -> (r: PermissionSet)
    ensures
        r@ == qualified_set(plugin@, s@),
{
    let mut members: Vec<String> = Vec::new();
    let mut i: usize = 0;
    while i < s.permissions.len()
        invariant
            i <= s.permissions.len(),
            members@.len() == i,
            forall|j: int|
                0 <= j < i ==> members@[j]@ == qualified(plugin@, #[trigger] s.permissions@[j]@),
        decreases s.permissions.len() - i,
    {
        members.push(qualify(plugin, s.permissions[i].as_str()));
        i += 1;
    }
    let r = PermissionSet {
        identifier: qualify(plugin, s.identifier.as_str()),
        description: s.description.clone(),
        permissions: members,
    };
    assert(r@.permissions =~= qualified_set(plugin@, s@).permissions);
    r
}

/// The values of a list of permissions.
pub open spec fn perms_view(v: Seq<Permission>) -> Seq<PermissionView> {
    v.map_values(|p: Permission| p@)
}

/// The values of a list of permission sets.
pub open spec fn sets_view(v: Seq<PermissionSet>) -> Seq<PermissionSetView> {
    v.map_values(|s: PermissionSet| s@)
}

} // verus!
