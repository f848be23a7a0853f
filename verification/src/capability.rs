//! Capabilities: which windows and webviews get which permissions.

use vstd::prelude::*;
use crate::error::Error;
use crate::scope::{Scopes, ScopesView};
use crate::text::{str_eq, strs};

verus! {

/// A platform that a capability can be limited to.
#[derive(Debug, Clone, Copy, PartialEq, Eq, Structural)]
pub enum Target {
    MacOS,
    Windows,
    Linux,
    Android,
    Ios,
}

/// One permission of a capability: a bare reference to a permission or
/// permission set, or a reference that adds scope data of its own.
#[derive(Debug, Clone, PartialEq, Eq)]
pub enum PermissionEntry {
    /// Reference a permission or permission set by identifier.
    PermissionRef(String),
    /// Reference a permission or permission set by identifier and extend
    /// its scope.
    ExtendedPermission {
        /// Identifier of the permission or permission set.
        identifier: String,
        /// Scope to append to the scope of each referenced permission.
        scope: Scopes,
    },
}

/// The mathematical value of a [`PermissionEntry`].
pub enum PermissionEntryView {
    PermissionRef(Seq<char>),
    ExtendedPermission { identifier: Seq<char>, scope: ScopesView },
}

impl PermissionEntryView {
    /// The identifier that the entry refers to.
    pub open spec fn identifier(self) -> Seq<char> {
        match self {
            PermissionEntryView::PermissionRef(identifier) => identifier,
            PermissionEntryView::ExtendedPermission { identifier, scope } => identifier,
        }
    }
}

impl View for PermissionEntry {
    type V = PermissionEntryView;

    open spec fn view(&self) -> PermissionEntryView {
        match self {
            PermissionEntry::PermissionRef(identifier) => PermissionEntryView::PermissionRef(
                identifier@,
            ),
            PermissionEntry::ExtendedPermission { identifier, scope } => {
                PermissionEntryView::ExtendedPermission { identifier: identifier@, scope: scope@ }
            },
        }
    }
}

impl PermissionEntry {
    /// The identifier of the permission referenced in this entry.
    pub fn identifier(&self) -> (id: &String)
        ensures
            id@ == self@.identifier(),
    {
        match self {
            PermissionEntry::PermissionRef(identifier) => identifier,
            PermissionEntry::ExtendedPermission { identifier, scope: _ } => identifier,
        }
    }
}

/// The values of a list of entries.
pub open spec fn entries_view(v: Seq<PermissionEntry>) -> Seq<PermissionEntryView> {
    v.map_values(|e: PermissionEntry| e@)
}

/// Remote origins that may use a capability.
#[derive(Debug, Default, Clone, PartialEq, Eq, PartialOrd, Ord, Hash)]
pub struct CapabilityRemote {
    /// Patterns of the remote URLs that the capability extends to.
    pub urls: Vec<String>,
}

/// A named bundle that grants windows and webviews a list of permissions.
#[derive(Debug, Clone, PartialEq, Eq)]
pub struct Capability {
    /// Identifier of the capability.
    pub identifier: String,
    /// What the capability is meant to allow.
    pub description: String,
    /// Remote URLs that can use the capability, if any.
    pub remote: Option<CapabilityRemote>,
    /// Whether the capability holds for content served by the application.
    pub local: bool,
    /// Glob patterns of the window labels it applies to.
    pub windows: Vec<String>,
    /// Glob patterns of the webview labels it applies to.
    pub webviews: Vec<String>,
    /// The permissions it grants.
    pub permissions: Vec<PermissionEntry>,
    /// The platforms it is limited to; all of them where `None`.
    pub platforms: Option<Vec<Target>>,
}

/// Whether a capability is enabled for local content unless it says
/// otherwise: it is.
pub fn default_capability_local() -> (b: bool)
    ensures
        b,
{
    true
}

/// Whether the platform restriction admits `platform`.
pub open spec fn platform_ok(platforms: Option<Vec<Target>>, platform: Target) -> bool {
    match platforms {
        None => true,
        Some(list) => list@.contains(platform),
    }
}

impl Capability {
    /// A capability that is local, names no window, no webview and no
    /// platform, and grants nothing.
    pub fn new(identifier: String) -> (c: Capability)
        ensures
            c.identifier == identifier,
            c.description@.len() == 0,
            c.remote is None,
            c.local,
            c.windows@.len() == 0,
            c.webviews@.len() == 0,
            c.permissions@.len() == 0,
            c.platforms is None,
    {
        Capability {
            identifier,
            description: String::new(),
            remote: None,
            local: default_capability_local(),
            windows: Vec::new(),
            webviews: Vec::new(),
            permissions: Vec::new(),
            platforms: None,
        }
    }

    /// Whether the capability holds on `platform`.
    pub fn targets(&self, platform: Target) -> (b: bool)
        ensures
            b == platform_ok(self.platforms, platform),
    {
        match &self.platforms {
            None => true,
            Some(list) => {
                let mut i: usize = 0;
                while i < list.len()
                    invariant
                        i <= list.len(),
                        self.platforms == Some(*list),
                        forall|j: int| 0 <= j < i ==> list@[j] != platform,
                    decreases list.len() - i,
                {
                    if list[i] == platform {
                        assert(list@[i as int] == platform);
                        return true;
                    }
                    i += 1;
                }
                false
            },
        }
    }
}

/// The forms that a capability file can take.
#[derive(Debug, Clone, PartialEq, Eq)]
pub enum CapabilityFile {
    /// A single capability.
    Capability(Capability),
    /// A list of capabilities.
    List(Vec<Capability>),
    /// A list of capabilities under the key `capabilities`.
    NamedList {
        /// The list of capabilities.
        capabilities: Vec<Capability>,
    },
}

/// The capabilities that a file of this form declares, in order.
pub open spec fn file_capabilities(file: CapabilityFile) -> Seq<Capability> {
    match file {
        CapabilityFile::Capability(c) => seq![c],
        CapabilityFile::List(list) => list@,
        CapabilityFile::NamedList { capabilities } => capabilities@,
    }
}

impl CapabilityFile {
    /// The capabilities of the file, in order.
    pub fn into_capabilities(self) -> (list: Vec<Capability>)
        ensures
            list@ == file_capabilities(self),
    {
        match self {
            CapabilityFile::Capability(c) => {
                let mut list: Vec<Capability> = Vec::new();
                list.push(c);
                assert(list@ =~= seq![c]);
                list
            },
            CapabilityFile::List(list) => list,
            CapabilityFile::NamedList { capabilities } => capabilities,
        }
    }
}

/// The syntax of a capability file.
#[derive(Debug, Clone, Copy, PartialEq, Eq, Structural)]
pub enum CapabilityFormat {
    Toml,
    Json,
}

/// The syntax that a file extension stands for: `toml` or `json`, and an
/// error naming the extension for any other.
pub fn capability_format(extension: &str) -> (r: Result<CapabilityFormat, Error>)
    ensures
        extension@ == "toml"@ ==> r == Ok::<CapabilityFormat, Error>(CapabilityFormat::Toml),
        extension@ == "json"@ ==> r == Ok::<CapabilityFormat, Error>(CapabilityFormat::Json),
        extension@ != "toml"@ && extension@ != "json"@ ==> (r matches Err(
            Error::UnknownCapabilityFormat(ext),
        ) && ext@ == extension@),
{
    proof {
        reveal_strlit("toml");
        reveal_strlit("json");
        assert("toml"@[0] == 't' && "json"@[0] == 'j');
    }
    if str_eq(extension, "toml") {
        Ok(CapabilityFormat::Toml)
    } else if str_eq(extension, "json") {
        Ok(CapabilityFormat::Json)
    } else {
        Err(Error::UnknownCapabilityFormat(extension.to_owned()))
    }
}

} // verus!
