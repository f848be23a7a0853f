//! Settings that a build of the application can be given.

use vstd::prelude::*;
use vstd::string::*;

verus! {

/// Attributes used on Windows.
#[derive(Debug, Clone, PartialEq, Eq)]
pub struct WindowsAttributes {
    /// Path of the icon of the window, in `ico` format.
    pub window_icon_path: String,
    /// Path of the SDK, where the default is not wanted.
    pub sdk_dir: Option<String>,
}

impl WindowsAttributes {
    /// The default attribute set: the icon at `icons/icon.ico`, no SDK path.
    pub fn new() -> (r: WindowsAttributes)
        ensures
            r.window_icon_path@ == "icons/icon.ico"@,
            r.sdk_dir is None,
    {
        WindowsAttributes { window_icon_path: String::from_str("icons/icon.ico"), sdk_dir: None }
    }

    /// Sets the icon to use on the window.
    pub fn window_icon_path(self, window_icon_path: &str) -> (r: WindowsAttributes)
        ensures
            r.window_icon_path@ == window_icon_path@,
            r.sdk_dir == self.sdk_dir,
    {
        WindowsAttributes {
            window_icon_path: String::from_str(window_icon_path),
            sdk_dir: self.sdk_dir,
        }
    }

    /// Sets the SDK path.
    pub fn sdk_dir(self, sdk_dir: &str) -> (r: WindowsAttributes)
        ensures
            r.window_icon_path == self.window_icon_path,
            r.sdk_dir is Some,
            r.sdk_dir->0@ == sdk_dir@,
    {
        WindowsAttributes {
            window_icon_path: self.window_icon_path,
            sdk_dir: Some(String::from_str(sdk_dir)),
        }
    }
}

/// The attributes used on the build.
#[derive(Debug, Clone, PartialEq, Eq)]
pub struct Attributes {
    /// The attributes used on Windows.
    pub windows_attributes: WindowsAttributes,
}

impl Attributes {
    /// The default attribute set.
    pub fn new() -> (r: Attributes)
        ensures
            r.windows_attributes.window_icon_path@ == "icons/icon.ico"@,
            r.windows_attributes.sdk_dir is None,
    {
        Attributes { windows_attributes: WindowsAttributes::new() }
    }

    /// Sets the attributes used on Windows.
    pub fn windows_attributes(self, windows_attributes: WindowsAttributes) -> (r: Attributes)
        ensures
            r.windows_attributes == windows_attributes,
    {
        Attributes { windows_attributes }
    }
}

/// Where the mobile projects of a plugin are.
#[derive(Debug, Clone, PartialEq, Eq)]
pub struct PluginBuilder {
    /// Path of the Android project.
    pub android_path: Option<String>,
    /// Path of the iOS project.
    pub ios_path: Option<String>,
}

impl PluginBuilder {
    /// A builder without any path.
    pub fn new() -> (r: PluginBuilder)
        ensures
            r.android_path is None,
            r.ios_path is None,
    {
        PluginBuilder { android_path: None, ios_path: None }
    }

    /// Sets the Android project path.
    pub fn android_path(self, android_path: &str) -> (r: PluginBuilder)
        ensures
            r.android_path is Some,
            r.android_path->0@ == android_path@,
            r.ios_path == self.ios_path,
    {
        PluginBuilder {
            android_path: Some(String::from_str(android_path)),
            ios_path: self.ios_path,
        }
    }

    /// Sets the iOS project path.
    pub fn ios_path(self, ios_path: &str) -> (r: PluginBuilder)
        ensures
            r.ios_path is Some,
            r.ios_path->0@ == ios_path@,
            r.android_path == self.android_path,
    {
        PluginBuilder { android_path: self.android_path, ios_path: Some(String::from_str(ios_path)) }
    }
}

} // verus!
