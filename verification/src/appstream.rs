//! AppStream metadata records: the component description an AppImage
//! carries beside its desktop entry. Composing and writing the XML document
//! is the caller's work; these records hold its fields.

use vstd::prelude::*;
use vstd::string::StringExecFns;

use crate::licensing::License;

verus! {

/// A whole AppStream document: its single component.
pub struct AppStream {
    pub component: AppStreamComponent,
}

/// One AppStream component: the identity, licensing, description and
/// launching information of the packaged application.
pub struct AppStreamComponent {
    pub ctype: ComponentType,
    pub id: String,
    pub metadata_license: License,
    pub project_license: License,
    pub name: String,
    pub summary: String,
    pub description: Description,
    pub launchable: Launchable,
    pub content_rating: ContentRating,
    pub url: Option<Url>,
    pub screenshots: Screenshots,
    pub provides: Provides,
}

/// The screenshot list of a component.
pub struct Screenshots {
    pub screenshot: Vec<Screenshot>,
}

impl Screenshots {
    /// Whether the component has no screenshots, in which case the list is
    /// left out of the document.
    pub fn is_empty(&self) -> (r: bool)
        ensures
            r == (self.screenshot@.len() == 0),
    {
        self.screenshot.is_empty()
    }
}

/// The free-text description of a component, one paragraph.
pub struct Description {
    pub p: String,
}

/// What kind of application the component describes.
#[derive(Debug, PartialEq, Eq)]
pub enum ComponentType {
    DesktopApplication,
    ConsoleApplication,
}

/// How the packaged application is launched.
pub struct Launchable {
    pub ctype: LaunchableType,
    pub name: String,
}

/// The kinds of launcher a component can name.
#[derive(Debug, PartialEq, Eq)]
pub enum LaunchableType {
    DesktopId,
}

/// One link the component publishes.
pub struct Url {
    pub ctype: UrlType,
    pub data: String,
}

/// The kinds of link a component can publish.
#[derive(Debug, PartialEq, Eq)]
pub enum UrlType {
    Homepage,
}

/// One screenshot of the packaged application.
pub struct Screenshot {
    pub ctype: ScreenshotType,
    pub image: String,
}

/// The kinds of screenshot a component can carry.
#[derive(Debug, PartialEq, Eq)]
pub enum ScreenshotType {
    Default,
}

/// What the component provides, by identifier.
pub struct Provides {
    pub id: String,
}

/// The content rating of the packaged application.
pub struct ContentRating {
    pub t: String,
}

/// The metadata file's name for a component identifier.
pub fn appdata_file_name(id: &str) -> (r: String)
    ensures
        r@ == id@ + ".appdata.xml"@,
{
    let mut s = id.to_owned();
    s.append(".appdata.xml");
    s
}

} // verus!
