//! The records the packaging front end builds and the decisions it takes on
//! its target: the desktop-entry record and its structured value, the tool
//! configuration, the pkg2appimage build descriptor, and the classification
//! of a target by its extension.

use vstd::prelude::*;
use vstd::string::StrSliceExecFns;
use vstd::string::StringExecFns;

use crate::textutil::dash_for_space;
use crate::textutil::lower_char;
use crate::textutil::ascii_lowercase;
use crate::textutil::replace_spaces;
use crate::textutil::starts_with;
use crate::textutil::str_eq;
use crate::value::Value;

verus! {

/// One desktop-entry document: a single group, `Desktop Entry`, holding the
/// launcher's fields.
pub struct DesktopFile {
    pub file: DesktopEntry,
}

/// The launcher fields of the `Desktop Entry` group.
pub struct DesktopEntry {
    pub name: String,
    pub exec_cmd: String,
    pub icon: Option<String>,
    pub d_type: String,
    pub categories: Vec<String>,
    pub terminal: bool,
}

/// The skip rule the desktop record applies to its `Terminal` field: the
/// field is left out of the document exactly when this holds of its value.
pub fn is_false(val: &bool) -> (r: bool)
    ensures
        r == *val,
{
    *val
}

/// Whether a category list rendered as a structured value carries exactly
/// the given category names, in order, each as a plain string.
pub open spec fn categories_wf(cats: Seq<String>, items: Seq<Value>) -> bool {
    &&& items.len() == cats.len()
    &&& forall|j: int|
        0 <= j < cats.len() ==> (#[trigger] items[j]) is Str && items[j]->Str_0@ == cats[j]@
}

/// Whether a structured value presents the launcher fields of a desktop
/// record: name, executable, the icon when one is set, type, categories, and
/// the terminal flag unless [`is_false`] holds of it — all in that order.
pub open spec fn entry_value_wf(e: DesktopEntry, v: Value) -> bool {
    let fs = v->Struct_1@;
    let k: int = if e.icon is Some {
        1
    } else {
        0
    };
    &&& v is Struct
    &&& fs.len() == 4 + k + (if e.terminal {
        0int
    } else {
        1int
    })
    &&& fs[0].0@ == "Name"@ && fs[0].1 is Str && fs[0].1->Str_0@ == e.name@
    &&& fs[1].0@ == "Exec"@ && fs[1].1 is Str && fs[1].1->Str_0@ == e.exec_cmd@
    &&& e.icon is Some ==> fs[2].0@ == "Icon"@ && fs[2].1 is Str && fs[2].1->Str_0@ == e.icon->0@
    &&& fs[2 + k].0@ == "Type"@ && fs[2 + k].1 is Str && fs[2 + k].1->Str_0@ == e.d_type@
    &&& fs[3 + k].0@ == "Categories"@ && fs[3 + k].1 is Sequence && categories_wf(
        e.categories@,
        fs[3 + k].1->Sequence_0@,
    )
    &&& !e.terminal ==> fs[4 + k].0@ == "Terminal"@ && fs[4 + k].1 is Bool && fs[4 + k].1->Bool_0
        == e.terminal
}

/// Whether a structured value presents a whole desktop record: one root
/// field, `Desktop Entry`, holding the launcher fields.
pub open spec fn desktop_value_wf(d: DesktopFile, v: Value) -> bool {
    &&& v is Struct
    &&& v->Struct_1@.len() == 1
    &&& v->Struct_1@[0].0@ == "Desktop Entry"@
    &&& entry_value_wf(d.file, v->Struct_1@[0].1)
}

impl DesktopFile {
    /// A launcher record: the executable is always `./AppRun` and the type
    /// always `Application`; the rest is the caller's.
    pub fn new(name: String, icon: Option<String>, categories: Vec<String>, terminal: bool) -> (d:
        Self)
        ensures
            d.file.name == name,
            d.file.exec_cmd@ == "./AppRun"@,
            d.file.icon == icon,
            d.file.d_type@ == "Application"@,
            d.file.categories == categories,
            d.file.terminal == terminal,
    {
        Self {
            file: DesktopEntry {
                name,
                exec_cmd: "./AppRun".to_owned(),
                d_type: "Application".to_owned(),
                icon,
                categories,
                terminal,
            },
        }
    }

    /// The record as a structured value, ready for the encoder: the shape
    /// [`desktop_value_wf`] states, with the skip rules applied.
    pub fn to_value(&self) -> (v: Value)
        ensures
            desktop_value_wf(*self, v),
    {
        let mut fields: Vec<(String, Value)> = Vec::new();
        fields.push(("Name".to_owned(), Value::Str(self.file.name.clone())));
        fields.push(("Exec".to_owned(), Value::Str(self.file.exec_cmd.clone())));
        match &self.file.icon {
            Some(icon) => {
                fields.push(("Icon".to_owned(), Value::Str(icon.clone())));
            },
            None => {},
        }
        fields.push(("Type".to_owned(), Value::Str(self.file.d_type.clone())));
        let mut items: Vec<Value> = Vec::new();
        let mut i: usize = 0;
        while i < self.file.categories.len()
            invariant
                0 <= i <= self.file.categories@.len(),
                items@.len() == i,
                forall|j: int|
                    0 <= j < i ==> (#[trigger] items@[j]) is Str && items@[j]->Str_0@
                        == self.file.categories@[j]@,
            decreases self.file.categories@.len() - i,
        {
            items.push(Value::Str(self.file.categories[i].clone()));
            i += 1;
        }
        fields.push(("Categories".to_owned(), Value::Sequence(items)));
        if !is_false(&self.file.terminal) {
            fields.push(("Terminal".to_owned(), Value::Bool(self.file.terminal)));
        }
        let mut root: Vec<(String, Value)> = Vec::new();
        root.push(("Desktop Entry".to_owned(), Value::Struct("DesktopEntry".to_owned(), fields)));
        Value::Struct("DesktopFile".to_owned(), root)
    }
}

/// How external packaging tools are run: directly on the host, or inside a
/// toolbox container.
#[derive(Debug, Clone, Copy, PartialEq, Eq)]
pub enum CliKind {
    Native,
    Toolbox,
}

/// The tool's configuration: how commands run, and which container serves
/// them when they run in one.
pub struct CliConf {
    pub kind: CliKind,
    pub container_name: String,
}

/// The container used when the configuration names none.
pub fn default_container_name() -> (s: String)
    ensures
        s@ == "ubuntu-toolbox-22.04"@,
{
    "ubuntu-toolbox-22.04".to_owned()
}

impl Default for CliConf {
    /// The configuration used when none is read: toolbox runs, in the
    /// default container.
    fn default() -> (c: CliConf)
        ensures
            c.kind == CliKind::Toolbox,
            c.container_name@ == "ubuntu-toolbox-22.04"@,
    {
        CliConf { kind: CliKind::Toolbox, container_name: default_container_name() }
    }
}

/// The build descriptor handed to the pkg2appimage tool.
pub struct Pkg2AppimageDescriptor {
    pub app: String,
    pub ingredients: Pkg2AppimageDescriptorIngredients,
    pub script: Vec<String>,
}

/// The ingredient lists of a pkg2appimage build.
pub struct Pkg2AppimageDescriptorIngredients {
    pub dist: Option<String>,
    pub sources: Vec<String>,
    pub packages: Vec<String>,
    pub script: Vec<String>,
    pub debs: Vec<String>,
}

/// The descriptor for turning one Debian package into an AppImage: the
/// package's name as the app, a trusty base with main and universe sources,
/// the lower-cased dashed package name as the one package, and the package
/// file itself as the one deb.
pub fn deb_descriptor(name: &str, deb_path: &str) -> (d: Pkg2AppimageDescriptor)
    ensures
        d.app@ == name@,
        d.ingredients.dist matches Some(s) && s@ == "trusty"@,
        d.ingredients.sources@.len() == 1,
        d.ingredients.sources@[0]@ == "deb http://archive.ubuntu.com/ubuntu/ trusty main universe"@,
        d.ingredients.packages@.len() == 1,
        d.ingredients.packages@[0]@ == name@.map_values(|c: char| dash_for_space(c)).map_values(
            |c: char| lower_char(c),
        ),
        d.ingredients.script@.len() == 0,
        d.ingredients.debs@.len() == 1,
        d.ingredients.debs@[0]@ == deb_path@,
        d.script@.len() == 1,
        d.script@[0]@ == "ls"@,
{
    let dashed = replace_spaces(name);
    let pkg = ascii_lowercase(dashed.as_str());
    let mut sources: Vec<String> = Vec::new();
    sources.push("deb http://archive.ubuntu.com/ubuntu/ trusty main universe".to_owned());
    let mut packages: Vec<String> = Vec::new();
    packages.push(pkg);
    let mut debs: Vec<String> = Vec::new();
    debs.push(deb_path.to_owned());
    let mut script: Vec<String> = Vec::new();
    script.push("ls".to_owned());
    Pkg2AppimageDescriptor {
        app: name.to_owned(),
        ingredients: Pkg2AppimageDescriptorIngredients {
            dist: Some("trusty".to_owned()),
            sources,
            packages,
            script: Vec::new(),
            debs,
        },
        script,
    }
}

/// The package kinds the tool distinguishes, by a target file's extension.
#[derive(Debug, PartialEq, Eq)]
pub enum PkgKind {
    Deb,
    Yaml,
    Other,
}

/// Classifies a local package file by its extension: Debian packages and
/// pkg2appimage recipes get their own handling, anything else is searched
/// for an executable.
pub fn classify_pkg(ext: &str) -> (k: PkgKind)
    ensures
        ext@ == "deb"@ ==> k == PkgKind::Deb,
        ext@ == "yaml"@ ==> k == PkgKind::Yaml,
        !(ext@ == "deb"@ || ext@ == "yaml"@) ==> k == PkgKind::Other,
{
    proof {
        reveal_strlit("deb");
        reveal_strlit("yaml");
        assert("deb"@.len() != "yaml"@.len());
        assert("deb"@ != "yaml"@);
    }
    if str_eq(ext, "deb") {
        PkgKind::Deb
    } else if str_eq(ext, "yaml") {
        PkgKind::Yaml
    } else {
        PkgKind::Other
    }
}

/// Whether a target argument names a remote resource, to be downloaded
/// before it is classified.
pub fn is_remote_target(input: &str) -> (r: bool)
    ensures
        r == (input@.len() >= 4 && input@.subrange(0, 4) == "http"@),
{
    proof {
        reveal_strlit("http");
    }
    starts_with(input, "http")
}

/// Whether a file name, case aside, names one of the bundle's own support
/// files rather than a candidate executable: such entries are passed over
/// when a directory is searched for something to launch.
pub fn is_excluded_program_name(name: &str) -> (r: bool)
    ensures
        r == {
            let lowered = name@.map_values(|c: char| lower_char(c));
            lowered == "legal_details"@ || lowered == "license"@ || lowered == "readme"@ || lowered
                == "apprun"@ || lowered == ".diricon"@
        },
{
    let lowered = ascii_lowercase(name);
    str_eq(lowered.as_str(), "legal_details") || str_eq(lowered.as_str(), "license") || str_eq(
        lowered.as_str(),
        "readme",
    ) || str_eq(lowered.as_str(), "apprun") || str_eq(lowered.as_str(), ".diricon")
}

/// The AppStream component identifier derived from an executable's file
/// name.
pub fn appimage_id(file_name: &str) -> (r: String)
    ensures
        r@ == file_name@ + ".to_appimage.com"@,
{
    let mut s = file_name.to_owned();
    s.append(".to_appimage.com");
    s
}

/// The desktop file's name for a component identifier.
pub fn desktop_file_name(id: &str) -> (r: String)
    ensures
        r@ == id@ + ".desktop"@,
{
    let mut s = id.to_owned();
    s.append(".desktop");
    s
}

} // verus!
