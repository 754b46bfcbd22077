use to_appimage::appstream::appdata_file_name;
use to_appimage::appstream::Screenshot;
use to_appimage::appstream::ScreenshotType;
use to_appimage::appstream::Screenshots;
use to_appimage::archive::is_archive;
use to_appimage::archive::Archive;
use to_appimage::archive::Error as ArchiveError;
use to_appimage::desktop_entry::to_string;
use to_appimage::licensing::is_license_file_name;
use to_appimage::licensing::License;
use to_appimage::records::appimage_id;
use to_appimage::records::classify_pkg;
use to_appimage::records::deb_descriptor;
use to_appimage::records::default_container_name;
use to_appimage::records::desktop_file_name;
use to_appimage::records::is_excluded_program_name;
use to_appimage::records::is_false;
use to_appimage::records::is_remote_target;
use to_appimage::records::CliConf;
use to_appimage::records::CliKind;
use to_appimage::records::DesktopFile;
use to_appimage::records::PkgKind;
use to_appimage::textutil::ascii_lowercase;
use to_appimage::textutil::leading_name_prefix;
use to_appimage::textutil::replace_spaces;
use to_appimage::textutil::starts_with;
use to_appimage::textutil::str_contains;
use to_appimage::textutil::strip_prefix_dir;
use to_appimage::textutil::truncate_chars;

#[test]
fn a() {
    assert_eq!("a", "a")
}

#[test]
fn desktop_file_renders_whole_document() {
    let d = DesktopFile::new(
        "Test".to_string(),
        Some("AppIcon".to_string()),
        vec!["Utility".to_string()],
        false,
    );
    let out = to_string(&d.to_value()).unwrap();
    assert_eq!(
        &out,
        "[Desktop Entry]\nName=Test\nExec=./AppRun\nIcon=AppIcon\nType=Application\nCategories=Utility;\nTerminal=false\n\n"
    );
}

#[test]
fn desktop_file_skips_terminal_when_set() {
    let d = DesktopFile::new("T".to_string(), None, vec![], true);
    let out = to_string(&d.to_value()).unwrap();
    assert_eq!(
        &out,
        "[Desktop Entry]\nName=T\nExec=./AppRun\nType=Application\nCategories=\n\n"
    );
}

#[test]
fn is_false_reports_the_flag() {
    assert!(is_false(&true));
    assert!(!is_false(&false));
}

#[test]
fn archive_extensions() {
    assert!(is_archive("zip"));
    assert!(is_archive("gz.tar"));
    assert!(is_archive("7z"));
    assert!(!is_archive("exe"));
    assert!(!is_archive(""));
}

#[test]
fn archive_guessing() {
    assert_eq!(Archive::guess("zip").unwrap(), Archive::Zip);
    assert_eq!(Archive::guess("tar").unwrap(), Archive::Tar);
    assert_eq!(Archive::guess("gz.tar").unwrap(), Archive::Tar);
    let err = Archive::guess("7z").unwrap_err();
    assert!(matches!(err, ArchiveError::ArchiveFormatNotSupported(e) if e == "7z"));
}

#[test]
fn package_classification() {
    assert_eq!(classify_pkg("deb"), PkgKind::Deb);
    assert_eq!(classify_pkg("yaml"), PkgKind::Yaml);
    assert_eq!(classify_pkg("appimage"), PkgKind::Other);
    assert_eq!(classify_pkg(""), PkgKind::Other);
}

#[test]
fn remote_targets() {
    assert!(is_remote_target("https://example.org/pkg.deb"));
    assert!(is_remote_target("http://example.org/pkg.deb"));
    assert!(!is_remote_target("pkg.deb"));
    assert!(!is_remote_target("htt"));
}

#[test]
fn license_recognition() {
    let upl = "...\nThe Universal Permissive License (UPL), Version 1.0\n...";
    let mit = "preamble\nThe MIT License (Expat)\nbody";
    let both = "The Universal Permissive License (UPL), Version 1.0 The MIT License (Expat)";
    assert_eq!(License::from_str(upl), Ok(License::UniversalPermisiveLicense));
    assert_eq!(License::from_str(mit), Ok(License::Mit));
    assert_eq!(License::from_str(both), Ok(License::UniversalPermisiveLicense));
    assert_eq!(License::from_str("All rights reserved."), Err(()));
}

#[test]
fn license_file_names() {
    assert!(is_license_file_name("LICENSE"));
    assert!(is_license_file_name("License"));
    assert!(is_license_file_name("license"));
    assert!(!is_license_file_name("license.txt"));
    assert!(!is_license_file_name("readme"));
}

#[test]
fn deb_package_descriptor() {
    let d = deb_descriptor("My App2", "/tmp/pkgs/my.deb");
    assert_eq!(d.app, "My App2");
    assert_eq!(d.ingredients.dist.as_deref(), Some("trusty"));
    assert_eq!(
        d.ingredients.sources,
        vec!["deb http://archive.ubuntu.com/ubuntu/ trusty main universe".to_string()]
    );
    assert_eq!(d.ingredients.packages, vec!["my-app2".to_string()]);
    assert_eq!(d.ingredients.debs, vec!["/tmp/pkgs/my.deb".to_string()]);
    assert!(d.ingredients.script.is_empty());
    assert_eq!(d.script, vec!["ls".to_string()]);
}

#[test]
fn deb_name_prefix() {
    assert_eq!(leading_name_prefix("my-app_1.2.3.deb"), "my-app");
    assert_eq!(leading_name_prefix("Tool99.deb"), "Tool99");
    assert_eq!(leading_name_prefix(""), "");
    assert_eq!(leading_name_prefix("_x"), "");
}

#[test]
fn excluded_program_names() {
    assert!(is_excluded_program_name("README"));
    assert!(is_excluded_program_name("AppRun"));
    assert!(is_excluded_program_name(".DirIcon"));
    assert!(!is_excluded_program_name("mygame"));
    assert!(!is_excluded_program_name("readme.md"));
}

#[test]
fn text_helpers() {
    assert_eq!(replace_spaces("a b c"), "a-b-c");
    assert_eq!(ascii_lowercase("AbC-9"), "abc-9");
    assert!(str_contains("hello world", "lo wo"));
    assert!(str_contains("abc", ""));
    assert!(!str_contains("abc", "abcd"));
    assert!(starts_with("abcd", "ab"));
    assert!(!starts_with("abcd", "bc"));
}

#[test]
fn path_display_helpers() {
    assert_eq!(strip_prefix_dir("/tmp/x/app", "/tmp/x"), "app");
    assert_eq!(strip_prefix_dir("/other/app", "/tmp/x"), "/other/app");
    assert_eq!(strip_prefix_dir("/tmp/x", "/tmp/x"), "/tmp/x");
    assert_eq!(truncate_chars("abcdef", 3), "abc");
    assert_eq!(truncate_chars("ab", 15), "ab");
}

#[test]
fn file_name_builders() {
    assert_eq!(appimage_id("tool"), "tool.to_appimage.com");
    assert_eq!(desktop_file_name("tool.to_appimage.com"), "tool.to_appimage.com.desktop");
    assert_eq!(appdata_file_name("id"), "id.appdata.xml");
}

#[test]
fn default_configuration() {
    let c = CliConf::default();
    assert_eq!(c.kind, CliKind::Toolbox);
    assert_eq!(c.container_name, "ubuntu-toolbox-22.04");
    assert_eq!(default_container_name(), "ubuntu-toolbox-22.04");
}

#[test]
fn screenshots_emptiness() {
    let none = Screenshots { screenshot: vec![] };
    assert!(none.is_empty());
    let one = Screenshots {
        screenshot: vec![Screenshot {
            ctype: ScreenshotType::Default,
            image: "https://placehold.co/700x400.png".to_string(),
        }],
    };
    assert!(!one.is_empty());
}
