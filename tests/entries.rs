use desktop_cleaner::clean::{CleanHandler, KnownDirs};
use desktop_cleaner::config::{DebugLevel, DesktopCleanerConfig, Settings};
use desktop_cleaner::error::Error;
use desktop_cleaner::handle_dir::{extension, DirEntries, DirEntry};
use desktop_cleaner::rules::{classify, RuleTable};

fn s(t: &str) -> String {
    t.to_string()
}

fn file(name: &str) -> DirEntry {
    DirEntry::from_child(format!("/root/{}", name), s(name), false)
}

fn rules(cats: &[(&str, &[&str])]) -> RuleTable {
    let mut t = RuleTable::new();
    for (name, exts) in cats {
        t.insert(s(name), exts.iter().map(|e| s(e)).collect());
    }
    t
}

fn category(t: &RuleTable, e: DirEntry) -> Option<String> {
    classify(e, t).destination
}

#[test]
fn extension_is_text_after_last_dot() {
    assert_eq!(extension("a.pdf"), "pdf");
    assert_eq!(extension("archive.tar.gz"), "gz");
    assert_eq!(extension(".a.b"), "b");
    assert_eq!(extension("a..b"), "b");
}

#[test]
fn extension_empty_without_separator() {
    assert_eq!(extension("c"), "");
    assert_eq!(extension(".bashrc"), "");
    assert_eq!(extension("foo."), "");
    assert_eq!(extension(""), "");
}

#[test]
fn get_dirs_keeps_listing_order() {
    let listing = vec![
        (s("/d/b.jpg"), s("b.jpg"), false),
        (s("/d/Docs"), s("Docs"), true),
        (s("/d/c"), s("c"), false),
    ];
    let entries = DirEntry::get_dirs(listing).dir_entries.unwrap();
    assert_eq!(entries.len(), 3);
    assert_eq!(entries[0].path, "/d/b.jpg");
    assert_eq!(entries[0].file_name, "b.jpg");
    assert_eq!(entries[0].file_type, "jpg");
    assert!(!entries[0].is_dir);
    assert_eq!(entries[1].file_name, "Docs");
    assert!(entries[1].is_dir);
    assert_eq!(entries[2].file_type, "");
}

#[test]
fn get_dirs_of_empty_listing() {
    let entries = DirEntry::get_dirs(Vec::new()).dir_entries.unwrap();
    assert!(entries.is_empty());
}

#[test]
fn entry_constructors() {
    let e = DirEntry::new(s("/p/x.txt"), s("x.txt"), s("txt"), true).ok().unwrap();
    assert_eq!(e.path, "/p/x.txt");
    assert_eq!(e.file_type, "txt");
    assert!(e.is_dir);
    let d = DirEntry::default().ok().unwrap();
    assert_eq!(d.path, "");
    assert_eq!(d.file_name, "");
    assert!(!d.is_dir);
    assert_eq!(DirEntries::default().dir_entries.unwrap().len(), 0);
    assert_eq!(DirEntries::new().dir_entries.unwrap().len(), 0);
}

#[test]
fn entry_text_lists_fields() {
    let e = file("a.pdf");
    assert_eq!(
        e.print_dir_entry(),
        "Path: /root/a.pdf\nFile Name: a.pdf\nFile Type: pdf\nIs Dir: false\n"
    );
    let d = DirEntry::from_child(s("/root/Docs"), s("Docs"), true);
    assert_eq!(
        d.print_dir_entry(),
        "Path: /root/Docs\nFile Name: Docs\nFile Type: \nIs Dir: true\n"
    );
}

#[test]
fn entries_text_joins_entries() {
    let entries = DirEntries { dir_entries: Some(vec![file("a.pdf"), file("c")]) };
    assert_eq!(
        entries.print_dir_entries(),
        "Path: /root/a.pdf\nFile Name: a.pdf\nFile Type: pdf\nIs Dir: false\n\
         Path: /root/c\nFile Name: c\nFile Type: \nIs Dir: false\n"
    );
    assert_eq!(DirEntries { dir_entries: None }.print_dir_entries(), "");
}

#[test]
fn classify_by_dotted_extension() {
    let t = rules(&[("Documents", &[".pdf"]), ("Images", &[".jpg", ".png"])]);
    assert_eq!(category(&t, file("a.pdf")), Some(s("Documents")));
    assert_eq!(category(&t, file("b.png")), Some(s("Images")));
    assert_eq!(category(&t, file("c")), None);
    assert_eq!(category(&t, file("d.txt")), None);
    assert_eq!(category(&t, file(".pdf")), None);
}

#[test]
fn classify_never_takes_directories() {
    let t = rules(&[("Documents", &[".pdf"])]);
    let d = DirEntry::from_child(s("/root/x.pdf"), s("x.pdf"), true);
    assert_eq!(category(&t, d), None);
}

#[test]
fn classify_first_declared_category_wins() {
    let t = rules(&[("Scans", &[".pdf"]), ("Documents", &[".txt", ".pdf"])]);
    for _ in 0..3 {
        assert_eq!(category(&t, file("a.pdf")), Some(s("Scans")));
    }
    assert_eq!(category(&t, file("a.txt")), Some(s("Documents")));
}

#[test]
fn classify_keeps_entry() {
    let t = rules(&[("Documents", &[".pdf"])]);
    let r = classify(file("a.pdf"), &t);
    assert_eq!(r.entry.path, "/root/a.pdf");
    assert_eq!(r.entry.file_name, "a.pdf");
}

#[test]
fn empty_rules_classify_nothing() {
    let t = RuleTable::new();
    assert_eq!(category(&t, file("a.pdf")), None);
}

#[test]
fn insert_replaces_category_of_same_name() {
    let mut t = rules(&[("Documents", &[".pdf"]), ("Images", &[".jpg"])]);
    t.insert(s("Documents"), vec![s(".txt")]);
    assert_eq!(t.categories.len(), 2);
    assert_eq!(t.categories[0].name, "Documents");
    assert_eq!(t.categories[0].extensions, vec![s(".txt")]);
    assert_eq!(category(&t, file("a.pdf")), None);
    t.insert(s("Music"), vec![s(".mp3")]);
    assert_eq!(t.categories.len(), 3);
    assert_eq!(t.categories[2].name, "Music");
}

fn config_with_level(level: Option<&str>) -> DesktopCleanerConfig {
    let mut settings = Settings::new();
    settings.push(s("other"), s("trace"));
    if let Some(l) = level {
        settings.push(s("level"), s(l));
    }
    DesktopCleanerConfig { file_types: None, debug: Some(settings) }
}

#[test]
fn debug_level_names() {
    let cases = [
        ("trace", DebugLevel::Trace),
        ("debug", DebugLevel::Debug),
        ("info", DebugLevel::Info),
        ("warn", DebugLevel::Warn),
        ("error", DebugLevel::Error),
        ("off", DebugLevel::Off),
        ("loud", DebugLevel::Debug),
        ("", DebugLevel::Debug),
    ];
    for (name, level) in cases {
        assert_eq!(config_with_level(Some(name)).map_debug_level(), level);
    }
}

#[test]
fn debug_level_defaults_to_info() {
    assert_eq!(config_with_level(None).map_debug_level(), DebugLevel::Info);
    let c = DesktopCleanerConfig::new().ok().unwrap();
    assert_eq!(c.map_debug_level(), DebugLevel::Info);
    assert!(c.file_types.unwrap().categories.is_empty());
}

#[test]
fn settings_lookup_takes_first_key() {
    let mut settings = Settings::new();
    settings.push(s("level"), s("warn"));
    settings.push(s("level"), s("off"));
    assert_eq!(settings.get("level"), Some(s("warn")));
    assert_eq!(settings.get("missing"), None);
}

#[test]
fn given_directory_that_exists() {
    let r = CleanHandler::try_parse_directory(Some(s("/tmp/x")), true, None);
    assert_eq!(r.ok().unwrap(), Some(s("/tmp/x")));
}

#[test]
fn given_directory_that_is_missing() {
    let known = KnownDirs { desktop: Some(s("/home/u/Desktop")), home: s("/home/u") };
    match CleanHandler::try_parse_directory(Some(s("/nope")), false, Some(known)) {
        Err(Error::OperationCancelled(m)) => assert_eq!(m, "Could not find the path specified"),
        _ => panic!("expected a cancellation"),
    }
}

#[test]
fn default_directory_is_desktop_then_home() {
    let known = KnownDirs { desktop: Some(s("/home/u/Desktop")), home: s("/home/u") };
    let r = CleanHandler::try_parse_directory(None, false, Some(known));
    assert_eq!(r.ok().unwrap(), Some(s("/home/u/Desktop")));
    let known = KnownDirs { desktop: None, home: s("/home/u") };
    let r = CleanHandler::try_parse_directory(None, false, Some(known));
    assert_eq!(r.ok().unwrap(), Some(s("/home/u")));
}

#[test]
fn unknown_user_directories() {
    match CleanHandler::try_parse_directory(None, true, None) {
        Err(Error::OperationCancelled(m)) => {
            assert_eq!(m, "Failed to get desktop dir, using the home dir instead")
        }
        _ => panic!("expected a cancellation"),
    }
}

#[test]
fn handler_keeps_options() {
    let h = CleanHandler::new(Some(s("/d")), Some(true), None);
    assert_eq!(h.directory, Some(s("/d")));
    assert_eq!(h.recursive, Some(true));
    assert_eq!(h.hidden, None);
}

#[test]
fn error_constructors() {
    match Error::new(s("boom")) {
        Error::Generic(m) => assert_eq!(m, "boom"),
        _ => panic!("expected a generic error"),
    }
    match Error::op_cancelled("stop") {
        Error::OperationCancelled(m) => assert_eq!(m, "stop"),
        _ => panic!("expected a cancellation"),
    }
}
