use mod_backend::dialog::{DialogMode, FileDialogOptions, FileFilter, dialog_mode, dialog_start_dir};
use mod_backend::download::{DEFAULT_TIMEOUT_MS, effective_timeout_ms, is_success_status};
use mod_backend::snack::{SnackAlign, SnackType};
use mod_backend::text::{split_args, str_eq, str_starts_with};

fn options() -> FileDialogOptions {
    FileDialogOptions {
        title: None,
        starting_path: None,
        filters: None,
        multiple: false,
        folder: false,
        save: false,
    }
}

#[test]
fn dialog_mode_precedence() {
    let mut o = options();
    assert_eq!(dialog_mode(&o), DialogMode::PickFile);
    o.multiple = true;
    assert_eq!(dialog_mode(&o), DialogMode::PickFiles);
    o.folder = true;
    assert_eq!(dialog_mode(&o), DialogMode::PickFolder);
    o.save = true;
    assert_eq!(dialog_mode(&o), DialogMode::SaveFile);
}

#[test]
fn dialog_starts_in_parent_of_starting_path() {
    let mut o = options();
    assert_eq!(dialog_start_dir(&o), None);
    o.starting_path = Some(String::from("/app/data/mods/a.txt"));
    assert_eq!(dialog_start_dir(&o), Some(String::from("/app/data/mods")));
    o.starting_path = Some(String::from("bare"));
    assert_eq!(dialog_start_dir(&o), None);
}

#[test]
fn dialog_options_carry_filters() {
    let mut o = options();
    o.title = Some(String::from("Pick a mod"));
    o.filters = Some(vec![FileFilter {
        name: String::from("Archives"),
        extensions: vec![String::from("zip"), String::from("7z")],
    }]);
    let f = o.filters.as_ref().unwrap();
    assert_eq!(f.len(), 1);
    assert_eq!(f[0].name, "Archives");
    assert_eq!(f[0].extensions, vec![String::from("zip"), String::from("7z")]);
}

#[test]
fn timeout_defaults_to_thirty_seconds() {
    assert_eq!(effective_timeout_ms(None), 30000);
    assert_eq!(effective_timeout_ms(None), DEFAULT_TIMEOUT_MS);
    assert_eq!(effective_timeout_ms(Some(1500)), 1500);
    assert_eq!(effective_timeout_ms(Some(0)), 0);
}

#[test]
fn success_status_is_the_two_hundreds() {
    assert!(!is_success_status(199));
    assert!(is_success_status(200));
    assert!(is_success_status(204));
    assert!(is_success_status(299));
    assert!(!is_success_status(300));
    assert!(!is_success_status(404));
}

#[test]
fn snack_payload_vocabulary() {
    let kinds = [
        SnackType::Info,
        SnackType::Error,
        SnackType::Success,
        SnackType::Warning,
        SnackType::Plain,
    ];
    assert_eq!(kinds.len(), 5);
    assert_ne!(SnackType::Info, SnackType::Error);
    assert_ne!(SnackAlign::Top, SnackAlign::Bottom);
    assert_eq!(SnackAlign::Auto.clone(), SnackAlign::Auto);
}

#[test]
fn program_arguments_split_on_whitespace() {
    assert_eq!(split_args("-a --long value"), vec!["-a", "--long", "value"]);
    assert_eq!(split_args("  padded \t tokens \n here "), vec!["padded", "tokens", "here"]);
    assert_eq!(split_args(""), Vec::<String>::new());
    assert_eq!(split_args("   \t"), Vec::<String>::new());
    assert_eq!(split_args("single"), vec!["single"]);
}

#[test]
fn program_arguments_split_matches_unicode_whitespace() {
    // The full White_Space set separates, the way str::split_whitespace
    // splits.
    assert_eq!(split_args("a\u{000C}b"), vec!["a", "b"]);
    assert_eq!(split_args("a\u{000B}b\u{0085}c"), vec!["a", "b", "c"]);
    assert_eq!(split_args("a\u{00A0}b\u{2003}c\u{3000}d"), vec!["a", "b", "c", "d"]);
    let sample = "one\u{2028}two\u{202F}three\u{205F} four";
    let expected: Vec<&str> = sample.split_whitespace().collect();
    assert_eq!(split_args(sample), expected);
    // A joiner that is not White_Space stays inside its token.
    assert_eq!(split_args("a\u{200B}b"), vec!["a\u{200B}b"]);
}

#[test]
fn string_comparisons() {
    assert!(str_eq("abc", "abc"));
    assert!(!str_eq("abc", "abd"));
    assert!(!str_eq("abc", "ab"));
    assert!(str_starts_with("--page=main", "--page="));
    assert!(!str_starts_with("--page", "--page="));
    assert!(str_starts_with("anything", ""));
}
