use mod_backend::cli::{ArgError, Commands, StartPage, classify_page, get_args};

fn argv(toks: &[&str]) -> Vec<String> {
    toks.iter().map(|t| String::from(*t)).collect()
}

#[test]
fn empty_command_line_gives_defaults() {
    let a = get_args(&argv(&[])).unwrap();
    assert!(!a.dev_mode);
    assert!(!a.dev_tools);
    assert!(!a.custom_config_folder);
    assert_eq!(a.page, "");
    assert_eq!(a.command, None);
}

#[test]
fn each_toggle_is_recognised() {
    let a = get_args(&argv(&["--dev-mode"])).unwrap();
    assert!(a.dev_mode && !a.dev_tools && !a.custom_config_folder);
    let b = get_args(&argv(&["--dev-tools"])).unwrap();
    assert!(!b.dev_mode && b.dev_tools && !b.custom_config_folder);
    let c = get_args(&argv(&["--custom-config-folder"])).unwrap();
    assert!(!c.dev_mode && !c.dev_tools && c.custom_config_folder);
}

#[test]
fn toggles_combine() {
    let a = get_args(&argv(&["--dev-mode", "--dev-tools", "--custom-config-folder"])).unwrap();
    assert!(a.dev_mode && a.dev_tools && a.custom_config_folder);
}

#[test]
fn page_takes_the_next_token() {
    let a = get_args(&argv(&["--page", "main"])).unwrap();
    assert_eq!(a.page, "main");
}

#[test]
fn page_inline_assignment() {
    let a = get_args(&argv(&["--page=firstpage"])).unwrap();
    assert_eq!(a.page, "firstpage");
    let b = get_args(&argv(&["--page="])).unwrap();
    assert_eq!(b.page, "");
}

#[test]
fn later_page_wins() {
    let a = get_args(&argv(&["--page", "main", "--page=switchConfig"])).unwrap();
    assert_eq!(a.page, "switchConfig");
}

#[test]
fn page_without_value_is_an_error() {
    let e = get_args(&argv(&["--page"])).unwrap_err();
    assert_eq!(e, ArgError::MissingValue { flag: String::from("--page") });
    assert_eq!(e.message(), "Missing value for --page");
}

#[test]
fn unknown_token_is_an_error() {
    let e = get_args(&argv(&["--frobnicate"])).unwrap_err();
    assert_eq!(e, ArgError::UnknownArg { arg: String::from("--frobnicate") });
    assert_eq!(e.message(), "Unknown argument: --frobnicate");
}

#[test]
fn test_subcommand_bare() {
    let a = get_args(&argv(&["test"])).unwrap();
    assert_eq!(a.command, Some(Commands::Test { debug: false }));
}

#[test]
fn test_subcommand_with_debug() {
    let a = get_args(&argv(&["test", "--debug"])).unwrap();
    assert_eq!(a.command, Some(Commands::Test { debug: true }));
}

#[test]
fn version_subcommand_bare() {
    let a = get_args(&argv(&["version"])).unwrap();
    assert_eq!(a.command, Some(Commands::Version { detailed: false }));
}

#[test]
fn version_subcommand_with_detailed() {
    let a = get_args(&argv(&["version", "--detailed"])).unwrap();
    assert_eq!(a.command, Some(Commands::Version { detailed: true }));
}

#[test]
fn flags_before_subcommand_are_kept() {
    let a = get_args(&argv(&["--dev-mode", "--page", "main", "test", "--debug"])).unwrap();
    assert!(a.dev_mode);
    assert_eq!(a.page, "main");
    assert_eq!(a.command, Some(Commands::Test { debug: true }));
}

#[test]
fn stray_flag_after_subcommand_is_an_error() {
    let e = get_args(&argv(&["test", "--detailed"])).unwrap_err();
    assert_eq!(e, ArgError::UnknownArg { arg: String::from("--detailed") });
    let e2 = get_args(&argv(&["version", "extra"])).unwrap_err();
    assert_eq!(e2, ArgError::UnknownArg { arg: String::from("extra") });
}

#[test]
fn page_values_classify() {
    assert_eq!(classify_page(&String::from("main")), StartPage::Main);
    assert_eq!(classify_page(&String::from("firstpage")), StartPage::FirstPage);
    assert_eq!(classify_page(&String::from("switchConfig")), StartPage::SwitchConfig);
    assert_eq!(classify_page(&String::from("")), StartPage::Other);
    assert_eq!(classify_page(&String::from("Main")), StartPage::Other);
}
