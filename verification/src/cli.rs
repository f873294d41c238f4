//! The command-line grammar the backend accepts.
//!
//! The backend takes three boolean toggles (`--dev-mode`, `--dev-tools`,
//! `--custom-config-folder`), a start-page selector (`--page <VALUE>` or
//! `--page=<VALUE>`), and an optional trailing subcommand: `test` with an
//! optional `--debug` flag, or `version` with an optional `--detailed`
//! flag.  A toggle may be repeated; a later `--page` wins.  Anything else
//! is rejected, naming the offending token.

use crate::text::{str_eq, str_starts_with};
use vstd::prelude::*;

verus! {

/// The command-line arguments of the backend process.
#[derive(Debug, PartialEq, Eq)]
pub struct Args {
    /// Developer mode is on.
    pub dev_mode: bool,
    /// Open the developer tools on startup.
    pub dev_tools: bool,
    /// Use an external folder as the configuration folder.
    pub custom_config_folder: bool,
    /// The page to jump to directly; empty when not given.
    pub page: String,
    /// The trailing subcommand, if one was given.
    pub command: Option<Commands>,
}

/// The subcommands the backend accepts.
#[derive(Debug, Clone, Copy, PartialEq, Eq)]
pub enum Commands {
    /// Debugging entry point.
    Test {
        /// Verbose debugging output.
        debug: bool,
    },
    /// Print version information.
    Version {
        /// Print the detailed version information.
        detailed: bool,
    },
}

/// The mathematical value of [`Args`]: the same record with the page as a
/// character sequence.
pub ghost struct ArgsView {
    /// Developer mode is on.
    pub dev_mode: bool,
    /// Open the developer tools on startup.
    pub dev_tools: bool,
    /// Use an external folder as the configuration folder.
    pub custom_config_folder: bool,
    /// The page to jump to directly.
    pub page: Seq<char>,
    /// The trailing subcommand, if one was given.
    pub command: Option<Commands>,
}

impl View for Args {
    type V = ArgsView;

    open spec fn view(&self) -> ArgsView {
        ArgsView {
            dev_mode: self.dev_mode,
            dev_tools: self.dev_tools,
            custom_config_folder: self.custom_config_folder,
            page: self.page@,
            command: self.command,
        }
    }
}

/// An error in the command line.
#[derive(Debug, PartialEq, Eq)]
pub enum ArgError {
    /// A flag that takes a value stood last, with no value after it.
    MissingValue {
        /// The flag missing its value.
        flag: String,
    },
    /// A token the grammar does not know.
    UnknownArg {
        /// The offending token.
        arg: String,
    },
}

/// The mathematical value of [`ArgError`].
pub ghost enum ArgErrorView {
    /// A flag that takes a value stood last, with no value after it.
    MissingValue {
        /// The flag missing its value.
        flag: Seq<char>,
    },
    /// A token the grammar does not know.
    UnknownArg {
        /// The offending token.
        arg: Seq<char>,
    },
}

impl View for ArgError {
    type V = ArgErrorView;

    open spec fn view(&self) -> ArgErrorView {
        match self {
            ArgError::MissingValue { flag } => ArgErrorView::MissingValue { flag: flag@ },
            ArgError::UnknownArg { arg } => ArgErrorView::UnknownArg { arg: arg@ },
        }
    }
}

impl ArgError {
    /// The error rendered as a message.
    pub fn message(&self) -> (r: String)
        ensures
            self matches ArgError::MissingValue { flag } ==> r@ == "Missing value for "@ + flag@,
            self matches ArgError::UnknownArg { arg } ==> r@ == "Unknown argument: "@ + arg@,
    {
        match self {
            ArgError::MissingValue { flag } => {
                let mut r = String::from_str("Missing value for ");
                r.append(flag.as_str());
                r
            },
            ArgError::UnknownArg { arg } => {
                let mut r = String::from_str("Unknown argument: ");
                r.append(arg.as_str());
                r
            },
        }
    }
}

/// The arguments before any token of the command line is read: every
/// toggle off, no page, no subcommand.
pub open spec fn initial_args() -> ArgsView {
    ArgsView {
        dev_mode: false,
        dev_tools: false,
        custom_config_folder: false,
        page: Seq::<char>::empty(),
        command: None,
    }
}

/// The views of a list of tokens.
pub open spec fn token_views(l: Seq<String>) -> Seq<Seq<char>> {
    l.map_values(|s: String| s@)
}

/// The token assigns the page inline, `--page=<VALUE>`.
pub open spec fn is_page_assignment(t: Seq<char>) -> bool {
    t.len() >= "--page="@.len() && t.subrange(0, "--page="@.len() as int) == "--page="@
}

/// The flags of the `test` subcommand: any number of `--debug` tokens.
pub open spec fn spec_parse_test_flags(toks: Seq<Seq<char>>, debug: bool) -> Result<
    bool,
    ArgErrorView,
>
    decreases toks.len(),
{
    if toks.len() == 0 {
        Ok(debug)
    } else if toks[0] == "--debug"@ {
        spec_parse_test_flags(toks.skip(1), true)
    } else {
        Err(ArgErrorView::UnknownArg { arg: toks[0] })
    }
}

/// The flags of the `version` subcommand: any number of `--detailed`
/// tokens.
pub open spec fn spec_parse_version_flags(toks: Seq<Seq<char>>, detailed: bool) -> Result<
    bool,
    ArgErrorView,
>
    decreases toks.len(),
{
    if toks.len() == 0 {
        Ok(detailed)
    } else if toks[0] == "--detailed"@ {
        spec_parse_version_flags(toks.skip(1), true)
    } else {
        Err(ArgErrorView::UnknownArg { arg: toks[0] })
    }
}

/// The grammar of the command line: what parsing the tokens `toks` on top
/// of the already-accumulated arguments `acc` yields.
pub open spec fn spec_parse_args(toks: Seq<Seq<char>>, acc: ArgsView) -> Result<
    ArgsView,
    ArgErrorView,
>
    decreases toks.len(),
{
    if toks.len() == 0 {
        Ok(acc)
    } else {
        let t = toks[0];
        if t == "--dev-mode"@ {
            spec_parse_args(
                toks.skip(1),
                ArgsView {
                    dev_mode: true,
                    dev_tools: acc.dev_tools,
                    custom_config_folder: acc.custom_config_folder,
                    page: acc.page,
                    command: acc.command,
                },
            )
        } else if t == "--dev-tools"@ {
            spec_parse_args(
                toks.skip(1),
                ArgsView {
                    dev_mode: acc.dev_mode,
                    dev_tools: true,
                    custom_config_folder: acc.custom_config_folder,
                    page: acc.page,
                    command: acc.command,
                },
            )
        } else if t == "--custom-config-folder"@ {
            spec_parse_args(
                toks.skip(1),
                ArgsView {
                    dev_mode: acc.dev_mode,
                    dev_tools: acc.dev_tools,
                    custom_config_folder: true,
                    page: acc.page,
                    command: acc.command,
                },
            )
        } else if t == "--page"@ {
            if toks.len() >= 2 {
                spec_parse_args(
                    toks.skip(2),
                    ArgsView {
                        dev_mode: acc.dev_mode,
                        dev_tools: acc.dev_tools,
                        custom_config_folder: acc.custom_config_folder,
                        page: toks[1],
                        command: acc.command,
                    },
                )
            } else {
                Err(ArgErrorView::MissingValue { flag: t })
            }
        } else if is_page_assignment(t) {
            spec_parse_args(
                toks.skip(1),
                ArgsView {
                    dev_mode: acc.dev_mode,
                    dev_tools: acc.dev_tools,
                    custom_config_folder: acc.custom_config_folder,
                    page: t.skip("--page="@.len() as int),
                    command: acc.command,
                },
            )
        } else if t == "test"@ {
            match spec_parse_test_flags(toks.skip(1), false) {
                Ok(debug) => Ok(
                    ArgsView {
                        dev_mode: acc.dev_mode,
                        dev_tools: acc.dev_tools,
                        custom_config_folder: acc.custom_config_folder,
                        page: acc.page,
                        command: Some(Commands::Test { debug }),
                    },
                ),
                Err(e) => Err(e),
            }
        } else if t == "version"@ {
            match spec_parse_version_flags(toks.skip(1), false) {
                Ok(detailed) => Ok(
                    ArgsView {
                        dev_mode: acc.dev_mode,
                        dev_tools: acc.dev_tools,
                        custom_config_folder: acc.custom_config_folder,
                        page: acc.page,
                        command: Some(Commands::Version { detailed }),
                    },
                ),
                Err(e) => Err(e),
            }
        } else {
            Err(ArgErrorView::UnknownArg { arg: t })
        }
    }
}

/// The view of a parse result.
pub open spec fn parse_outcome(r: Result<Args, ArgError>) -> Result<ArgsView, ArgErrorView> {
    match r {
        Ok(a) => Ok(a@),
        Err(e) => Err(e@),
    }
}

/// Parses the flags of the `test` subcommand from `args[start..]`.
fn parse_test_flags(args: &Vec<String>, start: usize) -> (r: Result<bool, ArgError>)
    requires
        start <= args@.len(),
    ensures
        (match r {
            Ok(d) => Ok::<bool, ArgErrorView>(d),
            Err(e) => Err(e@),
        }) == spec_parse_test_flags(token_views(args@).skip(start as int), false),
{
    let ghost toks = token_views(args@);
    let mut debug = false;
    let mut i: usize = start;
    while i < args.len()
        invariant
            start <= i <= args@.len(),
            toks == token_views(args@),
            toks.len() == args@.len(),
            spec_parse_test_flags(toks.skip(start as int), false) == spec_parse_test_flags(
                toks.skip(i as int),
                debug,
            ),
        decreases args@.len() - i,
    {
        proof {
            assert(toks.skip(i as int)[0] == toks[i as int]);
            assert(toks[i as int] == args@[i as int]@);
            assert(toks.skip(i as int).skip(1) =~= toks.skip(i as int + 1));
        }
        if str_eq(args[i].as_str(), "--debug") {
            debug = true;
            i = i + 1;
        } else {
            return Err(ArgError::UnknownArg { arg: args[i].clone() });
        }
    }
    proof {
        assert(toks.skip(i as int).len() == 0);
    }
    Ok(debug)
}

/// Parses the flags of the `version` subcommand from `args[start..]`.
fn parse_version_flags(args: &Vec<String>, start: usize) -> (r: Result<bool, ArgError>)
    requires
        start <= args@.len(),
    ensures
        (match r {
            Ok(d) => Ok::<bool, ArgErrorView>(d),
            Err(e) => Err(e@),
        }) == spec_parse_version_flags(token_views(args@).skip(start as int), false),
{
    let ghost toks = token_views(args@);
    let mut detailed = false;
    let mut i: usize = start;
    while i < args.len()
        invariant
            start <= i <= args@.len(),
            toks == token_views(args@),
            toks.len() == args@.len(),
            spec_parse_version_flags(toks.skip(start as int), false) == spec_parse_version_flags(
                toks.skip(i as int),
                detailed,
            ),
        decreases args@.len() - i,
    {
        proof {
            assert(toks.skip(i as int)[0] == toks[i as int]);
            assert(toks[i as int] == args@[i as int]@);
            assert(toks.skip(i as int).skip(1) =~= toks.skip(i as int + 1));
        }
        if str_eq(args[i].as_str(), "--detailed") {
            detailed = true;
            i = i + 1;
        } else {
            return Err(ArgError::UnknownArg { arg: args[i].clone() });
        }
    }
    proof {
        assert(toks.skip(i as int).len() == 0);
    }
    Ok(detailed)
}

/// Parses the command line.  `args` holds the tokens after the program
/// name; an empty list yields the defaults.
pub fn get_args(args: &Vec<String>) -> (r: Result<Args, ArgError>)
    ensures
        parse_outcome(r) == spec_parse_args(token_views(args@), initial_args()),
{
    let ghost toks = token_views(args@);
    let mut a = Args {
        dev_mode: false,
        dev_tools: false,
        custom_config_folder: false,
        page: String::new(),
        command: None,
    };
    proof {
        assert(toks.skip(0) =~= toks);
        assert(a@ == initial_args());
    }
    let mut i: usize = 0;
    while i < args.len()
        invariant
            i <= args@.len(),
            toks == token_views(args@),
            toks.len() == args@.len(),
            spec_parse_args(toks, initial_args()) == spec_parse_args(toks.skip(i as int), a@),
        decreases args@.len() - i,
    {
        proof {
            assert(toks.skip(i as int)[0] == toks[i as int]);
            assert(toks[i as int] == args@[i as int]@);
            assert(toks.skip(i as int).skip(1) =~= toks.skip(i as int + 1));
        }
        let tok = args[i].as_str();
        if str_eq(tok, "--dev-mode") {
            a.dev_mode = true;
            i = i + 1;
        } else if str_eq(tok, "--dev-tools") {
            a.dev_tools = true;
            i = i + 1;
        } else if str_eq(tok, "--custom-config-folder") {
            a.custom_config_folder = true;
            i = i + 1;
        } else if str_eq(tok, "--page") {
            if i + 1 < args.len() {
                proof {
                    assert(toks.skip(i as int)[1] == toks[i as int + 1]);
                    assert(toks.skip(i as int).skip(2) =~= toks.skip(i as int + 2));
                }
                a.page = args[i + 1].clone();
                i = i + 2;
            } else {
                return Err(ArgError::MissingValue { flag: args[i].clone() });
            }
        } else if str_starts_with(tok, "--page=") {
            proof {
                reveal_strlit("--page=");
            }
            let n = tok.unicode_len();
            a.page = String::from_str(tok.substring_char(7, n));
            proof {
                assert(a.page@ =~= toks[i as int].skip("--page="@.len() as int));
            }
            i = i + 1;
        } else if str_eq(tok, "test") {
            match parse_test_flags(args, i + 1) {
                Ok(debug) => {
                    return Ok(
                        Args {
                            dev_mode: a.dev_mode,
                            dev_tools: a.dev_tools,
                            custom_config_folder: a.custom_config_folder,
                            page: a.page,
                            command: Some(Commands::Test { debug }),
                        },
                    );
                },
                Err(e) => {
                    return Err(e);
                },
            }
        } else if str_eq(tok, "version") {
            match parse_version_flags(args, i + 1) {
                Ok(detailed) => {
                    return Ok(
                        Args {
                            dev_mode: a.dev_mode,
                            dev_tools: a.dev_tools,
                            custom_config_folder: a.custom_config_folder,
                            page: a.page,
                            command: Some(Commands::Version { detailed }),
                        },
                    );
                },
                Err(e) => {
                    return Err(e);
                },
            }
        } else {
            return Err(ArgError::UnknownArg { arg: args[i].clone() });
        }
    }
    proof {
        assert(toks.skip(i as int).len() == 0);
    }
    Ok(a)
}

/// The start pages the frontend distinguishes.
#[derive(Debug, Clone, Copy, PartialEq, Eq)]
pub enum StartPage {
    /// The main page.
    Main,
    /// The first-run page.
    FirstPage,
    /// The configuration-switching page.
    SwitchConfig,
    /// Anything else: the frontend falls back to its default.
    Other,
}

/// Which start page a `--page` value selects.
pub open spec fn spec_classify_page(p: Seq<char>) -> StartPage {
    if p == "main"@ {
        StartPage::Main
    } else if p == "firstpage"@ {
        StartPage::FirstPage
    } else if p == "switchConfig"@ {
        StartPage::SwitchConfig
    } else {
        StartPage::Other
    }
}

/// Classifies a `--page` value.
pub fn classify_page(page: &String) -> (r: StartPage)
    ensures
        r == spec_classify_page(page@),
{
    let s = page.as_str();
    if str_eq(s, "main") {
        StartPage::Main
    } else if str_eq(s, "firstpage") {
        StartPage::FirstPage
    } else if str_eq(s, "switchConfig") {
        StartPage::SwitchConfig
    } else {
        StartPage::Other
    }
}

} // verus!
