use vstd::prelude::*;
use crate::text::{str_equals, string_views};

verus! {

/// How much is logged.
#[derive(PartialEq, Eq, Structural, Clone, Copy, Debug)]
pub enum Verbosity {
    Info,
    Debug,
    Trace,
}

/// The settings of a run.
pub struct Options {
    pub verbosity: Verbosity,
    /// Test the configuration and exit (`-c`, `--configtest`).
    pub configtest: bool,
    /// The configuration file (`-f`).
    pub config_path: String,
    /// The date to use in place of the clock (`--date`), as given.
    pub fake_date: Option<String>,
}

/// What the command line asks for.
pub enum Invocation {
    /// `-h` or `--help`: print the usage and exit.
    Usage,
    /// `-j`: print the configuration format and exit.
    ConfigFormat,
    /// `-p`: print a generic configuration and exit.
    GenericConfig,
    /// An argument that is not an option: report it, print the usage, exit.
    UnknownArgument(String),
    /// Run with these settings.
    Run(Options),
}

/// The settings of a run, as character sequences.
pub struct OptionsView {
    pub verbosity: Verbosity,
    pub configtest: bool,
    pub config_path: Seq<char>,
    pub fake_date: Option<Seq<char>>,
}

/// What the command line asks for, as character sequences.
pub enum InvocationView {
    Usage,
    ConfigFormat,
    GenericConfig,
    UnknownArgument(Seq<char>),
    Run(OptionsView),
}

/// The settings held by `o`.
pub open spec fn options_view(o: Options) -> OptionsView {
    OptionsView {
        verbosity: o.verbosity,
        configtest: o.configtest,
        config_path: o.config_path@,
        fake_date: match o.fake_date {
            Some(d) => Some(d@),
            None => None,
        },
    }
}

/// What `i` asks for.
pub open spec fn invocation_view(i: Invocation) -> InvocationView {
    match i {
        Invocation::Usage => InvocationView::Usage,
        Invocation::ConfigFormat => InvocationView::ConfigFormat,
        Invocation::GenericConfig => InvocationView::GenericConfig,
        Invocation::UnknownArgument(a) => InvocationView::UnknownArgument(a@),
        Invocation::Run(o) => InvocationView::Run(options_view(o)),
    }
}

/// The configuration file read when `-f` is not given.
pub const DEFAULT_CONFIG_PATH: &'static str = "/usr/local/etc/znappr/znappr.json";

/// The settings before any argument is read.
pub open spec fn default_options() -> OptionsView {
    OptionsView {
        verbosity: Verbosity::Info,
        configtest: false,
        config_path: DEFAULT_CONFIG_PATH@,
        fake_date: None,
    }
}

/// Reads the arguments from index `i` on, with the settings `st` so far;
/// `skip` when the argument at `i` is the operand of the option before it.
/// Options are read left to right and a later one overrides an earlier one;
/// `-h`, `-j`, `-p` and an unknown argument end the reading at once; `-f` and
/// `--date` take the next argument, and are ignored when there is none.
pub open spec fn parse_from(args: Seq<Seq<char>>, i: int, st: OptionsView, skip: bool) -> InvocationView
    decreases args.len() - i,
{
    if i < 0 || i >= args.len() {
        InvocationView::Run(st)
    } else if skip {
        parse_from(args, i + 1, st, false)
    } else {
        let a = args[i];
        if a == "-h"@ || a == "--help"@ {
            InvocationView::Usage
        } else if a == "-j"@ {
            InvocationView::ConfigFormat
        } else if a == "-p"@ {
            InvocationView::GenericConfig
        } else if a == "-f"@ {
            if i + 1 < args.len() {
                parse_from(args, i + 1, OptionsView { config_path: args[i + 1], ..st }, true)
            } else {
                parse_from(args, i + 1, st, false)
            }
        } else if a == "-v"@ {
            parse_from(args, i + 1, OptionsView { verbosity: Verbosity::Debug, ..st }, false)
        } else if a == "-vv"@ {
            parse_from(args, i + 1, OptionsView { verbosity: Verbosity::Trace, ..st }, false)
        } else if a == "-c"@ || a == "--configtest"@ {
            parse_from(args, i + 1, OptionsView { configtest: true, ..st }, false)
        } else if a == "--date"@ {
            if i + 1 < args.len() {
                parse_from(args, i + 1, OptionsView { fake_date: Some(args[i + 1]), ..st }, true)
            } else {
                parse_from(args, i + 1, st, false)
            }
        } else {
            InvocationView::UnknownArgument(a)
        }
    }
}

/// What `v` asks for once the configuration is to be tested: a run tests the
/// configuration, anything else is unchanged.
pub open spec fn with_configtest(v: InvocationView) -> InvocationView {
    match v {
        InvocationView::Run(o) => InvocationView::Run(OptionsView { configtest: true, ..o }),
        other => other,
    }
}

proof fn lemma_configtest_carried(args: Seq<Seq<char>>, i: int, st: OptionsView, skip: bool)
    ensures
        parse_from(args, i, OptionsView { configtest: true, ..st }, skip) == with_configtest(
            parse_from(args, i, st, skip),
        ),
    decreases args.len() - i,
{
    if 0 <= i < args.len() {
        let a = args[i];
        if skip {
            lemma_configtest_carried(args, i + 1, st, false);
        } else if a == "-h"@ || a == "--help"@ || a == "-j"@ || a == "-p"@ {
        } else if a == "-f"@ {
            if i + 1 < args.len() {
                lemma_configtest_carried(args, i + 1, OptionsView { config_path: args[i + 1], ..st }, true);
            } else {
                lemma_configtest_carried(args, i + 1, st, false);
            }
        } else if a == "-v"@ {
            lemma_configtest_carried(args, i + 1, OptionsView { verbosity: Verbosity::Debug, ..st }, false);
        } else if a == "-vv"@ {
            lemma_configtest_carried(args, i + 1, OptionsView { verbosity: Verbosity::Trace, ..st }, false);
        } else if a == "-c"@ || a == "--configtest"@ {
            lemma_configtest_carried(args, i + 1, OptionsView { configtest: true, ..st }, false);
        } else if a == "--date"@ {
            if i + 1 < args.len() {
                lemma_configtest_carried(args, i + 1, OptionsView { fake_date: Some(args[i + 1]), ..st }, true);
            } else {
                lemma_configtest_carried(args, i + 1, st, false);
            }
        }
    }
}

proof fn lemma_parse_shifted(args: Seq<Seq<char>>, k: int, c: Seq<char>, j: int, st: OptionsView, skip: bool)
    requires
        0 <= k <= j <= args.len(),
    ensures
        parse_from(args.take(k) + seq![c] + args.skip(k), j + 1, st, skip) == parse_from(args, j, st, skip),
    decreases args.len() - j,
{
    let ins = args.take(k) + seq![c] + args.skip(k);
    assert(ins.len() == args.len() + 1);
    if j < args.len() {
        assert(ins[j + 1] == args[j]);
        if j + 1 < args.len() {
            assert(ins[j + 2] == args[j + 1]);
        }
        lemma_parse_shifted(args, k, c, j + 1, st, false);
        lemma_parse_shifted(args, k, c, j + 1, OptionsView { config_path: args[j + 1], ..st }, true);
        lemma_parse_shifted(args, k, c, j + 1, OptionsView { fake_date: Some(args[j + 1]), ..st }, true);
        lemma_parse_shifted(args, k, c, j + 1, OptionsView { verbosity: Verbosity::Debug, ..st }, false);
        lemma_parse_shifted(args, k, c, j + 1, OptionsView { verbosity: Verbosity::Trace, ..st }, false);
        lemma_parse_shifted(args, k, c, j + 1, OptionsView { configtest: true, ..st }, false);
    }
}

proof fn lemma_parse_before_inserted(
    args: Seq<Seq<char>>,
    k: int,
    c: Seq<char>,
    i: int,
    st: OptionsView,
    skip: bool,
)
    requires
        1 <= i <= k <= args.len(),
        c == "-c"@ || c == "--configtest"@,
        k == 1 || (args[k - 1] != "-f"@ && args[k - 1] != "--date"@),
        i == k ==> !skip,
    ensures
        parse_from(args.take(k) + seq![c] + args.skip(k), i, st, skip) == with_configtest(
            parse_from(args, i, st, skip),
        ),
    decreases k - i,
{
    reveal_strlit("-h");
    reveal_strlit("--help");
    reveal_strlit("-j");
    reveal_strlit("-p");
    reveal_strlit("-f");
    reveal_strlit("-v");
    reveal_strlit("-vv");
    reveal_strlit("-c");
    reveal_strlit("--configtest");
    reveal_strlit("--date");
    let ins = args.take(k) + seq![c] + args.skip(k);
    assert(ins.len() == args.len() + 1);
    if i == k {
        assert(ins[k] == c);
        lemma_parse_shifted(args, k, c, k, OptionsView { configtest: true, ..st }, false);
        lemma_configtest_carried(args, k, st, false);
        if c == "-c"@ {
            assert(c[1] != "-h"@[1] && c[1] != "-j"@[1] && c[1] != "-p"@[1] && c[1] != "-f"@[1]
                && c[1] != "-v"@[1]);
        }
    } else {
        assert(ins[i] == args[i]);
        let a = args[i];
        if skip {
            lemma_parse_before_inserted(args, k, c, i + 1, st, false);
        } else if a == "-h"@ || a == "--help"@ || a == "-j"@ || a == "-p"@ {
        } else if a == "-f"@ {
            assert(i + 1 < k);
            assert(ins[i + 1] == args[i + 1]);
            lemma_parse_before_inserted(args, k, c, i + 1, OptionsView { config_path: args[i + 1], ..st }, true);
        } else if a == "-v"@ {
            lemma_parse_before_inserted(args, k, c, i + 1, OptionsView { verbosity: Verbosity::Debug, ..st }, false);
        } else if a == "-vv"@ {
            lemma_parse_before_inserted(args, k, c, i + 1, OptionsView { verbosity: Verbosity::Trace, ..st }, false);
        } else if a == "-c"@ || a == "--configtest"@ {
            lemma_parse_before_inserted(args, k, c, i + 1, OptionsView { configtest: true, ..st }, false);
        } else if a == "--date"@ {
            assert(i + 1 < k);
            assert(ins[i + 1] == args[i + 1]);
            lemma_parse_before_inserted(args, k, c, i + 1, OptionsView { fake_date: Some(args[i + 1]), ..st }, true);
        }
    }
}

/// A `-c` (or `--configtest`) anywhere on the command line after the
/// program's name, where it is not the operand of `-f` or `--date`, makes a
/// run test the configuration and changes nothing else: inserting it at such
/// a place turns a run into the same run with the configuration tested, and
/// leaves every other answer (help, format, generic configuration, unknown
/// argument) as it was.
pub proof fn lemma_configtest_anywhere(args: Seq<Seq<char>>, k: int, c: Seq<char>)
    requires
        1 <= k <= args.len(),
        c == "-c"@ || c == "--configtest"@,
        k == 1 || (args[k - 1] != "-f"@ && args[k - 1] != "--date"@),
    ensures
        parse_from(args.take(k) + seq![c] + args.skip(k), 1, default_options(), false) == with_configtest(
            parse_from(args, 1, default_options(), false),
        ),
{
    lemma_parse_before_inserted(args, k, c, 1, default_options(), false);
}

/// Reads the command line `args` (the program's name first).
pub fn parse_args(args: &Vec<String>) -> (r: Invocation)
    ensures
        invocation_view(r) == parse_from(string_views(args@), 1, default_options(), false),
{
    let ghost av = string_views(args@);
    let mut st = Options {
        verbosity: Verbosity::Info,
        configtest: false,
        config_path: DEFAULT_CONFIG_PATH.to_owned(),
        fake_date: None,
    };
    let mut skip = false;
    let mut i: usize = 1;
    if args.len() == 0 {
        return Invocation::Run(st);
    }
    while i < args.len()
        invariant
            av == string_views(args@),
            1 <= i <= args.len(),
            parse_from(av, 1, default_options(), false) == parse_from(av, i as int, options_view(st), skip),
        decreases args.len() - i,
    {
        if skip {
            skip = false;
        } else {
            let a = args[i].as_str();
            assert(a@ == av[i as int]);
            if str_equals(a, "-h") || str_equals(a, "--help") {
                return Invocation::Usage;
            } else if str_equals(a, "-j") {
                return Invocation::ConfigFormat;
            } else if str_equals(a, "-p") {
                return Invocation::GenericConfig;
            } else if str_equals(a, "-f") {
                if i + 1 < args.len() {
                    st.config_path = args[i + 1].clone();
                    skip = true;
                }
            } else if str_equals(a, "-v") {
                st.verbosity = Verbosity::Debug;
            } else if str_equals(a, "-vv") {
                st.verbosity = Verbosity::Trace;
            } else if str_equals(a, "-c") || str_equals(a, "--configtest") {
                st.configtest = true;
            } else if str_equals(a, "--date") {
                if i + 1 < args.len() {
                    st.fake_date = Some(args[i + 1].clone());
                    skip = true;
                }
            } else {
                return Invocation::UnknownArgument(args[i].clone());
            }
        }
        i = i + 1;
    }
    Invocation::Run(st)
}

} // verus!
