//! The command line.

use crate::text::same_text;
use vstd::prelude::*;
use vstd::string::*;

verus! {

/// The configuration file that is used where the command line names none.
pub fn default_config_path() -> (path: &'static str)
    ensures
        path@ == "config.toml"@,
{
    "config.toml"
}

/// How the program is called.
pub fn usage() -> (text: &'static str)
    ensures
        text@ == "Usage: landingbench [--config <PATH>]"@,
{
    "Usage: landingbench [--config <PATH>]"
}

/// What the command line says.
#[derive(Debug, Clone)]
pub struct CliArgs {
    pub config_path: Option<String>,
}

/// Why the program ends without a run.
#[derive(Debug, Clone)]
pub enum CliExit {
    /// The usage was asked for.
    Help,
    /// `--config` came last.
    MissingValue,
    /// An argument is not known.
    Unknown { argument: String },
}

/// What the command line says, over texts.
pub enum CliModel {
    Run { config_path: Option<Seq<char>> },
    Help,
    MissingValue,
    Unknown { argument: Seq<char> },
}

/// What the arguments say from place `i` on, where those before named the file `path`, if any. The
/// last file named counts, and the first argument that ends the program.
pub open spec fn said(args: Seq<String>, i: int, path: Option<Seq<char>>) -> CliModel
    decreases args.len() - i,
{
    if i < 0 || i >= args.len() {
        CliModel::Run { config_path: path }
    } else if args[i]@ == "--config"@ {
        if i + 1 >= args.len() {
            CliModel::MissingValue
        } else {
            said(args, i + 2, Some(args[i + 1]@))
        }
    } else if args[i]@ == "--help"@ || args[i]@ == "-h"@ {
        CliModel::Help
    } else {
        CliModel::Unknown { argument: args[i]@ }
    }
}

/// What a text is, if there is one.
pub open spec fn optional_text(text: Option<String>) -> Option<Seq<char>> {
    match text {
        Some(t) => Some(t@),
        None => None,
    }
}

impl CliArgs {
    /// Reads the command line, without the name of the program.
    pub fn parse(args: &Vec<String>) -> (parsed: Result<CliArgs, CliExit>)
        ensures
            said(args@, 0, None) == match parsed {
                Ok(cli) => CliModel::Run { config_path: optional_text(cli.config_path) },
                Err(CliExit::Help) => CliModel::Help,
                Err(CliExit::MissingValue) => CliModel::MissingValue,
                Err(CliExit::Unknown { argument }) => CliModel::Unknown { argument: argument@ },
            },
    {
        let mut parsed = CliArgs { config_path: None };
        let mut i: usize = 0;
        while i < args.len()
            invariant
                i <= args.len(),
                said(args@, 0, None) == said(args@, i as int, optional_text(parsed.config_path)),
            decreases args.len() - i,
        {
            let arg = args[i].as_str();
            if same_text(arg, "--config") {
                if i + 1 >= args.len() {
                    return Err(CliExit::MissingValue);
                }
                parsed.config_path = Some(args[i + 1].clone());
                i += 2;
            } else if same_text(arg, "--help") || same_text(arg, "-h") {
                return Err(CliExit::Help);
            } else {
                return Err(CliExit::Unknown { argument: args[i].clone() });
            }
        }
        Ok(parsed)
    }

    /// The configuration file to use.
    pub fn path(&self) -> (path: &str)
        ensures
            path@ == match self.config_path {
                Some(p) => p@,
                None => "config.toml"@,
            },
    {
        match &self.config_path {
            Some(path) => path.as_str(),
            None => default_config_path(),
        }
    }
}

impl CliExit {
    /// The status that the program ends with.
    pub fn code(&self) -> (code: i32)
        ensures
            code == if *self is Help {
                0int
            } else {
                1
            },
    {
        match self {
            CliExit::Help => 0,
            CliExit::MissingValue => 1,
            CliExit::Unknown { .. } => 1,
        }
    }

    /// What is said before the usage.
    pub fn complaint(&self) -> (text: Option<String>)
        ensures
            match *self {
                CliExit::Help => text is None,
                CliExit::MissingValue => text matches Some(t) && t@
                    == "Missing value for --config"@,
                CliExit::Unknown { argument } => text matches Some(t) && t@
                    == "Unknown argument: "@ + argument@,
            },
    {
        match self {
            CliExit::Help => None,
            CliExit::MissingValue => Some("Missing value for --config".to_owned()),
            CliExit::Unknown { argument } => {
                let mut text = "Unknown argument: ".to_owned();
                text.append(argument.as_str());
                Some(text)
            },
        }
    }
}

/// Whether the first `2 * k` arguments are pairs of `--config` and a value.
pub open spec fn config_pairs(args: Seq<String>, k: nat) -> bool {
    &&& 2 * k <= args.len()
    &&& forall|i: int| 0 <= i < k ==> (#[trigger] args[2 * i])@ == "--config"@
}

/// The value of the last of `k` pairs.
pub open spec fn last_value(args: Seq<String>, k: nat) -> Option<Seq<char>> {
    if k == 0 {
        None
    } else {
        Some(args[2 * k - 1]@)
    }
}

/// Whether the pairs end behind `k` of them: there are no more arguments, or the next is not
/// `--config`, or it is the last.
pub open spec fn pairs_end(args: Seq<String>, k: nat) -> bool {
    &&& config_pairs(args, k)
    &&& 2 * k == args.len() || 2 * k + 1 == args.len() || args[2 * k as int]@ != "--config"@
}

/// What the arguments say where the pairs end behind `k` of them: with no more arguments the run
/// uses the last value; otherwise the next argument ends the program, and says how.
pub open spec fn decided(args: Seq<String>, k: nat) -> CliModel {
    if 2 * k == args.len() {
        CliModel::Run { config_path: last_value(args, k) }
    } else if args[2 * k as int]@ == "--config"@ {
        CliModel::MissingValue
    } else if args[2 * k as int]@ == "--help"@ || args[2 * k as int]@ == "-h"@ {
        CliModel::Help
    } else {
        CliModel::Unknown { argument: args[2 * k as int]@ }
    }
}

/// The command line is made of pairs of `--config` and a value. The last value counts, and the first
/// argument from the left that starts no pair decides; nothing behind it is looked at.
pub proof fn first_bad_argument_decides(args: Seq<String>, k: nat)
    requires
        pairs_end(args, k),
    ensures
        said(args, 0, None) == decided(args, k),
{
    lemma_pairs(args, k);
}

/// The pairs of every command line end somewhere.
pub proof fn pairs_end_somewhere(args: Seq<String>)
    ensures
        exists|k: nat| pairs_end(args, k),
{
    lemma_pairs_end(args, 0);
}

proof fn lemma_pairs(args: Seq<String>, k: nat)
    requires
        config_pairs(args, k),
    ensures
        said(args, 0, None) == said(args, 2 * k as int, last_value(args, k)),
    decreases k,
{
    if k > 0 {
        let before = (k - 1) as nat;
        assert(config_pairs(args, before));
        lemma_pairs(args, before);
        assert(args[2 * (k - 1)]@ == "--config"@);
    }
}

proof fn lemma_pairs_end(args: Seq<String>, k: nat)
    requires
        config_pairs(args, k),
    ensures
        exists|n: nat| pairs_end(args, n),
    decreases args.len() - 2 * k,
{
    if !pairs_end(args, k) {
        assert forall|i: int| 0 <= i < k + 1 implies (#[trigger] args[2 * i])@ == "--config"@ by {
            if i == k {
                assert(args[2 * k as int]@ == "--config"@);
            }
        }
        lemma_pairs_end(args, k + 1);
    }
}

/// The command line in plain words, where the first `2 * k` arguments are pairs of `--config` and a
/// value. With nothing behind them the last value is the file, and without any pair there is none.
/// A `--config` at the very end lacks its value. `--help` or `-h` behind them asks for the usage, and
/// any other argument but `--config` is not known.
pub proof fn command_line_in_words(args: Seq<String>, k: nat)
    requires
        2 * k <= args.len(),
        forall|i: int| 0 <= i < k ==> (#[trigger] args[2 * i])@ == "--config"@,
    ensures
        ({
            let next = args[2 * k as int]@;
            &&& args.len() == 0 ==> said(args, 0, None) == (CliModel::Run { config_path: None })
            &&& args.len() == 2 * k && k > 0 ==> said(args, 0, None) == (CliModel::Run {
                config_path: Some(args[args.len() - 1]@),
            })
            &&& args.len() == 2 * k + 1 && next == "--config"@ ==> said(args, 0, None)
                == CliModel::MissingValue
            &&& args.len() > 2 * k && next != "--config"@ && (next == "--help"@ || next == "-h"@)
                ==> said(args, 0, None) == CliModel::Help
            &&& args.len() > 2 * k && next != "--config"@ && next != "--help"@ && next != "-h"@
                ==> said(args, 0, None) == (CliModel::Unknown { argument: next })
        }),
{
    lemma_pairs(args, k);
}

/// A text that may be missing is itself where it is there.
pub proof fn optional_texts(text: String)
    ensures
        optional_text(Some(text)) == Some(text@),
        optional_text(None) is None,
{
}

} // verus!
