use crate::command::{split_words, Command};
use crate::strings::str_eq;
use vstd::prelude::*;
use vstd::string::StringExecFns;

verus! {

/// Options that may follow the command words on the command line.
#[derive(Debug)]
pub struct ArgOptions {
    pub verbose: bool,
}

impl Default for ArgOptions {
    fn default() -> (r: Self)
        ensures
            !r.verbose,
    {
        ArgOptions { verbose: false }
    }
}

/// The one option the command line understands.
pub open spec fn verbose_flag() -> Seq<char> {
    "--verbose"@
}

/// Every element is the verbose flag.
pub open spec fn all_flags(args: Seq<String>) -> bool {
    forall|k: int| 0 <= k < args.len() ==> args[k]@ == verbose_flag()
}

/// Reads the trailing options; any word that is not a recognised option is
/// rejected, naming the first offender.
pub fn parse_options(remaining_args: &[String]) -> (r: Result<ArgOptions, String>)
    ensures
        all_flags(remaining_args@) ==> (r matches Ok(o) && o.verbose == (remaining_args@.len()
            > 0)),
        !all_flags(remaining_args@) ==> (r matches Err(m) && exists|k: int|
            0 <= k < remaining_args@.len() && remaining_args@[k]@ != verbose_flag() && (forall|
                j: int,
            | 0 <= j < k ==> remaining_args@[j]@ == verbose_flag()) && m@ == "unknown option "@
                + remaining_args@[k]@),
{
    let mut options = ArgOptions::default();
    let n = remaining_args.len();
    let mut i: usize = 0;
    while i < n
        invariant
            i <= n,
            n == remaining_args@.len(),
            forall|j: int| 0 <= j < i ==> remaining_args@[j]@ == verbose_flag(),
            options.verbose == (i > 0),
        decreases n - i,
    {
        let arg = &remaining_args[i];
        if str_eq(arg.as_str(), "--verbose") {
            options.verbose = true;
        } else {
            let mut m = "unknown option ".to_owned();
            m.append(arg.as_str());
            return Err(m);
        }
        i += 1;
    }
    Ok(options)
}

/// What a successful parse of `[command-line, options...]` yields: the
/// command word, its arguments, and whether the verbose flag was given.
pub open spec fn parsed_command(args: Seq<String>) -> Option<(Seq<char>, Seq<Seq<char>>, bool)> {
    if args.len() == 0 {
        None
    } else {
        let words = split_words(args[0]@);
        if words.len() == 0 {
            None
        } else if !all_flags(args.skip(1)) {
            None
        } else {
            Some((words[0], words.skip(1), args.skip(1).len() > 0))
        }
    }
}

/// Parses the command line handed over after the range bounds: the first
/// element is the command itself, the rest may only be options.
pub fn parse_command(remaining_args: &[String]) -> (r: Result<Command, String>)
    ensures
        parsed_command(remaining_args@) matches Some(t) ==> (r matches Ok(c) && c.command@ == t.0
            && c.args.deep_view() == t.1 && c.verbose == t.2),
        parsed_command(remaining_args@) is None ==> r is Err,
        remaining_args@.len() == 0 ==> (r matches Err(m) && m@ == "expected a command"@),
{
    if remaining_args.len() == 0 {
        return Err("expected a command".to_owned());
    }
    let command = match Command::parse(remaining_args[0].as_str()) {
        Ok(c) => c,
        Err(m) => {
            return Err(m);
        },
    };
    if remaining_args.len() > 1 {
        let rest = &remaining_args[1..remaining_args.len()];
        proof {
            assert(rest@ =~= remaining_args@.skip(1));
        }
        match parse_options(rest) {
            Ok(options) => {
                if options.verbose {
                    Ok(command.as_verbose())
                } else {
                    Ok(command)
                }
            },
            Err(m) => Err(m),
        }
    } else {
        proof {
            assert(remaining_args@.skip(1) =~= Seq::<String>::empty());
        }
        Ok(command)
    }
}

/// A request to walk the commits of the repository at `path` from `start`
/// to `end`, validating each with `command`.
pub struct TestCommand {
    pub path: String,
    pub start: String,
    pub end: String,
    pub command: Command,
}

/// What the program was asked to do.
pub enum Action {
    Test(TestCommand),
    Help,
}

/// The fully parsed command line.
pub struct Args {
    pub action: Action,
}

/// Assembles the test action once the repository path and the range bounds
/// are known and only the command words remain to be parsed.
pub fn finish_parsing_test_args(
    remaining_args: &[String],
    path: String,
    start_commit: &str,
    end_commit: &str,
) -> (r: Result<Args, String>)
    ensures
        parsed_command(remaining_args@) matches Some(t) ==> (r matches Ok(a) && a.action matches
            Action::Test(tc) && tc.command.command@ == t.0 && tc.command.args.deep_view() == t.1
            && tc.command.verbose == t.2 && tc.path@ == path@ && tc.start@ == start_commit@
            && tc.end@ == end_commit@),
        parsed_command(remaining_args@) is None ==> r is Err,
{
    match parse_command(remaining_args) {
        Ok(command) => Ok(
            Args {
                action: Action::Test(
                    TestCommand {
                        start: start_commit.to_owned(),
                        end: end_commit.to_owned(),
                        command,
                        path,
                    },
                ),
            },
        ),
        Err(m) => Err(m),
    }
}

} // verus!
