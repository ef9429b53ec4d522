//! The benchmark command that runs while a measurement records, from its
//! command-line form to the program and arguments that are started.
use vstd::prelude::*;
use crate::text::{
    chars_of, decimal, decimal_string, find_char_from, has_prefix, index_of, trim, trim_bounds,
};

verus! {

/// A command started once the measurement has begun.
#[derive(Clone, Debug, PartialEq, Eq)]
pub enum BenchmarkCommand {
    /// Runs a TensorRT engine on the Jetson through `timed_engine_execution.sh`.
    TimedEngineExecution { engine_path: String },
    /// Runs a command on the Jetson over ssh.
    JetsonCommand(String),
    /// Runs a command on this machine.
    OtherCommand(String),
    /// Runs nothing.
    NoCommand,
}

/// A benchmark command with its texts as character sequences.
pub enum BenchmarkCommandView {
    TimedEngineExecution(Seq<char>),
    JetsonCommand(Seq<char>),
    OtherCommand(Seq<char>),
    NoCommand,
}

impl View for BenchmarkCommand {
    type V = BenchmarkCommandView;

    open spec fn view(&self) -> BenchmarkCommandView {
        match self {
            BenchmarkCommand::TimedEngineExecution { engine_path } => BenchmarkCommandView::TimedEngineExecution(engine_path@),
            BenchmarkCommand::JetsonCommand(c) => BenchmarkCommandView::JetsonCommand(c@),
            BenchmarkCommand::OtherCommand(c) => BenchmarkCommandView::OtherCommand(c@),
            BenchmarkCommand::NoCommand => BenchmarkCommandView::NoCommand,
        }
    }
}

/// The benchmark command that the text `s` gives, or the message that refuses it:
/// `TEE...,path[,...]` runs the engine at `path`; `JET... command` runs the trimmed
/// `command` on the Jetson; anything else runs as it stands on this machine.
pub open spec fn benchmark_command_from(s: Seq<char>) -> Result<BenchmarkCommandView, Seq<char>> {
    if has_prefix(s, "TEE"@) {
        match index_of(s, ',') {
            None => Err("no path"@),
            Some(i) => {
                let rest = s.skip(i + 1);
                match index_of(rest, ',') {
                    Some(j) => Ok(BenchmarkCommandView::TimedEngineExecution(rest.take(j))),
                    None => Ok(BenchmarkCommandView::TimedEngineExecution(rest)),
                }
            },
        }
    } else if has_prefix(s, "JET"@) {
        match index_of(s, ' ') {
            None => Err("No Command"@),
            Some(i) => Ok(BenchmarkCommandView::JetsonCommand(trim(s.skip(i + 1)))),
        }
    } else {
        Ok(BenchmarkCommandView::OtherCommand(s))
    }
}

/// How a benchmark command is shown.
pub open spec fn benchmark_command_text(c: BenchmarkCommandView) -> Seq<char> {
    match c {
        BenchmarkCommandView::TimedEngineExecution(p) => "TimedEngineExecution("@ + p + ")"@,
        BenchmarkCommandView::JetsonCommand(c) => "JetsonCommand("@ + c + ")"@,
        BenchmarkCommandView::OtherCommand(c) => "OtherCommand("@ + c + ")"@,
        BenchmarkCommandView::NoCommand => "NoCommand"@,
    }
}

/// The shell command line that starts a benchmark command, with the measurement's
/// duration in whole seconds and the wait for the oscilloscope trigger; none for
/// `NoCommand`.
pub open spec fn command_line_text(
    c: BenchmarkCommandView,
    duration_secs: nat,
    trigger_wait: Seq<char>,
) -> Option<Seq<char>> {
    match c {
        BenchmarkCommandView::TimedEngineExecution(p) => Some(
            "ssh nx@10.42.0.44 ~/timed_engine_execution.sh "@ + p + " "@ + decimal(duration_secs)
                + " "@ + trigger_wait,
        ),
        BenchmarkCommandView::JetsonCommand(c) => Some("ssh nx@10.42.0.44 "@ + c),
        BenchmarkCommandView::OtherCommand(c) => Some(c),
        BenchmarkCommandView::NoCommand => None,
    }
}

/// The seconds the engine script waits for the oscilloscope trigger: one more
/// than the whole seconds of the oscilloscope's frame, or 500 without one.
pub open spec fn trigger_wait_text(oscilloscope_secs: Option<u64>) -> Seq<char> {
    match oscilloscope_secs {
        Some(s) => decimal((s + 1) as nat),
        None => "500"@,
    }
}

/// "{open}{inner})"
fn wrapped(open: &str, inner: &str) -> (s: String)
    ensures
        s@ == open@ + inner@ + ")"@,
{
    let mut s = String::from_str(open);
    s.append(inner);
    s.append(")");
    s
}

impl BenchmarkCommand {
    /// Reads a benchmark command from its command-line form.
    pub fn from_str(s: &str) -> (r: Result<Self, String>)
        ensures
            match r {
                Ok(c) => benchmark_command_from(s@) == Ok::<BenchmarkCommandView, Seq<char>>(c@),
                Err(m) => benchmark_command_from(s@) == Err::<BenchmarkCommandView, Seq<char>>(m@),
            },
    {
        proof {
            reveal_strlit("TEE");
            reveal_strlit("JET");
        }
        let v = chars_of(s);
        if v.len() >= 3 && v[0] == 'T' && v[1] == 'E' && v[2] == 'E' {
            assert(s@.take(3) =~= "TEE"@);
            assert(v@.skip(0) =~= v@);
            match find_char_from(&v, 0, ',') {
                None => Err(String::from_str("no path")),
                Some(i) => {
                    assert(v@.skip(i + 1) =~= v@.skip((i + 1) as int));
                    let end = match find_char_from(&v, i + 1, ',') {
                        Some(j) => j,
                        None => v.len(),
                    };
                    let path = s.substring_char(i + 1, end);
                    proof {
                        let rest = s@.skip(i + 1);
                        match index_of(rest, ',') {
                            Some(j) => {
                                assert(path@ =~= rest.take(j));
                            },
                            None => {
                                assert(path@ =~= rest);
                            },
                        }
                    }
                    Ok(BenchmarkCommand::TimedEngineExecution { engine_path: String::from_str(path) })
                },
            }
        } else if v.len() >= 3 && v[0] == 'J' && v[1] == 'E' && v[2] == 'T' {
            assert(s@.take(3) =~= "JET"@);
            assert(!has_prefix(s@, "TEE"@)) by {
                assert(s@.take(3)[0] != "TEE"@[0]);
            }
            assert(v@.skip(0) =~= v@);
            match find_char_from(&v, 0, ' ') {
                None => Err(String::from_str("No Command")),
                Some(i) => {
                    let (a, b) = trim_bounds(&v, i + 1);
                    let cmd = s.substring_char(a, b);
                    Ok(BenchmarkCommand::JetsonCommand(String::from_str(cmd)))
                },
            }
        } else {
            assert(!has_prefix(s@, "TEE"@)) by {
                if has_prefix(s@, "TEE"@) {
                    assert(s@.take(3)[0] == 'T' && s@.take(3)[1] == 'E' && s@.take(3)[2] == 'E');
                }
            }
            assert(!has_prefix(s@, "JET"@)) by {
                if has_prefix(s@, "JET"@) {
                    assert(s@.take(3)[0] == 'J' && s@.take(3)[1] == 'E' && s@.take(3)[2] == 'T');
                }
            }
            Ok(BenchmarkCommand::OtherCommand(String::from_str(s)))
        }
    }

    /// How the command is shown.
    pub fn to_string(&self) -> (s: String)
        ensures
            s@ == benchmark_command_text(self@),
    {
        match self {
            BenchmarkCommand::TimedEngineExecution { engine_path } => wrapped(
                "TimedEngineExecution(",
                engine_path.as_str(),
            ),
            BenchmarkCommand::JetsonCommand(c) => wrapped("JetsonCommand(", c.as_str()),
            BenchmarkCommand::OtherCommand(c) => wrapped("OtherCommand(", c.as_str()),
            BenchmarkCommand::NoCommand => String::from_str("NoCommand"),
        }
    }
}

/// The wait for the oscilloscope trigger passed to the engine script.
pub fn trigger_wait(oscilloscope_secs: Option<u64>) -> (s: String)
    requires
        oscilloscope_secs matches Some(secs) ==> secs < u64::MAX,
    ensures
        s@ == trigger_wait_text(oscilloscope_secs),
{
    match oscilloscope_secs {
        Some(secs) => decimal_string((secs + 1) as u128),
        None => String::from_str("500"),
    }
}

/// The shell command line that starts `command`; `None` for `NoCommand`.
pub fn command_line(command: &BenchmarkCommand, duration_secs: u64, trigger_wait: &str) -> (r:
    Option<String>)
    ensures
        match r {
            Some(l) => command_line_text(command@, duration_secs as nat, trigger_wait@) == Some(
                l@,
            ),
            None => command_line_text(command@, duration_secs as nat, trigger_wait@) is None,
        },
{
    match command {
        BenchmarkCommand::TimedEngineExecution { engine_path } => {
            let mut l = String::from_str("ssh nx@10.42.0.44 ~/timed_engine_execution.sh ");
            l.append(engine_path.as_str());
            l.append(" ");
            let d = decimal_string(duration_secs as u128);
            l.append(d.as_str());
            l.append(" ");
            l.append(trigger_wait);
            Some(l)
        },
        BenchmarkCommand::JetsonCommand(c) => {
            let mut l = String::from_str("ssh nx@10.42.0.44 ");
            l.append(c.as_str());
            Some(l)
        },
        BenchmarkCommand::OtherCommand(c) => Some(c.clone()),
        BenchmarkCommand::NoCommand => None,
    }
}

/// The error of `shell_words::split`: a quote that is not closed.
#[verifier::external_type_specification]
#[verifier::external_body]
pub struct ExShellWordsParseError(shell_words::ParseError);

/// The words that `shell_words::split` makes of a command line, or `None` where it
/// fails because a quote is not closed.
pub uninterp spec fn shell_words_split(line: Seq<char>) -> Option<Seq<Seq<char>>>;

/// `shell_words::split`: cuts a command line into words the way a POSIX shell does.
/// Its contract names the result and says nothing of how the words are found.
#[verifier::external_body]
fn split_shell_words(line: &str) -> (r: Result<Vec<String>, shell_words::ParseError>)
    ensures
        match r {
            Ok(words) => shell_words_split(line@) == Some(words@.map_values(|w: String| w@)),
            Err(_) => shell_words_split(line@) is None,
        },
{
    shell_words::split(line)
}

/// Why a command line cannot be started.
#[derive(Clone, Copy, Debug, PartialEq, Eq, Structural)]
pub enum CommandLineError {
    /// A quote of the command line is not closed.
    UnclosedQuote,
    /// The command line holds no word, so there is no program to start.
    NoProgram,
}

/// The program (the first word) and its arguments (the other words); `None`
/// where there is no word.
pub fn program_and_args(words: Vec<String>) -> (r: Option<(String, Vec<String>)>)
    ensures
        match r {
            Some((program, args)) => words@.len() > 0 && program@ == words@[0]@ && args@
                == words@.drop_first(),
            None => words@.len() == 0,
        },
{
    if words.len() == 0 {
        return None;
    }
    let mut args = words;
    let program = args.remove(0);
    assert(args@ =~= words@.drop_first());
    Some((program, args))
}

/// The program and arguments that a command line starts.
pub fn prepare_command(line: &str) -> (r: Result<(String, Vec<String>), CommandLineError>)
    ensures
        match shell_words_split(line@) {
            None => r == Err::<(String, Vec<String>), CommandLineError>(
                CommandLineError::UnclosedQuote,
            ),
            Some(words) => match r {
                Ok((program, args)) => words.len() > 0 && program@ == words[0] && args@.map_values(
                    |w: String| w@,
                ) == words.drop_first(),
                Err(e) => words.len() == 0 && e == CommandLineError::NoProgram,
            },
        },
{
    match split_shell_words(line) {
        Err(_) => Err(CommandLineError::UnclosedQuote),
        Ok(words) => {
            let ghost seen = words@;
            match program_and_args(words) {
                Some((program, args)) => {
                    assert(args@.map_values(|w: String| w@) =~= seen.map_values(|w: String| w@).drop_first());
                    Ok((program, args))
                },
                None => Err(CommandLineError::NoProgram),
            }
        },
    }
}

/// A command read from the command line always starts something: only the
/// absence of a command starts nothing. Text that begins neither with `TEE` nor
/// with `JET` is run exactly as it was given.
pub proof fn lemma_parsed_command_runs(s: Seq<char>, duration_secs: nat, trigger_wait: Seq<char>)
    ensures
        benchmark_command_from(s) matches Ok(c) ==> command_line_text(
            c,
            duration_secs,
            trigger_wait,
        ) is Some,
        !has_prefix(s, "TEE"@) && !has_prefix(s, "JET"@) ==> (benchmark_command_from(s) matches Ok(
            c,
        ) && command_line_text(c, duration_secs, trigger_wait) == Some(s)),
{
}

} // verus!
