//! Command lines: cutting one into a program and its arguments, and what
//! running it gave.

use crate::model::error::RsrqError;
use crate::model::types::RsrqResult;
use crate::util::pattern::{regex_captures, regex_captures_iter};
use crate::util::text::{concat, trim_char, trim_matches};
use vstd::prelude::*;
use vstd::string::*;

verus! {

/// The pattern of a token of a command line: a run in double quotes, a run in
/// single quotes, or a run without white space.
pub const RE_CMD: &'static str = "(\"[^\"]+\"|'[^']+'|\\S+)";

/// The token that one match gives: the text of its first group without the
/// double quotes, and then without the single quotes, at either end. Nothing
/// is escaped and no quote inside the token is touched.
pub open spec fn token_of(groups: Seq<Option<Seq<char>>>) -> Option<Seq<char>> {
    if groups.len() > 1 {
        match groups[1] {
            Some(s) => Some(trim_char(trim_char(s, '"'), '\'')),
            None => None,
        }
    } else {
        None
    }
}

/// The tokens that the matches give, in the order of the matches.
pub open spec fn tokens_of(hits: Seq<Seq<Option<Seq<char>>>>) -> Seq<Seq<char>>
    decreases hits.len(),
{
    if hits.len() == 0 {
        Seq::empty()
    } else {
        match token_of(hits.last()) {
            Some(t) => tokens_of(hits.drop_last()).push(t),
            None => tokens_of(hits.drop_last()),
        }
    }
}

/// The tokens of a command line.
pub open spec fn command_tokens(input: Seq<char>) -> Seq<Seq<char>> {
    match regex_captures(RE_CMD@, input) {
        Some(hits) => tokens_of(hits),
        None => Seq::empty(),
    }
}

/// The tokens that the matches of the token pattern give, in the order of the
/// matches.
pub fn tokens_from_captures(hits: &Vec<Vec<Option<String>>>) -> (tokens: Vec<String>)
    ensures
        tokens.deep_view() == tokens_of(hits.deep_view()),
{
    let mut tokens: Vec<String> = Vec::new();
    let mut i: usize = 0;
    assert(hits.deep_view().take(0) =~= Seq::empty());
    while i < hits.len()
        invariant
            i <= hits.len(),
            tokens.deep_view() == tokens_of(hits.deep_view().take(i as int)),
        decreases hits.len() - i,
    {
        let ghost before = tokens.deep_view();
        let groups = &hits[i];
        proof {
            assert(hits.deep_view().take(i + 1).drop_last() =~= hits.deep_view().take(i as int));
            assert(hits.deep_view().take(i + 1).last() == groups.deep_view());
        }
        if groups.len() > 1 {
            assert(groups.deep_view()[1] == groups@[1].deep_view());
            match &groups[1] {
                Some(s) => {
                    let inner = trim_matches(s.as_str(), '"');
                    let token = trim_matches(inner.as_str(), '\'');
                    tokens.push(token);
                    assert(tokens.deep_view() =~= before.push(token@));
                },
                None => {},
            }
        }
        i = i + 1;
    }
    assert(hits.deep_view().take(i as int) =~= hits.deep_view());
    tokens
}

/// The tokens of a command line: its runs without white space, a run in
/// double or in single quotes counting as one token, the quotes taken off.
pub fn parse_cmd(input: &str) -> (tokens: Vec<String>)
    ensures
        tokens.deep_view() == command_tokens(input@),
{
    match regex_captures_iter(RE_CMD, input) {
        Some(hits) => tokens_from_captures(&hits),
        None => {
            let tokens: Vec<String> = Vec::new();
            assert(tokens.deep_view() =~= Seq::empty());
            tokens
        },
    }
}

/// What running a command gave.
pub struct RsrqCommandResult {
    pub cmd: String,
    pub stdout: String,
    pub stderr: String,
    pub exit_code: i32,
    pub duration_ms: u128,
}

impl RsrqCommandResult {
    /// The result of a child process that ran: its output, and its exit code,
    /// or 1 where it ended without one.
    pub fn from_exit(
        cmd: &str,
        stdout: String,
        stderr: String,
        code: Option<i32>,
        duration_ms: u128,
    ) -> (r: RsrqCommandResult)
        ensures
            r.cmd@ == cmd@,
            r.stdout@ == stdout@,
            r.stderr@ == stderr@,
            r.exit_code == (match code {
                Some(c) => c,
                None => 1,
            }),
            r.duration_ms == duration_ms,
    {
        let exit_code = match code {
            Some(c) => c,
            None => 1,
        };
        RsrqCommandResult { cmd: cmd.to_owned(), stdout, stderr, exit_code, duration_ms }
    }

    /// The result of a child process that could not be started: no output,
    /// the description of the failure as its error output, and the exit code 1.
    pub fn from_spawn_error(cmd: &str, error: &str, duration_ms: u128) -> (r: RsrqCommandResult)
        ensures
            r.cmd@ == cmd@,
            r.stdout@ == Seq::<char>::empty(),
            r.stderr@ == error@,
            r.exit_code == 1,
            r.duration_ms == duration_ms,
    {
        RsrqCommandResult {
            cmd: cmd.to_owned(),
            stdout: String::new(),
            stderr: error.to_owned(),
            exit_code: 1,
            duration_ms,
        }
    }
}

/// A command line cut into the program and its arguments.
pub struct RsrqCommand {
    pub cmd: String,
    pub args: Vec<String>,
}

impl RsrqCommand {
    /// The command that the tokens of the command line `cmd` make: the first
    /// token is the program, the others are its arguments. No token, no
    /// command.
    pub fn from_tokens(tokens: Vec<String>, cmd: &str) -> (r: RsrqResult<RsrqCommand>)
        ensures
            tokens@.len() > 0 ==> (r matches Ok(c) && c.cmd@ == tokens.deep_view()[0]
                && c.args.deep_view() == tokens.deep_view().skip(1)),
            tokens@.len() == 0 ==> (r matches Err(RsrqError::CmdParserError(m)) && m@
                == "Could not parse command "@ + cmd@),
    {
        if tokens.len() == 0 {
            return Err(RsrqError::CmdParserError(concat("Could not parse command ", cmd)));
        }
        let command = tokens[0].clone();
        let mut args: Vec<String> = Vec::new();
        let mut i: usize = 1;
        while i < tokens.len()
            invariant
                1 <= i <= tokens.len(),
                args.len() == i - 1,
                forall|j: int| 0 <= j < i - 1 ==> (#[trigger] args@[j])@ == tokens@[j + 1]@,
            decreases tokens.len() - i,
        {
            args.push(tokens[i].clone());
            i = i + 1;
        }
        assert(args.deep_view() =~= tokens.deep_view().skip(1));
        Ok(RsrqCommand { cmd: command, args })
    }

    /// The command that the command line `cmd` asks for.
    pub fn new(cmd: &str) -> (r: RsrqResult<RsrqCommand>)
        ensures
            command_tokens(cmd@).len() > 0 ==> (r matches Ok(c) && c.cmd@ == command_tokens(cmd@)[0]
                && c.args.deep_view() == command_tokens(cmd@).skip(1)),
            command_tokens(cmd@).len() == 0 ==> (r matches Err(RsrqError::CmdParserError(m)) && m@
                == "Could not parse command "@ + cmd@),
    {
        let parsed_cmd = parse_cmd(cmd);
        RsrqCommand::from_tokens(parsed_cmd, cmd)
    }
}

} // verus!
