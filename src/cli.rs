use vstd::prelude::*;
use crate::params::{has_prefix, starts_with, strings_view};
use crate::string_map::string_eq_str;

verus! {

/// The views of a list of string slices.
pub open spec fn strs_view(args: Seq<&str>) -> Seq<Seq<char>> {
    args.map_values(|s: &str| s@)
}

/// The positional values that the command line `args` (program name
/// first) gives under this client's argument grammar, or `None` where the
/// grammar refuses it.
pub uninterp spec fn clap_commands(args: Seq<Seq<char>>) -> Option<Seq<Seq<char>>>;

/// Relies on clap's `Command::try_get_matches_from`, with one positional
/// argument that takes any number of values, hyphenated ones included, and
/// no help flag: the values in the order given, or `None` where clap refuses
/// the line. The result depends on the arguments alone.
#[verifier::external_body]
fn clap_parse(args: &[&str]) -> (r: Option<Vec<String>>)
    ensures
        match r {
            Some(v) => clap_commands(strs_view(args@)) == Some(strings_view(v@)),
            None => clap_commands(strs_view(args@)) is None,
        },
{
    clap::Command::new("anything-cli")
        .disable_help_flag(true)
        .allow_hyphen_values(true)
        .arg(
            clap::Arg::new("commands")
                .num_args(0..)
                .action(clap::ArgAction::Append)
                .value_parser(clap::builder::ValueParser::string()),
        )
        .try_get_matches_from(args.iter().copied())
        .ok()
        .map(|m| m.get_many::<String>("commands").map(|v| v.cloned().collect()).unwrap_or_default())
}

/// A command line that the argument grammar refuses.
#[derive(Debug)]
pub enum CliError {
    Rejected,
}

/// The command line: every token after the program name, flags included.
#[derive(Debug)]
pub struct Cli {
    pub commands: Vec<String>,
}

impl Cli {
    /// Reads the command line `args`, the program name first.
    pub fn try_parse_from(args: &[&str]) -> (r: Result<Cli, CliError>)
        ensures
            match r {
                Ok(c) => clap_commands(strs_view(args@)) == Some(strings_view(c.commands@)),
                Err(_) => clap_commands(strs_view(args@)) is None,
            },
    {
        match clap_parse(args) {
            Some(commands) => Ok(Cli { commands }),
            None => Err(CliError::Rejected),
        }
    }
}

/// How the tokens of `toks` from position `i` on split into path segments
/// and flag tokens: a `--` token takes the next token along unless that
/// one begins with `-`; a `-` token stands alone; the rest are segments.
pub open spec fn split_from(toks: Seq<Seq<char>>, i: int) -> (Seq<Seq<char>>, Seq<Seq<char>>)
    decreases toks.len() - i,
{
    if i < 0 || i >= toks.len() {
        (Seq::empty(), Seq::empty())
    } else if starts_with(toks[i], seq!['-', '-']) {
        if i + 1 < toks.len() && !starts_with(toks[i + 1], seq!['-']) {
            let rest = split_from(toks, i + 2);
            (rest.0, seq![toks[i], toks[i + 1]] + rest.1)
        } else {
            let rest = split_from(toks, i + 1);
            (rest.0, seq![toks[i]] + rest.1)
        }
    } else if starts_with(toks[i], seq!['-']) {
        let rest = split_from(toks, i + 1);
        (rest.0, seq![toks[i]] + rest.1)
    } else {
        let rest = split_from(toks, i + 1);
        (seq![toks[i]] + rest.0, rest.1)
    }
}

/// The split of the tokens after the program name into path segments and
/// flag tokens.
#[derive(Debug)]
pub struct SplitArgs {
    pub commands: Vec<String>,
    pub flags: Vec<String>,
}

/// Splits the tokens `args` into path segments and flag tokens (a long
/// flag keeps the value that follows it), each in the order given.
pub fn split_arguments(args: &[String]) -> (r: SplitArgs)
    ensures
        (strings_view(r.commands@), strings_view(r.flags@)) == split_from(strings_view(args@), 0),
{
    let ghost toks = strings_view(args@);
    proof {
        reveal_strlit("--");
        reveal_strlit("-");
        assert(seq!['-', '-'] == "--"@);
        assert(seq!['-'] == "-"@);
    }
    let mut commands: Vec<String> = Vec::new();
    let mut flags: Vec<String> = Vec::new();
    let mut i: usize = 0;
    while i < args.len()
        invariant
            toks == strings_view(args@),
            seq!['-', '-'] == "--"@,
            seq!['-'] == "-"@,
            i <= args@.len(),
            split_from(toks, 0) == ({
                let rest = split_from(toks, i as int);
                (strings_view(commands@) + rest.0, strings_view(flags@) + rest.1)
            }),
        decreases args@.len() - i,
    {
        let ghost c0 = strings_view(commands@);
        let ghost f0 = strings_view(flags@);
        assert(args@[i as int]@ == toks[i as int]);
        if has_prefix(args[i].as_str(), "--") {
            flags.push(args[i].clone());
            if i + 1 < args.len() && !has_prefix(args[i + 1].as_str(), "-") {
                assert(args@[i + 1]@ == toks[i + 1]);
                flags.push(args[i + 1].clone());
                assert(strings_view(flags@) =~= f0 + seq![toks[i as int], toks[i + 1]]);
                i = i + 2;
            } else {
                proof {
                    if i + 1 < args@.len() {
                        assert(args@[i + 1]@ == toks[i + 1]);
                    }
                }
                assert(strings_view(flags@) =~= f0 + seq![toks[i as int]]);
                i = i + 1;
            }
            assert(c0 == strings_view(commands@));
        } else if has_prefix(args[i].as_str(), "-") {
            flags.push(args[i].clone());
            assert(strings_view(flags@) =~= f0 + seq![toks[i as int]]);
            assert(c0 == strings_view(commands@));
            i = i + 1;
        } else {
            commands.push(args[i].clone());
            assert(strings_view(commands@) =~= c0 + seq![toks[i as int]]);
            assert(f0 == strings_view(flags@));
            i = i + 1;
        }
        proof {
            let r = split_from(toks, i as int);
            assert(c0 + (strings_view(commands@).skip(c0.len() as int) + r.0) =~= strings_view(commands@) + r.0);
            assert(f0 + (strings_view(flags@).skip(f0.len() as int) + r.1) =~= strings_view(flags@) + r.1);
        }
    }
    assert(strings_view(commands@) + Seq::<Seq<char>>::empty() =~= strings_view(commands@));
    assert(strings_view(flags@) + Seq::<Seq<char>>::empty() =~= strings_view(flags@));
    SplitArgs { commands, flags }
}

/// Whether the command line asks for the version: no path segment, and a
/// `-v` or `--version` among the flag tokens.
pub open spec fn asks_version(commands: Seq<Seq<char>>, flags: Seq<Seq<char>>) -> bool {
    commands.len() == 0 && exists|k: int|
        0 <= k < flags.len() && (#[trigger] flags[k] == "-v"@ || flags[k] == "--version"@)
}

impl SplitArgs {
    /// Whether the command line asks for the version.
    pub fn wants_version(&self) -> (r: bool)
        ensures
            r == asks_version(strings_view(self.commands@), strings_view(self.flags@)),
    {
        if self.commands.len() > 0 {
            return false;
        }
        let ghost f = strings_view(self.flags@);
        let mut i: usize = 0;
        while i < self.flags.len()
            invariant
                f == strings_view(self.flags@),
                self.commands@.len() == 0,
                i <= self.flags@.len(),
                forall|k: int| 0 <= k < i ==> !(#[trigger] f[k] == "-v"@ || f[k] == "--version"@),
            decreases self.flags@.len() - i,
        {
            assert(self.flags@[i as int]@ == f[i as int]);
            if string_eq_str(&self.flags[i], "-v") || string_eq_str(&self.flags[i], "--version") {
                assert(strings_view(self.commands@).len() == 0);
                assert(f[i as int] == "-v"@ || f[i as int] == "--version"@);
                return true;
            }
            i = i + 1;
        }
        false
    }
}

/// A command that the client handles itself instead of sending it.
#[derive(Debug, Clone, Copy, PartialEq, Eq)]
pub enum InternalCommand {
    SetHeader,
    SetBaseUrl,
    Uninstall,
}

/// The command that the first path segment of `commands` names, if it
/// names one that the client handles itself.
pub open spec fn internal_command_of(commands: Seq<Seq<char>>) -> Option<InternalCommand> {
    if commands.len() == 0 {
        None
    } else if commands[0] == "self:set-header"@ {
        Some(InternalCommand::SetHeader)
    } else if commands[0] == "self:set-base-url"@ {
        Some(InternalCommand::SetBaseUrl)
    } else if commands[0] == "self:uninstall"@ {
        Some(InternalCommand::Uninstall)
    } else {
        None
    }
}

/// The command that the client handles itself, if the first path segment
/// names one.
pub fn internal_command(commands: &[String]) -> (r: Option<InternalCommand>)
    ensures
        r == internal_command_of(strings_view(commands@)),
{
    if commands.len() == 0 {
        return None;
    }
    let first = &commands[0];
    assert(first@ == strings_view(commands@)[0]);
    if string_eq_str(first, "self:set-header") {
        Some(InternalCommand::SetHeader)
    } else if string_eq_str(first, "self:set-base-url") {
        Some(InternalCommand::SetBaseUrl)
    } else if string_eq_str(first, "self:uninstall") {
        Some(InternalCommand::Uninstall)
    } else {
        None
    }
}

} // verus!
