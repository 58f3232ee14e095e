//! The arguments of the command line client.
use vstd::prelude::*;
use vstd::string::StrSliceExecFns;

use crate::cli::error::CliError;
use crate::cli::model::SearchKind;
use crate::text::{
    is_white_space, parse_u32, trim, trimmed, trimming_drops_only_outer_white_space, written_number,
};

verus! {

/// The command line.
#[derive(Debug)]
pub struct Cli {
    pub command: SearchCommand,
}

/// The subcommands, one for each kind of search.
#[derive(Debug)]
pub enum SearchCommand {
    Web(SearchArgs),
    News(SearchArgs),
    Images(SearchArgs),
    Videos(SearchArgs),
    Forums(SearchArgs),
}

/// The options that all subcommands share.
#[derive(Debug)]
pub struct SearchArgs {
    /// Search keywords.
    pub query: String,
    /// Number of merged results to return.
    pub search_num: u32,
    /// Timeout for each request to the daemon, in seconds.
    pub timeout: u64,
    /// Server-side timeout for each search page, in seconds.
    pub search_timeout: Option<u64>,
}

/// A command line that makes sense.
#[derive(Debug)]
pub struct ResolvedCli {
    pub kind: SearchKind,
    pub query: String,
    pub search_num: u32,
    pub timeout_seconds: u64,
    pub search_timeout_ms: Option<u64>,
}

impl SearchCommand {
    /// The kind of search that a subcommand stands for.
    pub open spec fn kind_of(self) -> SearchKind {
        match self {
            SearchCommand::Web(_) => SearchKind::Web,
            SearchCommand::News(_) => SearchKind::News,
            SearchCommand::Images(_) => SearchKind::Images,
            SearchCommand::Videos(_) => SearchKind::Videos,
            SearchCommand::Forums(_) => SearchKind::Forums,
        }
    }

    /// The options of a subcommand.
    pub open spec fn args_of(self) -> SearchArgs {
        match self {
            SearchCommand::Web(args) => args,
            SearchCommand::News(args) => args,
            SearchCommand::Images(args) => args,
            SearchCommand::Videos(args) => args,
            SearchCommand::Forums(args) => args,
        }
    }

    pub fn kind(&self) -> (result: SearchKind)
        ensures
            result == self.kind_of(),
    {
        match self {
            SearchCommand::Web(_) => SearchKind::Web,
            SearchCommand::News(_) => SearchKind::News,
            SearchCommand::Images(_) => SearchKind::Images,
            SearchCommand::Videos(_) => SearchKind::Videos,
            SearchCommand::Forums(_) => SearchKind::Forums,
        }
    }

    pub fn args(&self) -> (result: &SearchArgs)
        ensures
            *result == self.args_of(),
    {
        match self {
            SearchCommand::Web(args) => args,
            SearchCommand::News(args) => args,
            SearchCommand::Images(args) => args,
            SearchCommand::Videos(args) => args,
            SearchCommand::Forums(args) => args,
        }
    }
}

/// Reads how many results are asked for.
pub fn parse_search_num(value: &str) -> (result: Result<u32, String>)
    ensures
        match result {
            Ok(number) => written_number(value@) == Some(number as nat) && 1 <= number <= 100,
            Err(message) => {
                &&& message@ == "must be an integer from 1 to 100"@
                &&& written_number(value@) matches Some(number) ==> !(1 <= number <= 100)
            },
        },
{
    match parse_u32(value) {
        Some(number) => {
            if 1 <= number && number <= 100 {
                Ok(number)
            } else {
                Err("must be an integer from 1 to 100".to_owned())
            }
        },
        None => Err("must be an integer from 1 to 100".to_owned()),
    }
}

impl SearchArgs {
    /// What is wrong with the options first, if anything is.
    pub open spec fn fault(self) -> Option<Seq<char>> {
        let query = trimmed(self.query@);
        if query.len() == 0 {
            Some("--query must not be empty"@)
        } else if query.len() > 512 {
            Some("--query must not exceed 512 characters"@)
        } else if self.timeout == 0 {
            Some("--timeout must be greater than 0"@)
        } else {
            match self.search_timeout {
                None => None,
                Some(seconds) => if seconds == 0 {
                    Some("--search-timeout must be greater than 0"@)
                } else if self.timeout < seconds + 2 {
                    Some("--timeout must be at least two seconds greater than --search-timeout"@)
                } else if seconds * 1_000 > u64::MAX {
                    Some("--search-timeout is too large to convert to milliseconds"@)
                } else {
                    None
                },
            }
        }
    }
}

impl Cli {
    /// Checks the command line and fills in what follows from it.
    pub fn resolve(&self) -> (result: Result<ResolvedCli, CliError>)
        ensures
            ({
                let args = self.command.args_of();
                match args.fault() {
                    Some(message) => {
                        &&& result matches Err(error)
                        &&& error.is_usage(message)
                    },
                    None => {
                        &&& result matches Ok(resolved)
                        &&& resolved.kind == self.command.kind_of()
                        &&& resolved.query@ == trimmed(args.query@)
                        &&& resolved.search_num == args.search_num
                        &&& resolved.timeout_seconds == args.timeout
                        &&& resolved.search_timeout_ms == match args.search_timeout {
                            Some(seconds) => Some((seconds * 1_000) as u64),
                            None => None,
                        }
                    },
                }
            }),
    {
        let kind = self.command.kind();
        let args = self.command.args();
        let query: String = trim(args.query.as_str()).to_owned();
        let length = query.as_str().unicode_len();
        if length == 0 {
            return Err(CliError::usage("--query must not be empty".to_owned()));
        }
        if length > 512 {
            return Err(CliError::usage("--query must not exceed 512 characters".to_owned()));
        }
        if args.timeout == 0 {
            return Err(CliError::usage("--timeout must be greater than 0".to_owned()));
        }
        let search_timeout_ms = match args.search_timeout {
            None => None,
            Some(seconds) => {
                if seconds == 0 {
                    return Err(
                        CliError::usage("--search-timeout must be greater than 0".to_owned()),
                    );
                }
                if args.timeout <= seconds.saturating_add(1) {
                    return Err(
                        CliError::usage(
                            "--timeout must be at least two seconds greater than --search-timeout".to_owned(),
                        ),
                    );
                }
                match seconds.checked_mul(1_000) {
                    Some(milliseconds) => Some(milliseconds),
                    None => {
                        return Err(
                            CliError::usage(
                                "--search-timeout is too large to convert to milliseconds".to_owned(),
                            ),
                        );
                    },
                }
            },
        };
        Ok(
            ResolvedCli {
                kind,
                query,
                search_num: args.search_num,
                timeout_seconds: args.timeout,
                search_timeout_ms,
            },
        )
    }
}

/// Accepted options leave the daemon time to answer, and the query is one that the daemon accepts
/// too.
pub proof fn accepted_options_leave_time_to_answer(args: SearchArgs)
    requires
        args.fault() is None,
    ensures
        1 <= trimmed(args.query@).len() <= 512,
        !is_white_space(trimmed(args.query@)[0]),
        args.timeout > 0,
        args.search_timeout matches Some(seconds) ==> {
            &&& seconds > 0
            &&& args.timeout * 1_000 >= seconds * 1_000 + 2_000
        },
{
    trimming_drops_only_outer_white_space(args.query@);
}

} // verus!
