//! The command lines by which the driver asks the operating system for
//! metadata and for the termination of a process.

use crate::collector::Query;
use crate::format::{decimal, decimal_digits};
use crate::process::texts;
use vstd::prelude::*;

verus! {

/// The family of the operating system that the driver runs on.
#[derive(Clone, Copy, Debug, PartialEq, Eq, Structural)]
pub enum Platform {
    Unix,
    Windows,
    Other,
}

/// The command line that asks for the termination of process `pid`: the
/// program first, then its arguments. There is none on a platform that is
/// neither Unix nor Windows.
pub open spec fn termination_words(pid: u32, platform: Platform) -> Option<Seq<Seq<char>>> {
    match platform {
        Platform::Unix => Some(seq!["kill"@, "-9"@, decimal_digits(pid as nat)]),
        Platform::Windows => Some(
            seq!["taskkill"@, "/F"@, "/PID"@, decimal_digits(pid as nat)],
        ),
        Platform::Other => None,
    }
}

/// The command line that answers `query`: the program first, then its
/// arguments. Only Unix has one.
pub open spec fn query_words(query: Query, platform: Platform) -> Option<Seq<Seq<char>>> {
    match platform {
        Platform::Unix => match query {
            Query::User(pid) => Some(
                seq!["ps"@, "-o"@, "user="@, "-p"@, decimal_digits(pid as nat)],
            ),
            Query::Threads(pid) => Some(
                seq!["ps"@, "-o"@, "nlwp="@, "-p"@, decimal_digits(pid as nat)],
            ),
        },
        _ => None,
    }
}

/// The command line that asks for the termination of process `pid`.
pub fn termination_command(pid: u32, platform: Platform) -> (words: Option<Vec<String>>)
    ensures
        match words {
            Some(list) => Some(texts(list@)) == termination_words(pid, platform),
            None => termination_words(pid, platform) is None,
        },
{
    match platform {
        Platform::Unix => {
            let mut list: Vec<String> = Vec::new();
            list.push(String::from_str("kill"));
            list.push(String::from_str("-9"));
            list.push(decimal(pid as u64));
            assert(texts(list@) =~= seq!["kill"@, "-9"@, decimal_digits(pid as nat)]);
            Some(list)
        },
        Platform::Windows => {
            let mut list: Vec<String> = Vec::new();
            list.push(String::from_str("taskkill"));
            list.push(String::from_str("/F"));
            list.push(String::from_str("/PID"));
            list.push(decimal(pid as u64));
            assert(texts(list@) =~= seq![
                "taskkill"@,
                "/F"@,
                "/PID"@,
                decimal_digits(pid as nat),
            ]);
            Some(list)
        },
        Platform::Other => None,
    }
}

/// The command line that answers `query`.
pub fn query_command(query: Query, platform: Platform) -> (words: Option<Vec<String>>)
    ensures
        match words {
            Some(list) => Some(texts(list@)) == query_words(query, platform),
            None => query_words(query, platform) is None,
        },
{
    match platform {
        Platform::Unix => {
            let mut list: Vec<String> = Vec::new();
            list.push(String::from_str("ps"));
            list.push(String::from_str("-o"));
            match query {
                Query::User(pid) => {
                    list.push(String::from_str("user="));
                    list.push(String::from_str("-p"));
                    list.push(decimal(pid as u64));
                    assert(texts(list@) =~= seq![
                        "ps"@,
                        "-o"@,
                        "user="@,
                        "-p"@,
                        decimal_digits(pid as nat),
                    ]);
                },
                Query::Threads(pid) => {
                    list.push(String::from_str("nlwp="));
                    list.push(String::from_str("-p"));
                    list.push(decimal(pid as u64));
                    assert(texts(list@) =~= seq![
                        "ps"@,
                        "-o"@,
                        "nlwp="@,
                        "-p"@,
                        decimal_digits(pid as nat),
                    ]);
                },
            }
            Some(list)
        },
        _ => None,
    }
}

} // verus!
