//! The options of a run, as plain values.

use vstd::prelude::*;
use vstd::string::*;
use crate::text::same_text;

verus! {

/// How many instances may run at once.
#[derive(Clone, Copy, Debug, PartialEq, Eq)]
pub enum SingleInstanceOption {
    /// Any number.
    Multiple,
    /// One per output directory.
    PerOutput,
    /// One in all.
    Single,
}

impl SingleInstanceOption {
    /// Reads `multiple`, `per-output` or `single`.
    pub fn from_str(s: &str) -> (r: Result<SingleInstanceOption, String>)
        ensures
            s@ == "multiple"@ <==> r == Ok::<SingleInstanceOption, String>(SingleInstanceOption::Multiple),
            s@ == "per-output"@ <==> r == Ok::<SingleInstanceOption, String>(SingleInstanceOption::PerOutput),
            s@ == "single"@ <==> r == Ok::<SingleInstanceOption, String>(SingleInstanceOption::Single),
            r is Err ==> r->Err_0@ == "Cannot parse"@,
    {
        proof {
            reveal_strlit("multiple");
            reveal_strlit("per-output");
            reveal_strlit("single");
            assert("multiple"@.len() == 8);
            assert("per-output"@.len() == 10);
            assert("single"@.len() == 6);
        }
        if same_text(s, "multiple") {
            Ok(SingleInstanceOption::Multiple)
        } else if same_text(s, "per-output") {
            Ok(SingleInstanceOption::PerOutput)
        } else if same_text(s, "single") {
            Ok(SingleInstanceOption::Single)
        } else {
            Err(String::from_str("Cannot parse"))
        }
    }
}

/// Options of the `auth` command.
#[derive(Clone, Debug, PartialEq, Eq)]
pub struct Auth {
    /// Folder of the session file; a default under the home directory where absent.
    pub session_file_dir: Option<String>,
    pub session_file_name: String,
}

#[derive(Clone, Debug, PartialEq, Eq)]
pub enum SubCommand {
    /// Create a session.
    Auth(Auth),
}

/// The options of a run.
#[derive(Clone, Debug, PartialEq, Eq)]
pub struct Opts {
    pub output: Option<String>,
    /// Chats to save; all when empty. A chat also excluded is not saved.
    pub included_chats: Vec<i64>,
    pub excluded_chats: Vec<i64>,
    pub batch_size: i32,
    /// Remove the previous backup first.
    pub clean: bool,
    pub session_file: Option<String>,
    pub quiet: bool,
    pub keep_last_n_logs: usize,
    pub panic_to_stderr: bool,
    /// Largest attachment to transfer, in megabytes.
    pub file_limit: Option<i32>,
    /// Chats with more participants wait for permission; -1 for no ceiling.
    pub max_participants: i32,
    pub auth: Option<SubCommand>,
    pub test: bool,
}

/// The include list as the run uses it: `None` (all chats) when it is empty.
pub fn loading_chats(chats: Vec<i64>) -> (r: Option<Vec<i64>>)
    ensures
        chats@.len() == 0 ==> r is None,
        chats@.len() > 0 ==> (r matches Some(c) && c@ == chats@),
{
    if chats.len() == 0 {
        None
    } else {
        Some(chats)
    }
}

/// The buffer threshold for a batch size: batches hold at least one message.
pub fn batch_threshold(batch_size: i32) -> (r: Option<usize>)
    ensures
        batch_size >= 1 ==> r == Some(batch_size as usize),
        batch_size < 1 ==> r is None,
{
    if batch_size >= 1 {
        Some(batch_size as usize)
    } else {
        None
    }
}

} // verus!
