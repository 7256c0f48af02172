//! The durable in-progress marker of a chat's current pass.

use vstd::prelude::*;
use vstd::string::*;
use crate::attachment::RetryBudget;

verus! {

/// Where a chat's pass stands: the instant and message to page back from, the bound at
/// which it ends, its counters, and the retry budget of a failing attachment.
#[derive(Clone, Copy, Debug, PartialEq, Eq)]
pub struct InProgressInfo {
    pub extract_from: i64,
    pub extract_until: Option<i64>,
    pub last_loaded_id: Option<i32>,
    pub accumulator_counter: i32,
    pub messages_counter: i32,
    pub file_issue: i64,
    pub file_issue_count: i32,
}

impl InProgressInfo {
    pub fn create(
        extract_from: i64,
        extract_until: Option<i64>,
        last_loaded_id: Option<i32>,
        messages_counter: i32,
        accumulator_counter: i32,
        budget: RetryBudget,
    ) -> (r: InProgressInfo)
        ensures
            r == (InProgressInfo {
                extract_from,
                extract_until,
                last_loaded_id,
                accumulator_counter,
                messages_counter,
                file_issue: budget.file_issue,
                file_issue_count: budget.file_issue_count,
            }),
    {
        InProgressInfo {
            extract_from,
            extract_until,
            last_loaded_id,
            accumulator_counter,
            messages_counter,
            file_issue: budget.file_issue,
            file_issue_count: budget.file_issue_count,
        }
    }

    pub open spec fn budget(&self) -> RetryBudget {
        RetryBudget { file_issue: self.file_issue, file_issue_count: self.file_issue_count }
    }
}

pub open spec fn checkpoint_file_name() -> Seq<char> {
    "in_progress.json"@
}

/// The location of a chat's checkpoint file.
pub struct InProgress {
    pub path: String,
}

impl InProgress {
    /// The checkpoint of the chat directory `path`: `{path}/in_progress.json`.
    pub fn create(path: &str) -> (r: InProgress)
        ensures
            r.path@ == path@ + seq!['/'] + checkpoint_file_name(),
    {
        proof {
            reveal_strlit("/");
            assert("/"@ =~= seq!['/']);
        }
        let mut p = String::from_str(path);
        p.append("/");
        p.append("in_progress.json");
        InProgress { path: p }
    }
}

} // verus!
