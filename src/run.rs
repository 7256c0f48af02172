//! Decisions of the account-level loop, and the state it shares across chats.

use vstd::prelude::*;
use vstd::string::*;
use crate::names::{all_digits, digits_value, lemma_digits_value_prefix};
use crate::text::{i64_decimal, join2};

verus! {

/// The state of a run shared by all chats: the chats finished in this run, the number
/// of dialogs the source reported, and the total rate-limit wait so far, in seconds.
pub struct MainMutContext {
    pub already_finished: Vec<i64>,
    pub amount_of_dialogs: Option<usize>,
    pub total_flood_wait: u64,
}

impl MainMutContext {
    pub fn new() -> (r: MainMutContext)
        ensures
            r.already_finished@.len() == 0,
            r.amount_of_dialogs is None,
            r.total_flood_wait == 0,
    {
        MainMutContext { already_finished: Vec::new(), amount_of_dialogs: None, total_flood_wait: 0 }
    }

    /// Whether chat `id` was finished in this run.
    pub fn is_finished(&self, id: i64) -> (r: bool)
        ensures
            r == self.already_finished@.contains(id),
    {
        contains_id(&self.already_finished, id)
    }

    /// Notes that chat `id` is finished in this run.
    pub fn mark_finished(&mut self, id: i64)
        ensures
            final(self).already_finished@ == old(self).already_finished@.push(id),
            final(self).amount_of_dialogs == old(self).amount_of_dialogs,
            final(self).total_flood_wait == old(self).total_flood_wait,
    {
        self.already_finished.push(id);
    }

    /// Notes the number of dialogs, the first time it is known.
    pub fn note_dialogs(&mut self, count: usize)
        ensures
            final(self).amount_of_dialogs == (match old(self).amount_of_dialogs {
                Some(n) => Some(n),
                None => Some(count),
            }),
            final(self).already_finished == old(self).already_finished,
            final(self).total_flood_wait == old(self).total_flood_wait,
    {
        if self.amount_of_dialogs.is_none() {
            self.amount_of_dialogs = Some(count);
        }
    }

    /// Adds a rate-limit wait of `seconds` to the total (which stops at `u64::MAX`) and
    /// returns how long to sleep: exactly `seconds`.
    pub fn on_flood_wait(&mut self, seconds: u32) -> (r: u64)
        ensures
            r == seconds,
            final(self).total_flood_wait == (if old(self).total_flood_wait + seconds <= u64::MAX {
                old(self).total_flood_wait + seconds
            } else {
                u64::MAX as int
            }),
            final(self).already_finished == old(self).already_finished,
            final(self).amount_of_dialogs == old(self).amount_of_dialogs,
    {
        let s = seconds as u64;
        if self.total_flood_wait <= u64::MAX - s {
            self.total_flood_wait = self.total_flood_wait + s;
        } else {
            self.total_flood_wait = u64::MAX;
        }
        s
    }
}

fn contains_id(ids: &Vec<i64>, id: i64) -> (r: bool)
    ensures
        r == ids@.contains(id),
{
    let mut i: usize = 0;
    while i < ids.len()
        invariant
            i <= ids.len(),
            forall|j: int| 0 <= j < i ==> ids@[j] != id,
        decreases ids.len() - i,
    {
        if ids[i] == id {
            return true;
        }
        i = i + 1;
    }
    false
}

/// Whether a chat is saved in this run: it is on the include list (when there is one),
/// not on the exclude list, not finished yet in this run, and not a broadcast channel.
pub open spec fn chat_selected(
    included: Option<Seq<i64>>,
    excluded: Seq<i64>,
    finished: Seq<i64>,
    id: i64,
    is_channel: bool,
) -> bool {
    &&& (included matches Some(inc) ==> inc.contains(id))
    &&& !excluded.contains(id)
    &&& !finished.contains(id)
    &&& !is_channel
}

pub open spec fn opt_ids(v: &Option<Vec<i64>>) -> Option<Seq<i64>> {
    match v {
        Some(x) => Some(x@),
        None => None,
    }
}

/// Decides whether chat `id` is saved; see `chat_selected`.
pub fn select_chat(
    included: &Option<Vec<i64>>,
    excluded: &Vec<i64>,
    run: &MainMutContext,
    id: i64,
    is_channel: bool,
) -> (r: bool)
    ensures
        r == chat_selected(opt_ids(included), excluded@, run.already_finished@, id, is_channel),
{
    if let Some(inc) = included {
        if !contains_id(inc, id) {
            return false;
        }
    }
    !contains_id(excluded, id) && !run.is_finished(id) && !is_channel
}

/// Whether a chat has more participants than the ceiling allows (a negative ceiling
/// means none).
pub fn too_many_participants(max_participants: i32, participants: usize) -> (r: bool)
    ensures
        r == (max_participants >= 0 && participants > max_participants),
{
    max_participants >= 0 && participants > max_participants as usize
}

/// The pause before connection attempt number `attempt + 1`, after `attempt` failures:
/// 5 s per attempt below 5, 10 s per attempt below 10; `None` means give up.
pub fn reconnect_delay(attempt: u64) -> (r: Option<u64>)
    ensures
        attempt < 5 ==> r == Some((attempt * 5) as u64),
        5 <= attempt < 10 ==> r == Some((attempt * 10) as u64),
        attempt >= 10 ==> r is None,
{
    if attempt < 5 {
        Some(attempt * 5)
    } else if attempt < 10 {
        Some(attempt * 10)
    } else {
        None
    }
}

/// Whether the session must be created first: its path could not be resolved
/// (`None`), or no file lies there.
pub fn need_auth(session_file_exists: Option<bool>) -> (r: bool)
    ensures
        r == !(session_file_exists == Some(true)),
{
    match session_file_exists {
        Some(exists) => !exists,
        None => true,
    }
}

/// Relies on shellexpand's `tilde`: it replaces a leading `~` that stands alone or
/// before `/` by the home directory, and returns any other string unchanged.
#[verifier::external_body]
fn expand_tilde(s: &str) -> (r: String)
    ensures
        !(s@.len() > 0 && s@[0] == '~') ==> r@ == s@,
        s@.len() > 1 && s@[0] == '~' && s@[1] != '/' && s@[1] != '\\' ==> r@ == s@,
{
    shellexpand::tilde(s).into_owned()
}

pub open spec fn default_output() -> Seq<char> {
    "backup"@
}

/// The output directory: the given one with `~` expanded, or `backup`.
pub fn path_or_default_output(folder: &Option<String>) -> (r: String)
    ensures
        match folder {
            Some(f) => !(f@.len() > 0 && f@[0] == '~') ==> r@ == f@,
            None => r@ == default_output(),
        },
{
    match folder {
        Some(f) => expand_tilde(f.as_str()),
        None => String::from_str("backup"),
    }
}


/// How a chat is named on disk: `{name}.{username}` for a person (`NO_USERNAME` where
/// there is none), the bare name for a group.
pub fn visual_id(name: &str, is_user: bool, username: Option<&str>) -> (r: String)
    ensures
        !is_user ==> r@ == name@,
        is_user ==> r@ == name@ + "."@ + (match username {
            Some(u) => u@,
            None => "NO_USERNAME"@,
        }),
{
    if !is_user {
        return String::from_str(name);
    }
    let mut r = join2(name, ".");
    match username {
        Some(u) => r.append(u),
        None => r.append("NO_USERNAME"),
    }
    r
}

/// A chat's directory: `{output}/chats/{id}.{visual_id}`.
pub fn chat_dir(output: &str, id: i64, visual: &str) -> (r: String)
    ensures
        r@ == output@ + "/chats/"@ + crate::text::signed_decimal(id as int) + "."@ + visual@,
{
    let mut r = join2(output, "/chats/");
    let n = i64_decimal(id);
    r.append(n.as_str());
    r.append(".");
    r.append(visual);
    r
}

/// The messages still to load for progress reporting: those the source counts less
/// those earlier passes saved, and none where earlier passes saved more.
pub fn messages_to_load(total: usize, already_loaded: usize) -> (r: usize)
    ensures
        r == (if total >= already_loaded {
            total - already_loaded
        } else {
            0
        }),
{
    if total >= already_loaded {
        total - already_loaded
    } else {
        0
    }
}

/// The process id written in a lock file: its ASCII digits, or 0 where the text is
/// anything else or too large.
pub fn parse_pid(text: &str) -> (r: u32)
    ensures
        all_digits(text@) && text@.len() > 0 && digits_value(text@) <= u32::MAX ==> r == digits_value(text@),
        !(all_digits(text@) && text@.len() > 0) ==> r == 0,
{
    let n = text.unicode_len();
    if n == 0 {
        return 0;
    }
    let mut v: u64 = 0;
    let mut i: usize = 0;
    while i < n
        invariant
            n == text@.len(),
            i <= n,
            all_digits(text@.subrange(0, i as int)),
            v == digits_value(text@.subrange(0, i as int)),
            v <= u32::MAX,
        decreases n - i,
    {
        let c = text.get_char(i);
        assert(text@.subrange(0, i as int + 1).drop_last() =~= text@.subrange(0, i as int));
        if !('0' <= c && c <= '9') {
            assert(text@[i as int] == c);
            return 0;
        }
        let d = (c as u32 - '0' as u32) as u64;
        assert(text@.subrange(0, i as int + 1).last() == c);
        if v * 10 + d > u32::MAX as u64 {
            proof {
                if all_digits(text@) {
                    lemma_digits_value_prefix(text@, (i + 1) as nat);
                }
            }
            return 0;
        }
        v = v * 10 + d;
        i = i + 1;
        assert(all_digits(text@.subrange(0, i as int))) by {
            assert forall|j: int| 0 <= j < i implies crate::names::is_digit(#[trigger] text@.subrange(0, i as int)[j]) by {
                if j < i - 1 {
                    assert(text@.subrange(0, i as int)[j] == text@.subrange(0, i - 1)[j]);
                }
            }
        }
    }
    assert(text@.subrange(0, n as int) =~= text@);
    v as u32
}

/// Whether this instance may start: not while another live process holds the lock.
pub fn instance_may_start(lock_exists: bool, holder_alive: bool) -> (r: bool)
    ensures
        r == !(lock_exists && holder_alive),
{
    !(lock_exists && holder_alive)
}

/// How many of the oldest log files to delete before a new one is started, so that
/// with it at most `keep_last_n` remain (at least the new one).
pub fn logs_to_remove(existing: usize, keep_last_n: usize) -> (r: usize)
    ensures
        keep_last_n >= 1 && existing > keep_last_n - 1 ==> r == existing - (keep_last_n - 1),
        keep_last_n >= 1 && existing <= keep_last_n - 1 ==> r == 0,
        keep_last_n == 0 ==> r == existing,
{
    let keep_old = if keep_last_n >= 1 { keep_last_n - 1 } else { 0 };
    if existing > keep_old {
        existing - keep_old
    } else {
        0
    }
}

} // verus!
