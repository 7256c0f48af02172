//! The ledger of chats too large to save without the owner's permission, and the
//! owner's replies `{chat id}: yes` or `{chat id}: no`.

use vstd::prelude::*;
use vstd::string::*;
use crate::names::{all_digits, digits_value, is_digit, lemma_digits_value_prefix};
use crate::text::chars_of;

verus! {

#[derive(Clone, Copy, Debug, PartialEq, Eq)]
pub enum ChannelState {
    /// Permission is to be asked.
    ASK,
    /// Permission was asked; no answer yet.
    ASKED,
    /// Save the chat.
    BACKUP,
    /// Do not save the chat.
    SKIP,
}

#[derive(Clone, Debug, PartialEq, Eq)]
pub struct ChannelsStateInfo {
    pub rec: i64,
    pub name: String,
    pub state: ChannelState,
}

/// `t` starts with exactly `k` ASCII digits.
pub open spec fn leading_digits(t: Seq<char>, k: nat) -> bool {
    &&& k <= t.len()
    &&& all_digits(t.subrange(0, k as int))
    &&& (k == t.len() || !is_digit(t[k as int]))
}

pub open spec fn starts_with_at(t: Seq<char>, at: int, w: Seq<char>) -> bool {
    at + w.len() <= t.len() && t.subrange(at, at + w.len()) == w
}

/// The answer written after `k` leading digits: `: yes...` or `: no...`.
pub open spec fn answer_after(t: Seq<char>, k: nat) -> Option<bool> {
    if k + 2 <= t.len() && t[k as int] == ':' && t[(k + 1) as int] == ' ' {
        if starts_with_at(t, (k + 2) as int, seq!['y', 'e', 's']) {
            Some(true)
        } else if starts_with_at(t, (k + 2) as int, seq!['n', 'o']) {
            Some(false)
        } else {
            None
        }
    } else {
        None
    }
}

/// The reply that text `t` makes, given that it starts with `k` digits.
pub open spec fn reply_of(t: Seq<char>, k: nat) -> Option<(i64, bool)> {
    if k >= 1 && answer_after(t, k) is Some && digits_value(t.subrange(0, k as int)) <= i64::MAX {
        Some((digits_value(t.subrange(0, k as int)) as i64, answer_after(t, k)->0))
    } else {
        None
    }
}

fn count_leading_digits(c: &Vec<char>) -> (k: usize)
    ensures
        leading_digits(c@, k as nat),
{
    let mut k: usize = 0;
    while k < c.len() && '0' <= c[k] && c[k] <= '9'
        invariant
            k <= c.len(),
            all_digits(c@.subrange(0, k as int)),
        decreases c.len() - k,
    {
        k = k + 1;
        assert forall|i: int| 0 <= i < k implies is_digit(#[trigger] c@.subrange(0, k as int)[i]) by {
            if i < k - 1 {
                assert(c@.subrange(0, k as int)[i] == c@.subrange(0, k - 1)[i]);
            }
        }
    }
    k
}

fn word_at(c: &Vec<char>, at: usize, w: &str) -> (r: bool)
    ensures
        r == starts_with_at(c@, at as int, w@),
{
    let m = w.unicode_len();
    if at > c.len() || m > c.len() - at {
        return false;
    }
    let mut i: usize = 0;
    while i < m
        invariant
            m == w@.len(),
            at + m <= c.len(),
            i <= m,
            forall|j: int| 0 <= j < i ==> c@[at + j] == w@[j],
        decreases m - i,
    {
        if c[at + i] != w.get_char(i) {
            assert(c@.subrange(at as int, at + m)[i as int] != w@[i as int]);
            return false;
        }
        i = i + 1;
    }
    assert(c@.subrange(at as int, at + m) =~= w@);
    true
}

/// Reads an owner's reply: ASCII digits, `: `, then `yes` or `no`, then anything.
pub fn parse_reply(text: &str) -> (r: Option<(i64, bool)>)
    ensures
        forall|k: nat| leading_digits(text@, k) ==> r == reply_of(text@, k),
{
    proof {
        reveal_strlit("yes");
        reveal_strlit("no");
        assert("yes"@ =~= seq!['y', 'e', 's']);
        assert("no"@ =~= seq!['n', 'o']);
    }
    let c = chars_of(text);
    let k = count_leading_digits(&c);
    proof {
        assert forall|j: nat| leading_digits(c@, j) implies j == k by {
            if j < k {
                assert(c@.subrange(0, k as int)[j as int] == c@[j as int]);
            } else if j > k {
                assert(c@.subrange(0, j as int)[k as int] == c@[k as int]);
            }
        }
    }
    if k == 0 || c.len() - k < 2 || c[k] != ':' || c[k + 1] != ' ' {
        return None;
    }
    let yes = if word_at(&c, k + 2, "yes") {
        true
    } else if word_at(&c, k + 2, "no") {
        false
    } else {
        return None;
    };
    let mut v: u64 = 0;
    let mut i: usize = 0;
    while i < k
        invariant
            k <= c.len(),
            all_digits(c@.subrange(0, k as int)),
            i <= k,
            v == digits_value(c@.subrange(0, i as int)),
            v <= i64::MAX,
            c@ == text@,
            k >= 1,
            answer_after(c@, k as nat) == Some(yes),
            forall|j: nat| leading_digits(c@, j) ==> j == k,
        decreases k - i,
    {
        assert(c@.subrange(0, i as int + 1).drop_last() =~= c@.subrange(0, i as int));
        assert(is_digit(c@.subrange(0, k as int)[i as int]));
        let d = (c[i] as u32 - '0' as u32) as u64;
        assert(c@.subrange(0, i as int + 1).last() == c@[i as int]);
        assert(digits_value(c@.subrange(0, i as int + 1)) == v * 10 + d);
        if v > (i64::MAX as u64 - d) / 10 {
            proof {
                let m = i64::MAX as u64 - d;
                assert(v * 10 + d > i64::MAX) by (nonlinear_arith)
                    requires
                        v > m / 10,
                        m == i64::MAX - d,
                ;
                lemma_digits_value_prefix(c@.subrange(0, k as int), (i + 1) as nat);
                assert(c@.subrange(0, k as int).subrange(0, i + 1) =~= c@.subrange(0, i + 1));
            }
            return None;
        }
        v = v * 10 + d;
        i = i + 1;
    }
    assert(c@.subrange(0, i as int) == c@.subrange(0, k as int));
    Some((v as i64, yes))
}

pub open spec fn answered_state(yes: bool) -> ChannelState {
    if yes {
        ChannelState::BACKUP
    } else {
        ChannelState::SKIP
    }
}

pub open spec fn after_answer(before: ChannelsStateInfo, after: ChannelsStateInfo, rec: i64, yes: bool, applied: bool) -> bool {
    &&& after.rec == before.rec
    &&& after.name == before.name
    &&& after.state == (if applied && before.rec == rec {
        answered_state(yes)
    } else {
        before.state
    })
}

pub open spec fn after_asking(before: ChannelsStateInfo, after: ChannelsStateInfo, applied: bool) -> bool {
    &&& after.rec == before.rec
    &&& after.name == before.name
    &&& after.state == (if applied && before.state == ChannelState::ASK {
        ChannelState::ASKED
    } else {
        before.state
    })
}

/// Applies an answer for chat `rec` to every entry of the ledger for that chat.
pub fn apply_reply(ledger: &mut Vec<ChannelsStateInfo>, rec: i64, yes: bool)
    ensures
        final(ledger)@.len() == old(ledger)@.len(),
        forall|i: int| 0 <= i < old(ledger)@.len() ==> after_answer(old(ledger)@[i], #[trigger] final(ledger)@[i], rec, yes, true),
{
    let mut i: usize = 0;
    while i < ledger.len()
        invariant
            i <= ledger@.len(),
            ledger@.len() == old(ledger)@.len(),
            forall|j: int| 0 <= j < ledger@.len() ==> after_answer(old(ledger)@[j], #[trigger] ledger@[j], rec, yes, j < i),
        decreases ledger.len() - i,
    {
        if ledger[i].rec == rec {
            let state = if yes {
                ChannelState::BACKUP
            } else {
                ChannelState::SKIP
            };
            let entry = ChannelsStateInfo { rec: ledger[i].rec, name: ledger[i].name.clone(), state };
            ledger.set(i, entry);
        }
        i = i + 1;
    }
}

/// Whether a chat may be saved as far as the ledger goes, and what the ledger becomes.
/// A chat the ledger holds is saved only once the owner said yes. A chat not in the
/// ledger is saved unless it has too many participants, in which case it is entered to
/// be asked about.
pub fn permission_gate(
    ledger: &mut Vec<ChannelsStateInfo>,
    rec: i64,
    name: String,
    too_many: bool,
) -> (proceed: bool)
    ensures
        (exists|i: int| 0 <= i < old(ledger)@.len() && #[trigger] old(ledger)@[i].rec == rec) ==> {
            &&& final(ledger)@ == old(ledger)@
            &&& proceed == (old(ledger)@[first_entry(old(ledger)@, rec)].state == ChannelState::BACKUP)
        },
        (forall|i: int| 0 <= i < old(ledger)@.len() ==> #[trigger] old(ledger)@[i].rec != rec) ==> {
            &&& proceed == !too_many
            &&& !too_many ==> final(ledger)@ == old(ledger)@
            &&& too_many ==> final(ledger)@ == old(ledger)@.push(
                ChannelsStateInfo { rec, name, state: ChannelState::ASK },
            )
        },
{
    let mut i: usize = 0;
    while i < ledger.len()
        invariant
            i <= ledger@.len(),
            forall|j: int| 0 <= j < i ==> #[trigger] ledger@[j].rec != rec,
        decreases ledger.len() - i,
    {
        if ledger[i].rec == rec {
            proof {
                lemma_first_entry(ledger@, rec, i as int);
            }
            return match ledger[i].state {
                ChannelState::BACKUP => true,
                _ => false,
            };
        }
        i = i + 1;
    }
    if too_many {
        ledger.push(ChannelsStateInfo { rec, name, state: ChannelState::ASK });
        false
    } else {
        true
    }
}

/// The position of the first entry of the ledger for chat `rec`.
pub open spec fn first_entry(ledger: Seq<ChannelsStateInfo>, rec: i64) -> int {
    choose|i: int| 0 <= i < ledger.len() && ledger[i].rec == rec && forall|j: int| 0 <= j < i ==> ledger[j].rec != rec
}

proof fn lemma_first_entry(ledger: Seq<ChannelsStateInfo>, rec: i64, i: int)
    requires
        0 <= i < ledger.len(),
        ledger[i].rec == rec,
        forall|j: int| 0 <= j < i ==> #[trigger] ledger[j].rec != rec,
    ensures
        first_entry(ledger, rec) == i,
{
    let k = first_entry(ledger, rec);
    assert(0 <= k < ledger.len() && ledger[k].rec == rec && forall|j: int| 0 <= j < k ==> ledger[j].rec != rec);
    if k < i {
        assert(ledger[k].rec != rec);
    } else if k > i {
        assert(ledger[i].rec != rec);
    }
}

/// Marks every entry still to be asked about as asked, and returns their positions,
/// for the caller to send the questions.
pub fn mark_asked(ledger: &mut Vec<ChannelsStateInfo>) -> (asked: Vec<usize>)
    ensures
        final(ledger)@.len() == old(ledger)@.len(),
        forall|i: int| 0 <= i < old(ledger)@.len() ==> after_asking(old(ledger)@[i], #[trigger] final(ledger)@[i], true),
        forall|i: int| 0 <= i < old(ledger)@.len() ==> (old(ledger)@[i].state == ChannelState::ASK <==> asked@.contains(
            i as usize,
        )),
{
    let mut asked: Vec<usize> = Vec::new();
    let mut i: usize = 0;
    while i < ledger.len()
        invariant
            i <= ledger@.len(),
            ledger@.len() == old(ledger)@.len(),
            forall|j: int| 0 <= j < ledger@.len() ==> after_asking(old(ledger)@[j], #[trigger] ledger@[j], j < i),
            forall|j: int| 0 <= j < i ==> (old(ledger)@[j].state == ChannelState::ASK <==> #[trigger] asked@.contains(j as usize)),
            forall|x: usize| asked@.contains(x) ==> x < i,
        decreases ledger.len() - i,
    {
        if let ChannelState::ASK = ledger[i].state {
            let entry = ChannelsStateInfo {
                rec: ledger[i].rec,
                name: ledger[i].name.clone(),
                state: ChannelState::ASKED,
            };
            ledger.set(i, entry);
            let ghost prev = asked@;
            asked.push(i);
            assert(asked@ == prev.push(i));
            assert(asked@.contains(i)) by {
                assert(asked@[prev.len() as int] == i);
            }
            assert forall|x: usize| asked@.contains(x) implies x <= i by {
                let t = choose|t: int| 0 <= t < asked@.len() && asked@[t] == x;
                if t < prev.len() {
                    assert(prev.contains(x));
                }
            }
            assert forall|j: int| 0 <= j < i implies (old(ledger)@[j].state == ChannelState::ASK <==> asked@.contains(
                j as usize,
            )) by {
                if prev.contains(j as usize) {
                    let t = choose|t: int| 0 <= t < prev.len() && prev[t] == j as usize;
                    assert(asked@[t] == j as usize);
                }
                if asked@.contains(j as usize) {
                    let t = choose|t: int| 0 <= t < asked@.len() && asked@[t] == j as usize;
                    if t < prev.len() {
                        assert(prev.contains(j as usize));
                    }
                }
            }
        }
        i = i + 1;
    }
    asked
}

} // verus!
