//! An in-memory message source, newest message first, for embedding and tests.

use vstd::prelude::*;
use crate::attachment::Media;
use crate::types::MessageInfo;

verus! {

/// A message as a source yields it: its record (without attachment) and its media.
#[derive(Clone, Debug, PartialEq, Eq)]
pub struct TestDMessage {
    pub message: MessageInfo,
    pub media: Option<Media>,
}

/// A cursor over a chat's messages, newest first.
pub struct TestDMsgIter {
    /// The messages still to come, oldest first: the next one is the last.
    pending: Vec<TestDMessage>,
    total: usize,
}

pub open spec fn ids_after(messages: Seq<TestDMessage>, offset_id: Option<i32>) -> Seq<TestDMessage>
    decreases messages.len(),
{
    match offset_id {
        None => messages,
        Some(id) => if messages.len() == 0 {
            messages
        } else if messages[0].message.id == id {
            messages.drop_first()
        } else {
            ids_after(messages.drop_first(), offset_id)
        },
    }
}

pub open spec fn distinct_ids(messages: Seq<TestDMessage>) -> bool {
    forall|i: int, j: int|
        0 <= i < messages.len() && 0 <= j < messages.len() && i != j ==> #[trigger] messages[i].message.id
            != #[trigger] messages[j].message.id
}

/// A pass that stopped after sealing the first `k` messages of a source with distinct ids
/// resumes after the `k`-th: what it fetches is exactly the rest, so the two passes
/// together cover the source, each message once.
pub proof fn lemma_resume_fetches_the_rest(messages: Seq<TestDMessage>, k: int)
    requires
        distinct_ids(messages),
        1 <= k <= messages.len(),
    ensures
        ids_after(messages, Some(messages[k - 1].message.id)) == messages.subrange(k, messages.len() as int),
        messages.subrange(0, k) + ids_after(messages, Some(messages[k - 1].message.id)) == messages,
    decreases messages.len(),
{
    let id = messages[k - 1].message.id;
    if k == 1 {
        assert(messages.drop_first() =~= messages.subrange(1, messages.len() as int));
    } else {
        assert(messages[0].message.id != id);
        let rest = messages.drop_first();
        assert(distinct_ids(rest)) by {
            assert forall|i: int, j: int| 0 <= i < rest.len() && 0 <= j < rest.len() && i != j implies #[trigger] rest[i].message.id
                != #[trigger] rest[j].message.id by {
                assert(rest[i] == messages[i + 1] && rest[j] == messages[j + 1]);
            }
        }
        assert(rest[k - 2] == messages[k - 1]);
        lemma_resume_fetches_the_rest(rest, k - 1);
        assert(rest.subrange(k - 1, rest.len() as int) =~= messages.subrange(k, messages.len() as int));
    }
    assert(messages.subrange(0, k) + messages.subrange(k, messages.len() as int) =~= messages);
}

impl TestDMsgIter {
    /// What the cursor still yields, in order.
    pub closed spec fn remaining(&self) -> Seq<TestDMessage> {
        self.pending@.reverse()
    }

    /// A cursor over `messages` (newest first). With `offset_id`, it starts after the
    /// message with that id; where no message has it, it yields nothing.
    pub fn new(messages: Vec<TestDMessage>, offset_id: Option<i32>) -> (r: TestDMsgIter)
        ensures
            r.remaining() == ids_after(messages@, offset_id),
            r.total() == messages@.len(),
    {
        let total = messages.len();
        let mut rest = messages;
        let mut pending: Vec<TestDMessage> = Vec::new();
        let ghost all = rest@;
        // `rest` holds the oldest messages not yet moved, newest first; `pending` holds
        // the moved ones, oldest first.
        while rest.len() > 0
            invariant
                all == rest@ + pending@.reverse(),
            decreases rest.len(),
        {
            let ghost before = rest@;
            let m = rest.pop().unwrap();
            let ghost p = pending@;
            pending.push(m);
            assert(pending@.reverse() =~= seq![m] + p.reverse());
            assert(before =~= rest@.push(m));
        }
        assert(all =~= pending@.reverse());
        let mut it = TestDMsgIter { pending, total };
        if let Some(id) = offset_id {
            let mut found = false;
            while !found && it.pending.len() > 0
                invariant
                    ids_after(all, offset_id) == (if found {
                        it.pending@.reverse()
                    } else {
                        ids_after(it.pending@.reverse(), offset_id)
                    }),
                    offset_id == Some(id),
                    it.total == total,
                decreases it.pending.len(),
            {
                let ghost before = it.pending@.reverse();
                let m = it.pending.pop().unwrap();
                assert(before =~= seq![m] + it.pending@.reverse());
                assert(before[0] == m);
                assert(before.drop_first() =~= it.pending@.reverse());
                if m.message.id == id {
                    found = true;
                }
            }
            if !found {
                assert(it.pending@.reverse() =~= Seq::<TestDMessage>::empty());
            }
        }
        it
    }

    pub closed spec fn total(&self) -> usize {
        self.total
    }

    /// The number of messages of the chat.
    pub fn total_count(&self) -> (r: usize)
        ensures
            r == self.total(),
    {
        self.total
    }

    /// The next message, if any.
    pub fn next(&mut self) -> (r: Option<TestDMessage>)
        ensures
            old(self).remaining().len() == 0 ==> r is None && final(self).remaining().len() == 0,
            old(self).remaining().len() > 0 ==> r == Some(old(self).remaining()[0]) && final(self).remaining()
                == old(self).remaining().drop_first(),
            final(self).total() == old(self).total(),
    {
        let ghost before = self.pending@;
        let r = self.pending.pop();
        proof {
            if before.len() > 0 {
                assert(before =~= self.pending@.push(r->0));
                assert(before.reverse() =~= seq![r->0] + self.pending@.reverse());
                assert(before.reverse().drop_first() =~= self.pending@.reverse());
            }
        }
        r
    }
}

} // verus!
