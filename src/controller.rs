//! The per-chat extraction state machine. It decides; the caller fetches messages,
//! transfers attachments and applies each `Step` to the chat directory: first the
//! batch file (`FlushPlan`), then the checkpoint action.

use vstd::prelude::*;
use vstd::multiset::Multiset;
use vstd::string::*;
use crate::attachment::{after_failure, exhausted, RetryBudget};
use crate::batch::{
    all_valid_dates, free_after_replace, lemma_reseal_keeps_partial_file, opt_view, sealed, sealed_from,
    sorted_by_date, BatchAccumulator, FlushPlan,
};
use crate::dates::day_stamp_of;
use crate::names::{candidate_name, first_free, views};
use crate::checkpoint::InProgressInfo;
use crate::dates::valid_timestamp;
use crate::text::join2;
use crate::types::{Attachment, ChatInfo, MessageInfo};

verus! {

/// The window of one chat's pass, decided before paging starts.
#[derive(Clone, Copy, Debug, PartialEq, Eq)]
pub struct WindowPlan {
    /// Page back from this instant ...
    pub extract_from: i64,
    /// ... and from after this message, where set.
    pub last_loaded_id: Option<i32>,
    /// The pass ends at the first message earlier than this instant.
    pub extract_until: Option<i64>,
    pub messages_counter: i32,
    pub accumulator_counter: i32,
    pub budget: RetryBudget,
    /// The `loaded_up_to` that the chat's summary records for this pass.
    pub global_loading_from: i64,
    /// Messages that earlier passes saved, for progress reporting.
    pub already_loaded: usize,
    /// The checkpoint to write before paging; none when resuming from one.
    pub fresh_checkpoint: Option<InProgressInfo>,
}

pub open spec fn fresh_plan(run_date: i64, until: Option<i64>, already_loaded: usize) -> WindowPlan {
    WindowPlan {
        extract_from: run_date,
        last_loaded_id: None,
        extract_until: until,
        messages_counter: 0,
        accumulator_counter: 0,
        budget: RetryBudget { file_issue: 0, file_issue_count: 0 },
        global_loading_from: run_date,
        already_loaded,
        fresh_checkpoint: Some(
            InProgressInfo {
                extract_from: run_date,
                extract_until: until,
                last_loaded_id: None,
                accumulator_counter: 0,
                messages_counter: 0,
                file_issue: 0,
                file_issue_count: 0,
            },
        ),
    }
}

/// The window of a pass started at `run_date`. A checkpoint is resumed as it stands;
/// without one, a chat that a complete pass already covered is paged down to that pass's
/// `loaded_up_to` only; a chat never saved is paged through all its history.
pub open spec fn planned_window(run_date: i64, info: Option<ChatInfo>, checkpoint: Option<InProgressInfo>) -> WindowPlan {
    match checkpoint {
        Some(c) => WindowPlan {
            extract_from: c.extract_from,
            last_loaded_id: c.last_loaded_id,
            extract_until: c.extract_until,
            messages_counter: c.messages_counter,
            accumulator_counter: c.accumulator_counter,
            budget: c.budget(),
            global_loading_from: match info {
                Some(i) => i.loaded_up_to,
                None => run_date,
            },
            already_loaded: 0,
            fresh_checkpoint: None,
        },
        None => match info {
            Some(i) => fresh_plan(run_date, Some(i.loaded_up_to), i.total_messages),
            None => fresh_plan(run_date, None, 0),
        },
    }
}

/// Decides the window of a chat's pass; see `planned_window`.
pub fn plan_window(run_date: i64, info: &Option<ChatInfo>, checkpoint: Option<InProgressInfo>) -> (r: WindowPlan)
    ensures
        r == planned_window(run_date, *info, checkpoint),
{
    match checkpoint {
        Some(c) => {
            let global_loading_from = match info {
                Some(i) => i.loaded_up_to,
                None => run_date,
            };
            WindowPlan {
                extract_from: c.extract_from,
                last_loaded_id: c.last_loaded_id,
                extract_until: c.extract_until,
                messages_counter: c.messages_counter,
                accumulator_counter: c.accumulator_counter,
                budget: RetryBudget { file_issue: c.file_issue, file_issue_count: c.file_issue_count },
                global_loading_from,
                already_loaded: 0,
                fresh_checkpoint: None,
            }
        },
        None => {
            let (until, already_loaded) = match info {
                Some(i) => (Some(i.loaded_up_to), i.total_messages),
                None => (None, 0),
            };
            let budget = RetryBudget { file_issue: 0, file_issue_count: 0 };
            WindowPlan {
                extract_from: run_date,
                last_loaded_id: None,
                extract_until: until,
                messages_counter: 0,
                accumulator_counter: 0,
                budget,
                global_loading_from: run_date,
                already_loaded,
                fresh_checkpoint: Some(InProgressInfo::create(run_date, until, None, 0, 0, budget)),
            }
        },
    }
}

/// What the caller does with the checkpoint after applying a step's batch.
#[derive(Clone, Copy, Debug, PartialEq, Eq)]
pub enum CheckpointAction {
    Keep,
    Write(InProgressInfo),
    Remove,
}

/// How the pass goes on after a step.
#[derive(Clone, Copy, Debug, PartialEq, Eq)]
pub enum Outcome {
    /// Fetch the next message.
    Continue,
    /// The chat is fully saved for this pass.
    Completed,
    /// An attachment failed within its retry budget: stop, and retry the whole run.
    Aborted,
    /// The source failed: stop this chat and go on with the others.
    Stopped,
}

/// One decision: a batch to seal, if any, then a checkpoint action.
#[derive(Debug)]
pub struct Step {
    pub flush: Option<FlushPlan>,
    pub checkpoint: CheckpointAction,
    pub outcome: Outcome,
}

/// The result of an attachment's transfer, as the caller saw it.
#[derive(Clone, Debug, PartialEq, Eq)]
pub enum TransferResult {
    /// No transfer was needed; the attachment, if any, is final.
    NotNeeded(Option<Attachment>),
    /// The transfer succeeded; the message carries `attachment`.
    Done(Attachment),
    /// The transfer of remote file `id` failed with `error`.
    Failed { id: i64, error: String },
}

/// The state of one chat's pass.
pub struct ChatExtraction {
    pub batch: BatchAccumulator,
    pub extract_from: i64,
    pub extract_until: Option<i64>,
    pub last_loaded_id: Option<i32>,
    pub messages_counter: i32,
    pub budget: RetryBudget,
    /// The id and date of the last message recorded in this pass.
    pub last_message: Option<(i32, i64)>,
    pub global_loading_from: i64,
    pub outcome: Outcome,
    /// The records the buffer started with, from a partly filled batch file.
    pub initial: Ghost<Seq<MessageInfo>>,
    /// The records of this pass, in the order they were recorded.
    pub recorded: Ghost<Seq<MessageInfo>>,
    /// The records of the batches this pass sealed, in order.
    pub sealed: Ghost<Seq<MessageInfo>>,
}

/// Whether a message of `date` lies past the window's end.
pub open spec fn past_window(until: Option<i64>, date: i64) -> bool {
    until matches Some(u) && date < u
}

pub open spec fn saturating_inc(n: i32) -> i32 {
    if n < i32::MAX {
        (n + 1) as i32
    } else {
        n
    }
}

/// Whether a message with this transfer result stops the pass: a failed transfer
/// while the retry budget lasts.
pub open spec fn aborts(budget: RetryBudget, transfer: TransferResult) -> bool {
    transfer matches TransferResult::Failed { id, .. } && !exhausted(after_failure(budget, id))
}

/// The records of a step's batch; none where it seals nothing.
pub open spec fn flushed(flush: Option<FlushPlan>) -> Seq<MessageInfo> {
    match flush {
        Some(p) => p.records@,
        None => Seq::empty(),
    }
}

/// `flush` seals the whole buffer of `before` (nothing where it is empty), and `after`
/// is `before` with an empty buffer and those records added to the sealed ones.
pub open spec fn seals_buffer(before: ChatExtraction, after: ChatExtraction, flush: Option<FlushPlan>) -> bool {
    &&& (flush is None <==> before.batch.messages@.len() == 0)
    &&& (flush is None ==> after.batch == before.batch)
    &&& (flush matches Some(p) ==> sealed(before.batch, after.batch, p))
    &&& after.batch.messages@.len() == 0
    &&& after.sealed@ == before.sealed@ + flushed(flush)
    &&& after.recorded == before.recorded
    &&& after.initial == before.initial
}

/// The window and progress of `after` are those of `before`.
pub open spec fn same_progress(before: ChatExtraction, after: ChatExtraction) -> bool {
    &&& after.extract_from == before.extract_from
    &&& after.extract_until == before.extract_until
    &&& after.last_loaded_id == before.last_loaded_id
    &&& after.last_message == before.last_message
    &&& after.messages_counter == before.messages_counter
    &&& after.budget == before.budget
    &&& after.global_loading_from == before.global_loading_from
}

/// `a` is the attachment that a recorded message carries after `transfer`: the final
/// one, the transferred one, or an error naming the failure.
pub open spec fn attachment_after(transfer: TransferResult, a: Option<Attachment>) -> bool {
    match transfer {
        TransferResult::NotNeeded(x) => a == x,
        TransferResult::Done(x) => a == Some(x),
        TransferResult::Failed { error, .. } => (a matches Some(Attachment::Error(e)) && e@ == "Cannot load: "@
            + error@),
    }
}

impl ChatExtraction {
    /// The records sealed so far and those still buffered are exactly the starting
    /// records and those recorded in this pass: nothing is lost or sealed twice.
    pub open spec fn wf(&self) -> bool {
        &&& self.consistent()
        &&& self.batch.messages@.len() < self.batch.batch_size
    }

    pub open spec fn consistent(&self) -> bool {
        &&& self.batch.wf()
        &&& self.sealed@.to_multiset().add(self.batch.messages@.to_multiset()) == self.initial@.to_multiset().add(
            self.recorded@.to_multiset(),
        )
    }

    /// The checkpoint that records this pass's progress.
    pub open spec fn progress(&self) -> InProgressInfo {
        InProgressInfo {
            extract_from: match self.last_message {
                Some((_, d)) => d,
                None => self.extract_from,
            },
            extract_until: self.extract_until,
            last_loaded_id: match self.last_message {
                Some((id, _)) => Some(id),
                None => self.last_loaded_id,
            },
            accumulator_counter: self.batch.accumulator_counter,
            messages_counter: self.messages_counter,
            file_issue: self.budget.file_issue,
            file_issue_count: self.budget.file_issue_count,
        }
    }

    /// Starts a pass with window `plan` and buffer `batch`.
    pub fn start(plan: WindowPlan, batch: BatchAccumulator) -> (r: ChatExtraction)
        requires
            batch.wf(),
            batch.messages@.len() < batch.batch_size,
        ensures
            r.wf(),
            r.outcome == Outcome::Continue,
            r.extract_from == plan.extract_from,
            r.extract_until == plan.extract_until,
            r.last_loaded_id == plan.last_loaded_id,
            r.messages_counter == plan.messages_counter,
            r.budget == plan.budget,
            r.global_loading_from == plan.global_loading_from,
            r.last_message is None,
            r.batch.messages@ == batch.messages@,
            r.batch.batch_size == batch.batch_size,
            r.batch.accumulator_counter == plan.accumulator_counter,
            r.initial@ == batch.messages@,
            r.recorded@.len() == 0,
            r.sealed@.len() == 0,
    {
        let ghost initial = batch.messages@;
        let mut batch = batch;
        batch.accumulator_counter = plan.accumulator_counter;
        let r = ChatExtraction {
            batch,
            extract_from: plan.extract_from,
            extract_until: plan.extract_until,
            last_loaded_id: plan.last_loaded_id,
            messages_counter: plan.messages_counter,
            budget: plan.budget,
            last_message: None,
            global_loading_from: plan.global_loading_from,
            outcome: Outcome::Continue,
            initial: Ghost(initial),
            recorded: Ghost(Seq::empty()),
            sealed: Ghost(Seq::empty()),
        };
        proof {
            broadcast use vstd::seq_lib::group_to_multiset_ensures, vstd::multiset::group_multiset_properties,
                vstd::multiset::group_multiset_axioms;

            assert(r.sealed@.to_multiset() =~= Multiset::empty());
            assert(r.recorded@.to_multiset() =~= Multiset::empty());
            assert(r.sealed@.to_multiset().add(r.batch.messages@.to_multiset()) =~= r.initial@.to_multiset().add(
                r.recorded@.to_multiset(),
            ));
        }
        r
    }

    /// Seals whatever is buffered, keeping the record of what was sealed.
    fn seal_all(&mut self) -> (r: Option<FlushPlan>)
        requires
            old(self).consistent(),
        ensures
            final(self).wf(),
            seals_buffer(*old(self), *final(self), r),
            same_progress(*old(self), *final(self)),
            final(self).outcome == old(self).outcome,
    {
        let ghost before = self.batch.messages@;
        let r = self.batch.force_flush();
        proof {
            broadcast use vstd::seq_lib::group_to_multiset_ensures, vstd::multiset::group_multiset_properties,
                vstd::multiset::group_multiset_axioms;

            if let Some(p) = &r {
                vstd::seq_lib::lemma_multiset_commutative(self.sealed@, p.records@);
                self.sealed@ = self.sealed@ + p.records@;
                assert(self.batch.messages@.to_multiset() =~= Multiset::empty());
                assert(self.sealed@.to_multiset().add(self.batch.messages@.to_multiset()) =~= self.initial@.to_multiset().add(
                    self.recorded@.to_multiset(),
                ));
            } else {
                assert(self.sealed@ + Seq::<MessageInfo>::empty() =~= self.sealed@);
            }
        }
        r
    }

    /// Ends the pass with the chat fully saved: the rest of the buffer is sealed and the
    /// checkpoint removed.
    pub fn finish(&mut self) -> (r: Step)
        requires
            old(self).wf(),
        ensures
            final(self).wf(),
            r.outcome == Outcome::Completed,
            final(self).outcome == Outcome::Completed,
            r.checkpoint == CheckpointAction::Remove,
            seals_buffer(*old(self), *final(self), r.flush),
            same_progress(*old(self), *final(self)),
    {
        let flush = self.seal_all();
        self.outcome = Outcome::Completed;
        Step { flush, checkpoint: CheckpointAction::Remove, outcome: Outcome::Completed }
    }

    /// Looks at the date of the next message: one earlier than the window's end
    /// completes the pass (see `finish`); otherwise nothing happens and `None` comes back.
    pub fn on_message_date(&mut self, date: i64) -> (r: Option<Step>)
        requires
            old(self).wf(),
        ensures
            final(self).wf(),
            past_window(old(self).extract_until, date) <==> r is Some,
            r is None ==> *final(self) == *old(self),
            r matches Some(s) ==> {
                &&& s.outcome == Outcome::Completed
                &&& final(self).outcome == Outcome::Completed
                &&& s.checkpoint == CheckpointAction::Remove
                &&& seals_buffer(*old(self), *final(self), s.flush)
                &&& same_progress(*old(self), *final(self))
            },
    {
        if let Some(until) = self.extract_until {
            if date < until {
                return Some(self.finish());
            }
        }
        None
    }

    /// The source has no more messages: the pass is complete (see `finish`).
    pub fn end_of_history(&mut self) -> (r: Step)
        requires
            old(self).wf(),
        ensures
            final(self).wf(),
            r.outcome == Outcome::Completed,
            final(self).outcome == Outcome::Completed,
            r.checkpoint == CheckpointAction::Remove,
            seals_buffer(*old(self), *final(self), r.flush),
            same_progress(*old(self), *final(self)),
    {
        self.finish()
    }

    /// The source failed: the progress so far is checkpointed (where a message was
    /// recorded in this pass), the buffer sealed, and the chat left for a later pass.
    pub fn on_source_error(&mut self) -> (r: Step)
        requires
            old(self).wf(),
        ensures
            final(self).wf(),
            r.outcome == Outcome::Stopped,
            final(self).outcome == Outcome::Stopped,
            old(self).last_message is Some ==> r.checkpoint == CheckpointAction::Write(final(self).progress()),
            old(self).last_message is None ==> r.checkpoint == CheckpointAction::Keep,
            seals_buffer(*old(self), *final(self), r.flush),
            same_progress(*old(self), *final(self)),
    {
        let flush = self.seal_all();
        self.outcome = Outcome::Stopped;
        let checkpoint = if self.last_message.is_some() {
            CheckpointAction::Write(self.progress_exec())
        } else {
            CheckpointAction::Keep
        };
        Step { flush, checkpoint, outcome: Outcome::Stopped }
    }

    fn progress_exec(&self) -> (r: InProgressInfo)
        ensures
            r == self.progress(),
    {
        let (from, id) = match self.last_message {
            Some((id, d)) => (d, Some(id)),
            None => (self.extract_from, self.last_loaded_id),
        };
        InProgressInfo::create(
            from,
            self.extract_until,
            id,
            self.messages_counter,
            self.batch.accumulator_counter,
            self.budget,
        )
    }

    /// Records the next message (whose date lies within the window) with the result of
    /// its attachment's transfer.
    ///
    /// A failed transfer spends the retry budget. While it lasts, the pass stops: the
    /// buffer is sealed and the checkpoint points at the last message recorded, so that a
    /// later pass fetches this message again. Once spent, the message is recorded with an
    /// error in place of its attachment.
    ///
    /// A recorded message is buffered; a full buffer is sealed into a batch of exactly
    /// the batch size, and the checkpoint then points at this message.
    pub fn accept(&mut self, message: MessageInfo, transfer: TransferResult) -> (r: Step)
        requires
            old(self).wf(),
            valid_timestamp(message.date as int),
            !past_window(old(self).extract_until, message.date),
        ensures
            final(self).wf(),
            final(self).batch.batch_size == old(self).batch.batch_size,
            final(self).extract_from == old(self).extract_from,
            final(self).extract_until == old(self).extract_until,
            final(self).last_loaded_id == old(self).last_loaded_id,
            final(self).global_loading_from == old(self).global_loading_from,
            final(self).initial == old(self).initial,
            match transfer {
                TransferResult::Failed { id, .. } => final(self).budget == after_failure(old(self).budget, id),
                _ => final(self).budget == old(self).budget,
            },
            aborts(old(self).budget, transfer) ==> {
                &&& r.outcome == Outcome::Aborted
                &&& final(self).outcome == Outcome::Aborted
                &&& r.checkpoint == CheckpointAction::Write(final(self).progress())
                &&& final(self).last_message == old(self).last_message
                &&& final(self).messages_counter == old(self).messages_counter
                &&& seals_buffer(*old(self), *final(self), r.flush)
            },
            !aborts(old(self).budget, transfer) ==> {
                &&& r.outcome == Outcome::Continue
                &&& final(self).outcome == old(self).outcome
                &&& final(self).last_message == Some((message.id, message.date))
                &&& final(self).messages_counter == saturating_inc(old(self).messages_counter)
                &&& final(self).recorded@ == old(self).recorded@.push(final(self).recorded@.last())
                &&& final(self).recorded@.last() == (MessageInfo {
                    attachment: final(self).recorded@.last().attachment,
                    ..message
                })
                &&& attachment_after(transfer, final(self).recorded@.last().attachment)
                &&& (r.flush is Some <==> old(self).batch.messages@.len() + 1 == old(self).batch.batch_size)
            },
            !aborts(old(self).budget, transfer) && r.flush is None ==> {
                &&& final(self).batch.messages@ == old(self).batch.messages@.push(final(self).recorded@.last())
                &&& final(self).batch.taken == old(self).batch.taken
                &&& final(self).batch.initial_file == old(self).batch.initial_file
                &&& final(self).batch.accumulator_counter == old(self).batch.accumulator_counter
                &&& final(self).sealed == old(self).sealed
                &&& r.checkpoint == CheckpointAction::Keep
            },
            !aborts(old(self).budget, transfer) ==> (r.flush matches Some(p) ==> {
                &&& sealed_from(
                    old(self).batch.messages@.push(final(self).recorded@.last()),
                    old(self).batch.taken@,
                    old(self).batch.initial_file,
                    old(self).batch.accumulator_counter,
                    old(self).batch.batch_size,
                    final(self).batch,
                    p,
                )
                &&& final(self).sealed@ == old(self).sealed@ + p.records@
                &&& p.records@.len() == old(self).batch.batch_size
                &&& r.checkpoint == CheckpointAction::Write(
                    InProgressInfo { messages_counter: old(self).messages_counter, ..final(self).progress() },
                )
            }),
    {
        let attachment = match transfer {
            TransferResult::NotNeeded(a) => a,
            TransferResult::Done(a) => Some(a),
            TransferResult::Failed { id, error } => {
                let give_up = self.budget.register_failure(id);
                if !give_up {
                    let flush = self.seal_all();
                    self.outcome = Outcome::Aborted;
                    let info = self.progress_exec();
                    return Step { flush, checkpoint: CheckpointAction::Write(info), outcome: Outcome::Aborted };
                }
                Some(Attachment::Error(join2("Cannot load: ", error.as_str())))
            },
        };
        let (id, date) = (message.id, message.date);
        let record = message.with_attachment(attachment);
        let ghost rec = record;
        let ghost before = self.batch.messages@;
        self.batch.append(record);
        proof {
            broadcast use vstd::seq_lib::group_to_multiset_ensures, vstd::multiset::group_multiset_properties,
                vstd::multiset::group_multiset_axioms;

            let prev = self.recorded@;
            self.recorded@ = prev.push(rec);
            assert(self.recorded@.drop_last() =~= prev);
            vstd::seq_lib::to_multiset_build(before, rec);
            vstd::seq_lib::to_multiset_build(prev, rec);
            assert(self.batch.messages@ == before.push(rec));
            assert(self.batch.messages@.to_multiset() == before.to_multiset().insert(rec));
            assert(self.recorded@.to_multiset() == prev.to_multiset().insert(rec));
            let ms = self.sealed@.to_multiset();
            assert(ms.add(before.to_multiset().insert(rec)) =~= ms.add(before.to_multiset()).insert(rec));
            assert(self.initial@.to_multiset().add(prev.to_multiset().insert(rec)) =~= self.initial@.to_multiset().add(
                prev.to_multiset(),
            ).insert(rec));
            assert(self.sealed@.to_multiset().add(self.batch.messages@.to_multiset()) =~= self.initial@.to_multiset().add(
                self.recorded@.to_multiset(),
            ));
        }
        self.last_message = Some((id, date));
        let counter = self.messages_counter;
        let mut checkpoint = CheckpointAction::Keep;
        let mut flush = None;
        if self.batch.should_flush() {
            flush = self.seal_all();
            checkpoint = CheckpointAction::Write(self.progress_exec());
        }
        if self.messages_counter < i32::MAX {
            self.messages_counter = self.messages_counter + 1;
        }
        proof {
            if checkpoint is Write {
                assert(checkpoint == CheckpointAction::Write(
                    InProgressInfo { messages_counter: counter, ..self.progress() },
                ));
            }
        }
        Step { flush, checkpoint, outcome: Outcome::Continue }
    }
}


/// No record is lost or written twice within a pass: once the buffer is sealed, the
/// sealed batches hold the records the buffer started with and those recorded in the
/// pass, each exactly as often as it was recorded.
pub proof fn lemma_sealed_records_are_the_recorded(c: ChatExtraction)
    requires
        c.wf(),
        c.batch.messages@.len() == 0,
    ensures
        c.sealed@.to_multiset() == c.initial@.to_multiset().add(c.recorded@.to_multiset()),
        c.sealed@.len() == c.initial@.len() + c.recorded@.len(),
{
    broadcast use vstd::seq_lib::group_to_multiset_ensures, vstd::multiset::group_multiset_properties,
        vstd::multiset::group_multiset_axioms;

    assert(c.batch.messages@.to_multiset() =~= Multiset::empty());
    assert(c.sealed@.to_multiset() =~= c.sealed@.to_multiset().add(c.batch.messages@.to_multiset()));
    vstd::seq_lib::to_multiset_len(c.sealed@);
    vstd::seq_lib::to_multiset_len(c.initial@);
    vstd::seq_lib::to_multiset_len(c.recorded@);
}

/// A pass resumed from a checkpoint pages on from the message and instant it records,
/// with the same end bound and retry budget; nothing before that point is fetched again.
pub proof fn lemma_resume_continues_after_checkpoint(run_date: i64, info: Option<ChatInfo>, cp: InProgressInfo)
    ensures
        planned_window(run_date, info, Some(cp)).extract_from == cp.extract_from,
        planned_window(run_date, info, Some(cp)).last_loaded_id == cp.last_loaded_id,
        planned_window(run_date, info, Some(cp)).extract_until == cp.extract_until,
        planned_window(run_date, info, Some(cp)).budget == cp.budget(),
        planned_window(run_date, info, Some(cp)).fresh_checkpoint is None,
{
}

/// After a completed pass (no checkpoint left, a summary recording `loaded_up_to`), a new
/// pass only looks for newer messages: it pages down from its own start, and the first
/// message older than `loaded_up_to` ends it, so an unchanged chat gets no new batch
/// beyond what was buffered.
pub proof fn lemma_rerun_stops_at_previous_pass(run_date: i64, info: ChatInfo, date: i64)
    ensures
        planned_window(run_date, Some(info), None).extract_from == run_date,
        planned_window(run_date, Some(info), None).last_loaded_id is None,
        planned_window(run_date, Some(info), None).extract_until == Some(info.loaded_up_to),
        past_window(planned_window(run_date, Some(info), None).extract_until, date) <==> date < info.loaded_up_to,
        planned_window(run_date, Some(info), None).fresh_checkpoint is Some,
{
}


/// The buffer holds exactly the records of the partly filled batch file it reopened,
/// ordered by date, and that file's name is the first free one for its days among the
/// folder's other names.
pub open spec fn holds_reopened_file(batch: BatchAccumulator, k0: nat) -> bool {
    let msgs = batch.messages@;
    let first = day_stamp_of(msgs[0].date as int);
    let last = day_stamp_of(msgs.last().date as int);
    &&& sorted_by_date(msgs)
    &&& (batch.initial_file matches Some(n) && n@ == candidate_name(first, last, k0) && first_free(
        first,
        last,
        free_after_replace(views(batch.taken@), Some(n@)),
        k0,
    ))
}

/// A rerun that stops at the previous pass's bound before recording anything writes no
/// new batch: with an empty buffer it seals nothing, and with a buffer that reopened a
/// partly filled file it writes that file back with the same records under its own name.
pub proof fn lemma_rerun_writes_no_new_batch(
    before: ChatExtraction,
    after: ChatExtraction,
    flush: Option<FlushPlan>,
    k0: nat,
)
    requires
        seals_buffer(before, after, flush),
        before.batch.messages@.len() > 0 ==> holds_reopened_file(before.batch, k0),
    ensures
        before.batch.messages@.len() == 0 ==> flush is None,
        flush matches Some(p) ==> p.records@ == before.batch.messages@ && opt_view(p.replaced) == Some(p.name@),
{
    if let Some(p) = flush {
        let n = before.batch.initial_file->0;
        lemma_reseal_keeps_partial_file(
            before.batch.messages@,
            before.batch.taken@,
            n,
            before.batch.accumulator_counter,
            before.batch.batch_size,
            after.batch,
            p,
            k0,
        );
    }
}

} // verus!
