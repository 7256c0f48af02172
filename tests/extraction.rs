use std::collections::BTreeMap;

use tg_backup::attachment::{classify, Classified, Media};
use tg_backup::batch::{sort_by_date, BatchAccumulator};
use tg_backup::checkpoint::{InProgress, InProgressInfo};
use tg_backup::controller::{plan_window, CheckpointAction, ChatExtraction, Outcome, Step, TransferResult};
use tg_backup::names::latest_batch_name;
use tg_backup::source::{TestDMessage, TestDMsgIter};
use tg_backup::types::{chat_to_info, Attachment, ChatInfo, MessageInfo};

const DAY: i64 = 86_400;
const BASE: i64 = 1_577_836_800; // 2020-01-01T00:00:00Z

/// A chat directory held in memory.
#[derive(Default, Clone)]
struct Disk {
    files: BTreeMap<String, Vec<MessageInfo>>,
    checkpoint: Option<InProgressInfo>,
    info: Option<ChatInfo>,
}

impl Disk {
    fn apply(&mut self, step: Step) {
        if let Some(plan) = step.flush {
            if let Some(old) = plan.replaced {
                self.files.remove(&old);
            }
            assert!(!self.files.contains_key(&plan.name), "overwrote {}", plan.name);
            self.files.insert(plan.name, plan.records);
        }
        match step.checkpoint {
            CheckpointAction::Keep => {}
            CheckpointAction::Write(info) => self.checkpoint = Some(info),
            CheckpointAction::Remove => self.checkpoint = None,
        }
    }

    fn ids(&self) -> Vec<i32> {
        let mut ids: Vec<i32> = self.files.values().flatten().map(|m| m.id).collect();
        ids.sort();
        ids
    }

    fn sizes(&self) -> Vec<usize> {
        let mut s: Vec<usize> = self.files.values().map(|f| f.len()).collect();
        s.sort();
        s
    }
}

/// Messages 1..=n, one a day, newest first, as a source yields them.
fn text_messages(n: i32) -> Vec<TestDMessage> {
    (1..=n)
        .rev()
        .map(|i| TestDMessage {
            message: MessageInfo::text_only(i, BASE + i as i64 * DAY, format!("Test msg {}", i)),
            media: None,
        })
        .collect()
}

/// Transfers that fail for the listed attachment ids.
struct Transfers {
    failing: Vec<(i64, u32)>,
}

impl Transfers {
    fn none() -> Transfers {
        Transfers { failing: vec![] }
    }

    fn run(&mut self, media: Option<Media>) -> TransferResult {
        match classify(media, None) {
            Classified::Ready(a) => TransferResult::NotNeeded(a),
            Classified::Transfer { id, attachment, .. } => {
                for f in self.failing.iter_mut() {
                    if f.0 == id && f.1 > 0 {
                        f.1 -= 1;
                        return TransferResult::Failed { id, error: String::from("timeout") };
                    }
                }
                TransferResult::Done(attachment)
            }
        }
    }
}

/// One pass over the chat, as the embedding program runs it. With `kill_after`, the
/// process dies after that many messages were handled: nothing more reaches the disk.
fn run_pass(
    disk: &mut Disk,
    source: &[TestDMessage],
    batch_size: usize,
    run_date: i64,
    kill_after: Option<usize>,
    transfers: &mut Transfers,
) -> Option<Outcome> {
    let plan = plan_window(run_date, &disk.info, disk.checkpoint);
    if let Some(cp) = plan.fresh_checkpoint {
        disk.checkpoint = Some(cp);
    }
    let names: Vec<String> = disk.files.keys().cloned().collect();
    let latest = latest_batch_name(&names).map(|i| (names[i].clone(), disk.files[&names[i]].clone()));
    let acc = BatchAccumulator::resume(batch_size, names, latest);
    let mut ctl = ChatExtraction::start(plan, acc);
    disk.info = Some(chat_to_info(String::from("chat"), 1, plan.global_loading_from, source.len()));
    let mut iter = TestDMsgIter::new(source.to_vec(), plan.last_loaded_id);
    let mut handled = 0;
    loop {
        if kill_after == Some(handled) {
            return None;
        }
        match iter.next() {
            None => {
                let step = ctl.end_of_history();
                disk.apply(step);
                return Some(Outcome::Completed);
            }
            Some(m) => {
                if let Some(step) = ctl.on_message_date(m.message.date) {
                    disk.apply(step);
                    return Some(Outcome::Completed);
                }
                let transfer = transfers.run(m.media);
                let step = ctl.accept(m.message, transfer);
                let outcome = step.outcome;
                disk.apply(step);
                handled += 1;
                if outcome != Outcome::Continue {
                    return Some(outcome);
                }
            }
        }
    }
}

#[test]
fn twelve_messages_in_batches_of_five() {
    let mut disk = Disk::default();
    let source = text_messages(12);
    let run = BASE + 20 * DAY;
    let outcome = run_pass(&mut disk, &source, 5, run, None, &mut Transfers::none());
    assert_eq!(outcome, Some(Outcome::Completed));
    assert_eq!(disk.files.len(), 3);
    assert_eq!(disk.sizes(), vec![2, 5, 5]);
    assert_eq!(disk.ids(), (1..=12).collect::<Vec<i32>>());
    assert_eq!(disk.info.as_ref().unwrap().total_messages, 12);
    assert_eq!(disk.info.as_ref().unwrap().loaded_up_to, run);
    assert!(disk.checkpoint.is_none());
    assert!(disk.files.contains_key("data-20200109-20200113.json"));
    assert!(disk.files.contains_key("data-20200104-20200108.json"));
    assert!(disk.files.contains_key("data-20200102-20200103.json"));
}

#[test]
fn sealed_batches_are_sorted_and_full() {
    let mut disk = Disk::default();
    let source = text_messages(13);
    run_pass(&mut disk, &source, 4, BASE + 20 * DAY, None, &mut Transfers::none());
    let mut partial = 0;
    for records in disk.files.values() {
        assert!(records.windows(2).all(|w| w[0].date <= w[1].date));
        if records.len() != 4 {
            partial += 1;
        }
    }
    assert!(partial <= 1);
    assert_eq!(disk.sizes(), vec![1, 4, 4, 4]);
}

#[test]
fn resume_after_kill_keeps_each_message_once() {
    let mut disk = Disk::default();
    let source = text_messages(12);
    let run = BASE + 20 * DAY;
    let outcome = run_pass(&mut disk, &source, 5, run, Some(7), &mut Transfers::none());
    assert_eq!(outcome, None);
    assert_eq!(disk.files.len(), 1);
    let cp = disk.checkpoint.expect("checkpoint after the first batch");
    assert_eq!(cp.last_loaded_id, Some(8));
    assert_eq!(cp.extract_from, BASE + 8 * DAY);

    let outcome = run_pass(&mut disk, &source, 5, run + DAY, None, &mut Transfers::none());
    assert_eq!(outcome, Some(Outcome::Completed));
    assert_eq!(disk.ids(), (1..=12).collect::<Vec<i32>>());
    assert_eq!(disk.sizes(), vec![2, 5, 5]);
    assert!(disk.checkpoint.is_none());
    assert_eq!(disk.info.as_ref().unwrap().loaded_up_to, run);
}

#[test]
fn checkpoint_follows_each_flush_and_goes_at_the_end() {
    let mut disk = Disk::default();
    let source = text_messages(12);
    for kill in 1..12 {
        let mut d = Disk::default();
        run_pass(&mut d, &source, 5, BASE + 20 * DAY, Some(kill), &mut Transfers::none());
        let cp = d.checkpoint.expect("checkpoint during the pass");
        if kill >= 5 {
            let flushed = if kill >= 10 { 10 } else { 5 };
            assert_eq!(cp.last_loaded_id, Some(12 - flushed + 1));
            assert_eq!(cp.accumulator_counter, flushed / 5);
        } else {
            assert_eq!(cp.last_loaded_id, None);
        }
    }
    run_pass(&mut disk, &source, 5, BASE + 20 * DAY, None, &mut Transfers::none());
    assert!(disk.checkpoint.is_none());
}

#[test]
fn second_run_adds_no_batch_for_an_unchanged_chat() {
    let mut disk = Disk::default();
    let source = text_messages(12);
    let run = BASE + 20 * DAY;
    run_pass(&mut disk, &source, 5, run, None, &mut Transfers::none());
    let before = disk.files.clone();
    let outcome = run_pass(&mut disk, &source, 5, run + DAY, None, &mut Transfers::none());
    assert_eq!(outcome, Some(Outcome::Completed));
    assert_eq!(disk.files, before);
    assert!(disk.checkpoint.is_none());
    assert_eq!(disk.info.as_ref().unwrap().loaded_up_to, run + DAY);
}

#[test]
fn second_run_saves_only_new_messages() {
    let mut disk = Disk::default();
    let run = BASE + 20 * DAY;
    run_pass(&mut disk, &text_messages(12), 5, run, None, &mut Transfers::none());
    let mut source = text_messages(12);
    source.insert(
        0,
        TestDMessage { message: MessageInfo::text_only(13, run + 3600, String::from("new")), media: None },
    );
    run_pass(&mut disk, &source, 5, run + DAY, None, &mut Transfers::none());
    assert_eq!(disk.ids(), (1..=13).collect::<Vec<i32>>());
    // The latest file by name is full, so the new message starts a batch of its own.
    assert_eq!(disk.sizes(), vec![1, 2, 5, 5]);
}

fn photo_message(id: i32, photo: i64) -> TestDMessage {
    TestDMessage {
        message: MessageInfo::text_only(id, BASE + id as i64 * DAY, String::from("photo")),
        media: Some(Media::Photo { id: Some(photo), size: 10 }),
    }
}

/// Runs passes until one completes; returns the number of passes.
fn passes_until_done(disk: &mut Disk, source: &[TestDMessage], transfers: &mut Transfers) -> u32 {
    let mut n = 0;
    loop {
        n += 1;
        let o = run_pass(disk, source, 5, BASE + 20 * DAY, None, transfers);
        if o == Some(Outcome::Completed) {
            return n;
        }
        assert_eq!(o, Some(Outcome::Aborted));
        assert!(n < 20);
    }
}

fn attachment_of(disk: &Disk, id: i32) -> Option<Attachment> {
    disk.files.values().flatten().find(|m| m.id == id).unwrap().attachment.clone()
}

#[test]
fn transfer_succeeds_after_six_failures() {
    let mut disk = Disk::default();
    let source = vec![text_messages(3)[0].clone(), photo_message(2, 500), text_messages(1)[0].clone()];
    let mut transfers = Transfers { failing: vec![(500, 6)] };
    let passes = passes_until_done(&mut disk, &source, &mut transfers);
    assert_eq!(passes, 7);
    assert!(matches!(attachment_of(&disk, 2), Some(Attachment::Photo(_))));
    assert_eq!(disk.ids(), vec![1, 2, 3]);
}

#[test]
fn transfer_gives_up_at_the_seventh_failure() {
    let mut disk = Disk::default();
    let source = vec![text_messages(3)[0].clone(), photo_message(2, 500), text_messages(1)[0].clone()];
    let mut transfers = Transfers { failing: vec![(500, 100)] };
    let passes = passes_until_done(&mut disk, &source, &mut transfers);
    assert_eq!(passes, 7);
    assert_eq!(attachment_of(&disk, 2), Some(Attachment::Error(String::from("Cannot load: timeout"))));
    assert_eq!(disk.ids(), vec![1, 2, 3]);
}

#[test]
fn aborted_pass_checkpoints_the_last_message() {
    let mut disk = Disk::default();
    let source = vec![text_messages(3)[0].clone(), photo_message(2, 500), text_messages(1)[0].clone()];
    let mut transfers = Transfers { failing: vec![(500, 1)] };
    let o = run_pass(&mut disk, &source, 5, BASE + 20 * DAY, None, &mut transfers);
    assert_eq!(o, Some(Outcome::Aborted));
    let cp = disk.checkpoint.unwrap();
    assert_eq!(cp.last_loaded_id, Some(3));
    assert_eq!(cp.file_issue, 500);
    assert_eq!(cp.file_issue_count, 0);
    assert_eq!(disk.ids(), vec![3]);
}

#[test]
fn sort_orders_by_date() {
    let v = vec![
        MessageInfo::text_only(1, 30, String::from("c")),
        MessageInfo::text_only(2, 10, String::from("a")),
        MessageInfo::text_only(3, 20, String::from("b")),
    ];
    let ids: Vec<i32> = sort_by_date(v).iter().map(|m| m.id).collect();
    assert_eq!(ids, vec![2, 3, 1]);
}

#[test]
fn sort_keeps_order_within_a_date() {
    let v = vec![
        MessageInfo::text_only(1, 20, String::from("a")),
        MessageInfo::text_only(2, 10, String::from("b")),
        MessageInfo::text_only(3, 20, String::from("c")),
        MessageInfo::text_only(4, 10, String::from("d")),
        MessageInfo::text_only(5, 20, String::from("e")),
    ];
    let ids: Vec<i32> = sort_by_date(v).iter().map(|m| m.id).collect();
    assert_eq!(ids, vec![2, 4, 1, 3, 5]);
}

#[test]
fn empty_buffer_writes_nothing() {
    let mut acc = BatchAccumulator::resume(3, vec![], None);
    assert!(acc.force_flush().is_none());
    assert!(acc.drop_messages().is_none());
    assert_eq!(acc.accumulator_counter, 0);
}

#[test]
fn partial_batch_file_is_replaced() {
    let old = vec![MessageInfo::text_only(1, BASE, String::from("a"))];
    let name = String::from("data-20200101-20200101.json");
    let mut acc = BatchAccumulator::resume(3, vec![name.clone()], Some((name.clone(), old)));
    assert_eq!(acc.messages.len(), 1);
    acc.append(MessageInfo::text_only(2, BASE + 60, String::from("b")));
    let plan = acc.force_flush().unwrap();
    assert_eq!(plan.replaced, Some(name.clone()));
    assert_eq!(plan.name, name);
    assert_eq!(plan.records.len(), 2);
    assert_eq!(acc.taken, vec![name]);

    let full: Vec<MessageInfo> = (0..3).map(|i| MessageInfo::text_only(i, BASE, String::new())).collect();
    let acc = BatchAccumulator::resume(3, vec![], Some((String::from("f"), full)));
    assert!(acc.messages.is_empty());
    assert!(acc.initial_file.is_none());
}

#[test]
fn checkpoint_file_lies_in_the_chat_directory() {
    assert_eq!(InProgress::create("backup/chats/1.a").path, "backup/chats/1.a/in_progress.json");
}

#[test]
fn window_plans() {
    let info = chat_to_info(String::from("c"), 1, 500, 12);
    let p = plan_window(1000, &Some(info.clone()), None);
    assert_eq!(p.extract_until, Some(500));
    assert_eq!(p.extract_from, 1000);
    assert_eq!(p.already_loaded, 12);
    assert!(p.fresh_checkpoint.is_some());
    let cp = InProgressInfo {
        extract_from: 700,
        extract_until: Some(500),
        last_loaded_id: Some(9),
        accumulator_counter: 2,
        messages_counter: 10,
        file_issue: 4,
        file_issue_count: 1,
    };
    let p = plan_window(1000, &Some(info), Some(cp));
    assert_eq!((p.extract_from, p.last_loaded_id, p.extract_until), (700, Some(9), Some(500)));
    assert_eq!(p.global_loading_from, 500);
    assert!(p.fresh_checkpoint.is_none());
    let p = plan_window(1000, &None, None);
    assert_eq!(p.extract_until, None);
    assert_eq!(p.global_loading_from, 1000);
}

#[test]
fn source_starts_after_offset() {
    let mut it = TestDMsgIter::new(text_messages(5), Some(3));
    assert_eq!(it.total_count(), 5);
    assert_eq!(it.next().unwrap().message.id, 2);
    assert_eq!(it.next().unwrap().message.id, 1);
    assert!(it.next().is_none());
    let mut none = TestDMsgIter::new(text_messages(2), Some(99));
    assert!(none.next().is_none());
}
