use tg_backup::companion::{apply_reply, mark_asked, parse_reply, permission_gate, ChannelState, ChannelsStateInfo};
use tg_backup::opts::{batch_threshold, loading_chats, SingleInstanceOption};
use tg_backup::run::{
    chat_dir, instance_may_start, logs_to_remove, messages_to_load, need_auth, parse_pid, path_or_default_output,
    reconnect_delay, select_chat, too_many_participants, visual_id, MainMutContext,
};

#[test]
fn chats_are_filtered() {
    let mut run = MainMutContext::new();
    assert!(select_chat(&None, &vec![], &run, 5, false));
    assert!(!select_chat(&Some(vec![1, 2]), &vec![], &run, 5, false));
    assert!(select_chat(&Some(vec![5]), &vec![], &run, 5, false));
    assert!(!select_chat(&Some(vec![5]), &vec![5], &run, 5, false));
    assert!(!select_chat(&None, &vec![], &run, 5, true));
    run.mark_finished(5);
    assert!(run.is_finished(5));
    assert!(!select_chat(&None, &vec![], &run, 5, false));
}

#[test]
fn flood_wait_accumulates() {
    let mut run = MainMutContext::new();
    assert_eq!(run.on_flood_wait(30), 30);
    assert_eq!(run.on_flood_wait(12), 12);
    assert_eq!(run.total_flood_wait, 42);
    run.note_dialogs(7);
    run.note_dialogs(9);
    assert_eq!(run.amount_of_dialogs, Some(7));
}

#[test]
fn reconnect_backs_off_then_gives_up() {
    assert_eq!(reconnect_delay(1), Some(5));
    assert_eq!(reconnect_delay(4), Some(20));
    assert_eq!(reconnect_delay(5), Some(50));
    assert_eq!(reconnect_delay(9), Some(90));
    assert_eq!(reconnect_delay(10), None);
}

#[test]
fn participants_ceiling() {
    assert!(too_many_participants(20, 21));
    assert!(!too_many_participants(20, 20));
    assert!(!too_many_participants(-1, 100000));
}

#[test]
fn auth_is_needed_without_a_session_file() {
    assert!(need_auth(None));
    assert!(need_auth(Some(false)));
    assert!(!need_auth(Some(true)));
}

#[test]
fn output_directory() {
    assert_eq!(path_or_default_output(&None), "backup");
    assert_eq!(path_or_default_output(&Some(String::from("out/dir"))), "out/dir");
    if let Some(h) = home::home_dir() {
        let expected = format!("{}/backup", h.display());
        assert_eq!(path_or_default_output(&Some(String::from("~/backup"))), expected);
    }
}

#[test]
fn options() {
    assert_eq!(SingleInstanceOption::from_str("multiple"), Ok(SingleInstanceOption::Multiple));
    assert_eq!(SingleInstanceOption::from_str("per-output"), Ok(SingleInstanceOption::PerOutput));
    assert_eq!(SingleInstanceOption::from_str("single"), Ok(SingleInstanceOption::Single));
    assert_eq!(SingleInstanceOption::from_str("Single"), Err(String::from("Cannot parse")));
    assert_eq!(loading_chats(vec![]), None);
    assert_eq!(loading_chats(vec![3]), Some(vec![3]));
    assert_eq!(batch_threshold(1000), Some(1000));
    assert_eq!(batch_threshold(0), None);
}

#[test]
fn owner_replies() {
    assert_eq!(parse_reply("123: yes please"), Some((123, true)));
    assert_eq!(parse_reply("7: no"), Some((7, false)));
    assert_eq!(parse_reply("7:no"), None);
    assert_eq!(parse_reply(": yes"), None);
    assert_eq!(parse_reply("x7: yes"), None);
    assert_eq!(parse_reply("7: maybe"), None);
    assert_eq!(parse_reply("99999999999999999999: yes"), None);
}

fn entry(rec: i64, state: ChannelState) -> ChannelsStateInfo {
    ChannelsStateInfo { rec, name: format!("chat {}", rec), state }
}

#[test]
fn ledger_asks_then_follows_answers() {
    let mut ledger = vec![entry(1, ChannelState::BACKUP)];
    assert!(permission_gate(&mut ledger, 1, String::from("chat 1"), true));
    assert!(permission_gate(&mut ledger, 2, String::from("chat 2"), false));
    assert_eq!(ledger.len(), 1);
    assert!(!permission_gate(&mut ledger, 3, String::from("chat 3"), true));
    assert_eq!(ledger[1], entry(3, ChannelState::ASK));
    assert!(!permission_gate(&mut ledger, 3, String::from("chat 3"), true));
    assert_eq!(ledger.len(), 2);
    assert_eq!(mark_asked(&mut ledger), vec![1]);
    assert_eq!(ledger[1].state, ChannelState::ASKED);
    apply_reply(&mut ledger, 3, true);
    assert_eq!(ledger[1].state, ChannelState::BACKUP);
    assert!(permission_gate(&mut ledger, 3, String::from("chat 3"), true));
    apply_reply(&mut ledger, 1, false);
    assert_eq!(ledger[0].state, ChannelState::SKIP);
}

#[test]
fn chat_directory_names() {
    assert_eq!(visual_id("Alex", true, Some("alex")), "Alex.alex");
    assert_eq!(visual_id("Alex", true, None), "Alex.NO_USERNAME");
    assert_eq!(visual_id("Group", false, Some("g")), "Group");
    assert_eq!(chat_dir("backup", 1720199897, "a.b"), "backup/chats/1720199897.a.b");
    assert_eq!(chat_dir("out", -5, "g"), "out/chats/-5.g");
    assert_eq!(chat_dir("o", i64::MIN, "g"), "o/chats/-9223372036854775808.g");
    assert_eq!(chat_dir("o", 0, "g"), "o/chats/0.g");
}

#[test]
fn progress_and_housekeeping() {
    assert_eq!(messages_to_load(422281, 1000), 421281);
    assert_eq!(messages_to_load(3, 10), 0);
    assert_eq!(parse_pid("1234"), 1234);
    assert_eq!(parse_pid("12a"), 0);
    assert_eq!(parse_pid(""), 0);
    assert_eq!(parse_pid("99999999999"), 0);
    assert!(instance_may_start(false, true));
    assert!(instance_may_start(true, false));
    assert!(!instance_may_start(true, true));
    assert_eq!(logs_to_remove(1000, 1000), 1);
    assert_eq!(logs_to_remove(5, 1000), 0);
    assert_eq!(logs_to_remove(5, 1), 5);
}
