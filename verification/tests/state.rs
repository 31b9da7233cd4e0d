use discord_fend::event_handler::command::{channel_key, needs_worker};
use discord_fend::event_handler::command::commands::template;
use discord_fend::event_handler::command::commands::uptime::{cmd as uptime_cmd, uptime_text};
use discord_fend::event_handler::command::commands::version::cmd as version_cmd;
use discord_fend::event_handler::interactive_session::{
    close, fill_step, handle, register, try_find_session, FillStep,
};
use discord_fend::event_handler::{EditableCommands, MAX_EDITABLE_COMMANDS};
use discord_fend::registry::{user_channel, Registry};
use discord_fend::response_helper::{
    isqrt, typing_delay_ms, Delivery, MessageRef, ReplyMode, ResponseHelper,
};

fn msg(channel: u64, id: u64) -> MessageRef {
    MessageRef { channel, id }
}

#[test]
fn editable_commands_find_the_latest_answer() {
    let mut e = EditableCommands::new();
    assert_eq!(e.find_by_user(1), None);
    e.record(1, 10, 100);
    e.record(2, 10, 200);
    assert_eq!(e.find_by_user(1), Some((1, 10, 100)));
    assert_eq!(e.find_by_user(2), Some((2, 10, 200)));
    assert_eq!(e.len(), 2);
}

#[test]
fn editable_commands_keep_one_entry_per_answer() {
    let mut e = EditableCommands::new();
    e.record(1, 10, 100);
    e.record(1, 10, 100);
    assert_eq!(e.len(), 1);
    e.record(5, 10, 100);
    assert_eq!(e.len(), 1);
    assert_eq!(e.find_by_user(1), None);
    assert_eq!(e.find_by_user(5), Some((5, 10, 100)));
}

#[test]
fn editable_commands_are_bounded() {
    let mut e = EditableCommands::new();
    for i in 0..(MAX_EDITABLE_COMMANDS as u64 + 3) {
        e.record(i, 1, 1000 + i);
    }
    assert_eq!(e.len(), MAX_EDITABLE_COMMANDS);
    assert_eq!(e.find_by_user(2), None);
    assert_eq!(e.find_by_user(3), Some((3, 1, 1003)));
}

#[test]
fn one_session_per_user_and_channel() {
    let mut s: Registry<&str> = Registry::new();
    assert_eq!(register(&mut s, 1, 2, "first"), Some(()));
    assert_eq!(register(&mut s, 1, 2, "second"), None);
    assert_eq!(try_find_session(&s, 1, 2), Some(&"first"));
    assert_eq!(register(&mut s, 1, 3, "other channel"), Some(()));
    assert_eq!(register(&mut s, 4, 2, "other user"), Some(()));
    close(&mut s, 1, 2);
    assert_eq!(try_find_session(&s, 1, 2), None);
    assert_eq!(try_find_session(&s, 1, 3), Some(&"other channel"));
    assert_eq!(register(&mut s, 1, 2, "again"), Some(()));
}

#[test]
fn undelivered_message_ends_the_session() {
    let mut s: Registry<u8> = Registry::new();
    register(&mut s, 1, 2, 9);
    handle(&mut s, 1, 2, true);
    assert_eq!(try_find_session(&s, 1, 2), Some(&9));
    handle(&mut s, 1, 2, false);
    assert_eq!(try_find_session(&s, 1, 2), None);
}

#[test]
fn registry_keys_tell_users_and_channels_apart() {
    assert_ne!(user_channel(1, 2), user_channel(2, 1));
    assert_eq!(user_channel(1, 2), (1u128 << 64) + 2);
    let mut r: Registry<u8> = Registry::new();
    assert!(r.try_insert(5, 1));
    assert!(!r.try_insert(5, 2));
    assert_eq!(r.get(5), Some(&1));
    assert!(r.contains(5));
    assert_eq!(r.remove(5), Some(1));
    assert!(!r.contains(5));
}

#[test]
fn response_replies_to_its_message_by_default() {
    let origin = msg(1, 2);
    let mut h = ResponseHelper::new(origin);
    assert_eq!(h.reply_mode(), ReplyMode::Reply(origin));
    assert_eq!(h.get_channel(), Some(1));
    h.push("a".to_string());
    h.push("b".to_string());
    assert_eq!(h.pending_messages(), vec!["a".to_string(), "b".to_string()]);
    assert_eq!(h.delivery(1), Delivery::Reply(origin));
    h.mark_sent(msg(1, 3));
    assert_eq!(h.delivery(1), Delivery::Send(1));
    assert_eq!(h.latest_message(), Some(msg(1, 3)));
    h.finish();
    assert!(h.pending_messages().is_empty());
}

#[test]
fn response_modes() {
    let origin = msg(1, 2);
    let other = msg(1, 9);
    assert_eq!(ResponseHelper::new(origin).no_reply().reply_mode(), ReplyMode::NoReply);
    assert_eq!(ResponseHelper::new(origin).ping_reply().reply_mode(), ReplyMode::PingReply(origin));
    assert_eq!(ResponseHelper::new(origin).no_reply().reply().reply_mode(), ReplyMode::Reply(origin));
    assert_eq!(ResponseHelper::new(origin).reply_to(other).reply_mode(), ReplyMode::Reply(other));
    assert_eq!(ResponseHelper::new(origin).ping_reply_to(other).reply_mode(), ReplyMode::PingReply(other));
    assert_eq!(ResponseHelper::new(origin).message_to_edit(Some(other)).reply_mode(), ReplyMode::Edit(other));
    assert_eq!(ResponseHelper::new(origin).message_to_edit(None).reply_mode(), ReplyMode::Reply(origin));
    assert_eq!(ResponseHelper::new(origin).message(), origin);
}

#[test]
fn direct_messages_stay_direct() {
    let mut h = ResponseHelper::new(msg(1, 2)).dm();
    assert_eq!(h.get_channel(), None);
    assert_eq!(h.delivery(50), Delivery::Send(50));
    h.mark_sent(msg(50, 7));
    assert_eq!(h.reply_mode(), ReplyMode::Dm);
    assert_eq!(h.delivery(50), Delivery::Send(50));
}

#[test]
fn an_edit_applies_to_the_first_message_only() {
    let mut h = ResponseHelper::new(msg(1, 2)).message_to_edit(Some(msg(1, 8)));
    assert_eq!(h.delivery(1), Delivery::Edit(msg(1, 8)));
    h.mark_sent(msg(1, 8));
    assert_eq!(h.reply_mode(), ReplyMode::NoReply);
    assert_eq!(h.latest_message(), Some(msg(1, 8)));
}

#[test]
fn too_long_answers_are_replaced_by_a_notice() {
    let mut h = ResponseHelper::new(msg(1, 2));
    h.push("x".repeat(3000));
    assert!(!h.after_failure(false));
    assert_eq!(h.pending_messages().len(), 1);
    assert!(h.after_failure(true));
    assert_eq!(h.pending_messages(), vec!["Message too long to send.".to_string()]);
}

#[test]
fn isqrt_rounds_down() {
    assert_eq!(isqrt(0), 0);
    assert_eq!(isqrt(1), 1);
    assert_eq!(isqrt(8), 2);
    assert_eq!(isqrt(9), 3);
    assert_eq!(isqrt(u64::MAX), 4294967295);
}

#[test]
fn typing_delay_grows_with_the_square_root_of_the_length() {
    assert_eq!(typing_delay_ms(""), 0);
    assert_eq!(typing_delay_ms("abcd"), 100);
    assert_eq!(typing_delay_ms("abcdefgh"), 100);
    assert_eq!(typing_delay_ms("abcdefghi"), 150);
    assert_eq!(typing_delay_ms("\u{e9}\u{e9}"), 100);
}

#[test]
fn uptime_text_splits_into_days_hours_minutes_seconds() {
    assert_eq!(uptime_text(0), "0d 0h 0m 0s");
    assert_eq!(uptime_text(90061), "1d 1h 1m 1s");
    assert_eq!(uptime_text(86399), "0d 23h 59m 59s");
    assert_eq!(uptime_text(-90061), "-1d -1h -1m -1s");
    assert_eq!(uptime_text(i64::MIN), "-106751991167300d -15h -30m -8s");
}

#[test]
fn uptime_answer() {
    assert_eq!(uptime_cmd(Some(3600)), "0d 1h 0m 0s");
    assert_eq!(uptime_cmd(None), "Error: Start time not set.");
}

#[test]
fn version_answer() {
    assert_eq!(version_cmd("discord-fend", "0.1.0"), "`discord-fend 0.1.0`");
}

#[test]
fn template_answers() {
    assert_eq!(template::cmd(), "Hello!");
    assert_eq!(template::interaction_cmd(), "Hello from interaction command!");
}

#[test]
fn a_channel_gets_one_command_worker() {
    let mut workers: Registry<u8> = Registry::new();
    assert!(needs_worker(&workers, 42));
    assert!(workers.try_insert(channel_key(42), 1));
    assert!(!needs_worker(&workers, 42));
    assert!(needs_worker(&workers, 43));
    workers.remove(channel_key(42));
    assert!(needs_worker(&workers, 42));
}

#[test]
fn prompt_steps() {
    assert!(matches!(fill_step(Some(Ok::<u32, String>(7))), FillStep::Done(7)));
    assert!(matches!(fill_step(Some(Err::<u32, String>("bad".to_string()))), FillStep::Retry(e) if e == "bad"));
    assert!(matches!(fill_step::<u32>(None), FillStep::GiveUp));
}
