use std::collections::VecDeque;

use mient::state::ListPosition;
use mient::state::Message;
use mient::state::MessageContent;
use mient::state::MessageKind;
use mient::state::MessageList;

fn msg(id: &str, body: &str) -> Message {
    Message {
        redacted: false,
        id: id.to_string(),
        sender: "alice".to_string(),
        timestamp: 0,
        content: MessageContent { msgtype: MessageKind::Text, body: body.to_string() },
    }
}

fn empty_list() -> MessageList {
    MessageList { messages: VecDeque::new(), current_index: 0 }
}

#[test]
fn push_new_appends_and_follows_live_edge() {
    let mut list = empty_list();
    list.push_new(msg("$a", "first"));
    list.push_new(msg("$b", "second"));
    assert_eq!(list.messages.len(), 2);
    assert_eq!(list.messages[0].id, "$a");
    assert_eq!(list.messages[1].id, "$b");
    assert_eq!(list.current_index, 2);
}

#[test]
fn push_new_leaves_detached_cursor_alone() {
    let mut list = empty_list();
    list.push_new(msg("$a", "first"));
    list.current_index = 0;
    list.push_new(msg("$b", "second"));
    assert_eq!(list.current_index, 0);
}

#[test]
fn push_old_prepends_and_shifts_cursor() {
    let mut list = empty_list();
    list.push_new(msg("$b", "newer"));
    list.current_index = 0;
    list.push_old(msg("$a", "older"));
    assert_eq!(list.messages.len(), 2);
    assert_eq!(list.messages[0].id, "$a");
    assert_eq!(list.messages[1].id, "$b");
    assert_eq!(list.current_index, 1);
}

#[test]
fn push_old_n_times_shifts_pinned_cursor_by_n() {
    let mut list = empty_list();
    list.push_new(msg("$x", "x"));
    assert_eq!(list.current_index, list.messages.len());
    let pinned = list.current_index;
    list.push_old(msg("$1", "1"));
    list.push_old(msg("$2", "2"));
    list.push_old(msg("$3", "3"));
    assert_eq!(list.current_index, pinned + 3);
}

#[test]
fn mixed_pushes_keep_each_sources_order() {
    let mut list = empty_list();
    list.push_new(msg("$l1", "l1"));
    list.push_old(msg("$h1", "h1"));
    list.push_new(msg("$l2", "l2"));
    list.push_old(msg("$h2", "h2"));
    let ids: Vec<&str> = list.messages.iter().map(|m| m.id.as_str()).collect();
    assert_eq!(ids, vec!["$h2", "$h1", "$l1", "$l2"]);
}

#[test]
fn move_selection_clamps_into_bounds() {
    let mut list = empty_list();
    list.push_new(msg("$a", "a"));
    list.push_new(msg("$b", "b"));
    list.move_selection(ListPosition::Relative(-10));
    assert_eq!(list.current_index, 0);
    list.move_selection(ListPosition::Relative(10));
    assert_eq!(list.current_index, 2);
    list.move_selection(ListPosition::Relative(-1));
    assert_eq!(list.current_index, 1);
    list.move_selection(ListPosition::First);
    assert_eq!(list.current_index, 0);
    list.move_selection(ListPosition::Last);
    assert_eq!(list.current_index, 2);
}

#[test]
fn move_selection_recovers_an_out_of_range_cursor() {
    let mut list = empty_list();
    list.push_new(msg("$a", "a"));
    list.push_new(msg("$b", "b"));
    list.current_index = 99;
    list.move_selection(ListPosition::Relative(-1));
    assert_eq!(list.current_index, 2);
    list.current_index = 99;
    list.move_selection(ListPosition::Relative(1));
    assert_eq!(list.current_index, 2);
}

#[test]
fn selected_returns_message_under_cursor() {
    let mut list = empty_list();
    list.push_new(msg("$a", "a"));
    list.push_new(msg("$b", "b"));
    assert!(list.selected().is_none());
    list.move_selection(ListPosition::First);
    assert_eq!(list.selected().unwrap().id, "$a");
}

#[test]
fn redaction_marks_newest_duplicate() {
    let mut list = empty_list();
    list.push_new(msg("$dup", "older copy"));
    list.push_new(msg("$other", "unrelated"));
    list.push_new(msg("$dup", "newer copy"));
    list.apply_redaction(&"$dup".to_string());
    assert!(!list.messages[0].redacted);
    assert!(!list.messages[1].redacted);
    assert!(list.messages[2].redacted);
}

#[test]
fn redaction_without_match_changes_nothing() {
    let mut list = empty_list();
    list.push_new(msg("$a", "a"));
    list.apply_redaction(&"$missing".to_string());
    assert!(!list.messages[0].redacted);
    assert_eq!(list.messages.len(), 1);
}
