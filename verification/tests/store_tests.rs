use enteract::data::types::{BackupInfo, ConversationMessage, ConversationMessageUpdate, ConversationSession};
use enteract::store::{
    backup_file_name, backup_type_of, backups_to_remove, batch_save_conversation_messages,
    delete_conversation, delete_conversation_message, restore_target, save_conversation_message,
    sort_backups_newest_first, update_conversation_message, validate_conversation_message,
    BackupKind, StoreError,
};

fn msg(id: &str, content: &str) -> ConversationMessage {
    ConversationMessage {
        id: id.to_string(),
        message_type: "user".to_string(),
        source: "microphone".to_string(),
        content: content.to_string(),
        timestamp: 10,
        confidence_bits: None,
        is_preview: None,
        is_typing: None,
        persistence_state: None,
        retry_count: None,
        last_save_attempt: None,
        save_error: None,
    }
}

fn session(id: &str, msgs: Vec<ConversationMessage>) -> ConversationSession {
    ConversationSession {
        id: id.to_string(),
        name: format!("Session {}", id),
        start_time: 1,
        end_time: None,
        messages: msgs,
        is_active: true,
        insights: Vec::new(),
    }
}

fn ids(s: &ConversationSession) -> Vec<String> {
    s.messages.iter().map(|m| m.id.clone()).collect()
}

#[test]
fn save_adds_message_once() {
    let mut cs = vec![session("a", vec![]), session("b", vec![])];
    assert_eq!(save_conversation_message(&mut cs, "b", msg("m1", "hi")).unwrap(), true);
    assert_eq!(save_conversation_message(&mut cs, "b", msg("m1", "again")).unwrap(), false);
    assert_eq!(ids(&cs[1]), vec!["m1".to_string()]);
    assert_eq!(cs[1].messages[0].content, "hi");
    assert!(cs[0].messages.is_empty());
}

#[test]
fn save_to_missing_session_fails() {
    let mut cs = vec![session("a", vec![])];
    let err = save_conversation_message(&mut cs, "zzz", msg("m1", "hi")).unwrap_err();
    assert_eq!(err.message(), "Session zzz not found");
    assert!(cs[0].messages.is_empty());
}

#[test]
fn save_goes_to_first_session_with_the_id() {
    let mut cs = vec![session("a", vec![]), session("a", vec![])];
    save_conversation_message(&mut cs, "a", msg("m1", "x")).unwrap();
    assert_eq!(cs[0].messages.len(), 1);
    assert_eq!(cs[1].messages.len(), 0);
}

#[test]
fn batch_save_skips_duplicates_in_order() {
    let mut cs = vec![session("s", vec![msg("m1", "one")])];
    let batch = vec![msg("m2", "two"), msg("m1", "dup"), msg("m3", "three"), msg("m2", "dup2")];
    batch_save_conversation_messages(&mut cs, "s", batch).unwrap();
    assert_eq!(ids(&cs[0]), vec!["m1".to_string(), "m2".to_string(), "m3".to_string()]);
    assert_eq!(cs[0].messages[0].content, "one");
    assert_eq!(cs[0].messages[1].content, "two");
}

#[test]
fn batch_save_to_missing_session_fails() {
    let mut cs = vec![session("s", vec![])];
    assert!(matches!(
        batch_save_conversation_messages(&mut cs, "t", vec![msg("m", "x")]),
        Err(StoreError::SessionNotFound(_))
    ));
}

#[test]
fn update_replaces_given_fields() {
    let mut cs = vec![session("s", vec![msg("m1", "old"), msg("m2", "keep")])];
    let bits = 0.75f64.to_bits();
    let upd = ConversationMessageUpdate { content: Some("new".to_string()), confidence_bits: Some(bits), timestamp: None };
    update_conversation_message(&mut cs, "s", "m1", upd).unwrap();
    assert_eq!(cs[0].messages[0].content, "new");
    assert_eq!(cs[0].messages[0].confidence_bits, Some(bits));
    assert_eq!(cs[0].messages[0].timestamp, 10);
    assert_eq!(cs[0].messages[1].content, "keep");
}

#[test]
fn update_missing_message_fails() {
    let mut cs = vec![session("s", vec![msg("m1", "old")])];
    let upd = ConversationMessageUpdate { content: None, confidence_bits: None, timestamp: Some(5) };
    let err = update_conversation_message(&mut cs, "s", "nope", upd).unwrap_err();
    assert_eq!(err.message(), "Message nope not found");
}

#[test]
fn delete_message_removes_all_with_id() {
    let mut cs = vec![session("s", vec![msg("m1", "a"), msg("m2", "b"), msg("m1", "c")])];
    delete_conversation_message(&mut cs, "s", "m1").unwrap();
    assert_eq!(ids(&cs[0]), vec!["m2".to_string()]);
    let err = delete_conversation_message(&mut cs, "s", "m1").unwrap_err();
    assert_eq!(err.message(), "Message m1 not found");
}

#[test]
fn delete_conversation_removes_it() {
    let mut cs = vec![session("a", vec![]), session("b", vec![]), session("a", vec![])];
    delete_conversation(&mut cs, "a").unwrap();
    assert_eq!(cs.len(), 1);
    assert_eq!(cs[0].id, "b");
    let err = delete_conversation(&mut cs, "a").unwrap_err();
    assert_eq!(err.message(), "Conversation with ID a not found");
}

#[test]
fn validation_requires_type_and_source() {
    let mut m = msg("x1", "c");
    assert!(validate_conversation_message(&m).is_ok());
    m.source = String::new();
    assert_eq!(validate_conversation_message(&m).unwrap_err().message(), "Message source is empty for message x1");
    m.message_type = String::new();
    assert_eq!(validate_conversation_message(&m).unwrap_err().message(), "Message type is empty for message x1");
}

#[test]
fn backup_names_and_kinds() {
    assert_eq!(backup_file_name("chat", "20240101_120000"), "chat_20240101_120000.json");
    assert_eq!(backup_type_of("chat_1.json"), Some("chat".to_string()));
    assert_eq!(backup_type_of("conversation_cleared_1.json"), Some("conversation".to_string()));
    assert_eq!(backup_type_of("other.json"), None);
    assert_eq!(restore_target("chat").unwrap(), BackupKind::Chat);
    assert_eq!(restore_target("conversation").unwrap(), BackupKind::Conversation);
    assert_eq!(restore_target("x").unwrap_err().message(), "Invalid backup type: x");
}

fn backup(name: &str, modified: i64) -> BackupInfo {
    BackupInfo { filename: name.to_string(), backup_type: "chat".to_string(), size: 1, modified }
}

#[test]
fn backups_sorted_newest_first_stably() {
    let v = vec![backup("a", 1), backup("b", 3), backup("c", 2), backup("d", 3)];
    let s = sort_backups_newest_first(v);
    let names: Vec<&str> = s.iter().map(|b| b.filename.as_str()).collect();
    assert_eq!(names, vec!["b", "d", "c", "a"]);
}

#[test]
fn prune_keeps_the_newest_of_the_prefix() {
    let v = vec![
        backup("chat_1", 1),
        backup("conversation_9", 9),
        backup("chat_5", 5),
        backup("chat_3", 3),
        backup("chat_4", 4),
    ];
    let removed = backups_to_remove(v, "chat", 2);
    let mut names: Vec<String> = removed.iter().map(|b| b.filename.clone()).collect();
    names.sort();
    assert_eq!(names, vec!["chat_1".to_string(), "chat_3".to_string()]);
    let none = backups_to_remove(vec![backup("chat_1", 1)], "chat", 10);
    assert!(none.is_empty());
}

#[test]
fn batch_save_repeated_changes_nothing() {
    let mut cs = vec![session("a", vec![]), session("s", vec![msg("m1", "one")])];
    let batch = || vec![msg("m2", "two"), msg("m1", "dup"), msg("m3", "three")];
    batch_save_conversation_messages(&mut cs, "s", batch()).unwrap();
    let first = ids(&cs[1]);
    batch_save_conversation_messages(&mut cs, "s", batch()).unwrap();
    assert_eq!(ids(&cs[1]), first);
    assert_eq!(cs[1].messages.len(), 3);
    assert!(cs[0].messages.is_empty());
}
