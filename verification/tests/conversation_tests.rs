use lucastra::conversation::{Conversation, Role};

#[test]
fn test_conversation_creation() {
    let conv = Conversation::new(Some("You are a helpful assistant.".to_string()));
    assert_eq!(conv.messages().len(), 1);
    assert_eq!(conv.messages()[0].role, Role::System);
    assert!(conv.is_empty()); // No user/assistant messages yet
}

#[test]
fn test_add_messages() {
    let mut conv = Conversation::new(None);
    conv.add_user_message("Hello".to_string());
    conv.add_assistant_message("Hi there!".to_string());

    assert_eq!(conv.len(), 2);
    assert!(!conv.is_empty());
}

#[test]
fn test_trim_by_message_count() {
    let mut conv = Conversation::new(None).with_max_messages(3);

    for i in 0..5 {
        conv.add_user_message(format!("Message {}", i));
    }

    assert_eq!(conv.messages().len(), 3); // Only last 3 messages
}

#[test]
fn test_trim_preserves_system_prompt() {
    let mut conv = Conversation::new(Some("System prompt".to_string())).with_max_messages(2);

    conv.add_user_message("User 1".to_string());
    conv.add_assistant_message("Assistant 1".to_string());
    conv.add_user_message("User 2".to_string());

    // Should have: system + last 2 messages
    assert_eq!(conv.messages().len(), 3);
    assert_eq!(conv.messages()[0].role, Role::System);
}

#[test]
fn test_to_prompt() {
    let mut conv = Conversation::new(Some("Be helpful".to_string()));
    conv.add_user_message("Hello".to_string());
    conv.add_assistant_message("Hi!".to_string());

    let prompt = conv.to_prompt();
    assert!(prompt.contains("System: Be helpful"));
    assert!(prompt.contains("User: Hello"));
    assert!(prompt.contains("Assistant: Hi!"));
}

#[test]
fn test_clear_conversation() {
    let mut conv = Conversation::new(Some("System".to_string()));
    conv.add_user_message("Test".to_string());

    assert_eq!(conv.len(), 1);
    conv.clear();
    assert_eq!(conv.len(), 0);
    assert_eq!(conv.messages().len(), 1); // System prompt still there
    assert_eq!(conv.messages()[0].role, Role::System);
}
