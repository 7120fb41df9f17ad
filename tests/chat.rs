use local_llm::chat::{build_conversation_prompt, render_prompt, ChatState, Message, MessageRole};

#[test]
fn template_slot_is_filled() {
    assert_eq!(render_prompt("Q: [[message]] A:", "Hi"), "Q: Hi A:");
    assert_eq!(render_prompt("[[message]] and [[message]]", "x"), "x and x");
}

#[test]
fn template_without_slot_gives_message() {
    assert_eq!(render_prompt("no slot here", "Hi"), "Hi");
    assert_eq!(render_prompt("[[message]]", "Hi"), "Hi");
}

#[test]
fn two_chat_turns_keep_history() {
    let mut chat = ChatState::new();
    let first = chat.begin_turn("Hi".to_string(), "User: [[message]]");
    assert_eq!(first, "User: Hi");
    chat.record_answer("Hello!".to_string());
    let second = chat.begin_turn("How are you?".to_string(), "User: [[message]]");
    assert_eq!(second, "User: Hi Hello! User: How are you?");
    assert_eq!(chat.messages.len(), 3);
    assert_eq!(chat.messages[1].role, MessageRole::AI);
}

#[test]
fn assistant_turns_stand_verbatim() {
    let messages = vec![
        Message { text: "a".to_string(), role: MessageRole::AI },
        Message { text: "b".to_string(), role: MessageRole::Human },
    ];
    assert_eq!(build_conversation_prompt(&messages, "<[[message]]>"), "a <b>");
    assert_eq!(build_conversation_prompt(&vec![], "<[[message]]>"), "");
}
