use ytdlpbot::messages::{to_income, Chat, From, GetUpdates, Message, UpdateMessage};

fn chat(id: i64, username: &str) -> Chat {
    Chat {
        first_name: "Ann".to_string(),
        id,
        last_name: String::new(),
        typ: "private".to_string(),
        username: username.to_string(),
    }
}

fn sender(username: &str) -> From {
    From {
        first_name: "Ann".to_string(),
        id: 77,
        is_bot: false,
        language_code: "en".to_string(),
        last_name: String::new(),
        username: username.to_string(),
    }
}

fn message(id: i64, text: Option<&str>) -> Message {
    Message {
        message_id: id,
        text: text.map(|t| t.to_string()),
        date: 1_700_000_000,
        chat: chat(id * 10, "ann"),
        from: sender("ann"),
    }
}

#[test]
fn to_messages_keeps_only_textual_updates() {
    let updates = GetUpdates {
        ok: true,
        result: vec![
            UpdateMessage { message: Some(message(1, Some("hello"))), update_id: 11 },
            UpdateMessage { message: Some(message(2, None)), update_id: 12 },
            UpdateMessage { message: None, update_id: 13 },
            UpdateMessage { message: Some(message(3, Some("/st"))), update_id: 14 },
        ],
    };
    let msgs = updates.to_messages();
    assert_eq!(msgs.len(), 2);
    assert_eq!(msgs[0].message_id, 1);
    assert_eq!(msgs[0].text.as_deref(), Some("hello"));
    assert_eq!(msgs[1].message_id, 3);
}

#[test]
fn max_update_id_finds_the_greatest() {
    let updates = GetUpdates {
        ok: true,
        result: vec![
            UpdateMessage { message: None, update_id: 11 },
            UpdateMessage { message: None, update_id: 19 },
            UpdateMessage { message: None, update_id: 14 },
        ],
    };
    assert_eq!(updates.max_update_id(), Some(19));
    let empty = GetUpdates { ok: true, result: Vec::new() };
    assert_eq!(empty.max_update_id(), None);
}

#[test]
fn to_income_binds_chat_identity_and_text() {
    let msgs = vec![message(1, Some("hello")), message(2, None)];
    let income = to_income(&msgs);
    assert_eq!(income.len(), 1);
    assert_eq!(income[0].chat_id, 10);
    assert_eq!(income[0].username, "ann");
    assert_eq!(income[0].text, "hello");
}
