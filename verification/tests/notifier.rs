use log_monitor::notifier::{
    alert_body, chat_variable, credentials, send_document_url, send_message_url, token_variable,
    MissingCredential,
};
use log_monitor::snapshot::JsonScalar;

#[test]
fn credentials_need_token_and_chat() {
    let both = credentials(Some("t0k3n".to_string()), Some("42".to_string())).unwrap();
    assert_eq!(both.token, "t0k3n");
    assert_eq!(both.chat_id, "42");
    assert_eq!(credentials(None, Some("42".to_string())).unwrap_err(), MissingCredential::Token);
    assert_eq!(credentials(None, None).unwrap_err(), MissingCredential::Token);
    assert_eq!(credentials(Some("t".to_string()), None).unwrap_err(), MissingCredential::ChatId);
    assert_eq!(MissingCredential::Token.message(), "TELEGRAM_API_TOKEN not set");
    assert_eq!(MissingCredential::ChatId.message(), "TELEGRAM_CHAT_ID not set");
    assert_eq!(token_variable(), "TELEGRAM_API_TOKEN");
    assert_eq!(chat_variable(), "TELEGRAM_CHAT_ID");
}

#[test]
fn urls_name_the_bot_and_the_method() {
    assert_eq!(send_message_url("123:abc"), "https://api.telegram.org/bot123:abc/sendMessage");
    assert_eq!(send_document_url("123:abc"), "https://api.telegram.org/bot123:abc/sendDocument");
    assert_eq!(send_message_url(""), "https://api.telegram.org/bot/sendMessage");
}

#[test]
fn alert_body_carries_chat_and_text() {
    let body = alert_body("42", "CRITICAL disk full");
    assert_eq!(body.len(), 2);
    assert_eq!(body[0].0, "chat_id");
    assert!(matches!(&body[0].1, JsonScalar::Text(t) if t == "42"));
    assert_eq!(body[1].0, "text");
    assert!(matches!(&body[1].1, JsonScalar::Text(t) if t == "CRITICAL disk full"));
}
