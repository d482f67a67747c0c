//! What is said to the messaging endpoint: who may speak, where the
//! requests go, and what an alert carries. Sending is the caller's work.

use crate::snapshot::{members_of, JsonScalar, Object, ScalarView};
use crate::types::{LogEntry, LogPriority};
use vstd::prelude::*;

verus! {

/// Token of the bot and the chat that alerts go to.
#[derive(Debug)]
pub struct Credentials {
    pub token: String,
    pub chat_id: String,
}

/// The setting that is missing.
#[derive(Debug, Clone, Copy, PartialEq, Eq, Structural)]
pub enum MissingCredential {
    Token,
    ChatId,
}

impl MissingCredential {
    /// The complaint, naming the variable that has to be set.
    pub fn message(&self) -> (text: &'static str)
        ensures
            text@ == (match self {
                MissingCredential::Token => "TELEGRAM_API_TOKEN not set"@,
                MissingCredential::ChatId => "TELEGRAM_CHAT_ID not set"@,
            }),
    {
        match self {
            MissingCredential::Token => "TELEGRAM_API_TOKEN not set",
            MissingCredential::ChatId => "TELEGRAM_CHAT_ID not set",
        }
    }
}

/// Name of the variable that holds the token.
pub fn token_variable() -> (name: &'static str)
    ensures
        name@ == "TELEGRAM_API_TOKEN"@,
{
    "TELEGRAM_API_TOKEN"
}

/// Name of the variable that holds the chat.
pub fn chat_variable() -> (name: &'static str)
    ensures
        name@ == "TELEGRAM_CHAT_ID"@,
{
    "TELEGRAM_CHAT_ID"
}

/// The credentials, if both settings are there; else the first one that is
/// missing, the token before the chat.
pub fn credentials(token: Option<String>, chat_id: Option<String>) -> (r: Result<
    Credentials,
    MissingCredential,
>)
    ensures
        match r {
            Ok(c) => token == Some(c.token) && chat_id == Some(c.chat_id),
            Err(MissingCredential::Token) => token is None,
            Err(MissingCredential::ChatId) => token is Some && chat_id is None,
        },
{
    match token {
        None => Err(MissingCredential::Token),
        Some(token) => match chat_id {
            None => Err(MissingCredential::ChatId),
            Some(chat_id) => Ok(Credentials { token, chat_id }),
        },
    }
}

/// Address of the method `method` of the bot with the token `token`.
pub open spec fn method_url(token: Seq<char>, method: Seq<char>) -> Seq<char> {
    "https://api.telegram.org/bot"@ + token + "/"@ + method
}

fn url_of(token: &str, method: &str) -> (url: String)
    ensures
        url@ == method_url(token@, method@),
{
    let mut url = "https://api.telegram.org/bot".to_owned();
    url.append(token);
    url.append("/");
    url.append(method);
    url
}

/// Where a chat message is posted.
pub fn send_message_url(token: &str) -> (url: String)
    ensures
        url@ == method_url(token@, "sendMessage"@),
{
    url_of(token, "sendMessage")
}

/// Where a document is posted.
pub fn send_document_url(token: &str) -> (url: String)
    ensures
        url@ == method_url(token@, "sendDocument"@),
{
    url_of(token, "sendDocument")
}

/// The members of the request that posts `text` to the chat `chat_id`.
pub fn alert_body(chat_id: &str, text: &str) -> (body: Object)
    ensures
        members_of(body@) == seq![
            ("chat_id"@, ScalarView::Text(chat_id@)),
            ("text"@, ScalarView::Text(text@)),
        ],
{
    let mut body: Object = Vec::new();
    body.push(("chat_id".to_owned(), JsonScalar::Text(chat_id.to_owned())));
    body.push(("text".to_owned(), JsonScalar::Text(text.to_owned())));
    assert(members_of(body@) =~= seq![
        ("chat_id"@, ScalarView::Text(chat_id@)),
        ("text"@, ScalarView::Text(text@)),
    ]);
    body
}

/// Whether `entry` calls for an alert: its priority is high or very high.
pub fn handle_telegram_alert(entry: &LogEntry) -> (alert: bool)
    ensures
        alert == (entry@.priority.rank() >= LogPriority::High.rank()),
{
    entry.priority.at_least(LogPriority::High)
}

} // verus!
