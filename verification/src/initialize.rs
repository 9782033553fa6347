//! What the server declares of itself when a session starts.

use vstd::prelude::*;
use vstd::string::*;

verus! {

/// How the editor sends the text of a changed document.
#[derive(Clone, Copy, Debug, PartialEq, Eq, Structural)]
pub enum TextDocumentSyncKind {
    Off,
    Full,
    Incremental,
}

/// Name and version of the server.
#[derive(Debug, PartialEq, Eq)]
pub struct ServerInfo {
    pub name: String,
    pub version: Option<String>,
}

/// What the server offers for completion.
#[derive(Debug, PartialEq, Eq)]
pub struct CompletionOptions {
    pub resolve_provider: Option<bool>,
    pub trigger_characters: Option<Vec<String>>,
}

/// What the server wants with a save notification.
#[derive(Clone, Copy, Debug, PartialEq, Eq, Structural)]
pub struct SaveOptions {
    pub include_text: Option<bool>,
}

/// Which document notifications the server wants, and in what form.
#[derive(Clone, Copy, Debug, PartialEq, Eq, Structural)]
pub struct TextDocumentSyncOptions {
    pub open_close: Option<bool>,
    pub change: Option<TextDocumentSyncKind>,
    pub will_save: Option<bool>,
    pub will_save_wait_until: Option<bool>,
    pub save: Option<SaveOptions>,
}

/// The capabilities that the server declares.
#[derive(Debug, PartialEq, Eq)]
pub struct ServerCapabilities {
    pub completion_provider: Option<CompletionOptions>,
    pub text_document_sync: Option<TextDocumentSyncOptions>,
}

/// The server's answer to the request that opens a session.
#[derive(Debug, PartialEq, Eq)]
pub struct InitializeResult {
    pub capabilities: ServerCapabilities,
    pub server_info: Option<ServerInfo>,
}

/// The document notifications that the server asks for: open and close, every change with
/// the full text of the document, and every save with the text included.
pub open spec fn full_text_sync() -> TextDocumentSyncOptions {
    TextDocumentSyncOptions {
        open_close: Some(true),
        change: Some(TextDocumentSyncKind::Full),
        will_save: Some(false),
        will_save_wait_until: Some(false),
        save: Some(SaveOptions { include_text: Some(true) }),
    }
}

/// The answer to the request that opens a session. It names the server, asks for the full
/// text on every change and with every save, and offers completion after a `.`.
pub fn create_init() -> (init: InitializeResult)
    ensures
        ({
            &&& init.server_info matches Some(info)
            &&& info.name@ == "SPWN-Srvr"@
            &&& info.version matches Some(version)
            &&& version@ == "0.1.0"@
        }),
        init.capabilities.text_document_sync == Some(full_text_sync()),
        ({
            &&& init.capabilities.completion_provider matches Some(completion)
            &&& completion.resolve_provider == Some(false)
            &&& completion.trigger_characters matches Some(triggers)
            &&& triggers@.len() == 1
            &&& triggers@[0]@ == "."@
        }),
{
    let server_info = ServerInfo {
        name: String::from_str("SPWN-Srvr"),
        version: Some(String::from_str("0.1.0")),
    };
    let mut triggers: Vec<String> = Vec::new();
    triggers.push(String::from_str("."));
    let completion_provider = CompletionOptions {
        resolve_provider: Some(false),
        trigger_characters: Some(triggers),
    };
    let text_document_sync = TextDocumentSyncOptions {
        open_close: Some(true),
        change: Some(TextDocumentSyncKind::Full),
        will_save: Some(false),
        will_save_wait_until: Some(false),
        save: Some(SaveOptions { include_text: Some(true) }),
    };
    let capabilities = ServerCapabilities {
        completion_provider: Some(completion_provider),
        text_document_sync: Some(text_document_sync),
    };
    InitializeResult { capabilities, server_info: Some(server_info) }
}

} // verus!
