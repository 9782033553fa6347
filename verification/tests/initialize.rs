use spwn_lsp::initialize::{
    create_init, CompletionOptions, SaveOptions, TextDocumentSyncKind, TextDocumentSyncOptions,
};

#[test]
fn is_correct_version() {
    let output = create_init();
    let current_version = "0.1.0";

    assert_eq!(
        output.server_info.unwrap().version.unwrap(),
        current_version
    )
}

#[test]
fn names_the_server() {
    assert_eq!(create_init().server_info.unwrap().name, "SPWN-Srvr");
}

#[test]
fn asks_for_the_full_text_on_change_and_save() {
    assert_eq!(
        create_init().capabilities.text_document_sync,
        Some(TextDocumentSyncOptions {
            open_close: Some(true),
            change: Some(TextDocumentSyncKind::Full),
            will_save: Some(false),
            will_save_wait_until: Some(false),
            save: Some(SaveOptions {
                include_text: Some(true)
            }),
        })
    );
}

#[test]
fn offers_completion_after_a_period() {
    assert_eq!(
        create_init().capabilities.completion_provider,
        Some(CompletionOptions {
            resolve_provider: Some(false),
            trigger_characters: Some(vec![".".to_string()]),
        })
    );
}
