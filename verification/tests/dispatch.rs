use spwn_lsp::dispatch::{DispatchState, DocumentEvent, DocumentSession, EventKind, ParseRequest};
use spwn_lsp::position::{Position, Range};
use spwn_lsp::syntax_errors::{Diagnostic, Severity, SyntaxError};

fn changed(text: &str) -> DocumentEvent {
    DocumentEvent::changed(vec![text.to_string()])
}

fn broken(span: (usize, usize)) -> Result<(), SyntaxError> {
    Err(SyntaxError::Generic {
        message: "broken".to_string(),
        span,
    })
}

#[test]
fn an_opened_document_carries_its_text() {
    assert_eq!(
        DocumentEvent::opened("a = 1".to_string()),
        DocumentEvent {
            kind: EventKind::Opened,
            text: Some("a = 1".to_string()),
        }
    );
}

#[test]
fn a_change_carries_the_first_of_its_contents() {
    assert_eq!(
        DocumentEvent::changed(vec!["a = 1".to_string()]),
        DocumentEvent {
            kind: EventKind::Changed,
            text: Some("a = 1".to_string()),
        }
    );
    assert_eq!(
        DocumentEvent::changed(vec!["first".to_string(), "second".to_string()]).into_text(),
        "first"
    );
}

#[test]
fn a_change_without_contents_carries_no_text() {
    let event = DocumentEvent::changed(Vec::new());
    assert_eq!(
        event,
        DocumentEvent {
            kind: EventKind::Changed,
            text: None,
        }
    );
    assert_eq!(event.into_text(), "");
}

#[test]
fn a_save_carries_the_text_that_came_with_it() {
    assert_eq!(
        DocumentEvent::saved(Some("a = 1".to_string())),
        DocumentEvent {
            kind: EventKind::Saved,
            text: Some("a = 1".to_string()),
        }
    );
    assert_eq!(DocumentEvent::saved(None).into_text(), "");
}

#[test]
fn a_new_session_is_idle() {
    let session = DocumentSession::new();
    assert_eq!(session.state(), DispatchState::Idle);
    assert!(session.can_begin());
}

#[test]
fn an_event_starts_a_parse_of_its_text() {
    let mut session = DocumentSession::new();
    let request = session.begin(DocumentEvent {
        kind: EventKind::Opened,
        text: Some("a = 1".to_string()),
    });
    assert_eq!(
        request,
        ParseRequest {
            sequence: 1,
            text: "a = 1".to_string()
        }
    );
    assert_eq!(session.state(), DispatchState::Parsing);
    let request = session.begin(DocumentEvent {
        kind: EventKind::Saved,
        text: Some("a = 2".to_string()),
    });
    assert_eq!(request.sequence, 2);
    assert_eq!(request.text, "a = 2");
}

#[test]
fn an_event_without_text_stands_for_the_empty_document() {
    for kind in [EventKind::Opened, EventKind::Changed, EventKind::Saved] {
        assert_eq!(DocumentEvent { kind, text: None }.into_text(), "");
        let mut session = DocumentSession::new();
        let request = session.begin(DocumentEvent { kind, text: None });
        assert_eq!(request.text, "");
        let published = session.complete(request, broken((3, 4))).unwrap();
        assert_eq!(published.len(), 1);
        assert_eq!(
            published[0].range,
            Range {
                start: Position {
                    line: 0,
                    character: 0
                },
                end: Position {
                    line: 0,
                    character: 0
                },
            }
        );
    }
}

#[test]
fn success_publishes_an_empty_list() {
    let mut session = DocumentSession::new();
    let request = session.begin(changed("a = 1"));
    assert_eq!(session.complete(request, Ok(())), Some(vec![]));
    assert_eq!(session.state(), DispatchState::Idle);
}

#[test]
fn failure_publishes_one_diagnostic() {
    let mut session = DocumentSession::new();
    let request = session.begin(changed("a = 1\nb = ("));
    let published = session.complete(request, broken((10, 11)));
    assert_eq!(
        published,
        Some(vec![Diagnostic {
            range: Range {
                start: Position {
                    line: 1,
                    character: 4
                },
                end: Position {
                    line: 1,
                    character: 5
                },
            },
            message: "SYNTAX ERROR: broken".to_string(),
            severity: Severity::Error,
            source: "Syntax Error".to_string(),
        }])
    );
    assert_eq!(session.state(), DispatchState::Idle);
}

#[test]
fn the_later_edit_wins_when_its_parse_ends_first() {
    let mut session = DocumentSession::new();
    let first = session.begin(changed("a = ("));
    let second = session.begin(changed("a = (1)"));
    assert_eq!(session.complete(second, Ok(())), Some(vec![]));
    assert_eq!(session.state(), DispatchState::Idle);
    assert_eq!(session.complete(first, broken((4, 5))), None);
    assert_eq!(session.state(), DispatchState::Idle);
}

#[test]
fn the_later_edit_wins_when_its_parse_ends_last() {
    let mut session = DocumentSession::new();
    let first = session.begin(changed("a = ("));
    let second = session.begin(changed("a = (1)"));
    assert_eq!(session.complete(first, broken((4, 5))), None);
    assert_eq!(session.state(), DispatchState::Parsing);
    assert_eq!(session.complete(second, Ok(())), Some(vec![]));
    assert_eq!(session.state(), DispatchState::Idle);
}

#[test]
fn a_result_goes_out_once() {
    let mut session = DocumentSession::new();
    let request = session.begin(changed("a"));
    let again = ParseRequest {
        sequence: request.sequence,
        text: "a".to_string(),
    };
    assert!(session.complete(request, Ok(())).is_some());
    assert_eq!(session.complete(again, Ok(())), None);
}

#[test]
fn a_number_that_was_never_handed_out_is_rejected() {
    let mut session = DocumentSession::new();
    let made_up = ParseRequest {
        sequence: 0,
        text: String::new(),
    };
    assert_eq!(session.complete(made_up, Ok(())), None);
    let request = session.begin(changed("a"));
    let made_up = ParseRequest {
        sequence: request.sequence + 1,
        text: String::new(),
    };
    assert_eq!(session.complete(made_up, Ok(())), None);
    assert_eq!(session.state(), DispatchState::Parsing);
    assert!(session.complete(request, Ok(())).is_some());
}

#[test]
fn only_the_newest_of_many_parses_goes_out() {
    let mut session = DocumentSession::new();
    let mut requests = Vec::new();
    for round in 0..10 {
        requests.push(session.begin(changed(&"x".repeat(round))));
    }
    let newest = requests.pop().unwrap();
    for stale in requests {
        assert_eq!(session.complete(stale, Ok(())), None);
        assert_eq!(session.state(), DispatchState::Parsing);
    }
    assert_eq!(newest.sequence, 10);
    assert_eq!(session.complete(newest, Ok(())), Some(vec![]));
}

#[test]
fn sessions_of_two_documents_do_not_meet() {
    let mut one = DocumentSession::new();
    let mut other = DocumentSession::new();
    let in_one = one.begin(changed("a"));
    let in_other = other.begin(changed("b"));
    let _newer = other.begin(changed("bb"));
    assert!(one.complete(in_one, Ok(())).is_some());
    assert_eq!(other.complete(in_other, Ok(())), None);
}
