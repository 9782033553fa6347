//! The order of work on one open document.
//!
//! Every event of a document starts a parse of the whole text, and parses may finish in
//! any order. A `DocumentSession` numbers the parses it starts and lets only the result of
//! the newest one through, so that what the editor shows belongs to the latest text.

use vstd::prelude::*;
use crate::syntax_errors::{
    diagnostic_views,
    diagnostics_for,
    set_syntax_errors,
    Diagnostic,
    DiagnosticView,
    ParseOutcome,
};

verus! {

/// What happened to a document.
#[derive(Clone, Copy, Debug, PartialEq, Eq, Structural)]
pub enum EventKind {
    Opened,
    Changed,
    Saved,
}

/// What the editor reports of a document. Each event carries the whole current text; one
/// that came without a text stands for the empty document.
#[derive(Debug, PartialEq, Eq)]
pub struct DocumentEvent {
    pub kind: EventKind,
    pub text: Option<String>,
}

impl DocumentEvent {
    /// The event of a document that was opened with `text`.
    pub fn opened(text: String) -> (event: DocumentEvent)
        ensures
            event.kind == EventKind::Opened,
            event.text == Some(text),
    {
        DocumentEvent { kind: EventKind::Opened, text: Some(text) }
    }

    /// The event of a document that was changed. The editor reports a change as a list of
    /// new contents; the first of them is the whole text, and a list without one leaves
    /// the event without a text.
    pub fn changed(changes: Vec<String>) -> (event: DocumentEvent)
        ensures
            event.kind == EventKind::Changed,
            event.text is Some == (changes@.len() > 0),
            event.full_text() == (if changes@.len() > 0 {
                changes@[0]@
            } else {
                Seq::empty()
            }),
    {
        let mut changes = changes;
        let text = if changes.len() > 0 {
            Some(changes.remove(0))
        } else {
            None
        };
        DocumentEvent { kind: EventKind::Changed, text }
    }

    /// The event of a document that was saved, with the text that came with the save, if
    /// one did.
    pub fn saved(text: Option<String>) -> (event: DocumentEvent)
        ensures
            event.kind == EventKind::Saved,
            event.text == text,
    {
        DocumentEvent { kind: EventKind::Saved, text }
    }

    /// The text that the event carries, empty where it carries none.
    pub open spec fn full_text(self) -> Seq<char> {
        match self.text {
            Some(text) => text@,
            None => Seq::empty(),
        }
    }

    /// Takes the text out of the event.
    pub fn into_text(self) -> (text: String)
        ensures
            text@ == self.full_text(),
    {
        match self.text {
            Some(text) => text,
            None => String::new(),
        }
    }
}

/// Whether a parse of the document's latest text is still awaited.
#[derive(Clone, Copy, Debug, PartialEq, Eq, Structural)]
pub enum DispatchState {
    Idle,
    Parsing,
}

/// A session as the editor sees it: `issued` is the number of the newest parse that was
/// started, `settled` the number of the newest parse whose result went out, and `shown`
/// the diagnostics that went out last, if any did.
pub ghost struct SessionModel {
    pub issued: nat,
    pub settled: nat,
    pub shown: Option<Seq<DiagnosticView>>,
}

impl SessionModel {
    /// No result goes out before its parse was started.
    pub open spec fn wf(self) -> bool {
        self.settled <= self.issued
    }

    /// Idle when the result of the newest parse has gone out, or no parse was started.
    pub open spec fn state(self) -> DispatchState {
        if self.settled == self.issued {
            DispatchState::Idle
        } else {
            DispatchState::Parsing
        }
    }

    /// The session after one more parse was started; that parse has the number `issued`
    /// of the session returned.
    pub open spec fn begun(self) -> SessionModel {
        SessionModel { issued: self.issued + 1, settled: self.settled, shown: self.shown }
    }

    /// Whether the result of parse number `sequence` goes out: only that of the newest
    /// parse does, and only once.
    pub open spec fn accepts(self, sequence: nat) -> bool {
        sequence == self.issued && self.settled < self.issued
    }

    /// The session after parse number `sequence` ended with `diagnostics`: they are shown
    /// if the result goes out, and nothing changes if it does not.
    pub open spec fn completed(
        self,
        sequence: nat,
        diagnostics: Seq<DiagnosticView>,
    ) -> SessionModel {
        if self.accepts(sequence) {
            SessionModel { issued: self.issued, settled: sequence, shown: Some(diagnostics) }
        } else {
            self
        }
    }
}

/// One thing that happens to a session: a parse is started, or the parse with the given
/// number ends with the given diagnostics.
pub ghost enum SessionStep {
    Begin,
    Complete { sequence: nat, diagnostics: Seq<DiagnosticView> },
}

impl SessionModel {
    /// The session after `step`.
    pub open spec fn after(self, step: SessionStep) -> SessionModel {
        match step {
            SessionStep::Begin => self.begun(),
            SessionStep::Complete { sequence, diagnostics } => self.completed(
                sequence,
                diagnostics,
            ),
        }
    }

    /// The session after `steps`, taken in order.
    pub open spec fn after_all(self, steps: Seq<SessionStep>) -> SessionModel
        decreases steps.len(),
    {
        if steps.len() == 0 {
            self
        } else {
            self.after_all(steps.drop_last()).after(steps.last())
        }
    }
}

/// Of two edits, the later one wins whichever parse ends first. When the parse of the
/// later edit ends first, its result goes out and that of the earlier edit is dropped on
/// arrival; when the parse of the earlier edit ends first, its result is dropped and that
/// of the later edit still goes out. Either way the editor ends up showing the diagnostics
/// of the later edit.
pub proof fn lemma_later_edit_wins(
    session: SessionModel,
    earlier: Seq<DiagnosticView>,
    later: Seq<DiagnosticView>,
)
    requires
        session.wf(),
    ensures
        ({
            let first = session.begun().issued;
            let second = session.begun().begun().issued;
            let both = session.begun().begun();
            &&& both.accepts(second)
            &&& !both.completed(second, later).accepts(first)
            &&& both.completed(second, later).completed(first, earlier).shown == Some(later)
            &&& !both.accepts(first)
            &&& both.completed(first, earlier).accepts(second)
            &&& both.completed(first, earlier).completed(second, later).shown == Some(later)
        }),
{
}

/// Whatever happens to a session, the number of its newest parse does not fall, and the
/// session stays well formed.
pub proof fn lemma_numbers_only_grow(session: SessionModel, steps: Seq<SessionStep>)
    requires
        session.wf(),
    ensures
        session.issued <= session.after_all(steps).issued,
        session.settled <= session.after_all(steps).settled,
        session.after_all(steps).wf(),
    decreases steps.len(),
{
    if steps.len() > 0 {
        lemma_numbers_only_grow(session, steps.drop_last());
    }
}

/// A result that is stale stays stale: once a newer parse was started, the result of an
/// older one goes out at no later time, whatever happened in between, and leaves what the
/// editor shows as it is.
pub proof fn lemma_stale_result_rejected(
    session: SessionModel,
    steps: Seq<SessionStep>,
    sequence: nat,
    diagnostics: Seq<DiagnosticView>,
)
    requires
        session.wf(),
        sequence < session.issued,
    ensures
        !session.after_all(steps).accepts(sequence),
        session.after_all(steps).completed(sequence, diagnostics) == session.after_all(steps),
{
    lemma_numbers_only_grow(session, steps);
}

/// A parse to be made: the text, and the number under which its result is handed in.
#[derive(Debug, PartialEq, Eq)]
pub struct ParseRequest {
    pub sequence: u64,
    pub text: String,
}

/// The state of one open document.
pub struct DocumentSession {
    issued: u64,
    settled: u64,
    shown: Ghost<Option<Seq<DiagnosticView>>>,
}

impl View for DocumentSession {
    type V = SessionModel;

    closed spec fn view(&self) -> SessionModel {
        SessionModel {
            issued: self.issued as nat,
            settled: self.settled as nat,
            shown: self.shown@,
        }
    }
}

impl DocumentSession {
    #[verifier::type_invariant]
    spec fn in_order(&self) -> bool {
        self.settled <= self.issued
    }

    /// A session in which no parse was started yet and nothing is shown.
    pub fn new() -> (session: DocumentSession)
        ensures
            session@ == (SessionModel { issued: 0, settled: 0, shown: None }),
            session@.wf(),
    {
        DocumentSession { issued: 0, settled: 0, shown: Ghost(None) }
    }

    /// `Parsing` while the result of the newest parse is awaited, `Idle` otherwise.
    pub fn state(&self) -> (state: DispatchState)
        ensures
            state == self@.state(),
            self@.wf(),
    {
        proof {
            use_type_invariant(self);
        }
        if self.settled == self.issued {
            DispatchState::Idle
        } else {
            DispatchState::Parsing
        }
    }

    /// Whether one more parse can be numbered.
    pub fn can_begin(&self) -> (possible: bool)
        ensures
            possible == (self@.issued < u64::MAX),
    {
        self.issued < u64::MAX
    }

    /// Starts the parse that `event` asks for: the request holds the event's text and the
    /// next number, and the session awaits its result.
    pub fn begin(&mut self, event: DocumentEvent) -> (request: ParseRequest)
        requires
            old(self)@.issued < u64::MAX,
        ensures
            final(self)@ == old(self)@.begun(),
            final(self)@.state() == DispatchState::Parsing,
            request.sequence == final(self)@.issued,
            request.text@ == event.full_text(),
    {
        proof {
            use_type_invariant(&*self);
        }
        self.issued = self.issued + 1;
        ParseRequest { sequence: self.issued, text: event.into_text() }
    }

    /// Takes in the outcome of the parse that `request` asked for. Where that parse is the
    /// newest one and its result has not gone out yet, the diagnostics for its text are
    /// returned, to be published even when there are none, and the session is idle.
    /// Otherwise the result is stale: nothing is returned and the session stays as it is.
    pub fn complete(&mut self, request: ParseRequest, parsed: ParseOutcome) -> (publication:
        Option<Vec<Diagnostic>>)
        ensures
            final(self)@ == old(self)@.completed(
                request.sequence as nat,
                diagnostics_for(request.text@, parsed),
            ),
            publication is Some == old(self)@.accepts(request.sequence as nat),
            publication is Some ==> final(self)@.state() == DispatchState::Idle,
            publication matches Some(diagnostics) ==> diagnostic_views(diagnostics@)
                == diagnostics_for(request.text@, parsed),
            publication matches Some(diagnostics) ==> (parsed is Ok ==> diagnostics@.len() == 0),
    {
        proof {
            use_type_invariant(&*self);
        }
        if request.sequence == self.issued && self.settled < self.issued {
            self.settled = request.sequence;
            self.shown = Ghost(Some(diagnostics_for(request.text@, parsed)));
            Some(set_syntax_errors(&request.text, parsed))
        } else {
            None
        }
    }
}

} // verus!
