//! The interactive session: which field has the focus, how far the lists
//! are scrolled, the two pattern texts, and, once the preview is confirmed,
//! the run of the renames. Each event gives a new state and tells the host
//! what to do next.

use vstd::prelude::*;
use crate::entry::EntryView;
use crate::executor::{
    Executor, RenameOp, RenameOpView, RenameOutcome, RunView, Step, lemma_nothing_due,
};
use crate::listing::{LoadError, Loaded, Listing};
use crate::pattern::{CompiledPattern, whole_match_template};
use crate::preview::{
    PatternState, PreviewRow, RowView, default_match_text, default_replace_text, preview_of,
    row_views,
};
use crate::text::{copy_lines, stack_lines, stacked, texts};

verus! {

/// The text field that takes the user's typing.
#[derive(Clone, Copy, Debug, PartialEq, Eq, Structural)]
pub enum FocusState {
    /// The field that holds the match pattern.
    Match,
    /// The field that holds the replacement template.
    Rename,
}

impl Default for FocusState {
    /// A session starts with the focus on the match field.
    fn default() -> (focus: Self)
        ensures
            focus == FocusState::Match,
    {
        FocusState::Match
    }
}

impl FocusState {
    /// The other field.
    pub open spec fn toggled(self) -> FocusState {
        match self {
            FocusState::Match => FocusState::Rename,
            FocusState::Rename => FocusState::Match,
        }
    }
}

/// The keys that the session tells apart.
#[derive(Clone, Copy, Debug, PartialEq, Eq, Structural)]
pub enum KeyCode {
    /// Scrolls one entry towards the start of the listing.
    Up,
    /// Scrolls one entry towards the end of the listing.
    Down,
    /// Moves the focus to the other text field.
    Tab,
    /// Confirms the preview.
    Enter,
    /// Any other key.
    Other,
}

/// What can happen to a session.
#[derive(Debug)]
pub enum Event {
    /// A key was pressed, repeated or, where `released` is set, let go.
    Key { code: KeyCode, released: bool },
    /// The user edited the focused field, which now holds this text.
    Edit(String),
    /// The rename that the session asked for was tried, with this outcome.
    Outcome(RenameOutcome),
    /// The terminal changed its size.
    Resize,
}

/// What the session asks of its host after an event.
#[derive(Debug)]
pub enum Action {
    /// Show the state and wait for the next event.
    Continue,
    /// Perform this rename and hand back its outcome.
    Rename(RenameOp),
    /// End the session with this exit code.
    Exit(i32),
}

/// What an `Action` is, mathematically.
pub enum ActionView {
    Continue,
    Rename(RenameOpView),
    Exit(i32),
}

impl View for Action {
    type V = ActionView;

    open spec fn view(&self) -> ActionView {
        match self {
            Action::Continue => ActionView::Continue,
            Action::Rename(op) => ActionView::Rename(op@),
            Action::Exit(code) => ActionView::Exit(*code),
        }
    }
}

/// What a session hands to the process that hosted it.
#[derive(Debug)]
pub struct SessionResult {
    /// 0 where nothing failed, 1 otherwise.
    pub exit_code: i32,
    /// One line for each rename that was requested, in order.
    pub info_lines: Vec<String>,
    /// One line for each thing that failed, in order.
    pub error_lines: Vec<String>,
}

impl SessionResult {
    /// What the process writes to its standard output at the end: the info
    /// lines, one below the other.
    pub fn output_text(&self) -> (text: String)
        ensures
            text@ == stacked(texts(self.info_lines@)),
    {
        stack_lines(&self.info_lines)
    }

    /// What the process writes to its standard error at the end: the error
    /// lines, one below the other.
    pub fn error_text(&self) -> (text: String)
        ensures
            text@ == stacked(texts(self.error_lines@)),
    {
        stack_lines(&self.error_lines)
    }

    /// The result of a session that never started because the directory
    /// could not be read: exit code 1 and the line that reports the failure.
    pub fn from_load_error(error: LoadError) -> (result: SessionResult)
        ensures
            result.exit_code == 1,
            result.info_lines@.len() == 0,
            texts(result.error_lines@) == seq![error.line@],
    {
        let mut error_lines: Vec<String> = Vec::new();
        error_lines.push(error.line);
        assert(texts(error_lines@) =~= seq![error.line@]);
        SessionResult { exit_code: 1, info_lines: Vec::new(), error_lines }
    }
}

/// The scroll offset after the Up key: one less, but not below 0.
pub open spec fn scrolled_up(scroll: int) -> int {
    if scroll > 0 {
        scroll - 1
    } else {
        0
    }
}

/// The scroll offset after the Down key: one more, but not beyond the last
/// entry, and 0 where there is no entry.
pub open spec fn scrolled_down(scroll: int, item_count: int) -> int {
    if scroll + 1 < item_count {
        scroll + 1
    } else if item_count > 0 {
        item_count - 1
    } else {
        0
    }
}

/// The state of a session.
pub struct SessionView {
    pub listing: Seq<EntryView>,
    pub match_text: Seq<char>,
    pub replace_text: Seq<char>,
    pub focus: FocusState,
    pub scroll: int,
    /// The lines for the children that could not be listed.
    pub load_errors: Seq<Seq<char>>,
    /// The run of the renames, from the moment the preview is confirmed.
    pub run: Option<RunView>,
}

impl SessionView {
    /// The largest scroll offset: the position of the last entry, or 0.
    pub open spec fn max_scroll(self) -> int {
        if self.listing.len() > 0 {
            self.listing.len() - 1
        } else {
            0
        }
    }

    /// Whether the scroll offset is a position of the listing, or 0 for an
    /// empty listing.
    pub open spec fn scroll_in_range(self) -> bool {
        0 <= self.scroll <= self.max_scroll()
    }

    /// The preview that the state shows.
    pub open spec fn preview(self) -> Seq<RowView> {
        preview_of(self.listing, self.match_text, self.replace_text)
    }

    /// The exit code, once the session is over: 1 if a child could not be
    /// listed or a rename failed, else 0.
    pub open spec fn done(self) -> Option<i32> {
        match self.run {
            Some(run) => if run.finished() {
                Some(
                    if run.failed() || self.load_errors.len() > 0 {
                        1i32
                    } else {
                        0i32
                    },
                )
            } else {
                None
            },
            None => None,
        }
    }

    /// The state after `event`.
    ///
    /// Before the preview is confirmed, a key that is not a release scrolls,
    /// moves the focus or confirms, an edit replaces the focused text, and
    /// everything else changes nothing. From then on only the outcome of a
    /// requested rename changes the state.
    pub open spec fn handle(self, event: Event) -> SessionView {
        match self.run {
            Some(run) => match event {
                Event::Outcome(outcome) => SessionView {
                    run: Some(run.resolve(outcome.failure())),
                    ..self
                },
                _ => self,
            },
            None => match event {
                Event::Key { code, released } => if released {
                    self
                } else {
                    match code {
                        KeyCode::Up => SessionView { scroll: scrolled_up(self.scroll), ..self },
                        KeyCode::Down => SessionView {
                            scroll: scrolled_down(self.scroll, self.listing.len() as int),
                            ..self
                        },
                        KeyCode::Tab => SessionView { focus: self.focus.toggled(), ..self },
                        KeyCode::Enter => SessionView {
                            run: Some(RunView::begin(self.preview())),
                            ..self
                        },
                        KeyCode::Other => self,
                    }
                },
                Event::Edit(text) => match self.focus {
                    FocusState::Match => SessionView { match_text: text@, ..self },
                    FocusState::Rename => SessionView { replace_text: text@, ..self },
                },
                _ => self,
            },
        }
    }

    /// What the state asks of the host: the rename whose outcome is open,
    /// the exit once the run has ended, and otherwise to go on.
    pub open spec fn action(self) -> ActionView {
        match self.run {
            Some(run) => match run.request() {
                Some(op) => ActionView::Rename(op),
                None => ActionView::Exit(self.done().unwrap()),
            },
            None => ActionView::Continue,
        }
    }

    /// The info lines of the session.
    pub open spec fn info_lines(self) -> Seq<Seq<char>> {
        match self.run {
            Some(run) => run.info_lines(),
            None => Seq::empty(),
        }
    }

    /// The error lines of the session: those of the listing, then that of
    /// the failed rename.
    pub open spec fn error_lines(self) -> Seq<Seq<char>> {
        match self.run {
            Some(run) => self.load_errors + run.error_lines(),
            None => self.load_errors,
        }
    }

    /// The state after each of `events` in turn.
    pub open spec fn handle_all(self, events: Seq<Event>) -> SessionView
        decreases events.len(),
    {
        if events.len() == 0 {
            self
        } else {
            self.handle_all(events.drop_last()).handle(events.last())
        }
    }
}

/// No event moves the scroll offset out of its range, and none changes the
/// listing.
pub proof fn lemma_handle_keeps_scroll_in_range(state: SessionView, event: Event)
    requires
        state.scroll_in_range(),
    ensures
        state.handle(event).scroll_in_range(),
        state.handle(event).listing == state.listing,
{
}

/// After any sequence of events the scroll offset is a position of the
/// listing, or 0 where the listing is empty; the listing is the one the
/// session began with.
pub proof fn lemma_scroll_stays_in_range(state: SessionView, events: Seq<Event>)
    requires
        state.scroll_in_range(),
    ensures
        state.handle_all(events).scroll_in_range(),
        state.handle_all(events).listing == state.listing,
    decreases events.len(),
{
    if events.len() > 0 {
        lemma_scroll_stays_in_range(state, events.drop_last());
        lemma_handle_keeps_scroll_in_range(state.handle_all(events.drop_last()), events.last());
    }
}

/// In an empty directory the Up and Down keys change nothing.
pub proof fn lemma_empty_listing_does_not_scroll(state: SessionView, released: bool)
    requires
        state.scroll_in_range(),
        state.listing.len() == 0,
    ensures
        state.handle(Event::Key { code: KeyCode::Up, released }) == state,
        state.handle(Event::Key { code: KeyCode::Down, released }) == state,
{
}

/// Confirming a preview in which no row is due ends the session at once,
/// without an info line; the exit code is 0 unless a child of the directory
/// could not be listed.
pub proof fn lemma_confirming_nothing_ends_session(state: SessionView)
    requires
        state.run is None,
        forall|k: int|
            0 <= k < state.preview().len() ==> !(#[trigger] state.preview()[k]).renames(),
    ensures
        ({
            let after = state.handle(Event::Key { code: KeyCode::Enter, released: false });
            &&& after.done() == Some(if state.load_errors.len() > 0 { 1i32 } else { 0i32 })
            &&& after.info_lines() == Seq::<Seq<char>>::empty()
            &&& after.error_lines() == state.load_errors
            &&& after.action() == ActionView::Exit(after.done().unwrap())
        }),
{
    lemma_nothing_due(state.preview());
    let after = state.handle(Event::Key { code: KeyCode::Enter, released: false });
    assert(after.error_lines() =~= state.load_errors);
}

/// With an empty replacement template, or in an empty directory, no row of
/// the preview is due.
pub proof fn lemma_nothing_due_without_template_or_entries(state: SessionView)
    requires
        state.replace_text.len() == 0 || state.listing.len() == 0,
    ensures
        forall|k: int|
            0 <= k < state.preview().len() ==> !(#[trigger] state.preview()[k]).renames(),
{
}

/// Once the session is over no event changes it.
pub proof fn lemma_done_is_final(state: SessionView, event: Event)
    requires
        state.done() is Some,
    ensures
        state.handle(event) == state,
{
}

/// An interactive session over one listing.
#[derive(Debug)]
pub struct Session {
    listing: Listing,
    patterns: PatternState,
    focus: FocusState,
    scroll: usize,
    load_errors: Vec<String>,
    run: Option<Executor>,
}

impl View for Session {
    type V = SessionView;

    closed spec fn view(&self) -> SessionView {
        SessionView {
            listing: self.listing@,
            match_text: self.patterns.match_text@,
            replace_text: self.patterns.replace_text@,
            focus: self.focus,
            scroll: self.scroll as int,
            load_errors: texts(self.load_errors@),
            run: match self.run {
                Some(run) => Some(run@),
                None => None,
            },
        }
    }
}

impl Session {
    #[verifier::type_invariant]
    spec fn sound(self) -> bool {
        &&& self@.scroll_in_range()
        &&& match self.run {
            Some(run) => run@.coherent(),
            None => true,
        }
    }

    /// A session over what `load` gave: the focus is on the match field,
    /// nothing is scrolled, and the pattern texts are the default ones.
    pub fn new(loaded: Loaded) -> (session: Session)
        ensures
            session@ == (SessionView {
                listing: loaded.listing@,
                match_text: default_match_text(),
                replace_text: default_replace_text(),
                focus: FocusState::Match,
                scroll: 0,
                load_errors: texts(loaded.error_lines@),
                run: None,
            }),
    {
        Session {
            listing: loaded.listing,
            patterns: PatternState::default(),
            focus: FocusState::default(),
            scroll: 0,
            load_errors: loaded.error_lines,
            run: None,
        }
    }

    /// The listing the session is about.
    pub fn listing(&self) -> (listing: &Listing)
        ensures
            listing@ == self@.listing,
    {
        &self.listing
    }

    /// The number of entries in the listing.
    pub fn item_count(&self) -> (count: usize)
        ensures
            count == self@.listing.len(),
    {
        self.listing.len()
    }

    /// The two pattern texts.
    pub fn patterns(&self) -> (patterns: &PatternState)
        ensures
            patterns.match_text@ == self@.match_text,
            patterns.replace_text@ == self@.replace_text,
    {
        &self.patterns
    }

    /// The field that has the focus.
    pub fn focus(&self) -> (focus: FocusState)
        ensures
            focus == self@.focus,
    {
        self.focus
    }

    /// The scroll offset: a position of the listing, or 0 where the listing
    /// is empty.
    pub fn scroll(&self) -> (scroll: usize)
        ensures
            scroll == self@.scroll,
            self@.scroll_in_range(),
    {
        proof {
            use_type_invariant(self);
        }
        self.scroll
    }

    /// The exit code, once the session is over; `None` until then.
    pub fn done(&self) -> (code: Option<i32>)
        ensures
            code == self@.done(),
    {
        match &self.run {
            Some(run) => {
                if run.is_finished() {
                    if run.has_failed() || self.load_errors.len() > 0 {
                        Some(1)
                    } else {
                        Some(0)
                    }
                } else {
                    None
                }
            },
            None => None,
        }
    }

    /// The preview of the listing under the current pattern texts.
    pub fn preview(&self) -> (rows: Vec<PreviewRow>)
        ensures
            row_views(rows@) == self@.preview(),
            self@.replace_text == whole_match_template() ==> forall|i: int|
                0 <= i < rows.len() ==> (#[trigger] rows[i])@.rendered_name
                    == self@.listing[i].name,
    {
        let pattern = CompiledPattern::compile(self.patterns.match_text.as_str());
        crate::preview::derive(&self.listing, &pattern, &self.patterns)
    }

    /// Takes one event, moves to the state after it and says what the host
    /// is to do next.
    pub fn handle(&mut self, event: Event) -> (action: Action)
        ensures
            final(self)@ == old(self)@.handle(event),
            final(self)@.scroll_in_range(),
            action@ == final(self)@.action(),
    {
        proof {
            use_type_invariant(&*self);
        }
        let mut run: Option<Executor> = None;
        std::mem::swap(&mut run, &mut self.run);
        match run {
            Some(executor) => match event {
                Event::Outcome(outcome) => {
                    let (executor, step) = executor.resolve(outcome);
                    self.run = Some(executor);
                    self.action_for(step)
                },
                _ => {
                    self.run = Some(executor);
                    self.current_action()
                },
            },
            None => match event {
                Event::Key { code, released } => {
                    if released {
                        Action::Continue
                    } else {
                        match code {
                            KeyCode::Up => {
                                if self.scroll > 0 {
                                    self.scroll = self.scroll - 1;
                                }
                                Action::Continue
                            },
                            KeyCode::Down => {
                                let count = self.listing.len();
                                if count > 0 && self.scroll < count - 1 {
                                    self.scroll = self.scroll + 1;
                                }
                                Action::Continue
                            },
                            KeyCode::Tab => {
                                self.focus = match self.focus {
                                    FocusState::Match => FocusState::Rename,
                                    FocusState::Rename => FocusState::Match,
                                };
                                Action::Continue
                            },
                            KeyCode::Enter => {
                                let rows = self.preview();
                                let (executor, step) = Executor::start(rows);
                                self.run = Some(executor);
                                self.action_for(step)
                            },
                            KeyCode::Other => Action::Continue,
                        }
                    }
                },
                Event::Edit(text) => {
                    match self.focus {
                        FocusState::Match => {
                            self.patterns.match_text = text;
                        },
                        FocusState::Rename => {
                            self.patterns.replace_text = text;
                        },
                    }
                    Action::Continue
                },
                _ => Action::Continue,
            },
        }
    }

    /// The action that goes with the step the executor just named.
    fn action_for(&self, step: Step) -> (action: Action)
        requires
            self@.run is Some,
            step.request() == self@.run.unwrap().request(),
        ensures
            action@ == self@.action(),
    {
        match step {
            Step::Rename(op) => Action::Rename(op),
            Step::Finished => {
                let code = self.done();
                Action::Exit(code.unwrap())
            },
        }
    }

    /// What the session, as it stands, asks of its host.
    pub fn current_action(&self) -> (action: Action)
        ensures
            action@ == self@.action(),
    {
        match &self.run {
            Some(run) => self.action_for(run.pending()),
            None => Action::Continue,
        }
    }

    /// What the session hands to the process once it is over: the exit
    /// code, the info lines and the error lines. `None` while it goes on.
    pub fn result(&self) -> (result: Option<SessionResult>)
        ensures
            match result {
                Some(r) => self@.done() == Some(r.exit_code) && texts(r.info_lines@)
                    == self@.info_lines() && texts(r.error_lines@) == self@.error_lines(),
                None => self@.done() is None,
            },
    {
        match self.done() {
            None => None,
            Some(exit_code) => {
                let run = self.run.as_ref().unwrap();
                let info_lines = run.info_lines();
                let mut error_lines = copy_lines(&self.load_errors);
                let mut tail = run.error_lines();
                let ghost head = error_lines@;
                let ghost rest = tail@;
                error_lines.append(&mut tail);
                assert(texts(error_lines@) =~= texts(head) + texts(rest));
                Some(SessionResult { exit_code, info_lines, error_lines })
            },
        }
    }
}

} // verus!
