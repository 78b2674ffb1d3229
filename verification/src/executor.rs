//! The rename executor: it turns a confirmed preview into renames, one at a
//! time and in listing order, and stops at the first one that fails. It
//! performs no rename itself: it names the next one, is told how that went,
//! and names the one after.

use vstd::prelude::*;
use crate::preview::{PreviewRow, RowView, row_views};
use crate::text::{copy_lines, joined, texts};

verus! {

/// One rename to perform: both names are names within the directory.
#[derive(Debug)]
pub struct RenameOp {
    /// The name the entry has.
    pub from: String,
    /// The name it is to get.
    pub to: String,
}

/// What a `RenameOp` is, mathematically.
pub struct RenameOpView {
    pub from: Seq<char>,
    pub to: Seq<char>,
}

impl View for RenameOp {
    type V = RenameOpView;

    open spec fn view(&self) -> RenameOpView {
        RenameOpView { from: self.from@, to: self.to@ }
    }
}

/// How a requested rename went.
#[derive(Debug)]
pub enum RenameOutcome {
    /// The entry has its new name.
    Renamed,
    /// The rename failed; the text is the system's description of the error.
    Failed(String),
}

impl RenameOutcome {
    /// The reason of the failure, if the rename failed.
    pub open spec fn failure(self) -> Option<Seq<char>> {
        match self {
            RenameOutcome::Renamed => None,
            RenameOutcome::Failed(reason) => Some(reason@),
        }
    }
}

/// What the executor asks for next.
#[derive(Debug)]
pub enum Step {
    /// Perform this rename and report its outcome.
    Rename(RenameOp),
    /// Nothing more is to be done.
    Finished,
}

impl Step {
    /// The rename asked for, if one is.
    pub open spec fn request(self) -> Option<RenameOpView> {
        match self {
            Step::Rename(op) => Some(op@),
            Step::Finished => None,
        }
    }
}

/// The rename that a due row calls for.
pub open spec fn op_for(row: RowView) -> RenameOpView {
    RenameOpView { from: row.entry.name, to: row.rendered_name }
}

/// The line that announces the rename of a row: the old name, an arrow, the
/// new name.
pub open spec fn info_line(row: RowView) -> Seq<char> {
    row.entry.name + " -> "@ + row.rendered_name
}

/// What stands before the reason in the line for a rename that failed.
pub open spec fn rename_error_prefix() -> Seq<char> {
    "ERROR: Could not rename file: "@
}

/// The position of the first due row at or after `from`; the number of rows
/// if there is none.
pub open spec fn next_due(rows: Seq<RowView>, from: int) -> int
    decreases rows.len() - from,
{
    if from < 0 || from >= rows.len() {
        rows.len() as int
    } else if rows[from].renames() {
        from
    } else {
        next_due(rows, from + 1)
    }
}

/// The lines that announce the due rows before position `upto`, in listing
/// order.
pub open spec fn info_lines_before(rows: Seq<RowView>, upto: int) -> Seq<Seq<char>>
    decreases upto,
{
    if upto <= 0 || upto > rows.len() {
        Seq::empty()
    } else {
        let before = info_lines_before(rows, upto - 1);
        if rows[upto - 1].renames() {
            before.push(info_line(rows[upto - 1]))
        } else {
            before
        }
    }
}

/// The state of a run of the executor.
///
/// The rows before `cursor` have been dealt with: each due one among them
/// was announced and its rename requested. While `awaiting`, the outcome of
/// the last of those requests is still open. `failure` holds the reason of
/// the rename that failed, once one has.
pub struct RunView {
    pub rows: Seq<RowView>,
    pub cursor: int,
    pub awaiting: bool,
    pub failure: Option<Seq<char>>,
}

impl RunView {
    /// What holds of every state that a run can reach.
    pub open spec fn coherent(self) -> bool {
        &&& 0 <= self.cursor <= self.rows.len()
        &&& self.awaiting ==> self.failure is None
        &&& self.awaiting || self.failure is Some ==> self.cursor > 0 && self.rows[self.cursor
            - 1].renames()
        &&& !self.awaiting && self.failure is None ==> self.cursor == self.rows.len()
    }

    /// The state in which the rows from `from` on have been searched for the
    /// next due one, after everything before went well.
    pub open spec fn seek(rows: Seq<RowView>, from: int) -> RunView {
        let found = next_due(rows, from);
        if found < rows.len() {
            RunView { rows, cursor: found + 1, awaiting: true, failure: None }
        } else {
            RunView { rows, cursor: rows.len() as int, awaiting: false, failure: None }
        }
    }

    /// The state in which a run over `rows` starts.
    pub open spec fn begin(rows: Seq<RowView>) -> RunView {
        Self::seek(rows, 0)
    }

    /// The state after the open request was answered. A success moves on to
    /// the next due row; a failure ends the run where it stands. A run that
    /// has ended stays as it is.
    pub open spec fn resolve(self, failure: Option<Seq<char>>) -> RunView {
        if !self.awaiting {
            self
        } else {
            match failure {
                None => Self::seek(self.rows, self.cursor),
                Some(reason) => RunView { awaiting: false, failure: Some(reason), ..self },
            }
        }
    }

    /// The rename whose outcome is open, if any.
    pub open spec fn request(self) -> Option<RenameOpView> {
        if self.awaiting {
            Some(op_for(self.rows[self.cursor - 1]))
        } else {
            None
        }
    }

    /// Whether the run has ended.
    pub open spec fn finished(self) -> bool {
        !self.awaiting
    }

    /// The lines that announce the renames requested so far.
    pub open spec fn info_lines(self) -> Seq<Seq<char>> {
        info_lines_before(self.rows, self.cursor)
    }

    /// The line for the rename that failed, if one has.
    pub open spec fn error_lines(self) -> Seq<Seq<char>> {
        match self.failure {
            Some(reason) => seq![rename_error_prefix() + reason],
            None => Seq::empty(),
        }
    }

    /// Whether a rename has failed.
    pub open spec fn failed(self) -> bool {
        self.failure is Some
    }

    /// The exit code that the run stands for: 1 once a rename has failed,
    /// else 0.
    pub open spec fn exit_code(self) -> i32 {
        if self.failed() {
            1
        } else {
            0
        }
    }
}

/// No row from `from` up to the next due one is due, and the next due one,
/// if there is one, is.
pub proof fn lemma_next_due(rows: Seq<RowView>, from: int)
    requires
        0 <= from <= rows.len(),
    ensures
        from <= next_due(rows, from) <= rows.len(),
        next_due(rows, from) < rows.len() ==> rows[next_due(rows, from)].renames(),
        forall|k: int| from <= k < next_due(rows, from) ==> !(#[trigger] rows[k]).renames(),
    decreases rows.len() - from,
{
    if from < rows.len() && !rows[from].renames() {
        lemma_next_due(rows, from + 1);
    }
}

/// Rows that are not due add no line.
pub proof fn lemma_no_lines_between(rows: Seq<RowView>, from: int, upto: int)
    requires
        0 <= from <= upto <= rows.len(),
        forall|k: int| from <= k < upto ==> !(#[trigger] rows[k]).renames(),
    ensures
        info_lines_before(rows, upto) == info_lines_before(rows, from),
    decreases upto - from,
{
    if from < upto {
        lemma_no_lines_between(rows, from, upto - 1);
    }
}

/// The renames that the due rows before position `upto` call for, in
/// listing order.
pub open spec fn ops_before(rows: Seq<RowView>, upto: int) -> Seq<RenameOpView>
    decreases upto,
{
    if upto <= 0 || upto > rows.len() {
        Seq::empty()
    } else {
        let before = ops_before(rows, upto - 1);
        if rows[upto - 1].renames() {
            before.push(op_for(rows[upto - 1]))
        } else {
            before
        }
    }
}

/// The request of a state as a sequence: one rename or none.
pub open spec fn request_of(state: RunView) -> Seq<RenameOpView> {
    match state.request() {
        Some(op) => seq![op],
        None => Seq::empty(),
    }
}

/// The state of a run over `rows` after the outcomes `outcomes` have
/// arrived in turn. An outcome is the reason of a failure, or `None` for a
/// rename that went well.
pub open spec fn run_after(rows: Seq<RowView>, outcomes: Seq<Option<Seq<char>>>) -> RunView
    decreases outcomes.len(),
{
    if outcomes.len() == 0 {
        RunView::begin(rows)
    } else {
        run_after(rows, outcomes.drop_last()).resolve(outcomes.last())
    }
}

/// All the renames that a run over `rows` has asked for by the time the
/// outcomes `outcomes` have arrived, in the order in which it asked.
pub open spec fn requests_during(
    rows: Seq<RowView>,
    outcomes: Seq<Option<Seq<char>>>,
) -> Seq<RenameOpView>
    decreases outcomes.len(),
{
    if outcomes.len() == 0 {
        request_of(RunView::begin(rows))
    } else {
        let earlier = requests_during(rows, outcomes.drop_last());
        let before = run_after(rows, outcomes.drop_last());
        if before.awaiting {
            earlier + request_of(before.resolve(outcomes.last()))
        } else {
            earlier
        }
    }
}

/// Rows that are not due call for no rename.
pub proof fn lemma_no_ops_between(rows: Seq<RowView>, from: int, upto: int)
    requires
        0 <= from <= upto <= rows.len(),
        forall|k: int| from <= k < upto ==> !(#[trigger] rows[k]).renames(),
    ensures
        ops_before(rows, upto) == ops_before(rows, from),
    decreases upto - from,
{
    if from < upto {
        lemma_no_ops_between(rows, from, upto - 1);
    }
}

/// Searching on from `from` gives a state that can be reached, whose
/// request, if it has one, is the one rename that the rows from `from` up to
/// its cursor call for.
pub proof fn lemma_seek(rows: Seq<RowView>, from: int)
    requires
        0 <= from <= rows.len(),
    ensures
        RunView::seek(rows, from).coherent(),
        from <= RunView::seek(rows, from).cursor,
        ops_before(rows, RunView::seek(rows, from).cursor) == ops_before(rows, from) + request_of(
            RunView::seek(rows, from),
        ),
{
    lemma_next_due(rows, from);
    let found = next_due(rows, from);
    lemma_no_ops_between(rows, from, found);
    if found < rows.len() {
        assert(ops_before(rows, found + 1) == ops_before(rows, found).push(op_for(rows[found])));
        assert(ops_before(rows, from).push(op_for(rows[found])) =~= ops_before(rows, from)
            + seq![op_for(rows[found])]);
    } else {
        assert(ops_before(rows, from) =~= ops_before(rows, from) + Seq::<RenameOpView>::empty());
    }
}

/// Every state of a run can be reached: its cursor is within the rows, the
/// row before the cursor is the one whose rename is open or has failed, and
/// a run that ended without a failure has dealt with every row.
pub proof fn lemma_run_is_coherent(rows: Seq<RowView>, outcomes: Seq<Option<Seq<char>>>)
    ensures
        run_after(rows, outcomes).coherent(),
        run_after(rows, outcomes).rows == rows,
    decreases outcomes.len(),
{
    if outcomes.len() == 0 {
        lemma_seek(rows, 0);
    } else {
        lemma_run_is_coherent(rows, outcomes.drop_last());
        let before = run_after(rows, outcomes.drop_last());
        if before.awaiting && outcomes.last() is None {
            lemma_seek(rows, before.cursor);
        }
    }
}

/// The executor keeps the order of the listing: the renames it has asked
/// for, in the order in which it asked, are those of the due rows before its
/// cursor, in listing order. None of them is skipped and none asked twice.
pub proof fn lemma_requests_follow_listing(rows: Seq<RowView>, outcomes: Seq<Option<Seq<char>>>)
    ensures
        requests_during(rows, outcomes) == ops_before(rows, run_after(rows, outcomes).cursor),
    decreases outcomes.len(),
{
    if outcomes.len() == 0 {
        lemma_seek(rows, 0);
        assert(ops_before(rows, 0) + request_of(RunView::begin(rows)) =~= request_of(
            RunView::begin(rows),
        ));
    } else {
        lemma_requests_follow_listing(rows, outcomes.drop_last());
        lemma_run_is_coherent(rows, outcomes.drop_last());
        let before = run_after(rows, outcomes.drop_last());
        if before.awaiting {
            if outcomes.last() is None {
                lemma_seek(rows, before.cursor);
            } else {
                let after = before.resolve(outcomes.last());
                assert(ops_before(rows, before.cursor) + request_of(after) =~= ops_before(
                    rows,
                    before.cursor,
                ));
            }
        }
    }
}

/// The executor stops at the first failure: when the rename that is open
/// fails, the run ends where it stands, with the reason of the failure, and
/// whatever outcomes arrive afterwards change nothing. The rows from the
/// cursor on are never asked for.
pub proof fn lemma_run_stops_at_failure(
    rows: Seq<RowView>,
    before: Seq<Option<Seq<char>>>,
    reason: Seq<char>,
    after: Seq<Option<Seq<char>>>,
)
    requires
        run_after(rows, before).awaiting,
    ensures
        run_after(rows, before.push(Some(reason)) + after) == (RunView {
            awaiting: false,
            failure: Some(reason),
            ..run_after(rows, before)
        }),
        requests_during(rows, before.push(Some(reason)) + after) == requests_during(rows, before),
    decreases after.len(),
{
    let failed = before.push(Some(reason));
    if after.len() == 0 {
        assert(failed + after =~= failed);
        assert(failed.drop_last() =~= before);
    } else {
        lemma_run_stops_at_failure(rows, before, reason, after.drop_last());
        assert((failed + after).drop_last() =~= failed + after.drop_last());
    }
}

/// Where no row is due the run ends as it starts: nothing is asked for, no
/// line is written and nothing has failed.
pub proof fn lemma_nothing_due(rows: Seq<RowView>)
    requires
        forall|k: int| 0 <= k < rows.len() ==> !(#[trigger] rows[k]).renames(),
    ensures
        RunView::begin(rows).finished(),
        !RunView::begin(rows).failed(),
        RunView::begin(rows).info_lines() == Seq::<Seq<char>>::empty(),
        RunView::begin(rows).error_lines() == Seq::<Seq<char>>::empty(),
{
    lemma_next_due(rows, 0);
    lemma_no_lines_between(rows, 0, rows.len() as int);
}

/// A run that is under way or has ended, and the lines it has produced.
#[derive(Debug)]
pub struct Executor {
    rows: Vec<PreviewRow>,
    cursor: usize,
    awaiting: bool,
    failure: Option<String>,
    info_lines: Vec<String>,
}

impl View for Executor {
    type V = RunView;

    closed spec fn view(&self) -> RunView {
        RunView {
            rows: row_views(self.rows@),
            cursor: self.cursor as int,
            awaiting: self.awaiting,
            failure: match self.failure {
                Some(reason) => Some(reason@),
                None => None,
            },
        }
    }
}

impl Executor {
    #[verifier::type_invariant]
    spec fn sound(self) -> bool {
        &&& self@.coherent()
        &&& texts(self.info_lines@) == self@.info_lines()
    }

    /// Searches the rows from `from` on for the next due one, announces it
    /// and asks for its rename; ends the run if there is none.
    fn advance(rows: Vec<PreviewRow>, from: usize, info_lines: Vec<String>) -> (next: (
        Executor,
        Step,
    ))
        requires
            from <= rows.len(),
            texts(info_lines@) == info_lines_before(row_views(rows@), from as int),
        ensures
            next.0@ == RunView::seek(row_views(rows@), from as int),
            next.1.request() == next.0@.request(),
    {
        let ghost views = row_views(rows@);
        let mut info_lines = info_lines;
        let mut i: usize = from;
        while i < rows.len() && !rows[i].renames()
            invariant
                from <= i <= rows.len(),
                views == row_views(rows@),
                next_due(views, from as int) == next_due(views, i as int),
                forall|k: int| from <= k < i ==> !(#[trigger] views[k]).renames(),
            decreases rows.len() - i,
        {
            i = i + 1;
        }
        proof {
            lemma_no_lines_between(views, from as int, i as int);
        }
        if i < rows.len() {
            let row = &rows[i];
            let head = joined(row.entry.name.as_str(), " -> ");
            let line = joined(head.as_str(), row.rendered_name.as_str());
            let op = RenameOp { from: row.entry.name.clone(), to: row.rendered_name.clone() };
            let ghost before = info_lines@;
            info_lines.push(line);
            proof {
                assert(views[i as int] == row@);
                assert(texts(info_lines@) =~= texts(before).push(line@));
                assert(line@ =~= info_line(row@));
            }
            (
                Executor { rows, cursor: i + 1, awaiting: true, failure: None, info_lines },
                Step::Rename(op),
            )
        } else {
            (
                Executor { rows, cursor: i, awaiting: false, failure: None, info_lines },
                Step::Finished,
            )
        }
    }

    /// Starts a run over the rows of a confirmed preview and names its first
    /// step: the rename of the first due row, announced in an info line, or
    /// the end of the run where no row is due.
    pub fn start(rows: Vec<PreviewRow>) -> (started: (Executor, Step))
        ensures
            started.0@ == RunView::begin(row_views(rows@)),
            started.0@.coherent(),
            started.1.request() == started.0@.request(),
    {
        let info_lines: Vec<String> = Vec::new();
        assert(texts(info_lines@) =~= info_lines_before(row_views(rows@), 0));
        let started = Self::advance(rows, 0, info_lines);
        proof {
            use_type_invariant(&started.0);
        }
        started
    }

    /// Takes the outcome of the rename that was asked for and names the next
    /// step. After a success that is the rename of the next due row, or the
    /// end of the run. After a failure the run has ended: no later row is
    /// renamed. Once the run has ended an outcome changes nothing.
    pub fn resolve(self, outcome: RenameOutcome) -> (next: (Executor, Step))
        ensures
            next.0@ == self@.resolve(outcome.failure()),
            next.0@.coherent(),
            next.1.request() == next.0@.request(),
    {
        proof {
            use_type_invariant(&self);
        }
        if !self.awaiting {
            (self, Step::Finished)
        } else {
            match outcome {
                RenameOutcome::Renamed => {
                    let next = Self::advance(self.rows, self.cursor, self.info_lines);
                    proof {
                        use_type_invariant(&next.0);
                    }
                    next
                },
                RenameOutcome::Failed(reason) => (
                    Executor {
                        rows: self.rows,
                        cursor: self.cursor,
                        awaiting: false,
                        failure: Some(reason),
                        info_lines: self.info_lines,
                    },
                    Step::Finished,
                ),
            }
        }
    }

    /// The step that is open: the rename whose outcome is awaited, or the
    /// end of the run.
    pub fn pending(&self) -> (step: Step)
        ensures
            step.request() == self@.request(),
    {
        proof {
            use_type_invariant(self);
        }
        if self.awaiting {
            let row = &self.rows[self.cursor - 1];
            Step::Rename(RenameOp { from: row.entry.name.clone(), to: row.rendered_name.clone() })
        } else {
            Step::Finished
        }
    }

    /// Whether the run has ended.
    pub fn is_finished(&self) -> (finished: bool)
        ensures
            finished == self@.finished(),
    {
        !self.awaiting
    }

    /// Whether a rename has failed.
    pub fn has_failed(&self) -> (failed: bool)
        ensures
            failed == self@.failed(),
    {
        self.failure.is_some()
    }

    /// The exit code that the run stands for: 1 once a rename has failed,
    /// else 0.
    pub fn exit_code(&self) -> (code: i32)
        ensures
            code == self@.exit_code(),
    {
        if self.failure.is_some() {
            1
        } else {
            0
        }
    }

    /// The lines that announce the renames requested so far, in the order
    /// of the requests.
    pub fn info_lines(&self) -> (lines: Vec<String>)
        ensures
            texts(lines@) == self@.info_lines(),
    {
        proof {
            use_type_invariant(self);
        }
        copy_lines(&self.info_lines)
    }

    /// The line that reports the failed rename; no line if none has failed.
    pub fn error_lines(&self) -> (lines: Vec<String>)
        ensures
            texts(lines@) == self@.error_lines(),
    {
        let mut lines: Vec<String> = Vec::new();
        match &self.failure {
            Some(reason) => {
                let line = joined("ERROR: Could not rename file: ", reason.as_str());
                lines.push(line);
                assert(texts(lines@) =~= seq![rename_error_prefix() + reason@]);
            },
            None => {
                assert(texts(lines@) =~= Seq::<Seq<char>>::empty());
            },
        }
        lines
    }
}

} // verus!
