use vstd::prelude::*;
use crate::lua::{attempt_lua, classified, EvalReport};
use crate::{outcome_of, MultiLine, Outcome};
use rlua::Lua;
use rustyline::error::ReadlineError;
use rustyline::history::History;

verus! {

#[verifier::external_type_specification]
#[verifier::external_body]
pub struct ExReadlineError(ReadlineError);

#[verifier::external_type_specification]
#[verifier::external_body]
pub struct ExHistory(History);

/// One answer of the line source.
pub enum LineEvent {
    /// A line of input.
    Line(String),
    /// No more input.
    Eof,
    /// The user cancelled.
    Interrupted,
    /// The line source failed; the failure as text.
    Failed(String),
}

/// Relies on rustyline's `ReadlineError`: its `Eof` and `Interrupted`
/// variants are told apart from the others, which are rendered with
/// `Display`.
#[verifier::external_body]
fn line_event(line: Result<String, ReadlineError>) -> (r: LineEvent)
    ensures
        line is Ok ==> r == LineEvent::Line(line->Ok_0),
        line is Err ==> !(r is Line),
{
    match line {
        Ok(l) => LineEvent::Line(l),
        Err(ReadlineError::Eof) => LineEvent::Eof,
        Err(ReadlineError::Interrupted) => LineEvent::Interrupted,
        Err(e) => LineEvent::Failed(format!("{}", e)),
    }
}

/// Relies on rustyline's `History::add`, which keeps the line in the
/// editor's history (or drops it, by the history's own settings).
#[verifier::external_body]
fn record(hist: &mut History, line: &str) {
    hist.add(line);
}

/// Whether a line opens a scripting block: it begins with `:l`.
pub open spec fn is_load_command(l: Seq<char>) -> bool {
    l.len() >= 2 && l[0] == ':' && l[1] == 'l'
}

/// Where a line, or the end of input, is sent.
pub ghost enum Plan {
    /// Evaluate this text in the scripting VM.
    Script(Seq<char>),
    /// Hand this line to the composition-language lexer.
    Compose(Seq<char>),
    /// Input ended inside a scripting block: evaluate what was gathered, once.
    Flush(Seq<char>),
    /// Input ended inside a block of another kind.
    Incomplete,
    /// The session ends with this message.
    Halt(Seq<char>),
}

/// The separator put between the lines of a scripting block.
pub open spec fn joined(accum: Seq<char>, line: Seq<char>) -> Seq<char> {
    accum + "\n  "@ + line
}

/// Where the driver sends a line of input.
pub open spec fn planned_line(l: Seq<char>, accum: Seq<char>, was_lua: bool) -> Plan {
    if was_lua {
        Plan::Script(joined(accum, l))
    } else if is_load_command(l) {
        Plan::Script(l.skip(2))
    } else {
        Plan::Compose(l)
    }
}

/// Where the driver sends an event, given the gathered input and mode.
pub open spec fn planned(ev: LineEvent, accum: Seq<char>, was_lua: bool) -> Plan {
    match ev {
        LineEvent::Line(l) => planned_line(l@, accum, was_lua),
        LineEvent::Eof => if accum.len() == 0 {
            Plan::Halt("C-d"@)
        } else if was_lua {
            Plan::Flush(accum)
        } else {
            Plan::Incomplete
        },
        LineEvent::Interrupted => Plan::Halt("C-c"@),
        LineEvent::Failed(m) => Plan::Halt("Something went wrong: "@ + m@),
    }
}

/// The executable form of a plan.
pub enum Route {
    Script(String),
    Compose(String),
    Flush(String),
    Incomplete,
    Halt(String),
}

pub open spec fn plan_of(r: Route) -> Plan {
    match r {
        Route::Script(s) => Plan::Script(s@),
        Route::Compose(s) => Plan::Compose(s@),
        Route::Flush(s) => Plan::Flush(s@),
        Route::Incomplete => Plan::Incomplete,
        Route::Halt(s) => Plan::Halt(s@),
    }
}

/// Whether `line` begins with the `:l` command.
pub fn starts_with_load(line: &str) -> (r: bool)
    ensures
        r == is_load_command(line@),
{
    let n = line.unicode_len();
    n >= 2 && line.get_char(0) == ':' && line.get_char(1) == 'l'
}

/// Decides where an event goes.
pub fn route(ev: LineEvent, accum: &str, was_lua: bool) -> (r: Route)
    ensures
        plan_of(r) == planned(ev, accum@, was_lua),
{
    proof {
        reveal_strlit("\n  ");
    }
    match ev {
        LineEvent::Line(l) => {
            if was_lua {
                Route::Script(String::from_str(accum).concat("\n  ").concat(l.as_str()))
            } else if starts_with_load(l.as_str()) {
                let n = l.as_str().unicode_len();
                let rest = l.as_str().substring_char(2, n);
                assert(rest@ =~= l@.skip(2));
                Route::Script(String::from_str(rest))
            } else {
                Route::Compose(l)
            }
        },
        LineEvent::Eof => {
            if accum.unicode_len() == 0 {
                Route::Halt(String::from_str("C-d"))
            } else if was_lua {
                Route::Flush(String::from_str(accum))
            } else {
                Route::Incomplete
            }
        },
        LineEvent::Interrupted => Route::Halt(String::from_str("C-c")),
        LineEvent::Failed(m) => Route::Halt(String::from_str("Something went wrong: ").concat(m.as_str())),
    }
}

/// What one step of the driver hands back: an evaluation's result, or a
/// line for the composition-language lexer, which the caller runs.
pub enum Reply {
    Eval(MultiLine),
    Compose(String),
}

/// An end-of-input evaluation never asks for more: an incomplete block
/// is final.
pub open spec fn at_end(o: Outcome) -> Outcome {
    match o {
        Outcome::More(_) => Outcome::Done("incomplete input"@),
        _ => o,
    }
}

pub open spec fn reply_outcome(r: Result<Reply, String>) -> Outcome {
    match r {
        Ok(Reply::Eval(m)) => outcome_of(Ok(m)),
        Ok(Reply::Compose(l)) => Outcome::Done(l@),
        Err(e) => Outcome::Fatal(e@),
    }
}

/// What the driver answers when it carries out `p`, if the VM reports
/// `rep` (where `p` evaluates anything).
pub open spec fn answered(p: Plan, rep: EvalReport, r: (Result<Reply, String>, bool)) -> bool {
    match p {
        Plan::Script(t) => !(r.0 matches Ok(Reply::Compose(_))) && reply_outcome(r.0) == classified(t, rep)
            && r.1,
        Plan::Compose(l) => r.0 matches Ok(Reply::Compose(s)) && s@ == l && !r.1,
        Plan::Flush(t) => !(r.0 matches Ok(Reply::Compose(_))) && reply_outcome(r.0) == at_end(
            classified(t, rep),
        ) && !r.1,
        Plan::Incomplete => r.0 matches Ok(Reply::Eval(_)) && reply_outcome(r.0) == Outcome::Done(
            "incomplete input"@,
        ) && !r.1,
        Plan::Halt(m) => r.0 is Err && reply_outcome(r.0) == Outcome::Fatal(m) && !r.1,
    }
}


fn as_reply(o: Result<MultiLine, String>) -> (r: Result<Reply, String>)
    ensures
        !(r matches Ok(Reply::Compose(_))),
        reply_outcome(r) == outcome_of(o),
{
    match o {
        Ok(m) => Ok(Reply::Eval(m)),
        Err(e) => Err(e),
    }
}

/// Operate on the given line: a line beginning with `:l`, or any line
/// while a scripting block is open (`was_lua`), goes to the Lua vm,
/// joined to the gathered input `accum`; any other line goes to the
/// composition-language lexer, which the caller runs on the returned
/// `Reply::Compose`. Each line read is recorded in `hist`.
///
/// At end of input an open scripting block is evaluated once more and, if
/// still incomplete, finishes as "incomplete input"; with nothing gathered,
/// and on an interrupt or a failed read, the session ends with `Err`.
///
/// The bool tells whether the line was a Lua command, so that the caller
/// will pass `was_lua = true` with a `MultiLine::More`.
pub fn next(
    vm: &Lua,
    line: Result<String, ReadlineError>,
    hist: &mut History,
    accum: &str,
    count: u32,
    was_lua: bool,
) -> (r: (Result<Reply, String>, bool))
    ensures
        exists|ev: LineEvent, rep: EvalReport|
            (line is Ok ==> ev == LineEvent::Line(line->Ok_0)) && (line is Err ==> !(ev is Line))
                && #[trigger] answered(planned(ev, accum@, was_lua), rep, r),
{
    let ev = line_event(line);
    let ghost g = ev;
    if let LineEvent::Line(l) = &ev {
        record(hist, l.as_str());
    }
    let ghost any_rep: EvalReport = arbitrary();
    match route(ev, accum, was_lua) {
        Route::Script(t) => {
            let o = attempt_lua(vm, t.as_str(), count);
            let ghost rep = choose|rep: EvalReport| outcome_of(o) == classified(t@, rep);
            let r = (as_reply(o), true);
            assert(answered(planned(g, accum@, was_lua), rep, r));
            r
        },
        Route::Compose(l) => {
            let r = (Ok(Reply::Compose(l)), false);
            assert(answered(planned(g, accum@, was_lua), any_rep, r));
            r
        },
        Route::Flush(t) => {
            let o = attempt_lua(vm, t.as_str(), count);
            let ghost rep = choose|rep: EvalReport| outcome_of(o) == classified(t@, rep);
            let o2 = match o {
                Ok(MultiLine::More(_)) => Ok(MultiLine::Done(String::from_str("incomplete input"))),
                v => v,
            };
            let r = (as_reply(o2), false);
            assert(answered(planned(g, accum@, was_lua), rep, r));
            r
        },
        Route::Incomplete => {
            let r = (Ok(Reply::Eval(MultiLine::Done(String::from_str("incomplete input")))), false);
            assert(answered(planned(g, accum@, was_lua), any_rep, r));
            r
        },
        Route::Halt(m) => {
            let r = (Err(m), false);
            assert(answered(planned(g, accum@, was_lua), any_rep, r));
            r
        },
    }
}

/// The REPL's state between lines: the input gathered for an open block,
/// whether that block is a scripting one, and the number of evaluations
/// finished so far (which names the VM's chunks).
pub struct Session {
    pub accum: String,
    pub count: u32,
    pub was_lua: bool,
}

pub ghost struct SessionView {
    pub accum: Seq<char>,
    pub count: u32,
    pub was_lua: bool,
}

impl View for Session {
    type V = SessionView;

    open spec fn view(&self) -> SessionView {
        SessionView { accum: self.accum@, count: self.count, was_lua: self.was_lua }
    }
}

/// The counter after one more finished evaluation; it stays at its
/// largest value rather than wrap.
pub open spec fn bumped(n: u32) -> u32 {
    if n < u32::MAX {
        (n + 1) as u32
    } else {
        n
    }
}

/// The session after an outcome produced in mode `lua`.
pub open spec fn settled(s: SessionView, o: Outcome, lua: bool) -> SessionView {
    match o {
        Outcome::More(t) => SessionView { accum: t, count: s.count, was_lua: lua },
        Outcome::Done(_) => SessionView { accum: Seq::empty(), count: bumped(s.count), was_lua: false },
        Outcome::Fatal(_) => SessionView { accum: Seq::empty(), count: s.count, was_lua: false },
    }
}

pub open spec fn is_idle(s: SessionView) -> bool {
    s.accum.len() == 0 && !s.was_lua
}

/// What the caller does after a step.
pub enum Action {
    /// Read the next line (under the continuation prompt).
    Continue,
    /// Show this text and read the next line.
    Print(String),
    /// Show this message and end the session.
    Stop(String),
}

impl Session {
    pub fn new() -> (r: Session)
        ensures
            is_idle(r@),
            r@.count == 0,
    {
        Session { accum: String::new(), count: 0, was_lua: false }
    }

    /// The primary prompt when idle, four spaces while a block is open.
    pub fn prompt(&self) -> (r: &'static str)
        ensures
            r@ == (if self.accum@.len() == 0 { "Λ "@ } else { "    "@ }),
    {
        if self.accum.as_str().unicode_len() == 0 {
            "Λ "
        } else {
            "    "
        }
    }

    /// Takes in the outcome of a step made in mode `lua`: keeps the text of
    /// a `More` for the next line; on `Done` clears the block and counts
    /// the evaluation; on an error clears the block and stops.
    pub fn settle(&mut self, r: Result<MultiLine, String>, lua: bool) -> (a: Action)
        ensures
            final(self)@ == settled(old(self)@, outcome_of(r), lua),
            r matches Ok(MultiLine::More(_)) ==> a is Continue,
            r matches Ok(MultiLine::Done(t)) ==> a matches Action::Print(p) && p@ == t@,
            r matches Err(e) ==> a matches Action::Stop(p) && p@ == e@,
    {
        match r {
            Ok(MultiLine::More(body)) => {
                self.accum = body;
                self.was_lua = lua;
                Action::Continue
            },
            Ok(MultiLine::Done(text)) => {
                self.accum = String::new();
                self.was_lua = false;
                if self.count < u32::MAX {
                    self.count = self.count + 1;
                }
                Action::Print(text)
            },
            Err(e) => {
                self.accum = String::new();
                self.was_lua = false;
                Action::Stop(e)
            },
        }
    }
}


/// Whether the VM found a chunk syntactically incomplete.
pub open spec fn is_incomplete(rep: EvalReport) -> bool {
    match rep {
        EvalReport::Syntax { incomplete, .. } => incomplete,
        _ => false,
    }
}

/// The session after a line that the driver sends to the VM, which
/// answers `rep`; a line sent elsewhere leaves it as it is.
pub open spec fn step_view(s: SessionView, l: Seq<char>, rep: EvalReport) -> SessionView {
    match planned_line(l, s.accum, s.was_lua) {
        Plan::Script(t) => settled(s, classified(t, rep), true),
        _ => s,
    }
}

/// The session after `lines`, the VM answering each in turn from `reps`.
pub open spec fn drive(s: SessionView, lines: Seq<Seq<char>>, reps: Seq<EvalReport>) -> SessionView
    decreases lines.len(),
{
    if lines.len() == 0 || reps.len() == 0 {
        s
    } else {
        step_view(drive(s, lines.drop_last(), reps.drop_last()), lines.last(), reps.last())
    }
}

/// A scripting block as one text: the first line without its `:l`, the
/// others joined to it in order.
pub open spec fn fed(lines: Seq<Seq<char>>) -> Seq<char>
    decreases lines.len(),
{
    if lines.len() <= 1 {
        lines[0].skip(2)
    } else {
        joined(fed(lines.drop_last()), lines.last())
    }
}

/// A line that opens a scripting block from an idle session, and that the
/// VM finds complete (values, a runtime error or a malformed chunk), ends
/// as a `Done`, and leaves the session idle, one evaluation further.
pub proof fn lemma_complete_line_settles(s: SessionView, l: Seq<char>, rep: EvalReport)
    requires
        is_idle(s),
        is_load_command(l),
        !is_incomplete(rep),
        !(rep is Failure),
    ensures
        planned_line(l, s.accum, s.was_lua) == Plan::Script(l.skip(2)),
        classified(l.skip(2), rep) is Done,
        is_idle(step_view(s, l, rep)),
        step_view(s, l, rep).count == bumped(s.count),
{
}

proof fn lemma_open_block(lines: Seq<Seq<char>>, reps: Seq<EvalReport>, s0: SessionView)
    requires
        lines.len() >= 1,
        reps.len() == lines.len(),
        is_idle(s0),
        is_load_command(lines[0]),
        forall|i: int| 0 <= i < reps.len() ==> is_incomplete(#[trigger] reps[i]),
    ensures
        drive(s0, lines, reps) == (SessionView { accum: fed(lines), count: s0.count, was_lua: true }),
    decreases lines.len(),
{
    if lines.len() > 1 {
        let dl = lines.drop_last();
        let dr = reps.drop_last();
        assert(dl[0] == lines[0]);
        assert forall|i: int| 0 <= i < dr.len() implies is_incomplete(#[trigger] dr[i]) by {
            assert(dr[i] == reps[i]);
        }
        lemma_open_block(dl, dr, s0);
        assert(is_incomplete(reps[reps.len() - 1]));
        assert(reps.last() == reps[reps.len() - 1]);
        assert(classified(fed(lines), reps.last()) == Outcome::More(fed(lines)));
    } else {
        assert(lines.drop_last().len() == 0);
        assert(lines.last() == lines[0]);
        assert(reps.last() == reps[0]);
        assert(is_incomplete(reps[0]));
        assert(drive(s0, lines.drop_last(), reps.drop_last()) == s0);
        assert(classified(fed(lines), reps.last()) == Outcome::More(fed(lines)));
    }
}

/// Feeding a scripting block line by line, while the VM finds each part
/// so far incomplete, hands the VM at the last line the whole block as
/// one text, and the session then settles as it would on that text
/// evaluated in one go.
pub proof fn lemma_block_accumulates(lines: Seq<Seq<char>>, reps: Seq<EvalReport>, s0: SessionView)
    requires
        lines.len() >= 1,
        reps.len() == lines.len(),
        is_idle(s0),
        is_load_command(lines[0]),
        forall|i: int| 0 <= i < reps.len() - 1 ==> is_incomplete(#[trigger] reps[i]),
    ensures
        planned_line(
            lines.last(),
            drive(s0, lines.drop_last(), reps.drop_last()).accum,
            drive(s0, lines.drop_last(), reps.drop_last()).was_lua,
        ) == Plan::Script(fed(lines)),
        drive(s0, lines, reps) == settled(
            drive(s0, lines.drop_last(), reps.drop_last()),
            classified(fed(lines), reps.last()),
            true,
        ),
{
    let dl = lines.drop_last();
    let dr = reps.drop_last();
    if lines.len() > 1 {
        assert(dl[0] == lines[0]);
        assert forall|i: int| 0 <= i < dr.len() implies is_incomplete(#[trigger] dr[i]) by {
            assert(dr[i] == reps[i]);
        }
        lemma_open_block(dl, dr, s0);
    } else {
        assert(dl.len() == 0);
        assert(lines.last() == lines[0]);
    }
}

/// At end of input inside a scripting block, the gathered text is
/// evaluated once more, and what comes of it is never `More`: a still
/// incomplete block ends as "incomplete input".
pub proof fn lemma_end_inside_block(accum: Seq<char>, rep: EvalReport)
    requires
        accum.len() > 0,
    ensures
        planned(LineEvent::Eof, accum, true) == Plan::Flush(accum),
        !(at_end(classified(accum, rep)) is More),
        is_incomplete(rep) ==> at_end(classified(accum, rep)) == Outcome::Done("incomplete input"@),
{
}

/// An interrupt ends the session from any state: the driver halts with
/// "C-c", and the session, taking that in, drops what it had gathered.
pub proof fn lemma_interrupt_ends(s: SessionView, lua: bool)
    ensures
        planned(LineEvent::Interrupted, s.accum, s.was_lua) == Plan::Halt("C-c"@),
        is_idle(settled(s, Outcome::Fatal("C-c"@), lua)),
{
}

/// Outside a scripting block a line without the `:l` command goes to the
/// composition-language lexer, never to the VM; a line with it goes to
/// the VM whatever was gathered before.
pub proof fn lemma_routing(l: Seq<char>, accum: Seq<char>, was_lua: bool)
    ensures
        !was_lua && !is_load_command(l) ==> planned_line(l, accum, was_lua) == Plan::Compose(l),
        is_load_command(l) ==> planned_line(l, accum, was_lua) is Script,
{
}

} // verus!
