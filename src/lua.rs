use vstd::prelude::*;
use crate::{outcome_of, MultiLine, Outcome};
use rlua::Lua;

verus! {

#[verifier::external_type_specification]
#[verifier::external_body]
pub struct ExLua(rlua::Lua);

/// How the scripting VM answered one evaluation, with every value that the
/// REPL shows already rendered as text.
pub enum EvalReport {
    /// The chunk ran; the debug rendering of each returned value, in order.
    Values(Vec<String>),
    /// The chunk did not parse; `incomplete` tells a parse that ran out of
    /// input from a malformed one.
    Syntax { message: String, incomplete: bool },
    /// The chunk raised an error while running.
    Runtime(String),
    /// Any other failure of the VM (rendered for display).
    Failure(String),
}

/// Each text followed by a tab, all concatenated in order.
pub open spec fn tab_joined(vs: Seq<Seq<char>>) -> Seq<char>
    decreases vs.len(),
{
    if vs.len() == 0 {
        Seq::empty()
    } else {
        tab_joined(vs.drop_last()) + vs.last() + seq!['\t']
    }
}

pub open spec fn views_of(vs: Seq<String>) -> Seq<Seq<char>> {
    vs.map_values(|s: String| s@)
}

/// What the REPL makes of a report for the chunk `run`.
pub open spec fn classified(run: Seq<char>, rep: EvalReport) -> Outcome {
    match rep {
        EvalReport::Values(vs) => Outcome::Done(tab_joined(views_of(vs@))),
        EvalReport::Syntax { message, incomplete } => if incomplete {
            Outcome::More(run)
        } else {
            Outcome::Done("Lua syntax error: "@ + message@)
        },
        EvalReport::Runtime(m) => Outcome::Done(m@),
        EvalReport::Failure(m) => Outcome::Fatal("Error in eval: "@ + m@),
    }
}

/// Renders the returned values: each one followed by a tab.
pub fn render_values(vs: &Vec<String>) -> (r: String)
    ensures
        r@ == tab_joined(views_of(vs@)),
{
    let mut out = String::new();
    let mut i: usize = 0;
    while i < vs.len()
        invariant
            i <= vs.len(),
            out@ == tab_joined(views_of(vs@.subrange(0, i as int))),
        decreases vs.len() - i,
    {
        assert(vs@.subrange(0, i + 1).drop_last() =~= vs@.subrange(0, i as int));
        assert(views_of(vs@.subrange(0, i + 1)).drop_last() =~= views_of(vs@.subrange(0, i as int)));
        assert(views_of(vs@.subrange(0, i + 1)).last() == vs@[i as int]@);
        proof {
            reveal_strlit("\t");
        }
        assert("\t"@ =~= seq!['\t']);
        out.append(vs[i].as_str());
        out.append("\t");
        i = i + 1;
    }
    assert(vs@.subrange(0, vs.len() as int) =~= vs@);
    out
}

/// Turns the VM's report on chunk `run` into the REPL's outcome.
pub fn classify(run: &str, rep: EvalReport) -> (r: Result<MultiLine, String>)
    ensures
        outcome_of(r) == classified(run@, rep),
{
    match rep {
        EvalReport::Values(vs) => Ok(MultiLine::Done(render_values(&vs))),
        EvalReport::Syntax { message, incomplete } => {
            if incomplete {
                Ok(MultiLine::More(String::from_str(run)))
            } else {
                Ok(MultiLine::Done(String::from_str("Lua syntax error: ").concat(message.as_str())))
            }
        },
        EvalReport::Runtime(m) => Ok(MultiLine::Done(m)),
        EvalReport::Failure(m) => Err(String::from_str("Error in eval: ").concat(m.as_str())),
    }
}

/// Relies on rlua's `Lua::eval` of a `MultiValue`, run as a chunk named by
/// the decimal digits of `next`; the variants of `rlua::Error` are told
/// apart as the REPL needs them, values are rendered with `Debug`.
#[verifier::external_body]
fn eval_chunk(vm: &Lua, run: &str, next: u32) -> (r: EvalReport) {
    match vm.eval::<str, rlua::MultiValue>(run, Some(&format!("{}", next))) {
        Ok(v) => EvalReport::Values(v.into_iter().map(|n| format!("{:?}", n)).collect()),
        Err(rlua::Error::SyntaxError { message, incomplete_input }) => {
            EvalReport::Syntax { message, incomplete: incomplete_input }
        },
        Err(rlua::Error::RuntimeError(e)) => EvalReport::Runtime(e),
        Err(err) => EvalReport::Failure(format!("{:?}", err)),
    }
}

/// Evaluates `run` in the VM as chunk `next` and classifies the answer.
/// Whatever the VM answers, an incomplete chunk is handed back unchanged
/// for more input, and every other answer is final.
pub fn attempt_lua(some: &Lua, run: &str, next: u32) -> (r: Result<MultiLine, String>)
    ensures
        exists|rep: EvalReport| outcome_of(r) == #[trigger] classified(run@, rep),
        r matches Ok(MultiLine::More(s)) ==> s@ == run@,
{
    let rep = eval_chunk(some, run, next);
    let r = classify(run, rep);
    assert(outcome_of(r) == classified(run@, rep));
    r
}

} // verus!
