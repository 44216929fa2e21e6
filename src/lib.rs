use vstd::prelude::*;

pub mod loader;
pub mod lua;
pub mod repl;

verus! {

/// MultiLine represents the result of an eval: either it was done (and
/// has a String representation), or it wanted more input (and has the
/// current accumulated input.)
#[derive(Debug)]
pub enum MultiLine {
    More(String),
    Done(String),
}

/// What an evaluation amounts to, as plain text: input still wanted,
/// a final text to show, or an unrecoverable failure.
pub ghost enum Outcome {
    More(Seq<char>),
    Done(Seq<char>),
    Fatal(Seq<char>),
}

/// The meaning of a bridge's result.
pub open spec fn outcome_of(r: Result<MultiLine, String>) -> Outcome {
    match r {
        Ok(MultiLine::More(s)) => Outcome::More(s@),
        Ok(MultiLine::Done(s)) => Outcome::Done(s@),
        Err(e) => Outcome::Fatal(e@),
    }
}

} // verus!
