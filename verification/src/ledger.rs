//! What a dialogue with the system opens and closes.
//!
//! A probe is a dialogue: it asks for one thing after the other and takes the
//! answers. On the way it has handles opened, and it owes the system that each of
//! them is closed.

use vstd::prelude::*;

verus! {

/// A dialogue in which handles are opened and closed.
pub trait Dialogue: Sized {
    /// An answer of the system.
    type Answer;

    /// Where the dialogue stands after an answer.
    spec fn after(self, a: Self::Answer) -> Self;

    /// The answer brings an open handle.
    spec fn opens(self, a: Self::Answer) -> bool;

    /// The answer says that a handle was closed.
    spec fn closes(self, a: Self::Answer) -> bool;

    /// How many handles are open where the dialogue stands.
    spec fn held(self) -> int;

    /// One answer changes the number of open handles by what it opens and closes.
    proof fn keeps_count(self, a: Self::Answer)
        ensures
            self.after(a).held() == self.held() + (if self.opens(a) {
                1int
            } else {
                0
            }) - (if self.closes(a) {
                1int
            } else {
                0
            }),
    ;
}

/// Where a dialogue stands after a row of answers.
pub open spec fn run<D: Dialogue>(d: D, answers: Seq<D::Answer>) -> D
    decreases answers.len(),
{
    if answers.len() == 0 {
        d
    } else {
        run(d, answers.drop_last()).after(answers.last())
    }
}

/// How many handles a row of answers brought.
pub open spec fn opened<D: Dialogue>(d: D, answers: Seq<D::Answer>) -> int
    decreases answers.len(),
{
    if answers.len() == 0 {
        0
    } else {
        opened(d, answers.drop_last()) + if run(d, answers.drop_last()).opens(answers.last()) {
            1int
        } else {
            0
        }
    }
}

/// How many handles were closed along a row of answers.
pub open spec fn closed<D: Dialogue>(d: D, answers: Seq<D::Answer>) -> int
    decreases answers.len(),
{
    if answers.len() == 0 {
        0
    } else {
        closed(d, answers.drop_last()) + if run(d, answers.drop_last()).closes(answers.last()) {
            1int
        } else {
            0
        }
    }
}

/// Whatever the answers, the handles open at the end are those open at the start
/// and those opened since, less those closed since.
pub proof fn law_ledger<D: Dialogue>(d: D, answers: Seq<D::Answer>)
    ensures
        run(d, answers).held() == d.held() + opened(d, answers) - closed(d, answers),
    decreases answers.len(),
{
    if answers.len() > 0 {
        law_ledger(d, answers.drop_last());
        run(d, answers.drop_last()).keeps_count(answers.last());
    }
}

/// One more answer.
pub proof fn lemma_run_push<D: Dialogue>(d: D, answers: Seq<D::Answer>, a: D::Answer)
    ensures
        run(d, answers.push(a)) == run(d, answers).after(a),
{
    assert(answers.push(a).drop_last() =~= answers);
}

} // verus!
