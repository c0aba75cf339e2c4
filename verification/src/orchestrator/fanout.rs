//! How a stored snapshot is shown to the models, one after the other.

use vstd::prelude::*;
use vstd::utf8::{decode_utf8, encode_utf8, valid_utf8};
use crate::orchestrator::llm::{targets_view, LlmProvider, LlmTarget, TargetView};
use crate::orchestrator::openai::{law_question_ends_in_the_snapshot, user_prompt};

verus! {

/// `String::from_utf8` of the standard library: there is a text exactly where the
/// bytes are valid UTF-8, and it is the one that they encode.
#[verifier::external_body]
fn utf8_text(bytes: Vec<u8>) -> (r: Option<String>)
    ensures
        r is Some <==> valid_utf8(bytes@),
        r matches Some(s) ==> s@ == decode_utf8(bytes@),
{
    String::from_utf8(bytes).ok()
}

/// Reads the bytes of a stored snapshot as text, for the question.
pub fn snapshot_text(bytes: Vec<u8>) -> (r: Option<String>)
    ensures
        r is Some <==> valid_utf8(bytes@),
        r matches Some(s) ==> s@ == decode_utf8(bytes@),
{
    utf8_text(bytes)
}

/// What a model is asked ends in the file of the snapshot, byte for byte.
pub proof fn law_question_holds_the_file(stage: Seq<char>, host: Seq<char>, bytes: Seq<u8>)
    requires
        valid_utf8(bytes),
    ensures
        ({
            let q = user_prompt(stage, host, decode_utf8(bytes));
            encode_utf8(q.skip(q.len() - decode_utf8(bytes).len())) == bytes
        }),
{
    law_question_ends_in_the_snapshot(stage, host, decode_utf8(bytes));
    vstd::utf8::decode_utf8_encode_utf8(bytes);
}

/// How the round ended.
#[derive(Clone, Copy, Debug, PartialEq, Eq, Structural)]
pub enum FanOutcome {
    /// The snapshot could not be read.
    ReadFailed,
    /// What was read is no snapshot.
    ParseFailed,
    /// What was read is no text.
    NotText,
    /// Asking a model failed, and the models after it were not asked.
    DispatchFailed(usize),
    /// Every model had its turn.
    Complete,
}

/// What to do next to show a snapshot to the models.
#[derive(Clone, Copy, Debug, PartialEq, Eq, Structural)]
pub enum FanStage {
    /// Read the file of the snapshot.
    ReadFile,
    /// Parse it, for the name of the host.
    Parse,
    /// Read it as text, for the question.
    Decode,
    /// It is the turn of a target: announce it, and send the question if told so.
    Visit { index: usize, send: bool },
    Done(FanOutcome),
}

/// Whether a target is sent the question: so far only those of OpenAI are.
pub open spec fn is_sent(t: TargetView) -> bool {
    t.provider is OpenAi
}

impl FanStage {
    /// The turn of a target, or the end behind the last.
    pub open spec fn turn(targets: Seq<TargetView>, index: int) -> Self {
        if 0 <= index < targets.len() {
            FanStage::Visit { index: index as usize, send: is_sent(targets[index]) }
        } else {
            FanStage::Done(FanOutcome::Complete)
        }
    }

    /// After the file was read, or could not be.
    pub open spec fn after_file(self, ok: bool) -> Self {
        if self is ReadFile {
            if ok {
                FanStage::Parse
            } else {
                FanStage::Done(FanOutcome::ReadFailed)
            }
        } else {
            self
        }
    }

    /// After the file was parsed, or could not be.
    pub open spec fn after_parse(self, ok: bool) -> Self {
        if self is Parse {
            if ok {
                FanStage::Decode
            } else {
                FanStage::Done(FanOutcome::ParseFailed)
            }
        } else {
            self
        }
    }

    /// After the file was read as text, or could not be.
    pub open spec fn after_decode(self, ok: bool, targets: Seq<TargetView>) -> Self {
        if self is Decode {
            if ok {
                FanStage::turn(targets, 0)
            } else {
                FanStage::Done(FanOutcome::NotText)
            }
        } else {
            self
        }
    }

    /// After a target had its turn. Where nothing was sent, nothing can fail.
    pub open spec fn after_visit(self, ok: bool, targets: Seq<TargetView>) -> Self {
        match self {
            FanStage::Visit { index, send } => if send && !ok {
                FanStage::Done(FanOutcome::DispatchFailed(index))
            } else {
                FanStage::turn(targets, index + 1)
            },
            _ => self,
        }
    }

    /// The start for every snapshot.
    pub fn new() -> (r: Self)
        ensures
            r is ReadFile,
    {
        FanStage::ReadFile
    }

    fn turn_of(targets: &Vec<LlmTarget>, index: usize) -> (r: Self)
        ensures
            r == FanStage::turn(targets_view(targets@), index as int),
    {
        if index < targets.len() {
            let send = match targets[index].provider {
                LlmProvider::OpenAi => true,
                _ => false,
            };
            FanStage::Visit { index, send }
        } else {
            FanStage::Done(FanOutcome::Complete)
        }
    }

    /// Whether the file was read.
    pub fn file_read(self, ok: bool) -> (r: Self)
        ensures
            r == self.after_file(ok),
    {
        match self {
            FanStage::ReadFile => if ok {
                FanStage::Parse
            } else {
                FanStage::Done(FanOutcome::ReadFailed)
            },
            _ => self,
        }
    }

    /// Whether the file holds a snapshot.
    pub fn parsed(self, ok: bool) -> (r: Self)
        ensures
            r == self.after_parse(ok),
    {
        match self {
            FanStage::Parse => if ok {
                FanStage::Decode
            } else {
                FanStage::Done(FanOutcome::ParseFailed)
            },
            _ => self,
        }
    }

    /// Whether the file is text.
    pub fn decoded(self, ok: bool, targets: &Vec<LlmTarget>) -> (r: Self)
        ensures
            r == self.after_decode(ok, targets_view(targets@)),
    {
        match self {
            FanStage::Decode => if ok {
                FanStage::turn_of(targets, 0)
            } else {
                FanStage::Done(FanOutcome::NotText)
            },
            _ => self,
        }
    }

    /// Whether the turn of a target went well.
    pub fn visited(self, ok: bool, targets: &Vec<LlmTarget>) -> (r: Self)
        ensures
            r == self.after_visit(ok, targets_view(targets@)),
    {
        match self {
            FanStage::Visit { index, send } => if send && !ok {
                FanStage::Done(FanOutcome::DispatchFailed(index))
            } else if index < targets.len() {
                FanStage::turn_of(targets, index + 1)
            } else {
                FanStage::Done(FanOutcome::Complete)
            },
            _ => self,
        }
    }
}

/// Where the round stands after the turns of some targets, given how each went.
pub open spec fn after_turns(s: FanStage, oks: Seq<bool>, targets: Seq<TargetView>) -> FanStage
    decreases oks.len(),
{
    if oks.len() == 0 {
        s
    } else {
        after_turns(s, oks.drop_last(), targets).after_visit(oks.last(), targets)
    }
}

/// The turn fails: the target is sent the question, and that does not go well.
pub open spec fn fails(oks: Seq<bool>, targets: Seq<TargetView>, i: int) -> bool {
    is_sent(targets[i]) && !oks[i]
}

/// As long as no turn fails, every target has its turn, in the order of the flags;
/// behind the last of them the round is complete.
pub proof fn law_every_target_has_its_turn(oks: Seq<bool>, targets: Seq<TargetView>)
    requires
        oks.len() <= targets.len() <= usize::MAX,
        forall|i: int| 0 <= i < oks.len() ==> !#[trigger] fails(oks, targets, i),
    ensures
        after_turns(FanStage::turn(targets, 0), oks, targets) == FanStage::turn(
            targets,
            oks.len() as int,
        ),
    decreases oks.len(),
{
    if oks.len() > 0 {
        let n = oks.len() - 1;
        assert forall|i: int| 0 <= i < n implies !#[trigger] fails(oks.drop_last(), targets, i) by {
            assert(!fails(oks, targets, i));
        }
        law_every_target_has_its_turn(oks.drop_last(), targets);
        assert(!fails(oks, targets, n));
    }
}

/// The first turn that fails ends the round, and no target behind it has a turn.
pub proof fn law_first_failure_ends_the_round(
    oks: Seq<bool>,
    targets: Seq<TargetView>,
    first: int,
)
    requires
        oks.len() <= targets.len() <= usize::MAX,
        0 <= first < oks.len(),
        fails(oks, targets, first),
        forall|i: int| 0 <= i < first ==> !#[trigger] fails(oks, targets, i),
    ensures
        after_turns(FanStage::turn(targets, 0), oks, targets) == FanStage::Done(
            FanOutcome::DispatchFailed(first as usize),
        ),
    decreases oks.len(),
{
    let before = oks.drop_last();
    if first == oks.len() - 1 {
        assert forall|i: int| 0 <= i < first implies !#[trigger] fails(before, targets, i) by {
            assert(!fails(oks, targets, i));
        }
        law_every_target_has_its_turn(before, targets);
    } else {
        assert(fails(before, targets, first));
        assert forall|i: int| 0 <= i < first implies !#[trigger] fails(before, targets, i) by {
            assert(!fails(oks, targets, i));
        }
        law_first_failure_ends_the_round(before, targets, first);
    }
}

/// The models have a turn only if the file was read, holds a snapshot and is text,
/// and the first of these that does not hold is what the round ends with.
pub proof fn law_only_a_readable_snapshot_is_shown(
    read: bool,
    parsed: bool,
    text: bool,
    targets: Seq<TargetView>,
)
    ensures
        FanStage::ReadFile.after_file(read).after_parse(parsed).after_decode(text, targets) == if !read {
            FanStage::Done(FanOutcome::ReadFailed)
        } else if !parsed {
            FanStage::Done(FanOutcome::ParseFailed)
        } else if !text {
            FanStage::Done(FanOutcome::NotText)
        } else {
            FanStage::turn(targets, 0)
        },
{
}

/// The turn of a target: it is sent the question where its provider is OpenAI and
/// only announced otherwise. Behind the last target the round is complete.
pub proof fn law_turns_go_by_provider(targets: Seq<TargetView>, index: int)
    requires
        0 <= index <= targets.len() <= usize::MAX,
    ensures
        index < targets.len() ==> FanStage::turn(targets, index) == (FanStage::Visit {
            index: index as usize,
            send: targets[index].provider is OpenAi,
        }),
        index == targets.len() ==> FanStage::turn(targets, index) == FanStage::Done(
            FanOutcome::Complete,
        ),
{
}

/// A target that was only announced cannot fail, and one that was sent the question
/// fails exactly where that did not go well.
pub proof fn law_only_what_was_sent_can_fail(
    targets: Seq<TargetView>,
    index: usize,
    send: bool,
    ok: bool,
)
    requires
        index < targets.len() <= usize::MAX,
    ensures
        (FanStage::Visit { index, send }).after_visit(ok, targets) == if send && !ok {
            FanStage::Done(FanOutcome::DispatchFailed(index))
        } else {
            FanStage::turn(targets, index + 1)
        },
{
}

} // verus!
