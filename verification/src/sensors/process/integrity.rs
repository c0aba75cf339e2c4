//! The integrity level of a process, taken from its access token.

use vstd::prelude::*;
use crate::ledger::{closed, opened, run, Dialogue};
use crate::text::text_view;

verus! {

/// The name under which the integrity level with a given relative identifier is
/// reported. It is the same for every identifier.
pub open spec fn integrity_name(rid: u32) -> Seq<char> {
    "Untrusted"@
}

/// Names the integrity level with a given relative identifier.
pub fn integrity_rid_to_string(rid: u32) -> (r: String)
    ensures
        r@ == integrity_name(rid),
{
    match rid {
        _ => "Untrusted".to_owned(),
    }
}

/// What to ask the system for next.
#[derive(Clone, Copy, Debug, PartialEq, Eq, Structural)]
pub enum IntegrityStage {
    OpenProcess,
    OpenToken,
    /// Ask how many bytes the label of the token takes.
    MeasureLabel,
    /// Ask for the label, with a buffer of so many bytes.
    ReadLabel { bytes: u32 },
    /// Ask how many parts the identifier of the label has.
    CountParts,
    /// Ask for the part with that index, the last one.
    ReadPart { index: u32 },
    CloseToken,
    CloseProcess,
    Done,
}

/// The dialogue that finds the integrity level.
pub struct IntegrityProbe {
    pub stage: IntegrityStage,
    pub level: Option<String>,
}

/// Where the dialogue stands, and what it has found.
pub struct IntegrityView {
    pub stage: IntegrityStage,
    pub level: Option<Seq<char>>,
}

impl View for IntegrityProbe {
    type V = IntegrityView;

    open spec fn view(&self) -> IntegrityView {
        IntegrityView { stage: self.stage, level: text_view(self.level) }
    }
}

/// An answer of the system.
pub enum IntegrityAnswer {
    /// Whether the process was opened.
    ProcessOpened(bool),
    /// Whether the token was opened.
    TokenOpened(bool),
    /// How many bytes the label takes.
    LabelMeasured(u32),
    /// Whether the label was read and holds an identifier.
    LabelRead(bool, bool),
    /// How many parts the identifier has, where that is known.
    PartsCounted(Option<u8>),
    /// The part that was asked for, where it is there.
    PartRead(Option<u32>),
    /// The token was closed.
    TokenClosed,
    /// The process was closed.
    ProcessClosed,
}

impl IntegrityView {
    /// The start of every dialogue.
    pub open spec fn start() -> Self {
        IntegrityView { stage: IntegrityStage::OpenProcess, level: None }
    }

    /// The same findings at another stage.
    pub open spec fn at(self, stage: IntegrityStage) -> Self {
        IntegrityView { stage, ..self }
    }
}

impl IntegrityProbe {
    /// Starts the dialogue.
    pub fn new() -> (r: Self)
        ensures
            r@ == IntegrityView::start(),
    {
        IntegrityProbe { stage: IntegrityStage::OpenProcess, level: None }
    }

    /// Whether the process was opened.
    pub fn process_opened(self, ok: bool) -> (r: Self)
        ensures
            r@ == self@.after(IntegrityAnswer::ProcessOpened(ok)),
    {
        match self.stage {
            IntegrityStage::OpenProcess => IntegrityProbe {
                stage: if ok {
                    IntegrityStage::OpenToken
                } else {
                    IntegrityStage::Done
                },
                ..self
            },
            _ => self,
        }
    }

    /// Whether the token was opened.
    pub fn token_opened(self, ok: bool) -> (r: Self)
        ensures
            r@ == self@.after(IntegrityAnswer::TokenOpened(ok)),
    {
        match self.stage {
            IntegrityStage::OpenToken => IntegrityProbe {
                stage: if ok {
                    IntegrityStage::MeasureLabel
                } else {
                    IntegrityStage::CloseProcess
                },
                ..self
            },
            _ => self,
        }
    }

    /// How many bytes the label takes.
    pub fn label_measured(self, bytes: u32) -> (r: Self)
        ensures
            r@ == self@.after(IntegrityAnswer::LabelMeasured(bytes)),
    {
        match self.stage {
            IntegrityStage::MeasureLabel => IntegrityProbe {
                stage: if bytes == 0 {
                    IntegrityStage::CloseToken
                } else {
                    IntegrityStage::ReadLabel { bytes }
                },
                ..self
            },
            _ => self,
        }
    }

    /// Whether the label was read and holds an identifier.
    pub fn label_read(self, ok: bool, has_identifier: bool) -> (r: Self)
        ensures
            r@ == self@.after(IntegrityAnswer::LabelRead(ok, has_identifier)),
    {
        match self.stage {
            IntegrityStage::ReadLabel { .. } => IntegrityProbe {
                stage: if ok && has_identifier {
                    IntegrityStage::CountParts
                } else {
                    IntegrityStage::CloseToken
                },
                ..self
            },
            _ => self,
        }
    }

    /// How many parts the identifier has, where that is known.
    pub fn parts_counted(self, count: Option<u8>) -> (r: Self)
        ensures
            r@ == self@.after(IntegrityAnswer::PartsCounted(count)),
    {
        match self.stage {
            IntegrityStage::CountParts => {
                let mut stage = IntegrityStage::CloseToken;
                if let Some(n) = count {
                    if n > 0 {
                        stage = IntegrityStage::ReadPart { index: n as u32 - 1 };
                    }
                }
                IntegrityProbe { stage, ..self }
            },
            _ => self,
        }
    }

    /// The part that was asked for, where it is there.
    pub fn part_read(self, part: Option<u32>) -> (r: Self)
        ensures
            r@ == self@.after(IntegrityAnswer::PartRead(part)),
    {
        match self.stage {
            IntegrityStage::ReadPart { .. } => {
                let level = match part {
                    Some(rid) => Some(integrity_rid_to_string(rid)),
                    None => None,
                };
                IntegrityProbe { stage: IntegrityStage::CloseToken, level }
            },
            _ => self,
        }
    }

    /// The token was closed.
    pub fn token_closed(self) -> (r: Self)
        ensures
            r@ == self@.after(IntegrityAnswer::TokenClosed),
    {
        match self.stage {
            IntegrityStage::CloseToken => IntegrityProbe {
                stage: IntegrityStage::CloseProcess,
                ..self
            },
            _ => self,
        }
    }

    /// The process was closed.
    pub fn process_closed(self) -> (r: Self)
        ensures
            r@ == self@.after(IntegrityAnswer::ProcessClosed),
    {
        match self.stage {
            IntegrityStage::CloseProcess => IntegrityProbe {
                stage: IntegrityStage::Done,
                ..self
            },
            _ => self,
        }
    }
}

impl Dialogue for IntegrityView {
    type Answer = IntegrityAnswer;

    /// An answer to what was asked leads on, or, where it brings nothing, to the
    /// closing of what is open. The token is closed before the process. Any other
    /// answer changes nothing.
    open spec fn after(self, a: IntegrityAnswer) -> Self {
        match (self.stage, a) {
            (IntegrityStage::OpenProcess, IntegrityAnswer::ProcessOpened(ok)) => self.at(
                if ok {
                    IntegrityStage::OpenToken
                } else {
                    IntegrityStage::Done
                },
            ),
            (IntegrityStage::OpenToken, IntegrityAnswer::TokenOpened(ok)) => self.at(
                if ok {
                    IntegrityStage::MeasureLabel
                } else {
                    IntegrityStage::CloseProcess
                },
            ),
            (IntegrityStage::MeasureLabel, IntegrityAnswer::LabelMeasured(bytes)) => self.at(
                if bytes != 0 {
                    IntegrityStage::ReadLabel { bytes }
                } else {
                    IntegrityStage::CloseToken
                },
            ),
            (
                IntegrityStage::ReadLabel { .. },
                IntegrityAnswer::LabelRead(ok, has_identifier),
            ) => self.at(
                if ok && has_identifier {
                    IntegrityStage::CountParts
                } else {
                    IntegrityStage::CloseToken
                },
            ),
            (IntegrityStage::CountParts, IntegrityAnswer::PartsCounted(count)) => self.at(
                match count {
                    Some(n) if n > 0 => IntegrityStage::ReadPart { index: (n - 1) as u32 },
                    _ => IntegrityStage::CloseToken,
                },
            ),
            (IntegrityStage::ReadPart { .. }, IntegrityAnswer::PartRead(part)) => IntegrityView {
                stage: IntegrityStage::CloseToken,
                level: match part {
                    Some(rid) => Some(integrity_name(rid)),
                    None => None,
                },
            },
            (IntegrityStage::CloseToken, IntegrityAnswer::TokenClosed) => self.at(
                IntegrityStage::CloseProcess,
            ),
            (IntegrityStage::CloseProcess, IntegrityAnswer::ProcessClosed) => self.at(
                IntegrityStage::Done,
            ),
            _ => self,
        }
    }

    open spec fn opens(self, a: IntegrityAnswer) -> bool {
        ||| self.stage is OpenProcess && a == IntegrityAnswer::ProcessOpened(true)
        ||| self.stage is OpenToken && a == IntegrityAnswer::TokenOpened(true)
    }

    open spec fn closes(self, a: IntegrityAnswer) -> bool {
        ||| self.stage is CloseToken && a is TokenClosed
        ||| self.stage is CloseProcess && a is ProcessClosed
    }

    open spec fn held(self) -> int {
        match self.stage {
            IntegrityStage::OpenProcess | IntegrityStage::Done => 0,
            IntegrityStage::OpenToken | IntegrityStage::CloseProcess => 1,
            _ => 2,
        }
    }

    proof fn keeps_count(self, a: IntegrityAnswer) {
    }
}

/// However the system answers, a dialogue that has ended has closed the process and
/// the token as far as they were opened, and closed nothing else.
pub proof fn law_integrity_closes_what_it_opens(answers: Seq<IntegrityAnswer>)
    ensures
        run(IntegrityView::start(), answers).stage is Done ==> opened(
            IntegrityView::start(),
            answers,
        ) == closed(IntegrityView::start(), answers),
{
    crate::ledger::law_ledger(IntegrityView::start(), answers);
}

/// What has been opened at each stage, and where a level can be known.
proof fn lemma_opened_so_far(answers: Seq<IntegrityAnswer>)
    ensures
        match run(IntegrityView::start(), answers).stage {
            IntegrityStage::OpenProcess => opened(IntegrityView::start(), answers) == 0,
            IntegrityStage::OpenToken => opened(IntegrityView::start(), answers) == 1,
            IntegrityStage::CloseProcess => 1 <= opened(IntegrityView::start(), answers) <= 2,
            IntegrityStage::Done => 0 <= opened(IntegrityView::start(), answers) <= 2,
            _ => opened(IntegrityView::start(), answers) == 2,
        },
        run(IntegrityView::start(), answers).level is Some ==> {
            &&& opened(IntegrityView::start(), answers) == 2
            &&& {
                ||| run(IntegrityView::start(), answers).stage is CloseToken
                ||| run(IntegrityView::start(), answers).stage is CloseProcess
                ||| run(IntegrityView::start(), answers).stage is Done
            }
        },
    decreases answers.len(),
{
    if answers.len() > 0 {
        lemma_opened_so_far(answers.drop_last());
    }
}

/// A level is found in a dialogue that opened the process and its token, and in no
/// other.
pub proof fn law_integrity_level_needs_the_token(answers: Seq<IntegrityAnswer>)
    ensures
        run(IntegrityView::start(), answers).level is Some ==> opened(
            IntegrityView::start(),
            answers,
        ) == 2,
{
    lemma_opened_so_far(answers);
}

/// Where every step succeeds, the level is that of the last part of the identifier,
/// and the token is closed before the process.
pub proof fn law_integrity_level_is_that_of_the_last_part(bytes: u32, count: u8, rid: u32)
    requires
        bytes > 0,
        count > 0,
    ensures
        ({
            let measured = IntegrityView::start().after(
                IntegrityAnswer::ProcessOpened(true),
            ).after(IntegrityAnswer::TokenOpened(true)).after(
                IntegrityAnswer::LabelMeasured(bytes),
            );
            let counted = measured.after(IntegrityAnswer::LabelRead(true, true)).after(
                IntegrityAnswer::PartsCounted(Some(count)),
            );
            let found = counted.after(IntegrityAnswer::PartRead(Some(rid)));
            let token_closed = found.after(IntegrityAnswer::TokenClosed);
            let end = token_closed.after(IntegrityAnswer::ProcessClosed);
            &&& measured.stage == IntegrityStage::ReadLabel { bytes }
            &&& counted.stage matches IntegrityStage::ReadPart { index }
            &&& index == count - 1
            &&& found.stage is CloseToken
            &&& found.level == Some("Untrusted"@)
            &&& token_closed.stage is CloseProcess
            &&& end.stage is Done
            &&& end.level == found.level
        }),
{
}

/// A step that brings nothing leads to the closing of what is open, and there is no
/// level.
pub proof fn law_integrity_gives_up(v: IntegrityView, ok: bool)
    requires
        v.level is None,
    ensures
        v.stage is OpenProcess ==> v.after(IntegrityAnswer::ProcessOpened(false)) == v.at(
            IntegrityStage::Done,
        ),
        v.stage is OpenToken ==> v.after(IntegrityAnswer::TokenOpened(false)) == v.at(
            IntegrityStage::CloseProcess,
        ),
        v.stage is MeasureLabel ==> v.after(IntegrityAnswer::LabelMeasured(0)) == v.at(
            IntegrityStage::CloseToken,
        ),
        v.stage is ReadLabel ==> v.after(IntegrityAnswer::LabelRead(false, ok)) == v.at(
            IntegrityStage::CloseToken,
        ) && v.after(IntegrityAnswer::LabelRead(ok, false)) == v.at(IntegrityStage::CloseToken),
        v.stage is CountParts ==> v.after(IntegrityAnswer::PartsCounted(None)) == v.at(
            IntegrityStage::CloseToken,
        ) && v.after(IntegrityAnswer::PartsCounted(Some(0))) == v.at(IntegrityStage::CloseToken),
        v.stage is ReadPart ==> v.after(IntegrityAnswer::PartRead(None)) == v.at(
            IntegrityStage::CloseToken,
        ),
{
}

/// The view of a dialogue shows its stage and the name of the level.
pub proof fn law_integrity_view_is_faithful(p: IntegrityProbe)
    ensures
        p@.stage == p.stage,
        p.level matches Some(level) ==> p@.level == Some(level@),
        p.level is None ==> p@.level is None,
{
}

} // verus!
