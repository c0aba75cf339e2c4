//! The SHA-256 of the image of a process, read from disk piece by piece.

use vstd::prelude::*;
use crate::digest::{sha256, Hasher, TOO_MANY_BYTES};
use crate::ledger::{closed, opened, run, Dialogue};
use crate::text::{hex, text_view};

verus! {

/// What to ask the system for next.
#[derive(Clone, Copy, Debug, PartialEq, Eq, Structural)]
pub enum FingerprintStage {
    FindPath,
    OpenFile,
    ReadPiece,
    Done,
}

/// The dialogue that hashes the image.
pub struct FingerprintProbe {
    pub stage: FingerprintStage,
    pub hasher: Hasher,
    pub digest: Option<String>,
}

/// Where the dialogue stands, the bytes that it has read, and what it has found.
pub struct FingerprintView {
    pub stage: FingerprintStage,
    pub read: Seq<u8>,
    pub digest: Option<Seq<char>>,
}

impl View for FingerprintProbe {
    type V = FingerprintView;

    open spec fn view(&self) -> FingerprintView {
        FingerprintView { stage: self.stage, read: self.hasher@, digest: text_view(self.digest) }
    }
}

/// An answer of the system.
pub enum FingerprintAnswer {
    /// Whether the path of the image is known.
    PathFound(bool),
    /// Whether the file was opened.
    FileOpened(bool),
    /// The next bytes of the file: none at its end.
    Piece(Seq<u8>),
    /// The file could not be read.
    ReadFailed,
}

impl FingerprintView {
    /// The start of every dialogue.
    pub open spec fn start() -> Self {
        FingerprintView { stage: FingerprintStage::FindPath, read: Seq::empty(), digest: None }
    }

    /// The same findings at another stage.
    pub open spec fn at(self, stage: FingerprintStage) -> Self {
        FingerprintView { stage, ..self }
    }
}

impl FingerprintProbe {
    /// Starts the dialogue.
    pub fn new() -> (r: Self)
        ensures
            r@ == FingerprintView::start(),
    {
        FingerprintProbe {
            stage: FingerprintStage::FindPath,
            hasher: Hasher::new(),
            digest: None,
        }
    }

    /// Whether so many more bytes can be hashed.
    pub fn has_room(&self, len: usize) -> (r: bool)
        ensures
            r == (self@.read.len() + len < TOO_MANY_BYTES),
    {
        self.hasher.has_room(len)
    }

    /// Whether the path of the image is known.
    pub fn path_found(self, known: bool) -> (r: Self)
        ensures
            r@ == self@.after(FingerprintAnswer::PathFound(known)),
    {
        match self.stage {
            FingerprintStage::FindPath => FingerprintProbe {
                stage: if known {
                    FingerprintStage::OpenFile
                } else {
                    FingerprintStage::Done
                },
                ..self
            },
            _ => self,
        }
    }

    /// Whether the file was opened.
    pub fn file_opened(self, ok: bool) -> (r: Self)
        ensures
            r@ == self@.after(FingerprintAnswer::FileOpened(ok)),
    {
        match self.stage {
            FingerprintStage::OpenFile => FingerprintProbe {
                stage: if ok {
                    FingerprintStage::ReadPiece
                } else {
                    FingerprintStage::Done
                },
                ..self
            },
            _ => self,
        }
    }

    /// The next bytes of the file: none at its end.
    pub fn piece(self, bytes: &[u8]) -> (r: Self)
        requires
            self@.read.len() + bytes@.len() < TOO_MANY_BYTES,
        ensures
            r@ == self@.after(FingerprintAnswer::Piece(bytes@)),
            self@.stage is ReadPiece && bytes@.len() == 0 ==> (r@.digest matches Some(d)
                && d.len() == 64),
    {
        match self.stage {
            FingerprintStage::ReadPiece => if bytes.len() == 0 {
                FingerprintProbe {
                    stage: FingerprintStage::Done,
                    hasher: Hasher::new(),
                    digest: Some(self.hasher.finish()),
                }
            } else {
                FingerprintProbe {
                    stage: FingerprintStage::ReadPiece,
                    hasher: self.hasher.absorb(bytes),
                    digest: self.digest,
                }
            },
            _ => self,
        }
    }

    /// The file could not be read.
    pub fn read_failed(self) -> (r: Self)
        ensures
            r@ == self@.after(FingerprintAnswer::ReadFailed),
    {
        match self.stage {
            FingerprintStage::ReadPiece => FingerprintProbe {
                stage: FingerprintStage::Done,
                ..self
            },
            _ => self,
        }
    }
}

impl Dialogue for FingerprintView {
    type Answer = FingerprintAnswer;

    /// Without a path, a file, or a read to its end there is no digest. Any answer
    /// other than to what was asked changes nothing.
    open spec fn after(self, a: FingerprintAnswer) -> Self {
        match (self.stage, a) {
            (FingerprintStage::FindPath, FingerprintAnswer::PathFound(known)) => self.at(
                if known {
                    FingerprintStage::OpenFile
                } else {
                    FingerprintStage::Done
                },
            ),
            (FingerprintStage::OpenFile, FingerprintAnswer::FileOpened(ok)) => self.at(
                if ok {
                    FingerprintStage::ReadPiece
                } else {
                    FingerprintStage::Done
                },
            ),
            (FingerprintStage::ReadPiece, FingerprintAnswer::Piece(bytes)) => if bytes.len() == 0 {
                FingerprintView {
                    stage: FingerprintStage::Done,
                    read: Seq::empty(),
                    digest: Some(hex(sha256(self.read))),
                }
            } else {
                FingerprintView { read: self.read + bytes, ..self }
            },
            (FingerprintStage::ReadPiece, FingerprintAnswer::ReadFailed) => self.at(
                FingerprintStage::Done,
            ),
            _ => self,
        }
    }

    open spec fn opens(self, a: FingerprintAnswer) -> bool {
        self.stage is OpenFile && a == FingerprintAnswer::FileOpened(true)
    }

    open spec fn closes(self, a: FingerprintAnswer) -> bool {
        self.stage is ReadPiece && (a is ReadFailed || (a matches FingerprintAnswer::Piece(bytes)
            && bytes.len() == 0))
    }

    open spec fn held(self) -> int {
        if self.stage is ReadPiece {
            1
        } else {
            0
        }
    }

    proof fn keeps_count(self, a: FingerprintAnswer) {
    }
}

/// The bytes of pieces, one behind the other.
pub open spec fn joined(pieces: Seq<Seq<u8>>) -> Seq<u8>
    decreases pieces.len(),
{
    if pieces.len() == 0 {
        seq![]
    } else {
        joined(pieces.drop_last()) + pieces.last()
    }
}

/// The answers that bring a file in pieces, without the one that tells its end.
pub open spec fn file_answers(pieces: Seq<Seq<u8>>) -> Seq<FingerprintAnswer> {
    seq![FingerprintAnswer::PathFound(true), FingerprintAnswer::FileOpened(true)]
        + pieces.map_values(|p: Seq<u8>| FingerprintAnswer::Piece(p))
}

proof fn lemma_pieces_are_taken_in(pieces: Seq<Seq<u8>>)
    requires
        forall|i: int| 0 <= i < pieces.len() ==> (#[trigger] pieces[i]).len() > 0,
    ensures
        run(FingerprintView::start(), file_answers(pieces)) == (FingerprintView {
            stage: FingerprintStage::ReadPiece,
            read: joined(pieces),
            digest: None,
        }),
    decreases pieces.len(),
{
    let all = file_answers(pieces);
    if pieces.len() == 0 {
        assert(all =~= seq![
            FingerprintAnswer::PathFound(true),
            FingerprintAnswer::FileOpened(true),
        ]);
        reveal_with_fuel(run, 3);
        assert(all.drop_last().last() == all[0]);
    } else {
        let init = pieces.drop_last();
        assert forall|i: int| 0 <= i < init.len() implies (#[trigger] init[i]).len() > 0 by {
            assert(init[i] == pieces[i]);
        }
        lemma_pieces_are_taken_in(init);
        assert(all.drop_last() =~= file_answers(init));
        assert(all.last() == FingerprintAnswer::Piece(pieces.last()));
        assert(pieces.last() == pieces[pieces.len() - 1]);
    }
}

/// However a file is cut into pieces, its digest is that of its bytes as a whole.
pub proof fn law_fingerprint_ignores_the_cuts(pieces: Seq<Seq<u8>>)
    requires
        forall|i: int| 0 <= i < pieces.len() ==> (#[trigger] pieces[i]).len() > 0,
    ensures
        run(
            FingerprintView::start(),
            file_answers(pieces).push(FingerprintAnswer::Piece(Seq::empty())),
        ).digest == Some(hex(sha256(joined(pieces)))),
{
    lemma_pieces_are_taken_in(pieces);
    crate::ledger::lemma_run_push(
        FingerprintView::start(),
        file_answers(pieces),
        FingerprintAnswer::Piece(Seq::empty()),
    );
}

/// However the system answers, there is a digest only where the file was opened and
/// read to its end, and a dialogue that has ended holds no open file.
pub proof fn law_fingerprint_needs_the_whole_file(answers: Seq<FingerprintAnswer>)
    ensures
        run(FingerprintView::start(), answers).digest is Some ==> answers.contains(
            FingerprintAnswer::FileOpened(true),
        ) && answers.contains(FingerprintAnswer::Piece(Seq::empty())),
        !(run(FingerprintView::start(), answers).stage is FindPath || run(
            FingerprintView::start(),
            answers,
        ).stage is OpenFile || run(FingerprintView::start(), answers).stage is Done)
            ==> answers.contains(FingerprintAnswer::FileOpened(true)),
        run(FingerprintView::start(), answers).stage is Done ==> opened(
            FingerprintView::start(),
            answers,
        ) == closed(FingerprintView::start(), answers),
    decreases answers.len(),
{
    crate::ledger::law_ledger(FingerprintView::start(), answers);
    if answers.len() > 0 {
        let init = answers.drop_last();
        law_fingerprint_needs_the_whole_file(init);
        assert(answers[answers.len() - 1] == answers.last());
        assert forall|a: FingerprintAnswer| init.contains(a) implies answers.contains(a) by {
            let i = choose|i: int| 0 <= i < init.len() && init[i] == a;
            assert(answers[i] == a);
        }
        if let FingerprintAnswer::Piece(bytes) = answers.last() {
            if bytes.len() == 0 {
                assert(bytes =~= Seq::empty());
            }
        }
    }
}

/// A file that cannot be found, opened or read to its end has no digest, however much
/// of it was read before.
pub proof fn law_fingerprint_gives_up(pieces: Seq<Seq<u8>>)
    requires
        forall|i: int| 0 <= i < pieces.len() ==> (#[trigger] pieces[i]).len() > 0,
    ensures
        FingerprintView::start().after(FingerprintAnswer::PathFound(false)).stage is Done,
        FingerprintView::start().after(FingerprintAnswer::PathFound(false)).digest is None,
        FingerprintView::start().after(FingerprintAnswer::PathFound(true)).after(
            FingerprintAnswer::FileOpened(false),
        ).stage is Done,
        FingerprintView::start().after(FingerprintAnswer::PathFound(true)).after(
            FingerprintAnswer::FileOpened(false),
        ).digest is None,
        run(
            FingerprintView::start(),
            file_answers(pieces).push(FingerprintAnswer::ReadFailed),
        ).stage is Done,
        run(
            FingerprintView::start(),
            file_answers(pieces).push(FingerprintAnswer::ReadFailed),
        ).digest is None,
{
    lemma_pieces_are_taken_in(pieces);
    crate::ledger::lemma_run_push(
        FingerprintView::start(),
        file_answers(pieces),
        FingerprintAnswer::ReadFailed,
    );
}

/// The bytes of pieces come one behind the other: a file in one piece, and a file cut
/// in two anywhere, has the same bytes.
pub proof fn law_pieces_make_the_file(pieces: Seq<Seq<u8>>, a: Seq<u8>, b: Seq<u8>)
    ensures
        joined(seq![a]) == a,
        joined(pieces.push(a).push(b)) == joined(pieces.push(a + b)),
        joined(pieces.push(a)) == joined(pieces) + a,
{
    reveal_with_fuel(joined, 3);
    assert(seq![a].drop_last() =~= Seq::<Seq<u8>>::empty());
    assert(joined(seq![a]) =~= a);
    assert(pieces.push(a).push(b).drop_last() =~= pieces.push(a));
    assert(pieces.push(a).drop_last() =~= pieces);
    assert(pieces.push(a + b).drop_last() =~= pieces);
    assert((joined(pieces) + a) + b =~= joined(pieces) + (a + b));
}

/// The view of a dialogue shows its stage, the bytes taken in and the digest.
pub proof fn law_fingerprint_view_is_faithful(p: FingerprintProbe)
    ensures
        p@.stage == p.stage,
        p@.read == p.hasher@,
        p.digest matches Some(digest) ==> p@.digest == Some(digest@),
        p.digest is None ==> p@.digest is None,
{
}

} // verus!
