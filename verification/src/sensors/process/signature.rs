//! Whether the image of a process is signed, and by whom.

use vstd::prelude::*;
use crate::ledger::{closed, opened, run, Dialogue};
use crate::text::text_view;
use crate::utf16::{decode_utf16, null_terminated, utf16_encode, utf16_lossy};

verus! {

/// The path as the system calls take it: UTF-16 with a zero behind it. There is
/// nothing to ask where the path is not known.
pub fn path_argument(path: Option<String>) -> (r: Option<Vec<u16>>)
    ensures
        match path {
            Some(p) => r matches Some(wide) && wide@ == utf16_encode(p@).push(0),
            None => r is None,
        },
{
    match path {
        Some(p) => Some(null_terminated(p.as_str())),
        None => None,
    }
}

/// An image counts as signed and trusted where its path is known and the check of its
/// signature ended with status zero.
pub open spec fn counts_as_trusted(status: Option<i32>) -> bool {
    match status {
        Some(s) => s == 0,
        None => false,
    }
}

/// Whether an image counts as signed and trusted: only where its path is known and
/// the check of its signature ended with status zero.
pub fn is_trusted(status: Option<i32>) -> (r: bool)
    ensures
        r == counts_as_trusted(status),
        r == (status == Some(0i32)),
{
    match status {
        Some(s) => s == 0,
        None => false,
    }
}

/// The name in a buffer, given the length that the system reports: units filled,
/// the zero behind the name counted. An empty name is none.
pub open spec fn name_in(buffer: Seq<u16>, len: int) -> Option<Seq<char>> {
    if len <= 1 {
        None
    } else {
        Some(utf16_lossy(buffer.take(len - 1)))
    }
}

/// What to ask the system for next.
#[derive(Clone, Copy, Debug, PartialEq, Eq, Structural)]
pub enum SignerStage {
    FindPath,
    /// Ask for the certificates of the file.
    OpenStore,
    FirstCertificate,
    /// Ask for the display name of the subject.
    ReadName,
    CloseStore,
    Done,
}

/// The dialogue that finds the signer.
pub struct SignerProbe {
    pub stage: SignerStage,
    pub name: Option<String>,
}

/// Where the dialogue stands, and what it has found.
pub struct SignerView {
    pub stage: SignerStage,
    pub name: Option<Seq<char>>,
}

impl View for SignerProbe {
    type V = SignerView;

    open spec fn view(&self) -> SignerView {
        SignerView { stage: self.stage, name: text_view(self.name) }
    }
}

/// An answer of the system.
pub enum SignerAnswer {
    /// Whether the path of the image is known.
    PathFound(bool),
    /// Whether the query succeeded, and whether it left an open store.
    StoreOpened(bool, bool),
    /// Whether there is a first certificate.
    CertificateFound(bool),
    /// The buffer for the name, and the length that is reported for it.
    Name(Seq<u16>, u32),
    /// The store was closed.
    StoreClosed,
}

impl SignerView {
    /// The start of every dialogue.
    pub open spec fn start() -> Self {
        SignerView { stage: SignerStage::FindPath, name: None }
    }

    /// The same findings at another stage.
    pub open spec fn at(self, stage: SignerStage) -> Self {
        SignerView { stage, ..self }
    }
}

impl SignerProbe {
    /// Starts the dialogue.
    pub fn new() -> (r: Self)
        ensures
            r@ == SignerView::start(),
    {
        SignerProbe { stage: SignerStage::FindPath, name: None }
    }

    /// Whether the path of the image is known.
    pub fn path_found(self, known: bool) -> (r: Self)
        ensures
            r@ == self@.after(SignerAnswer::PathFound(known)),
    {
        match self.stage {
            SignerStage::FindPath => SignerProbe {
                stage: if known {
                    SignerStage::OpenStore
                } else {
                    SignerStage::Done
                },
                ..self
            },
            _ => self,
        }
    }

    /// Whether the query succeeded, and whether it left an open store.
    pub fn store_opened(self, ok: bool, open: bool) -> (r: Self)
        ensures
            r@ == self@.after(SignerAnswer::StoreOpened(ok, open)),
    {
        match self.stage {
            SignerStage::OpenStore => SignerProbe {
                stage: if !open {
                    SignerStage::Done
                } else if ok {
                    SignerStage::FirstCertificate
                } else {
                    SignerStage::CloseStore
                },
                ..self
            },
            _ => self,
        }
    }

    /// Whether there is a first certificate.
    pub fn certificate_found(self, found: bool) -> (r: Self)
        ensures
            r@ == self@.after(SignerAnswer::CertificateFound(found)),
    {
        match self.stage {
            SignerStage::FirstCertificate => SignerProbe {
                stage: if found {
                    SignerStage::ReadName
                } else {
                    SignerStage::CloseStore
                },
                ..self
            },
            _ => self,
        }
    }

    /// The buffer for the name, and the length that is reported for it.
    pub fn name_read(self, buffer: &[u16], len: u32) -> (r: Self)
        requires
            len <= buffer@.len() + 1,
        ensures
            r@ == self@.after(SignerAnswer::Name(buffer@, len)),
    {
        match self.stage {
            SignerStage::ReadName => {
                let name = if len <= 1 {
                    None
                } else {
                    Some(decode_utf16(buffer, (len - 1) as usize))
                };
                SignerProbe { stage: SignerStage::CloseStore, name }
            },
            _ => self,
        }
    }

    /// The store was closed.
    pub fn store_closed(self) -> (r: Self)
        ensures
            r@ == self@.after(SignerAnswer::StoreClosed),
    {
        match self.stage {
            SignerStage::CloseStore => SignerProbe { stage: SignerStage::Done, ..self },
            _ => self,
        }
    }
}

impl Dialogue for SignerView {
    type Answer = SignerAnswer;

    /// A store that is open is closed, also where the query for it failed. Any answer
    /// other than to what was asked changes nothing.
    open spec fn after(self, a: SignerAnswer) -> Self {
        match (self.stage, a) {
            (SignerStage::FindPath, SignerAnswer::PathFound(known)) => self.at(
                if known {
                    SignerStage::OpenStore
                } else {
                    SignerStage::Done
                },
            ),
            (SignerStage::OpenStore, SignerAnswer::StoreOpened(ok, open)) => self.at(
                if ok && open {
                    SignerStage::FirstCertificate
                } else if open {
                    SignerStage::CloseStore
                } else {
                    SignerStage::Done
                },
            ),
            (SignerStage::FirstCertificate, SignerAnswer::CertificateFound(found)) => self.at(
                if found {
                    SignerStage::ReadName
                } else {
                    SignerStage::CloseStore
                },
            ),
            (SignerStage::ReadName, SignerAnswer::Name(buffer, len)) => SignerView {
                stage: SignerStage::CloseStore,
                name: name_in(buffer, len as int),
            },
            (SignerStage::CloseStore, SignerAnswer::StoreClosed) => self.at(SignerStage::Done),
            _ => self,
        }
    }

    open spec fn opens(self, a: SignerAnswer) -> bool {
        self.stage is OpenStore && (a matches SignerAnswer::StoreOpened(_, open) && open)
    }

    open spec fn closes(self, a: SignerAnswer) -> bool {
        self.stage is CloseStore && a is StoreClosed
    }

    open spec fn held(self) -> int {
        match self.stage {
            SignerStage::FindPath | SignerStage::OpenStore | SignerStage::Done => 0,
            _ => 1,
        }
    }

    proof fn keeps_count(self, a: SignerAnswer) {
    }
}

/// However the system answers, a dialogue that has ended has closed the store if it
/// was opened, and closed nothing else.
pub proof fn law_signer_closes_what_it_opens(answers: Seq<SignerAnswer>)
    ensures
        run(SignerView::start(), answers).stage is Done ==> opened(SignerView::start(), answers)
            == closed(SignerView::start(), answers),
{
    crate::ledger::law_ledger(SignerView::start(), answers);
}

/// A name that the system writes with a zero behind it, and reports with the zero
/// counted, is read as it is, whatever stands behind it.
pub proof fn law_signer_name_reads_back(name: Seq<char>, garbage: Seq<u16>)
    requires
        name.len() > 0,
    ensures
        name_in(
            utf16_encode(name).push(0) + garbage,
            utf16_encode(name).push(0).len() as int,
        ) == Some(name),
{
    let e = utf16_encode(name);
    crate::utf16::law_utf16_round_trip(name);
    if e.len() == 0 {
        assert(e =~= Seq::<u16>::empty());
        assert(utf16_lossy(e).len() == 0);
    }
    assert((e.push(0) + garbage).take(e.len() as int) =~= e);
}

/// Where every step succeeds, the signer is the one whose name the system writes with
/// a zero behind it, and the store is closed.
pub proof fn law_signer_is_found(name: Seq<char>, garbage: Seq<u16>)
    requires
        0 < name.len(),
        utf16_encode(name).len() < u32::MAX,
    ensures
        ({
            let end = run(
                SignerView::start(),
                seq![
                    SignerAnswer::PathFound(true),
                    SignerAnswer::StoreOpened(true, true),
                    SignerAnswer::CertificateFound(true),
                    SignerAnswer::Name(
                        utf16_encode(name).push(0) + garbage,
                        (utf16_encode(name).len() + 1) as u32,
                    ),
                    SignerAnswer::StoreClosed,
                ],
            );
            end.stage is Done && end.name == Some(name)
        }),
{
    law_signer_name_reads_back(name, garbage);
    let all = seq![
        SignerAnswer::PathFound(true),
        SignerAnswer::StoreOpened(true, true),
        SignerAnswer::CertificateFound(true),
        SignerAnswer::Name(
            utf16_encode(name).push(0) + garbage,
            (utf16_encode(name).len() + 1) as u32,
        ),
        SignerAnswer::StoreClosed,
    ];
    reveal_with_fuel(run, 6);
    assert(all.drop_last().last() == all[3]);
    assert(all.drop_last().drop_last().last() == all[2]);
    assert(all.drop_last().drop_last().drop_last().last() == all[1]);
    assert(all.drop_last().drop_last().drop_last().drop_last().last() == all[0]);
}

/// Without a path, a store, a certificate or a name in it there is no signer, and a
/// store that is open is closed.
pub proof fn law_signer_gives_up(buffer: Seq<u16>, len: u32)
    ensures
        ({
            let found = SignerView::start().after(SignerAnswer::PathFound(true));
            let held = found.after(SignerAnswer::StoreOpened(true, true));
            let named = held.after(SignerAnswer::CertificateFound(true));
            &&& SignerView::start().after(SignerAnswer::PathFound(false)) == (SignerView {
                stage: SignerStage::Done,
                name: None,
            })
            &&& found.after(SignerAnswer::StoreOpened(true, false)) == (SignerView {
                stage: SignerStage::Done,
                name: None,
            })
            &&& found.after(SignerAnswer::StoreOpened(false, false)) == (SignerView {
                stage: SignerStage::Done,
                name: None,
            })
            &&& found.after(SignerAnswer::StoreOpened(false, true)) == (SignerView {
                stage: SignerStage::CloseStore,
                name: None,
            })
            &&& held.after(SignerAnswer::CertificateFound(false)) == (SignerView {
                stage: SignerStage::CloseStore,
                name: None,
            })
            &&& len <= 1 ==> named.after(SignerAnswer::Name(buffer, len)) == (SignerView {
                stage: SignerStage::CloseStore,
                name: None,
            })
        }),
{
}

/// One status alone speaks for an image, and an image that was not looked at has none.
pub proof fn law_only_status_zero_is_trusted(status: i32)
    ensures
        counts_as_trusted(Some(status)) <==> status == 0,
        !counts_as_trusted(None),
{
}

/// The view of a dialogue shows its stage and the text of its name.
pub proof fn law_signer_view_is_faithful(p: SignerProbe)
    ensures
        p@.stage == p.stage,
        p.name matches Some(name) ==> p@.name == Some(name@),
        p.name is None ==> p@.name is None,
{
}

} // verus!
