//! The walk through all processes of a host.

use vstd::prelude::*;
use super::report::{
    processes_view, report, report_of, EntryView, Findings, FindingsView, ProcessEntry,
    ProcessInfo, ProcessView,
};
use crate::ledger::{closed, opened, run, Dialogue};

verus! {

/// What to do next. `closed_early` tells that the snapshot was closed because its
/// first entry could not be read.
#[derive(Clone, Copy, Debug, PartialEq, Eq, Structural)]
pub enum WalkStage {
    /// Have the system take a snapshot of the list of processes.
    TakeSnapshot,
    FirstEntry,
    /// Close the snapshot, as the first entry could not be read.
    CloseAfterFailure,
    /// Find out about the process with that number.
    Inspect { pid: u32, closed_early: bool },
    NextEntry { closed_early: bool },
    CloseSnapshot { closed_early: bool },
    Done { closed_early: bool },
    /// End the program with exit status one.
    GiveUp,
}

/// The dialogue that walks through the processes.
pub struct ProcessWalk {
    pub stage: WalkStage,
    /// The entry that the walk stands on.
    pub entry: ProcessEntry,
    pub processes: Vec<ProcessInfo>,
}

/// Where the walk stands, and what it has found.
pub struct WalkView {
    pub stage: WalkStage,
    pub entry: EntryView,
    pub processes: Seq<ProcessView>,
}

impl View for ProcessWalk {
    type V = WalkView;

    open spec fn view(&self) -> WalkView {
        WalkView {
            stage: self.stage,
            entry: self.entry@,
            processes: processes_view(self.processes@),
        }
    }
}

/// An answer of the system.
pub enum WalkAnswer {
    /// Whether the snapshot was taken.
    SnapshotTaken(bool),
    /// The first entry, where it could be read.
    First(Option<EntryView>),
    /// What was found out about the process at hand.
    Inspected(FindingsView),
    /// The next entry, or none at the end of the list.
    Next(Option<EntryView>),
    /// The snapshot was closed.
    Closed,
}

impl WalkView {
    /// The start of every walk.
    pub open spec fn start() -> Self {
        WalkView {
            stage: WalkStage::TakeSnapshot,
            entry: EntryView::blank(),
            processes: Seq::empty(),
        }
    }

    /// The same findings at another stage.
    pub open spec fn at(self, stage: WalkStage) -> Self {
        WalkView { stage, ..self }
    }

    /// The walk on an entry.
    pub open spec fn on(self, entry: EntryView, closed_early: bool) -> Self {
        WalkView { stage: WalkStage::Inspect { pid: entry.pid, closed_early }, entry, ..self }
    }
}

impl ProcessWalk {
    /// Starts the walk.
    pub fn new() -> (r: Self)
        ensures
            r@ == WalkView::start(),
    {
        let processes: Vec<ProcessInfo> = Vec::new();
        assert(processes_view(processes@) =~= Seq::empty());
        ProcessWalk {
            stage: WalkStage::TakeSnapshot,
            entry: ProcessEntry::blank(),
            processes,
        }
    }

    /// Whether the snapshot was taken.
    pub fn snapshot_taken(self, ok: bool) -> (r: Self)
        ensures
            r@ == self@.after(WalkAnswer::SnapshotTaken(ok)),
    {
        match self.stage {
            WalkStage::TakeSnapshot => ProcessWalk {
                stage: if ok {
                    WalkStage::FirstEntry
                } else {
                    WalkStage::GiveUp
                },
                ..self
            },
            _ => self,
        }
    }

    /// The first entry, where it could be read.
    pub fn first(self, entry: Option<ProcessEntry>) -> (r: Self)
        ensures
            r@ == self@.after(
                WalkAnswer::First(
                    match entry {
                        Some(e) => Some(e@),
                        None => None,
                    },
                ),
            ),
    {
        match self.stage {
            WalkStage::FirstEntry => match entry {
                Some(e) => ProcessWalk {
                    stage: WalkStage::Inspect { pid: e.pid, closed_early: false },
                    entry: e,
                    ..self
                },
                None => ProcessWalk { stage: WalkStage::CloseAfterFailure, ..self },
            },
            _ => self,
        }
    }

    /// What was found out about the process at hand.
    pub fn inspected(self, findings: Findings) -> (r: Self)
        ensures
            r@ == self@.after(WalkAnswer::Inspected(findings@)),
    {
        match self.stage {
            WalkStage::Inspect { closed_early, .. } => {
                let mut processes = self.processes;
                let ghost before = processes@;
                let info = report_of(&self.entry, findings);
                processes.push(info);
                assert(processes_view(processes@) =~= processes_view(before).push(info@));
                ProcessWalk {
                    stage: WalkStage::NextEntry { closed_early },
                    entry: self.entry,
                    processes,
                }
            },
            _ => self,
        }
    }

    /// The next entry, or none at the end of the list.
    pub fn next(self, entry: Option<ProcessEntry>) -> (r: Self)
        ensures
            r@ == self@.after(
                WalkAnswer::Next(
                    match entry {
                        Some(e) => Some(e@),
                        None => None,
                    },
                ),
            ),
    {
        match self.stage {
            WalkStage::NextEntry { closed_early } => match entry {
                Some(e) => ProcessWalk {
                    stage: WalkStage::Inspect { pid: e.pid, closed_early },
                    entry: e,
                    ..self
                },
                None => ProcessWalk { stage: WalkStage::CloseSnapshot { closed_early }, ..self },
            },
            _ => self,
        }
    }

    /// The snapshot was closed.
    pub fn closed(self) -> (r: Self)
        ensures
            r@ == self@.after(WalkAnswer::Closed),
    {
        match self.stage {
            WalkStage::CloseAfterFailure => ProcessWalk {
                stage: WalkStage::Inspect { pid: self.entry.pid, closed_early: true },
                ..self
            },
            WalkStage::CloseSnapshot { closed_early } => ProcessWalk {
                stage: WalkStage::Done { closed_early },
                ..self
            },
            _ => self,
        }
    }
}

impl Dialogue for WalkView {
    type Answer = WalkAnswer;

    /// Each entry is inspected and reported on before the next is asked for. Where the
    /// first entry cannot be read, the snapshot is closed and the walk goes on from
    /// the entry at hand, which is blank. Any answer other than to what was asked
    /// changes nothing.
    open spec fn after(self, a: WalkAnswer) -> Self {
        match (self.stage, a) {
            (WalkStage::TakeSnapshot, WalkAnswer::SnapshotTaken(ok)) => self.at(
                if ok {
                    WalkStage::FirstEntry
                } else {
                    WalkStage::GiveUp
                },
            ),
            (WalkStage::FirstEntry, WalkAnswer::First(Some(entry))) => self.on(entry, false),
            (WalkStage::FirstEntry, WalkAnswer::First(None)) => self.at(
                WalkStage::CloseAfterFailure,
            ),
            (WalkStage::CloseAfterFailure, WalkAnswer::Closed) => self.on(self.entry, true),
            (WalkStage::Inspect { closed_early, .. }, WalkAnswer::Inspected(findings)) => WalkView {
                stage: WalkStage::NextEntry { closed_early },
                processes: self.processes.push(report(self.entry, findings)),
                ..self
            },
            (WalkStage::NextEntry { closed_early }, WalkAnswer::Next(Some(entry))) => self.on(
                entry,
                closed_early,
            ),
            (WalkStage::NextEntry { closed_early }, WalkAnswer::Next(None)) => self.at(
                WalkStage::CloseSnapshot { closed_early },
            ),
            (WalkStage::CloseSnapshot { closed_early }, WalkAnswer::Closed) => self.at(
                WalkStage::Done { closed_early },
            ),
            _ => self,
        }
    }

    open spec fn opens(self, a: WalkAnswer) -> bool {
        self.stage is TakeSnapshot && a == WalkAnswer::SnapshotTaken(true)
    }

    open spec fn closes(self, a: WalkAnswer) -> bool {
        (self.stage is CloseAfterFailure || self.stage is CloseSnapshot) && a is Closed
    }

    open spec fn held(self) -> int {
        match self.stage {
            WalkStage::TakeSnapshot | WalkStage::GiveUp => 0,
            WalkStage::FirstEntry | WalkStage::CloseAfterFailure => 1,
            WalkStage::Inspect { closed_early, .. } | WalkStage::NextEntry { closed_early }
            | WalkStage::CloseSnapshot { closed_early } => if closed_early {
                0
            } else {
                1
            },
            WalkStage::Done { closed_early } => if closed_early {
                -1
            } else {
                0
            },
        }
    }

    proof fn keeps_count(self, a: WalkAnswer) {
    }
}

/// Where the first entry can be read, a walk that has ended has closed the snapshot
/// once; where it cannot, it has closed it twice.
pub proof fn law_walk_closes_the_snapshot(answers: Seq<WalkAnswer>)
    ensures
        run(WalkView::start(), answers).stage matches WalkStage::Done { closed_early } ==> closed(
            WalkView::start(),
            answers,
        ) == opened(WalkView::start(), answers) + if closed_early {
            1int
        } else {
            0
        },
        (forall|i: int| 0 <= i < answers.len() ==> #[trigger] answers[i] != WalkAnswer::First(None))
            ==> !(run(WalkView::start(), answers).stage matches WalkStage::Done { closed_early }
            && closed_early),
{
    crate::ledger::law_ledger(WalkView::start(), answers);
    if forall|i: int| 0 <= i < answers.len() ==> #[trigger] answers[i] != WalkAnswer::First(None) {
        lemma_never_closed_early(answers);
    }
}

proof fn lemma_never_closed_early(answers: Seq<WalkAnswer>)
    requires
        forall|i: int| 0 <= i < answers.len() ==> #[trigger] answers[i] != WalkAnswer::First(None),
    ensures
        match run(WalkView::start(), answers).stage {
            WalkStage::CloseAfterFailure => false,
            WalkStage::Inspect { closed_early, .. } | WalkStage::NextEntry { closed_early }
            | WalkStage::CloseSnapshot { closed_early } | WalkStage::Done {
                closed_early,
            } => !closed_early,
            _ => true,
        },
    decreases answers.len(),
{
    if answers.len() > 0 {
        let init = answers.drop_last();
        assert forall|i: int| 0 <= i < init.len() implies #[trigger] init[i] != WalkAnswer::First(
            None,
        ) by {
            assert(init[i] == answers[i]);
        }
        lemma_never_closed_early(init);
        assert(answers.last() == answers[answers.len() - 1]);
    }
}

/// The answers for a list of processes up to the end of the list: the snapshot, the
/// entries, and after each of them what was found out about it.
pub open spec fn list_answers(entries: Seq<EntryView>, findings: Seq<FindingsView>) -> Seq<
    WalkAnswer,
>
    decreases entries.len(),
{
    if entries.len() <= 1 {
        seq![
            WalkAnswer::SnapshotTaken(true),
            WalkAnswer::First(Some(entries[0])),
            WalkAnswer::Inspected(findings[0]),
        ]
    } else {
        list_answers(entries.drop_last(), findings.drop_last()) + seq![
            WalkAnswer::Next(Some(entries.last())),
            WalkAnswer::Inspected(findings.last()),
        ]
    }
}

proof fn lemma_list_is_walked(entries: Seq<EntryView>, findings: Seq<FindingsView>)
    requires
        entries.len() > 0,
        entries.len() == findings.len(),
    ensures
        run(WalkView::start(), list_answers(entries, findings)) == (WalkView {
            stage: WalkStage::NextEntry { closed_early: false },
            entry: entries.last(),
            processes: Seq::new(entries.len(), |i: int| report(entries[i], findings[i])),
        }),
    decreases entries.len(),
{
    let all = list_answers(entries, findings);
    reveal_with_fuel(run, 4);
    if entries.len() <= 1 {
        assert(all.drop_last().last() == all[1]);
        assert(all.drop_last().drop_last().last() == all[0]);
        assert(all.drop_last().drop_last().drop_last() =~= Seq::empty());
        assert(run(WalkView::start(), all).processes =~= Seq::new(
            entries.len(),
            |i: int| report(entries[i], findings[i]),
        ));
    } else {
        let e = entries.drop_last();
        let f = findings.drop_last();
        lemma_list_is_walked(e, f);
        let head = list_answers(e, f);
        assert(all.drop_last().drop_last() =~= head);
        assert(all.drop_last().last() == WalkAnswer::Next(Some(entries.last())));
        assert(all.last() == WalkAnswer::Inspected(findings.last()));
        assert(run(WalkView::start(), all).processes =~= Seq::new(
            entries.len(),
            |i: int| report(entries[i], findings[i]),
        ));
    }
}

/// A walk through a list of processes reports on each of them once, in the order of
/// the list.
pub proof fn law_walk_reports_on_every_process(
    entries: Seq<EntryView>,
    findings: Seq<FindingsView>,
)
    requires
        entries.len() > 0,
        entries.len() == findings.len(),
    ensures
        ({
            let end = run(
                WalkView::start(),
                list_answers(entries, findings).push(WalkAnswer::Next(None)).push(
                    WalkAnswer::Closed,
                ),
            );
            end.stage is Done && end.processes == Seq::new(
                entries.len(),
                |i: int| report(entries[i], findings[i]),
            )
        }),
{
    lemma_list_is_walked(entries, findings);
    crate::ledger::lemma_run_push(
        WalkView::start(),
        list_answers(entries, findings),
        WalkAnswer::Next(None),
    );
    crate::ledger::lemma_run_push(
        WalkView::start(),
        list_answers(entries, findings).push(WalkAnswer::Next(None)),
        WalkAnswer::Closed,
    );
}

/// The i-th report of a walk is on the i-th process of the list: it has the numbers of
/// that process and says what was found out about it and about no other.
pub proof fn law_walk_reports_what_was_found(
    entries: Seq<EntryView>,
    findings: Seq<FindingsView>,
    i: int,
)
    requires
        entries.len() == findings.len(),
        0 <= i < entries.len(),
    ensures
        ({
            let end = run(
                WalkView::start(),
                list_answers(entries, findings).push(WalkAnswer::Next(None)).push(
                    WalkAnswer::Closed,
                ),
            );
            &&& end.stage == WalkStage::Done { closed_early: false }
            &&& end.processes.len() == entries.len()
            &&& end.processes[i].pid == entries[i].pid
            &&& end.processes[i].ppid == entries[i].ppid
            &&& end.processes[i].thread_count == entries[i].thread_count
            &&& findings[i].path matches Some(path) ==> end.processes[i].exe_path == path
            &&& end.processes[i].command_line == findings[i].command_line
            &&& end.processes[i].integrity_level == findings[i].integrity_level
            &&& end.processes[i].is_signed == Some(findings[i].is_signed)
            &&& end.processes[i].signer_name == findings[i].signer_name
            &&& end.processes[i].sha256 == findings[i].sha256
            &&& end.processes[i].cpu_percent == findings[i].cpu
            &&& end.processes[i].modules == findings[i].modules
            &&& end.processes[i].connections == findings[i].connections
        }),
{
    lemma_list_is_walked(entries, findings);
    let all = list_answers(entries, findings);
    crate::ledger::lemma_run_push(WalkView::start(), all, WalkAnswer::Next(None));
    crate::ledger::lemma_run_push(
        WalkView::start(),
        all.push(WalkAnswer::Next(None)),
        WalkAnswer::Closed,
    );
    super::report::law_report_says_what_was_found(entries[i], findings[i]);
}

/// The process to find out about is always that of the entry at hand.
pub proof fn law_walk_inspects_the_entry_at_hand(answers: Seq<WalkAnswer>)
    ensures
        run(WalkView::start(), answers).stage matches WalkStage::Inspect { pid, .. } ==> pid == run(
            WalkView::start(),
            answers,
        ).entry.pid,
    decreases answers.len(),
{
    if answers.len() > 0 {
        law_walk_inspects_the_entry_at_hand(answers.drop_last());
    }
}

/// A walk without a snapshot of the processes gives up with nothing. One whose first
/// entry cannot be read closes the snapshot and goes on from an entry of zeros.
pub proof fn law_walk_without_a_start()
    ensures
        WalkView::start().after(WalkAnswer::SnapshotTaken(false)).stage is GiveUp,
        WalkView::start().after(WalkAnswer::SnapshotTaken(false)).processes.len() == 0,
        ({
            let failed = WalkView::start().after(WalkAnswer::SnapshotTaken(true)).after(
                WalkAnswer::First(None),
            );
            let on = failed.after(WalkAnswer::Closed);
            &&& failed.stage is CloseAfterFailure
            &&& on.stage == WalkStage::Inspect { pid: 0, closed_early: true }
            &&& on.entry.pid == 0 && on.entry.ppid == 0 && on.entry.thread_count == 0
            &&& on.entry.exe_file.len() == 0
            &&& on.processes.len() == 0
        }),
{
}

/// The view of a walk shows its stage, the entry at hand and every report.
pub proof fn law_walk_view_is_faithful(w: ProcessWalk)
    ensures
        w@.stage == w.stage,
        w@.entry == w.entry@,
        w@.processes.len() == w.processes@.len(),
        forall|i: int| 0 <= i < w.processes@.len() ==> #[trigger] w@.processes[i] == w.processes@[i]@,
{
}

} // verus!
