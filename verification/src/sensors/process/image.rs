//! Where the image of a process lies on disk, and which modules it has loaded.

use vstd::prelude::*;
use crate::ledger::{closed, opened, run, Dialogue};
use crate::text::{text_view, texts_view};
use crate::utf16::{decode_utf16, utf16_encode, utf16_lossy};

verus! {

/// The path in a buffer of which the system has filled the first `len` units: none
/// where it has filled nothing.
pub open spec fn path_in(buffer: Seq<u16>, len: int) -> Option<Seq<char>> {
    if len == 0 {
        None
    } else {
        Some(utf16_lossy(buffer.take(len)))
    }
}

/// Reads the path in a buffer of which the system has filled the first `len` units.
pub fn filled_path(buffer: &[u16], len: usize) -> (r: Option<String>)
    requires
        len <= buffer@.len(),
    ensures
        text_view(r) == path_in(buffer@, len as int),
{
    if len == 0 {
        None
    } else {
        Some(decode_utf16(buffer, len))
    }
}

/// What to ask the system for next.
#[derive(Clone, Copy, Debug, PartialEq, Eq, Structural)]
pub enum PathStage {
    OpenProcess,
    ReadPath,
    CloseProcess,
    Done,
}

/// The dialogue that finds the path of an image.
pub struct PathProbe {
    pub stage: PathStage,
    pub path: Option<String>,
}

/// Where the dialogue stands, and what it has found.
pub struct PathView {
    pub stage: PathStage,
    pub path: Option<Seq<char>>,
}

impl View for PathProbe {
    type V = PathView;

    open spec fn view(&self) -> PathView {
        PathView { stage: self.stage, path: text_view(self.path) }
    }
}

/// An answer of the system.
pub enum PathAnswer {
    /// Whether the process was opened.
    Opened(bool),
    /// The buffer for the path and how many of its units were filled.
    Path(Seq<u16>, int),
    /// The process was closed.
    Closed,
}

impl PathView {
    /// The start of every dialogue.
    pub open spec fn start() -> Self {
        PathView { stage: PathStage::OpenProcess, path: None }
    }

    /// A process that cannot be opened has no path.
    pub open spec fn after_opened(self, ok: bool) -> Self {
        if self.stage is OpenProcess {
            PathView {
                stage: if ok {
                    PathStage::ReadPath
                } else {
                    PathStage::Done
                },
                ..self
            }
        } else {
            self
        }
    }

    /// The path is what stands in the buffer.
    pub open spec fn after_path(self, buffer: Seq<u16>, len: int) -> Self {
        if self.stage is ReadPath {
            PathView { stage: PathStage::CloseProcess, path: path_in(buffer, len) }
        } else {
            self
        }
    }

    /// Closing the process ends the dialogue.
    pub open spec fn after_closed(self) -> Self {
        if self.stage is CloseProcess {
            PathView { stage: PathStage::Done, ..self }
        } else {
            self
        }
    }
}

impl PathProbe {
    /// Starts the dialogue.
    pub fn new() -> (r: Self)
        ensures
            r@ == PathView::start(),
    {
        PathProbe { stage: PathStage::OpenProcess, path: None }
    }

    /// Whether the process was opened.
    pub fn opened(self, ok: bool) -> (r: Self)
        ensures
            r@ == self@.after_opened(ok),
    {
        match self.stage {
            PathStage::OpenProcess => PathProbe {
                stage: if ok {
                    PathStage::ReadPath
                } else {
                    PathStage::Done
                },
                ..self
            },
            _ => self,
        }
    }

    /// The buffer for the path and how many of its units were filled.
    pub fn path_read(self, buffer: &[u16], len: usize) -> (r: Self)
        requires
            len <= buffer@.len(),
        ensures
            r@ == self@.after_path(buffer@, len as int),
    {
        match self.stage {
            PathStage::ReadPath => PathProbe {
                stage: PathStage::CloseProcess,
                path: filled_path(buffer, len),
            },
            _ => self,
        }
    }

    /// The process was closed.
    pub fn closed(self) -> (r: Self)
        ensures
            r@ == self@.after_closed(),
    {
        match self.stage {
            PathStage::CloseProcess => PathProbe { stage: PathStage::Done, ..self },
            _ => self,
        }
    }
}

impl Dialogue for PathView {
    type Answer = PathAnswer;

    open spec fn after(self, a: PathAnswer) -> Self {
        match a {
            PathAnswer::Opened(ok) => self.after_opened(ok),
            PathAnswer::Path(buffer, len) => self.after_path(buffer, len),
            PathAnswer::Closed => self.after_closed(),
        }
    }

    open spec fn opens(self, a: PathAnswer) -> bool {
        self.stage is OpenProcess && a == PathAnswer::Opened(true)
    }

    open spec fn closes(self, a: PathAnswer) -> bool {
        self.stage is CloseProcess && a is Closed
    }

    open spec fn held(self) -> int {
        if self.stage is OpenProcess || self.stage is Done {
            0
        } else {
            1
        }
    }

    proof fn keeps_count(self, a: PathAnswer) {
    }
}

/// However the system answers, a dialogue that has ended has closed the process if
/// it was opened, and closed nothing else.
pub proof fn law_path_closes_what_it_opens(answers: Seq<PathAnswer>)
    ensures
        run(PathView::start(), answers).stage is Done ==> opened(PathView::start(), answers)
            == closed(PathView::start(), answers),
{
    crate::ledger::law_ledger(PathView::start(), answers);
}

/// How many module handles fit the buffer for them.
pub const MODULE_SLOTS: usize = 1024;

/// How many modules the system has put in the buffer, given the number of bytes
/// that all module handles would take and the size of one.
pub open spec fn module_count(needed_bytes: int, handle_size: int) -> int {
    let n = needed_bytes / handle_size;
    if n > MODULE_SLOTS {
        MODULE_SLOTS as int
    } else {
        n
    }
}

/// What to ask the system for next.
#[derive(Clone, Copy, Debug, PartialEq, Eq, Structural)]
pub enum ModulesStage {
    OpenProcess,
    ListModules,
    /// Read the path of the module in the slot `index`, of `count` slots in use.
    ReadPath { index: usize, count: usize },
    CloseProcess,
    Done,
}

/// The dialogue that finds the modules of a process.
pub struct ModulesProbe {
    pub stage: ModulesStage,
    pub modules: Vec<String>,
}

/// Where the dialogue stands, and what it has found.
pub struct ModulesView {
    pub stage: ModulesStage,
    pub modules: Seq<Seq<char>>,
}

impl View for ModulesProbe {
    type V = ModulesView;

    open spec fn view(&self) -> ModulesView {
        ModulesView { stage: self.stage, modules: texts_view(self.modules@) }
    }
}

/// An answer of the system.
pub enum ModulesAnswer {
    /// Whether the process was opened.
    Opened(bool),
    /// Whether the modules were listed, how many bytes all handles would take, and
    /// the size of one.
    Listed(bool, u32, int),
    /// The buffer for the path of a module and how many of its units were filled.
    Path(Seq<u16>, int),
    /// The process was closed.
    Closed,
}

impl ModulesView {
    /// The start of every dialogue.
    pub open spec fn start() -> Self {
        ModulesView { stage: ModulesStage::OpenProcess, modules: Seq::empty() }
    }

    /// The slot to read next, or the end of the list.
    pub open spec fn slot(index: int, count: int) -> ModulesStage {
        if index < count {
            ModulesStage::ReadPath { index: index as usize, count: count as usize }
        } else {
            ModulesStage::CloseProcess
        }
    }

    /// A process that cannot be opened shows no modules.
    pub open spec fn after_opened(self, ok: bool) -> Self {
        if self.stage is OpenProcess {
            ModulesView {
                stage: if ok {
                    ModulesStage::ListModules
                } else {
                    ModulesStage::Done
                },
                ..self
            }
        } else {
            self
        }
    }

    /// Every slot in use is read, from the first on.
    pub open spec fn after_listed(self, ok: bool, needed_bytes: u32, handle_size: int) -> Self {
        if self.stage is ListModules {
            ModulesView {
                stage: if ok {
                    Self::slot(0, module_count(needed_bytes as int, handle_size))
                } else {
                    ModulesStage::CloseProcess
                },
                ..self
            }
        } else {
            self
        }
    }

    /// A module without a path is passed over.
    pub open spec fn after_path(self, buffer: Seq<u16>, len: int) -> Self {
        match self.stage {
            ModulesStage::ReadPath { index, count } => ModulesView {
                stage: Self::slot(index + 1, count as int),
                modules: match path_in(buffer, len) {
                    Some(path) => self.modules.push(path),
                    None => self.modules,
                },
            },
            _ => self,
        }
    }

    /// Closing the process ends the dialogue.
    pub open spec fn after_closed(self) -> Self {
        if self.stage is CloseProcess {
            ModulesView { stage: ModulesStage::Done, ..self }
        } else {
            self
        }
    }
}

impl ModulesProbe {
    /// Starts the dialogue.
    pub fn new() -> (r: Self)
        ensures
            r@ == ModulesView::start(),
    {
        let modules: Vec<String> = Vec::new();
        assert(texts_view(modules@) =~= Seq::empty());
        ModulesProbe { stage: ModulesStage::OpenProcess, modules }
    }

    /// Whether the process was opened.
    pub fn opened(self, ok: bool) -> (r: Self)
        ensures
            r@ == self@.after_opened(ok),
    {
        match self.stage {
            ModulesStage::OpenProcess => ModulesProbe {
                stage: if ok {
                    ModulesStage::ListModules
                } else {
                    ModulesStage::Done
                },
                ..self
            },
            _ => self,
        }
    }

    /// Whether the modules were listed, how many bytes all handles would take, and the
    /// size of one.
    pub fn listed(self, ok: bool, needed_bytes: u32, handle_size: u32) -> (r: Self)
        requires
            handle_size > 0,
        ensures
            r@ == self@.after_listed(ok, needed_bytes, handle_size as int),
    {
        match self.stage {
            ModulesStage::ListModules => {
                let mut stage = ModulesStage::CloseProcess;
                if ok {
                    let mut count: usize = (needed_bytes / handle_size) as usize;
                    if count > MODULE_SLOTS {
                        count = MODULE_SLOTS;
                    }
                    if count > 0 {
                        stage = ModulesStage::ReadPath { index: 0, count };
                    }
                }
                ModulesProbe { stage, ..self }
            },
            _ => self,
        }
    }

    /// The buffer for the path of a module and how many of its units were filled.
    pub fn path_read(self, buffer: &[u16], len: usize) -> (r: Self)
        requires
            len <= buffer@.len(),
        ensures
            r@ == self@.after_path(buffer@, len as int),
    {
        match self.stage {
            ModulesStage::ReadPath { index, count } => {
                let mut modules = self.modules;
                let ghost before = modules@;
                if let Some(path) = filled_path(buffer, len) {
                    modules.push(path);
                    assert(texts_view(modules@) =~= texts_view(before).push(path@));
                }
                let stage = if index < count && index + 1 < count {
                    ModulesStage::ReadPath { index: index + 1, count }
                } else {
                    ModulesStage::CloseProcess
                };
                ModulesProbe { stage, modules }
            },
            _ => self,
        }
    }

    /// The process was closed.
    pub fn closed(self) -> (r: Self)
        ensures
            r@ == self@.after_closed(),
    {
        match self.stage {
            ModulesStage::CloseProcess => ModulesProbe { stage: ModulesStage::Done, ..self },
            _ => self,
        }
    }
}

impl Dialogue for ModulesView {
    type Answer = ModulesAnswer;

    open spec fn after(self, a: ModulesAnswer) -> Self {
        match a {
            ModulesAnswer::Opened(ok) => self.after_opened(ok),
            ModulesAnswer::Listed(ok, needed_bytes, handle_size) => self.after_listed(
                ok,
                needed_bytes,
                handle_size,
            ),
            ModulesAnswer::Path(buffer, len) => self.after_path(buffer, len),
            ModulesAnswer::Closed => self.after_closed(),
        }
    }

    open spec fn opens(self, a: ModulesAnswer) -> bool {
        self.stage is OpenProcess && a == ModulesAnswer::Opened(true)
    }

    open spec fn closes(self, a: ModulesAnswer) -> bool {
        self.stage is CloseProcess && a is Closed
    }

    open spec fn held(self) -> int {
        if self.stage is OpenProcess || self.stage is Done {
            0
        } else {
            1
        }
    }

    proof fn keeps_count(self, a: ModulesAnswer) {
    }
}

/// However the system answers, a dialogue that has ended has closed the process if
/// it was opened, and closed nothing else.
pub proof fn law_modules_closes_what_it_opens(answers: Seq<ModulesAnswer>)
    ensures
        run(ModulesView::start(), answers).stage is Done ==> opened(
            ModulesView::start(),
            answers,
        ) == closed(ModulesView::start(), answers),
{
    crate::ledger::law_ledger(ModulesView::start(), answers);
}

/// However the system answers, no slot beyond the buffer is asked for, and no more
/// modules are found than slots were read.
pub proof fn law_modules_stay_in_the_buffer(answers: Seq<ModulesAnswer>)
    requires
        forall|i: int|
            0 <= i < answers.len() ==> (#[trigger] answers[i] matches ModulesAnswer::Listed(
                _,
                _,
                size,
            ) ==> size > 0),
    ensures
        run(ModulesView::start(), answers).modules.len() <= MODULE_SLOTS,
        run(ModulesView::start(), answers).stage matches ModulesStage::ReadPath { index, count }
            ==> index < count <= MODULE_SLOTS && run(
            ModulesView::start(),
            answers,
        ).modules.len() <= index,
        (run(ModulesView::start(), answers).stage is OpenProcess || run(
            ModulesView::start(),
            answers,
        ).stage is ListModules) ==> run(ModulesView::start(), answers).modules.len() == 0,
    decreases answers.len(),
{
    if answers.len() > 0 {
        let init = answers.drop_last();
        assert forall|i: int| 0 <= i < init.len() implies (
        #[trigger] init[i] matches ModulesAnswer::Listed(_, _, size) ==> size > 0) by {
            assert(init[i] == answers[i]);
        }
        law_modules_stay_in_the_buffer(init);
        assert(answers.last() == answers[answers.len() - 1]);
        if let ModulesAnswer::Listed(ok, needed, size) = answers.last() {
            assert(0 <= needed as int / size) by (nonlinear_arith)
                requires
                    size > 0,
            ;
        }
    }
}

/// The paths in buffers, in order, without the buffers that hold none.
pub open spec fn paths_in(reads: Seq<(Seq<u16>, int)>) -> Seq<Seq<char>>
    decreases reads.len(),
{
    if reads.len() == 0 {
        seq![]
    } else {
        match path_in(reads.last().0, reads.last().1) {
            Some(path) => paths_in(reads.drop_last()).push(path),
            None => paths_in(reads.drop_last()),
        }
    }
}

/// The answers up to the paths: the process opened, and so many bytes of handles
/// listed.
pub open spec fn listing(needed_bytes: u32, handle_size: int) -> Seq<ModulesAnswer> {
    seq![ModulesAnswer::Opened(true), ModulesAnswer::Listed(true, needed_bytes, handle_size)]
}

/// The answers that bring paths.
pub open spec fn path_answers(reads: Seq<(Seq<u16>, int)>) -> Seq<ModulesAnswer> {
    reads.map_values(|r: (Seq<u16>, int)| ModulesAnswer::Path(r.0, r.1))
}

/// Reading slot after slot collects the paths in slot order, until every slot in use
/// has been read.
pub proof fn law_modules_are_collected_in_order(
    needed_bytes: u32,
    handle_size: int,
    reads: Seq<(Seq<u16>, int)>,
)
    requires
        handle_size > 0,
        reads.len() <= module_count(needed_bytes as int, handle_size),
    ensures
        ({
            let end = run(
                ModulesView::start(),
                listing(needed_bytes, handle_size) + path_answers(reads),
            );
            let count = module_count(needed_bytes as int, handle_size);
            end.modules == paths_in(reads) && end.stage == ModulesView::slot(
                reads.len() as int,
                count,
            )
        }),
    decreases reads.len(),
{
    let head = listing(needed_bytes, handle_size);
    let all = head + path_answers(reads);
    if reads.len() == 0 {
        assert(all =~= head);
        reveal_with_fuel(run, 3);
        assert(head.drop_last().last() == head[0]);
    } else {
        law_modules_are_collected_in_order(needed_bytes, handle_size, reads.drop_last());
        assert(all.drop_last() =~= head + path_answers(reads.drop_last()));
        assert(all.last() == ModulesAnswer::Path(reads.last().0, reads.last().1));
    }
}

/// A path that the system writes into a buffer is read as it is, whatever stands
/// behind it. A buffer of which nothing was filled holds none.
pub proof fn law_path_reads_back(path: Seq<char>, garbage: Seq<u16>)
    ensures
        path.len() > 0 ==> path_in(
            utf16_encode(path) + garbage,
            utf16_encode(path).len() as int,
        ) == Some(path),
        path_in(garbage, 0) is None,
{
    let e = utf16_encode(path);
    crate::utf16::law_utf16_round_trip(path);
    if e.len() == 0 {
        assert(e =~= Seq::<u16>::empty());
        assert(utf16_lossy(e).len() == 0);
    }
    assert((e + garbage).take(e.len() as int) =~= e);
}

/// A process whose path the system writes is found to have that path, and is closed.
pub proof fn law_path_is_found(path: Seq<char>, garbage: Seq<u16>)
    requires
        path.len() > 0,
    ensures
        ({
            let end = run(
                PathView::start(),
                seq![
                    PathAnswer::Opened(true),
                    PathAnswer::Path(
                        utf16_encode(path) + garbage,
                        utf16_encode(path).len() as int,
                    ),
                    PathAnswer::Closed,
                ],
            );
            end.stage is Done && end.path == Some(path)
        }),
{
    law_path_reads_back(path, garbage);
    let all = seq![
        PathAnswer::Opened(true),
        PathAnswer::Path(utf16_encode(path) + garbage, utf16_encode(path).len() as int),
        PathAnswer::Closed,
    ];
    reveal_with_fuel(run, 4);
    assert(all.drop_last().last() == all[1]);
    assert(all.drop_last().drop_last().last() == all[0]);
}

/// A process that cannot be opened, and one for which the system writes nothing, have
/// no path. Only the latter is there to be closed.
pub proof fn law_path_gives_up(buffer: Seq<u16>)
    ensures
        PathView::start().after(PathAnswer::Opened(false)) == (PathView {
            stage: PathStage::Done,
            path: None,
        }),
        PathView::start().after(PathAnswer::Opened(true)).after(PathAnswer::Path(buffer, 0)) == (
        PathView { stage: PathStage::CloseProcess, path: None }),
{
}

/// As many slots are read as whole handles fit the bytes, and never more than 1024.
pub proof fn law_modules_are_counted_in_whole_handles(needed_bytes: int, handle_size: int)
    requires
        needed_bytes >= 0,
        handle_size > 0,
    ensures
        0 <= module_count(needed_bytes, handle_size) <= 1024,
        module_count(needed_bytes, handle_size) * handle_size <= needed_bytes,
        module_count(needed_bytes, handle_size) < 1024 ==> needed_bytes < (module_count(
            needed_bytes,
            handle_size,
        ) + 1) * handle_size,
{
    let n = needed_bytes / handle_size;
    assert(0 <= n && n * handle_size <= needed_bytes && needed_bytes < (n + 1) * handle_size)
        by (nonlinear_arith)
        requires
            needed_bytes >= 0,
            handle_size > 0,
            n == needed_bytes / handle_size,
    ;
    if n > 1024 {
        assert(1024 * handle_size <= n * handle_size) by (nonlinear_arith)
            requires
                n > 1024,
                handle_size > 0,
        ;
    }
}

/// The buffers in which the system has written paths, each with the number of units
/// that it has filled.
pub open spec fn written(paths: Seq<Seq<char>>, garbage: Seq<u16>) -> Seq<(Seq<u16>, int)> {
    paths.map_values(
        |p: Seq<char>| (utf16_encode(p) + garbage, utf16_encode(p).len() as int),
    )
}

/// The modules that are found are those whose paths the system writes, in the order
/// of their slots. A module without a path is left out, and the others stay.
pub proof fn law_modules_read_back(paths: Seq<Seq<char>>, garbage: Seq<u16>)
    ensures
        paths_in(written(paths, garbage)) == paths.filter(|p: Seq<char>| p.len() > 0),
    decreases paths.len(),
{
    reveal(Seq::filter);
    let keep = |p: Seq<char>| p.len() > 0;
    if paths.len() > 0 {
        let init = paths.drop_last();
        let last = paths.last();
        law_modules_read_back(init, garbage);
        assert(written(paths, garbage).drop_last() =~= written(init, garbage));
        assert(written(paths, garbage).last() == (
            utf16_encode(last) + garbage,
            utf16_encode(last).len() as int,
        ));
        law_path_reads_back(last, garbage);
        if last.len() == 0 {
            assert(utf16_encode(last).len() == 0);
        }
    } else {
        assert(written(paths, garbage) =~= Seq::empty());
    }
}

/// A process whose list of modules the system writes out is found to have all of them,
/// in order, and is closed.
pub proof fn law_all_modules_are_found(
    needed_bytes: u32,
    handle_size: int,
    paths: Seq<Seq<char>>,
    garbage: Seq<u16>,
)
    requires
        handle_size > 0,
        paths.len() == module_count(needed_bytes as int, handle_size),
        forall|i: int| 0 <= i < paths.len() ==> (#[trigger] paths[i]).len() > 0,
    ensures
        ({
            let end = run(
                ModulesView::start(),
                listing(needed_bytes, handle_size) + path_answers(written(paths, garbage)),
            );
            end.stage is CloseProcess && end.modules == paths
        }),
{
    law_modules_are_collected_in_order(needed_bytes, handle_size, written(paths, garbage));
    law_modules_read_back(paths, garbage);
    lemma_all_pass(paths);
}

proof fn lemma_all_pass(paths: Seq<Seq<char>>)
    requires
        forall|i: int| 0 <= i < paths.len() ==> (#[trigger] paths[i]).len() > 0,
    ensures
        paths.filter(|p: Seq<char>| p.len() > 0) == paths,
    decreases paths.len(),
{
    reveal(Seq::filter);
    if paths.len() > 0 {
        let init = paths.drop_last();
        assert forall|i: int| 0 <= i < init.len() implies (#[trigger] init[i]).len() > 0 by {
            assert(init[i] == paths[i]);
        }
        lemma_all_pass(init);
        assert(paths.last() == paths[paths.len() - 1]);
        assert(init.push(paths.last()) =~= paths);
    } else {
        assert(paths =~= Seq::empty());
    }
}

/// Without the process, its list, or a whole handle in it there are no modules.
pub proof fn law_modules_give_up(needed_bytes: u32, handle_size: int)
    requires
        handle_size > 0,
    ensures
        ModulesView::start().after(ModulesAnswer::Opened(false)) == (ModulesView {
            stage: ModulesStage::Done,
            modules: Seq::empty(),
        }),
        ModulesView::start().after(ModulesAnswer::Opened(true)).after(
            ModulesAnswer::Listed(false, needed_bytes, handle_size),
        ) == (ModulesView { stage: ModulesStage::CloseProcess, modules: Seq::empty() }),
        needed_bytes < handle_size ==> ModulesView::start().after(
            ModulesAnswer::Opened(true),
        ).after(ModulesAnswer::Listed(true, needed_bytes, handle_size)) == (ModulesView {
            stage: ModulesStage::CloseProcess,
            modules: Seq::empty(),
        }),
{
    if needed_bytes < handle_size {
        assert(needed_bytes as int / handle_size == 0) by (nonlinear_arith)
            requires
                0 <= needed_bytes < handle_size,
        ;
    }
}

/// The views of the dialogues show their stages, the path and the modules.
pub proof fn law_image_views_are_faithful(p: PathProbe, m: ModulesProbe)
    ensures
        p@.stage == p.stage,
        p.path matches Some(path) ==> p@.path == Some(path@),
        p.path is None ==> p@.path is None,
        m@.stage == m.stage,
        m@.modules.len() == m.modules@.len(),
        forall|i: int| 0 <= i < m.modules@.len() ==> #[trigger] m@.modules[i] == m.modules@[i]@,
{
}

} // verus!
