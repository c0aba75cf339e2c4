//! How much of the processors a process has used over its life.

use vstd::prelude::*;
use crate::ledger::{closed, opened, run, Dialogue};

verus! {

/// A number of intervals of 100 nanoseconds, in two halves.
#[derive(Clone, Copy, Debug, PartialEq, Eq, Structural)]
pub struct FileTime {
    pub low: u32,
    pub high: u32,
}

impl FileTime {
    /// The number of intervals.
    pub open spec fn ticks(self) -> int {
        self.high * 0x1_0000_0000 + self.low
    }
}

/// Puts the two halves together.
pub fn filetime_to_u64(ft: FileTime) -> (r: u64)
    ensures
        r == ft.ticks(),
{
    let high: u64 = ft.high as u64;
    let low: u64 = ft.low as u64;
    assert((high << 32) | (low & 0xFFFF_FFFF) == high * 0x1_0000_0000 + low) by (bit_vector)
        requires
            high <= 0xFFFF_FFFF,
            low <= 0xFFFF_FFFF,
    ;
    (high << 32) | (low & 0xFFFF_FFFF)
}

/// When a process started, and how long it has run in the kernel and outside it.
#[derive(Clone, Copy, Debug, PartialEq, Eq, Structural)]
pub struct ProcessTimes {
    pub creation: FileTime,
    pub kernel: FileTime,
    pub user: FileTime,
}

/// The share of the processors that a process has used.
#[derive(Clone, Copy, Debug, PartialEq, Eq, Structural)]
pub enum CpuUsage {
    /// No time has passed since the start of the process, which counts as no use.
    NoTime,
    /// `busy` ticks of processor time in `elapsed` ticks on so many processors.
    Average { busy: u64, elapsed: u64, processors: u32 },
}

impl CpuUsage {
    /// The share has a divisor.
    pub open spec fn well_formed(self) -> bool {
        self matches CpuUsage::Average { elapsed, processors, .. } ==> elapsed > 0 && processors
            > 0
    }
}

/// What to ask the system for next.
#[derive(Clone, Copy, Debug, PartialEq, Eq, Structural)]
pub enum CpuStage {
    OpenProcess,
    QueryTimes,
    ReadClock { creation: u64, kernel: u64, user: u64 },
    CountProcessors { elapsed: u64, kernel: u64, user: u64 },
    CloseProcess,
    Done,
}

/// The dialogue that finds the share, where it stands, and what it has found.
#[derive(Clone, Copy, Debug, PartialEq, Eq, Structural)]
pub struct CpuProbe {
    pub stage: CpuStage,
    pub usage: Option<CpuUsage>,
}

/// An answer of the system.
pub enum CpuAnswer {
    /// Whether the process was opened.
    Opened(bool),
    /// The times of the process, where the query succeeded.
    Times(Option<ProcessTimes>),
    /// The present time.
    Clock(FileTime),
    /// The number of processors.
    Processors(u32),
    /// The process was closed.
    Closed,
}

impl CpuProbe {
    /// The start of every dialogue.
    pub open spec fn start() -> Self {
        CpuProbe { stage: CpuStage::OpenProcess, usage: None }
    }

    /// A process that cannot be opened shows no share.
    pub open spec fn after_opened(self, ok: bool) -> Self {
        if self.stage is OpenProcess {
            CpuProbe {
                stage: if ok {
                    CpuStage::QueryTimes
                } else {
                    CpuStage::Done
                },
                ..self
            }
        } else {
            self
        }
    }

    /// Without the times there is no share.
    pub open spec fn after_times(self, times: Option<ProcessTimes>) -> Self {
        if self.stage is QueryTimes {
            CpuProbe {
                stage: match times {
                    Some(t) => CpuStage::ReadClock {
                        creation: t.creation.ticks() as u64,
                        kernel: t.kernel.ticks() as u64,
                        user: t.user.ticks() as u64,
                    },
                    None => CpuStage::CloseProcess,
                },
                ..self
            }
        } else {
            self
        }
    }

    /// A clock that does not stand past the start of the process leaves no time to
    /// divide by.
    pub open spec fn after_clock(self, now: FileTime) -> Self {
        match self.stage {
            CpuStage::ReadClock { creation, kernel, user } => if now.ticks() <= creation {
                CpuProbe { stage: CpuStage::CloseProcess, usage: Some(CpuUsage::NoTime) }
            } else {
                CpuProbe {
                    stage: CpuStage::CountProcessors {
                        elapsed: (now.ticks() - creation) as u64,
                        kernel,
                        user,
                    },
                    ..self
                }
            },
            _ => self,
        }
    }

    /// No processor counts as one.
    pub open spec fn after_processors(self, count: u32) -> Self {
        match self.stage {
            CpuStage::CountProcessors { elapsed, kernel, user } => CpuProbe {
                stage: CpuStage::CloseProcess,
                usage: Some(
                    CpuUsage::Average {
                        busy: (kernel + user) as u64,
                        elapsed,
                        processors: if count == 0 {
                            1
                        } else {
                            count
                        },
                    },
                ),
            },
            _ => self,
        }
    }

    /// Closing the process ends the dialogue.
    pub open spec fn after_closed(self) -> Self {
        if self.stage is CloseProcess {
            CpuProbe { stage: CpuStage::Done, ..self }
        } else {
            self
        }
    }

    /// Starts the dialogue.
    pub fn new() -> (r: Self)
        ensures
            r == Self::start(),
    {
        CpuProbe { stage: CpuStage::OpenProcess, usage: None }
    }

    /// Whether the process was opened.
    pub fn opened(self, ok: bool) -> (r: Self)
        ensures
            r == self.after_opened(ok),
    {
        match self.stage {
            CpuStage::OpenProcess => CpuProbe {
                stage: if ok {
                    CpuStage::QueryTimes
                } else {
                    CpuStage::Done
                },
                ..self
            },
            _ => self,
        }
    }

    /// The times of the process, where the query succeeded.
    pub fn times(self, times: Option<ProcessTimes>) -> (r: Self)
        ensures
            r == self.after_times(times),
    {
        match self.stage {
            CpuStage::QueryTimes => CpuProbe {
                stage: match times {
                    Some(t) => CpuStage::ReadClock {
                        creation: filetime_to_u64(t.creation),
                        kernel: filetime_to_u64(t.kernel),
                        user: filetime_to_u64(t.user),
                    },
                    None => CpuStage::CloseProcess,
                },
                ..self
            },
            _ => self,
        }
    }

    /// The present time.
    pub fn clock(self, now: FileTime) -> (r: Self)
        ensures
            r == self.after_clock(now),
    {
        match self.stage {
            CpuStage::ReadClock { creation, kernel, user } => {
                let now_ticks = filetime_to_u64(now);
                if now_ticks <= creation {
                    CpuProbe { stage: CpuStage::CloseProcess, usage: Some(CpuUsage::NoTime) }
                } else {
                    CpuProbe {
                        stage: CpuStage::CountProcessors {
                            elapsed: now_ticks - creation,
                            kernel,
                            user,
                        },
                        ..self
                    }
                }
            },
            _ => self,
        }
    }

    /// The number of processors.
    pub fn processors(self, count: u32) -> (r: Self)
        requires
            self.stage matches CpuStage::CountProcessors { kernel, user, .. } ==> kernel + user
                <= u64::MAX,
        ensures
            r == self.after_processors(count),
    {
        match self.stage {
            CpuStage::CountProcessors { elapsed, kernel, user } => CpuProbe {
                stage: CpuStage::CloseProcess,
                usage: Some(
                    CpuUsage::Average {
                        busy: kernel + user,
                        elapsed,
                        processors: if count == 0 {
                            1
                        } else {
                            count
                        },
                    },
                ),
            },
            _ => self,
        }
    }

    /// The process was closed.
    pub fn closed(self) -> (r: Self)
        ensures
            r == self.after_closed(),
    {
        match self.stage {
            CpuStage::CloseProcess => CpuProbe { stage: CpuStage::Done, ..self },
            _ => self,
        }
    }
}

impl Dialogue for CpuProbe {
    type Answer = CpuAnswer;

    open spec fn after(self, a: CpuAnswer) -> Self {
        match a {
            CpuAnswer::Opened(ok) => self.after_opened(ok),
            CpuAnswer::Times(times) => self.after_times(times),
            CpuAnswer::Clock(now) => self.after_clock(now),
            CpuAnswer::Processors(count) => self.after_processors(count),
            CpuAnswer::Closed => self.after_closed(),
        }
    }

    open spec fn opens(self, a: CpuAnswer) -> bool {
        self.stage is OpenProcess && a == CpuAnswer::Opened(true)
    }

    open spec fn closes(self, a: CpuAnswer) -> bool {
        self.stage is CloseProcess && a is Closed
    }

    open spec fn held(self) -> int {
        if self.stage is OpenProcess || self.stage is Done {
            0
        } else {
            1
        }
    }

    proof fn keeps_count(self, a: CpuAnswer) {
    }
}

/// However the system answers, a dialogue that has ended has closed the process if
/// it was opened, and closed nothing else.
pub proof fn law_cpu_closes_what_it_opens(answers: Seq<CpuAnswer>)
    ensures
        run(CpuProbe::start(), answers).stage is Done ==> opened(CpuProbe::start(), answers)
            == closed(CpuProbe::start(), answers),
{
    crate::ledger::law_ledger(CpuProbe::start(), answers);
}

/// However the system answers, a share never divides by zero.
pub proof fn law_cpu_usage_has_a_divisor(answers: Seq<CpuAnswer>)
    ensures
        run(CpuProbe::start(), answers).usage matches Some(usage) ==> usage.well_formed(),
        run(CpuProbe::start(), answers).stage matches CpuStage::CountProcessors { elapsed, .. }
            ==> elapsed > 0,
    decreases answers.len(),
{
    if answers.len() > 0 {
        law_cpu_usage_has_a_divisor(answers.drop_last());
    }
}

/// The answers of a system in which every step succeeds.
pub open spec fn cpu_answers(times: ProcessTimes, now: FileTime, count: u32) -> Seq<CpuAnswer> {
    seq![
        CpuAnswer::Opened(true),
        CpuAnswer::Times(Some(times)),
        CpuAnswer::Clock(now),
        CpuAnswer::Processors(count),
        CpuAnswer::Closed,
    ]
}

/// The share is the time in and outside the kernel over the time from the start of
/// the process to the present, on all processors. The upper half of a time counts
/// 2 to the power of 32 intervals.
pub proof fn law_cpu_usage_is_the_average_over_the_life(
    times: ProcessTimes,
    now: FileTime,
    count: u32,
)
    requires
        count > 0,
        now.high * 0x1_0000_0000 + now.low > times.creation.high * 0x1_0000_0000
            + times.creation.low,
        times.kernel.high * 0x1_0000_0000 + times.kernel.low + times.user.high * 0x1_0000_0000
            + times.user.low <= u64::MAX,
    ensures
        ({
            let end = run(CpuProbe::start(), cpu_answers(times, now, count));
            &&& end.stage is Done
            &&& end.usage matches Some(CpuUsage::Average { busy, elapsed, processors })
            &&& busy == times.kernel.high * 0x1_0000_0000 + times.kernel.low + times.user.high
                * 0x1_0000_0000 + times.user.low
            &&& elapsed == (now.high - times.creation.high) * 0x1_0000_0000 + now.low
                - times.creation.low
            &&& processors == count
        }),
{
    let all = cpu_answers(times, now, count);
    reveal_with_fuel(run, 6);
    assert(all.drop_last().last() == all[3]);
    assert(all.drop_last().drop_last().last() == all[2]);
    assert(all.drop_last().drop_last().drop_last().last() == all[1]);
    assert(all.drop_last().drop_last().drop_last().drop_last().last() == all[0]);
}

/// A machine that reports no processor has one.
pub proof fn law_no_processor_counts_as_one(p: CpuProbe)
    ensures
        p.after(CpuAnswer::Processors(0)) == p.after(CpuAnswer::Processors(1)),
{
}

/// Where no time has passed since the start of the process, that is what is found,
/// and the processors are not counted.
pub proof fn law_no_time_is_no_use(times: ProcessTimes, now: FileTime)
    requires
        now.high * 0x1_0000_0000 + now.low <= times.creation.high * 0x1_0000_0000
            + times.creation.low,
    ensures
        ({
            let end = run(
                CpuProbe::start(),
                seq![
                    CpuAnswer::Opened(true),
                    CpuAnswer::Times(Some(times)),
                    CpuAnswer::Clock(now),
                ],
            );
            end.stage is CloseProcess && end.usage == Some(CpuUsage::NoTime)
        }),
{
    let all = seq![
        CpuAnswer::Opened(true),
        CpuAnswer::Times(Some(times)),
        CpuAnswer::Clock(now),
    ];
    reveal_with_fuel(run, 4);
    assert(all.drop_last().last() == all[1]);
    assert(all.drop_last().drop_last().last() == all[0]);
}

/// Without the process there is nothing to close and no share; without its times
/// there is no share, and the process is closed.
pub proof fn law_cpu_needs_process_and_times()
    ensures
        CpuProbe::start().after(CpuAnswer::Opened(false)) == (CpuProbe {
            stage: CpuStage::Done,
            usage: None,
        }),
        CpuProbe::start().after(CpuAnswer::Opened(true)).after(CpuAnswer::Times(None)) == (
        CpuProbe { stage: CpuStage::CloseProcess, usage: None }),
{
}

} // verus!
