//! What a host does on its own: one scan, or rounds of them for the collector.

use vstd::prelude::*;
use crate::host::report_name;
use crate::ledger::{closed, law_ledger, opened, run, Dialogue};
use crate::orchestrator::filing::{reply_status, FilingReply};
use crate::orchestrator::server::snapshot_path;
use crate::sensors::SensorConfig;
use crate::status::{is_success, is_success_status};
use crate::text::{
    law_trimmed_end, law_trimmed_end_ignores_one_more, trim_end_char, trimmed_end,
};

verus! {

/// Which sensors to run.
#[derive(Clone, Copy, Debug, PartialEq, Eq, Structural)]
pub enum Stage {
    Processes,
    Net,
    File,
    All,
}

/// The sensors of a scan.
#[derive(Clone, Copy, Debug, PartialEq, Eq, Structural)]
pub struct ScanPlan {
    pub processes: bool,
    pub net: bool,
    pub file: bool,
}

/// The sensors of a scan.
pub open spec fn sensors_of(stage: Stage) -> ScanPlan {
    ScanPlan {
        processes: stage is Processes || stage is All,
        net: stage is Net || stage is All,
        file: stage is File || stage is All,
    }
}

/// Picks the sensors of a scan.
pub fn scan_plan(stage: Stage) -> (r: ScanPlan)
    ensures
        r == sensors_of(stage),
        r.processes <==> stage is Processes || stage is All,
        r.net <==> stage is Net || stage is All,
        r.file <==> stage is File || stage is All,
{
    ScanPlan {
        processes: matches!(stage, Stage::Processes | Stage::All),
        net: matches!(stage, Stage::Net | Stage::All),
        file: matches!(stage, Stage::File | Stage::All),
    }
}

/// How an agent works on a stage. Until other stages are there, each of them comes
/// down to rounds of the process sensor.
#[derive(Clone, Copy, Debug, PartialEq, Eq, Structural)]
pub enum AgentMode {
    /// Run the rounds of the process sensor, and nothing besides.
    Alone,
    /// Run the rounds of the process sensor as one task among others.
    AmongOthers,
    /// Say that the stage is not there yet, and run the rounds of the process sensor.
    ProcessesOnly,
}

/// How an agent is set up.
#[derive(Debug)]
pub struct AgentSetup {
    /// The name to report under.
    pub host: String,
    /// The address of the collector, with no slash at its end.
    pub base: String,
    pub cfg: SensorConfig,
    pub mode: AgentMode,
}

/// How an agent works on a stage.
pub open spec fn agent_mode(stage: Stage) -> AgentMode {
    match stage {
        Stage::Processes => AgentMode::Alone,
        Stage::Net => AgentMode::ProcessesOnly,
        Stage::File => AgentMode::ProcessesOnly,
        Stage::All => AgentMode::AmongOthers,
    }
}

/// Sets an agent up. It senses for as long as it waits between two rounds.
pub fn agent_setup(
    server_url: &str,
    interval_secs: u64,
    stage: Stage,
    host_id: Option<String>,
) -> (r: AgentSetup)
    ensures
        r.base@ == trimmed_end(server_url@, '/'),
        r.cfg.duration_secs == interval_secs,
        r.mode == agent_mode(stage),
        host_id matches Some(name) ==> r.host@ == name@,
        host_id is None ==> forall|i: int|
            0 <= i < r.host@.len() ==> !('A' <= #[trigger] r.host@[i] <= 'Z'),
{
    AgentSetup {
        host: report_name(host_id),
        base: trim_end_char(server_url, '/'),
        cfg: SensorConfig { duration_secs: interval_secs },
        mode: match stage {
            Stage::Processes => AgentMode::Alone,
            Stage::Net => AgentMode::ProcessesOnly,
            Stage::File => AgentMode::ProcessesOnly,
            Stage::All => AgentMode::AmongOthers,
        },
    }
}

/// Where to send a snapshot of the processes.
pub fn process_url(base: &str) -> (r: String)
    ensures
        r@ == base@ + snapshot_path("processes"@),
{
    proof {
        reveal_strlit("/v1/snapshot/processes");
        reveal_strlit("/v1/snapshot/");
        reveal_strlit("processes");
        assert("/v1/snapshot/processes"@ =~= "/v1/snapshot/"@ + "processes"@);
    }
    base.to_owned().concat("/v1/snapshot/processes")
}

/// However many slashes end the address of the collector, snapshots go to the same
/// place, and exactly one slash stands between the address and the path.
pub proof fn law_one_slash_before_the_path(server_url: Seq<char>)
    ensures
        trimmed_end(server_url.push('/'), '/') == trimmed_end(server_url, '/'),
        trimmed_end(server_url, '/').len() == 0 || trimmed_end(server_url, '/').last() != '/',
        snapshot_path("processes"@)[0] == '/',
        snapshot_path("processes"@)[1] != '/',
{
    law_trimmed_end_ignores_one_more(server_url, '/');
    law_trimmed_end(server_url, '/');
    reveal_strlit("/v1/snapshot/");
}

/// What came of sending a snapshot.
#[derive(Clone, Copy, Debug, PartialEq, Eq, Structural)]
pub enum PostReport {
    Accepted,
    Refused,
    Unreachable,
}

/// What came of sending a snapshot, given the status of the answer.
pub open spec fn post_result(status: Option<u16>) -> PostReport {
    match status {
        None => PostReport::Unreachable,
        Some(s) => if is_success(s) {
            PostReport::Accepted
        } else {
            PostReport::Refused
        },
    }
}

/// Reads the status of the answer to a snapshot, if there is one.
pub fn post_report(status: Option<u16>) -> (r: PostReport)
    ensures
        r == post_result(status),
        r == match status {
            None => PostReport::Unreachable,
            Some(s) => if is_success(s) {
                PostReport::Accepted
            } else {
                PostReport::Refused
            },
        },
{
    match status {
        None => PostReport::Unreachable,
        Some(s) => if is_success_status(s) {
            PostReport::Accepted
        } else {
            PostReport::Refused
        },
    }
}

/// What an agent does next. There is no end to it.
#[derive(Clone, Copy, Debug, PartialEq, Eq, Structural)]
pub enum RoundStage {
    BuildSnapshot,
    PostSnapshot,
    Sleep,
}

/// What an agent is told.
pub enum RoundAnswer {
    /// Whether there is a snapshot now.
    Built(bool),
    /// The snapshot was sent, or could not be.
    Posted,
    /// The pause is over.
    Slept,
}

/// A round begins with the snapshot and ends with the pause.
impl Dialogue for RoundStage {
    type Answer = RoundAnswer;

    open spec fn after(self, a: RoundAnswer) -> Self {
        match (self, a) {
            (RoundStage::BuildSnapshot, RoundAnswer::Built(true)) => RoundStage::PostSnapshot,
            (RoundStage::BuildSnapshot, RoundAnswer::Built(false)) => RoundStage::Sleep,
            (RoundStage::PostSnapshot, RoundAnswer::Posted) => RoundStage::Sleep,
            (RoundStage::Sleep, RoundAnswer::Slept) => RoundStage::BuildSnapshot,
            _ => self,
        }
    }

    open spec fn opens(self, a: RoundAnswer) -> bool {
        self is BuildSnapshot && a is Built
    }

    open spec fn closes(self, a: RoundAnswer) -> bool {
        self is Sleep && a is Slept
    }

    open spec fn held(self) -> int {
        if self is BuildSnapshot {
            0
        } else {
            1
        }
    }

    proof fn keeps_count(self, a: RoundAnswer) {
    }
}

impl RoundStage {
    /// The start of an agent.
    pub fn new() -> (r: Self)
        ensures
            r is BuildSnapshot,
    {
        RoundStage::BuildSnapshot
    }

    /// Whether there is a snapshot now. Without one there is nothing to send in this
    /// round.
    pub fn built(self, ok: bool) -> (r: Self)
        ensures
            r == self.after(RoundAnswer::Built(ok)),
    {
        match self {
            RoundStage::BuildSnapshot => if ok {
                RoundStage::PostSnapshot
            } else {
                RoundStage::Sleep
            },
            _ => self,
        }
    }

    /// The snapshot was sent, or could not be: either way the round is over.
    pub fn posted(self) -> (r: Self)
        ensures
            r == self.after(RoundAnswer::Posted),
    {
        match self {
            RoundStage::PostSnapshot => RoundStage::Sleep,
            _ => self,
        }
    }

    /// The pause is over.
    pub fn slept(self) -> (r: Self)
        ensures
            r == self.after(RoundAnswer::Slept),
    {
        match self {
            RoundStage::Sleep => RoundStage::BuildSnapshot,
            _ => self,
        }
    }
}

/// Whatever happens, an agent pauses once in each round: at any time it has begun
/// as many rounds as it has paused, or one more while a round lasts.
pub proof fn law_agent_pauses_in_each_round(answers: Seq<RoundAnswer>)
    ensures
        opened(RoundStage::BuildSnapshot, answers) == closed(RoundStage::BuildSnapshot, answers)
            + run(RoundStage::BuildSnapshot, answers).held(),
        0 <= run(RoundStage::BuildSnapshot, answers).held() <= 1,
{
    law_ledger(RoundStage::BuildSnapshot, answers);
}

/// A round comes back to its start after the pause, whether or not there was a
/// snapshot: an agent never stops.
pub proof fn law_rounds_go_on(ok: bool)
    ensures
        ok ==> RoundStage::BuildSnapshot.after(RoundAnswer::Built(ok)).after(
            RoundAnswer::Posted,
        ).after(RoundAnswer::Slept) == RoundStage::BuildSnapshot,
        !ok ==> RoundStage::BuildSnapshot.after(RoundAnswer::Built(ok)).after(
            RoundAnswer::Slept,
        ) == RoundStage::BuildSnapshot,
{
}

/// Each stage comes down to rounds of the process sensor: alone for processes, as one
/// task for all stages, and with a notice for the stages that are not there yet.
pub proof fn law_stages_run_the_process_sensor()
    ensures
        agent_mode(Stage::Processes) is Alone,
        agent_mode(Stage::All) is AmongOthers,
        agent_mode(Stage::Net) is ProcessesOnly,
        agent_mode(Stage::File) is ProcessesOnly,
{
}

/// A round builds a snapshot, posts it where there is one, and pauses. Anything else
/// that the agent is told changes nothing.
pub proof fn law_rounds_go_step_by_step(s: RoundStage, ok: bool)
    ensures
        s is BuildSnapshot ==> s.after(RoundAnswer::Built(true)) is PostSnapshot && s.after(
            RoundAnswer::Built(false),
        ) is Sleep,
        s is PostSnapshot ==> s.after(RoundAnswer::Posted) is Sleep,
        s is Sleep ==> s.after(RoundAnswer::Slept) is BuildSnapshot,
        s !is BuildSnapshot ==> s.after(RoundAnswer::Built(ok)) == s,
        s !is PostSnapshot ==> s.after(RoundAnswer::Posted) == s,
        s !is Sleep ==> s.after(RoundAnswer::Slept) == s,
{
}

/// Snapshots go to the path for processes under the address of the collector, with
/// any slashes at its end taken off.
pub proof fn law_snapshots_go_to_the_collector(base: Seq<char>, slashes: nat)
    requires
        base.len() == 0 || base.last() != '/',
    ensures
        trimmed_end(base + Seq::new(slashes, |i: int| '/'), '/') + snapshot_path("processes"@)
            == base + "/v1/snapshot/processes"@,
{
    crate::text::law_trimmed_end_drops_all(base, '/', slashes);
    crate::orchestrator::server::law_paths_are_under_snapshot("processes"@);
}

/// A snapshot counts as accepted where the status of the answer is in its two
/// hundreds.
pub proof fn law_accepted_in_the_two_hundreds(status: u16)
    ensures
        post_result(Some(status)) is Accepted <==> status as int / 100 == 2,
        post_result(Some(status)) is Refused <==> status as int / 100 != 2,
        post_result(None) is Unreachable,
{
}

/// A stage runs its own sensor and no other, and all stages run all.
pub proof fn law_stages_run_their_sensors()
    ensures
        sensors_of(Stage::Processes) == (ScanPlan { processes: true, net: false, file: false }),
        sensors_of(Stage::Net) == (ScanPlan { processes: false, net: true, file: false }),
        sensors_of(Stage::File) == (ScanPlan { processes: false, net: false, file: true }),
        sensors_of(Stage::All) == (ScanPlan { processes: true, net: true, file: true }),
{
}

/// An agent takes what the collector answers to a stored snapshot as accepted, and
/// every other answer of it as refused.
pub proof fn law_agent_understands_the_collector(reply: FilingReply)
    ensures
        post_result(Some(reply_status(reply))) is Accepted <==> reply is Stored,
        post_result(Some(reply_status(reply))) is Refused <==> reply !is Stored,
{
}

} // verus!
