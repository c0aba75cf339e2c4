//! How the collector is set up, and the paths it listens on.

use vstd::prelude::*;
use crate::orchestrator::llm::{
    key_warnings, parse_flags, parse_llm_flags, targets_view, warnings, FlagErrorView,
    LlmFlagError, LlmTarget, TargetView,
};
use crate::text::texts_view;

verus! {

/// The path under which a snapshot of a stage is taken in.
pub open spec fn snapshot_path(stage: Seq<char>) -> Seq<char> {
    "/v1/snapshot/"@ + stage
}

/// No two stages share a path.
pub proof fn law_path_tells_the_stage(a: Seq<char>, b: Seq<char>)
    requires
        snapshot_path(a) == snapshot_path(b),
    ensures
        a == b,
{
    let n = "/v1/snapshot/"@.len() as int;
    assert(snapshot_path(a).skip(n) =~= a);
    assert(snapshot_path(b).skip(n) =~= b);
}

/// The path under which the collector says that it is alive.
pub fn health_route() -> (r: &'static str)
    ensures
        r@ == "/v1/health"@,
{
    "/v1/health"
}

/// What the collector says when asked whether it is alive.
pub fn health_reply() -> (r: &'static str)
    ensures
        r@ == "ok"@,
{
    "ok"
}

/// The paths under which snapshots are taken in, with a place for the stage.
pub fn snapshot_route() -> (r: &'static str)
    ensures
        r@ == snapshot_path("{stage}"@),
{
    proof {
        reveal_strlit("/v1/snapshot/{stage}");
        reveal_strlit("/v1/snapshot/");
        reveal_strlit("{stage}");
        assert("/v1/snapshot/{stage}"@ =~= "/v1/snapshot/"@ + "{stage}"@);
    }
    "/v1/snapshot/{stage}"
}

/// What the collector starts with.
#[derive(Debug)]
pub struct ServerPlan {
    /// The models that look at the snapshots.
    pub targets: Vec<LlmTarget>,
    /// What to warn the operator of.
    pub warnings: Vec<String>,
}

/// What a plan holds.
pub struct ServerPlanView {
    pub targets: Seq<TargetView>,
    pub warnings: Seq<Seq<char>>,
}

/// What the result of setting up holds.
pub open spec fn plan_result_view(r: Result<ServerPlan, LlmFlagError>) -> Result<
    ServerPlanView,
    FlagErrorView,
> {
    match r {
        Ok(plan) => Ok(
            ServerPlanView {
                targets: targets_view(plan.targets@),
                warnings: texts_view(plan.warnings@),
            },
        ),
        Err(e) => Err(e@),
    }
}

/// The plan for some flags: the targets that they name, and a warning for each
/// target whose key is missing; or why the flags cannot be used.
pub open spec fn server_plan(flags: Seq<Seq<char>>, openai_key: bool, anthropic_key: bool) -> Result<
    ServerPlanView,
    FlagErrorView,
> {
    match parse_flags(flags) {
        Ok(targets) => Ok(
            ServerPlanView { targets, warnings: warnings(targets, openai_key, anthropic_key) },
        ),
        Err(e) => Err(e),
    }
}

/// Sets the collector up: flags first, keys next. A missing key is no reason not to
/// start.
pub fn prepare_server(flags: Vec<String>, openai_key: bool, anthropic_key: bool) -> (r: Result<
    ServerPlan,
    LlmFlagError,
>)
    ensures
        plan_result_view(r) == server_plan(texts_view(flags@), openai_key, anthropic_key),
{
    match parse_llm_flags(flags) {
        Ok(targets) => {
            let warnings = key_warnings(&targets, openai_key, anthropic_key);
            Ok(ServerPlan { targets, warnings })
        },
        Err(e) => Err(e),
    }
}

/// Whether the collector starts depends on the flags, and never on the keys.
pub proof fn law_keys_do_not_keep_from_starting(
    flags: Seq<Seq<char>>,
    openai_key: bool,
    anthropic_key: bool,
)
    ensures
        server_plan(flags, openai_key, anthropic_key) is Ok <==> parse_flags(flags) is Ok,
        server_plan(flags, openai_key, anthropic_key) matches Ok(plan) ==> plan.targets
            == parse_flags(flags)->Ok_0,
{
}

/// With both keys set there is nothing to warn of.
pub proof fn law_no_warning_with_all_keys(targets: Seq<TargetView>)
    ensures
        warnings(targets, true, true) == Seq::<Seq<char>>::empty(),
    decreases targets.len(),
{
    if targets.len() > 0 {
        law_no_warning_with_all_keys(targets.drop_last());
    }
}

/// The path for the snapshots of a stage, written out.
pub proof fn law_paths_are_under_snapshot(stage: Seq<char>)
    ensures
        snapshot_path(stage) == "/v1/snapshot/"@ + stage,
        snapshot_path("processes"@) == "/v1/snapshot/processes"@,
{
    reveal_strlit("/v1/snapshot/processes");
    reveal_strlit("/v1/snapshot/");
    reveal_strlit("processes");
    assert("/v1/snapshot/processes"@ =~= "/v1/snapshot/"@ + "processes"@);
}

/// The plan has the targets that the flags name and the warnings about them. Flags
/// that cannot be used give no plan but the reason.
pub proof fn law_plan_follows_the_flags(
    flags: Seq<Seq<char>>,
    openai_key: bool,
    anthropic_key: bool,
)
    ensures
        parse_flags(flags) matches Ok(targets) ==> server_plan(flags, openai_key, anthropic_key)
            == Ok::<ServerPlanView, FlagErrorView>(
            ServerPlanView { targets, warnings: warnings(targets, openai_key, anthropic_key) },
        ),
        parse_flags(flags) matches Err(e) ==> server_plan(flags, openai_key, anthropic_key) == Err::<
            ServerPlanView,
            FlagErrorView,
        >(e),
{
}

} // verus!
