use diydetect::agent::{
    agent_setup, post_report, process_url, scan_plan, AgentMode, PostReport, RoundStage, ScanPlan,
    Stage,
};

#[test]
fn scans_run_the_chosen_sensors() {
    assert_eq!(scan_plan(Stage::Processes), ScanPlan { processes: true, net: false, file: false });
    assert_eq!(scan_plan(Stage::Net), ScanPlan { processes: false, net: true, file: false });
    assert_eq!(scan_plan(Stage::File), ScanPlan { processes: false, net: false, file: true });
    assert_eq!(scan_plan(Stage::All), ScanPlan { processes: true, net: true, file: true });
}

#[test]
fn agents_are_set_up() {
    let s = agent_setup("http://c:8080//", 300, Stage::Processes, Some("Lab".to_string()));
    assert_eq!(s.host, "Lab");
    assert_eq!(s.base, "http://c:8080");
    assert_eq!(s.cfg.duration_secs, 300);
    assert_eq!(s.mode, AgentMode::Alone);
    assert_eq!(agent_setup("x", 1, Stage::All, None).mode, AgentMode::AmongOthers);
    assert_eq!(agent_setup("x", 1, Stage::Net, None).mode, AgentMode::ProcessesOnly);
    assert_eq!(agent_setup("x", 1, Stage::File, None).mode, AgentMode::ProcessesOnly);
}

#[test]
fn process_snapshots_go_to_one_path() {
    assert_eq!(process_url("http://c:8080"), "http://c:8080/v1/snapshot/processes");
}

#[test]
fn answers_of_the_collector_are_read() {
    assert_eq!(post_report(Some(200)), PostReport::Accepted);
    assert_eq!(post_report(Some(299)), PostReport::Accepted);
    assert_eq!(post_report(Some(300)), PostReport::Refused);
    assert_eq!(post_report(Some(500)), PostReport::Refused);
    assert_eq!(post_report(None), PostReport::Unreachable);
}

#[test]
fn rounds_follow_each_other() {
    let s = RoundStage::new();
    assert_eq!(s, RoundStage::BuildSnapshot);
    let s = s.built(true);
    assert_eq!(s, RoundStage::PostSnapshot);
    let s = s.posted();
    assert_eq!(s, RoundStage::Sleep);
    assert_eq!(s.built(true), RoundStage::Sleep);
    assert_eq!(s.slept(), RoundStage::BuildSnapshot);
}

#[test]
fn a_round_without_a_snapshot_still_pauses() {
    assert_eq!(RoundStage::new().built(false), RoundStage::Sleep);
}
