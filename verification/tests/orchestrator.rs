use diydetect::model::snapshot_at;
use diydetect::orchestrator::fanout::{snapshot_text, FanOutcome, FanStage};
use diydetect::orchestrator::filing::{
    filing_reply, plan_filing, snapshot_file_name, subdirectory_for, FilingReply, FilingStage,
};
use diydetect::orchestrator::llm::{
    key_warnings, parse_llm_flag, parse_llm_flags, LlmFlagError, LlmProvider, LlmTarget,
};
use diydetect::orchestrator::openai::{
    analysis_file_name, analysis_text, chat_request, completions_url, dispatch_outcome,
    DispatchOutcome, DispatchStage,
};
use diydetect::orchestrator::server::{
    health_reply, health_route, prepare_server, snapshot_route,
};
use diydetect::time::Timestamp;

fn flags(raw: &[&str]) -> Vec<String> {
    raw.iter().map(|s| s.to_string()).collect()
}

fn targets(raw: &[&str]) -> Vec<LlmTarget> {
    parse_llm_flags(flags(raw)).expect("the flags are good")
}

#[test]
fn flags_name_provider_and_model() {
    let all = targets(&["openai:gpt-4.1-mini", "Anthropic:haiku", "OLLAMA:llama3:8b", "local:phi"]);
    assert_eq!(all.len(), 4);
    assert_eq!(all[0].id, "openai-gpt-4.1-mini");
    assert_eq!(all[0].provider, LlmProvider::OpenAi);
    assert_eq!(all[0].model, "gpt-4.1-mini");
    assert_eq!(all[1].id, "anthropic-haiku");
    assert_eq!(all[1].provider, LlmProvider::Anthropic);
    assert_eq!(all[2].id, "ollama-llama3:8b");
    assert_eq!(all[2].provider, LlmProvider::LocalOllama);
    assert_eq!(all[2].model, "llama3:8b");
    assert_eq!(all[3].id, "local-phi");
    assert_eq!(all[3].provider, LlmProvider::LocalOllama);
}

#[test]
fn a_model_may_be_empty() {
    let t = parse_llm_flag("openai:".to_string()).expect("the flag is good");
    assert_eq!(t.id, "openai-");
    assert_eq!(t.model, "");
}

#[test]
fn no_flags_are_an_error() {
    let e = parse_llm_flags(vec![]).expect_err("there are no flags");
    assert!(matches!(e, LlmFlagError::NoFlags));
    assert_eq!(e.message(), "at least one --llm flag is required");
}

#[test]
fn a_flag_without_a_colon_is_an_error() {
    let e = parse_llm_flags(flags(&["openai:a", "gpt", "nobody:b"])).expect_err("no colon");
    assert!(matches!(e, LlmFlagError::Malformed(_)));
    assert_eq!(e.message(), "invalid --llm flag 'gpt', expected provider:model");
}

#[test]
fn an_unknown_provider_is_an_error() {
    let e = parse_llm_flags(flags(&["openai:a", "NoBody:b", "gpt"])).expect_err("unknown");
    assert!(matches!(e, LlmFlagError::UnknownProvider(_)));
    assert_eq!(e.message(), "unknown LLM provider 'nobody'");
}

#[test]
fn lower_case_goes_beyond_ascii() {
    let e = parse_llm_flag("\u{d6}PENAI:a".to_string()).expect_err("unknown");
    assert_eq!(e.message(), "unknown LLM provider '\u{f6}penai'");
}

#[test]
fn missing_keys_are_warned_of() {
    let all = targets(&["openai:a", "anthropic:b", "ollama:c", "openai:d"]);
    assert_eq!(
        key_warnings(&all, false, false),
        vec![
            "Warning: LLM target 'openai-a' uses OpenAI but OPENAI_API_KEY is not set.",
            "Warning: LLM target 'anthropic-b' uses Anthropic but ANTHROPIC_API_KEY is not set.",
            "Warning: LLM target 'openai-d' uses OpenAI but OPENAI_API_KEY is not set.",
        ]
    );
    assert_eq!(key_warnings(&all, true, false).len(), 1);
    assert_eq!(key_warnings(&all, false, true).len(), 2);
    assert!(key_warnings(&all, true, true).is_empty());
}

#[test]
fn the_collector_is_set_up_from_flags_and_keys() {
    let plan = prepare_server(flags(&["openai:a"]), false, true).expect("the flags are good");
    assert_eq!(plan.targets.len(), 1);
    assert_eq!(plan.warnings.len(), 1);
    let e = prepare_server(flags(&["x"]), true, true).expect_err("no colon");
    assert!(matches!(e, LlmFlagError::Malformed(_)));
    assert_eq!(health_route(), "/v1/health");
    assert_eq!(health_reply(), "ok");
    assert_eq!(snapshot_route(), "/v1/snapshot/{stage}");
}

#[test]
fn stages_have_directories() {
    assert_eq!(subdirectory_for("processes"), "process_snapshots");
    assert_eq!(subdirectory_for("net"), "net_snapshots");
    assert_eq!(subdirectory_for("file"), "file_snapshots");
    assert_eq!(subdirectory_for("registry"), "registry");
    assert_eq!(subdirectory_for("Processes"), "Processes");
}

#[test]
fn snapshots_have_file_names() {
    assert_eq!(
        snapshot_file_name("processes", "20231114-221320", "lab"),
        "process_snapshot_20231114-221320_lab.json"
    );
    assert_eq!(
        snapshot_file_name("net", "20231114-221320", "lab"),
        "net_snapshot_20231114-221320_lab.json"
    );
}

#[test]
fn a_snapshot_is_filed_under_its_time() {
    let t = Timestamp { secs: 1_700_000_000, nanos: 0 };
    let plan = plan_filing("processes", &snapshot_at("lab".to_string(), t, vec![]));
    assert_eq!(plan.subdirectory, "process_snapshots");
    assert_eq!(plan.file_name, "process_snapshot_20231114-221320_lab.json");
    let plan = plan_filing("dns", &snapshot_at("lab".to_string(), t, vec![]));
    assert_eq!(plan.subdirectory, "dns");
    assert_eq!(plan.file_name, "dns_snapshot_20231114-221320_lab.json");
}

#[test]
fn snapshots_are_kept_apart_on_examples() {
    let t = Timestamp { secs: 1_700_000_000, nanos: 0 };
    let u = Timestamp { secs: 1_700_000_001, nanos: 0 };
    let name = |stage: &str, at: Timestamp, host: &str| {
        let p = plan_filing(stage, &snapshot_at(host.to_string(), at, vec![]));
        format!("{}/{}", p.subdirectory, p.file_name)
    };
    assert_ne!(name("net", t, "a"), name("net", u, "a"));
    assert_ne!(name("net", t, "a"), name("net", t, "b"));
    assert_ne!(name("net", t, "a"), name("net_snapshots", t, "a"));
}

#[test]
fn the_first_failure_decides_the_answer() {
    assert_eq!(filing_reply(true, true, true), FilingReply::Stored);
    assert_eq!(filing_reply(false, true, true), FilingReply::StorageError);
    assert_eq!(filing_reply(true, false, true), FilingReply::InvalidSnapshot);
    assert_eq!(filing_reply(true, true, false), FilingReply::WriteFailed);
    assert_eq!(filing_reply(false, false, false), FilingReply::StorageError);
}

#[test]
fn answers_have_status_and_text() {
    assert_eq!((FilingReply::Stored.status(), FilingReply::Stored.body()), (200, "ok"));
    assert_eq!(
        (FilingReply::StorageError.status(), FilingReply::StorageError.body()),
        (500, "storage error")
    );
    assert_eq!(
        (FilingReply::InvalidSnapshot.status(), FilingReply::InvalidSnapshot.body()),
        (400, "invalid snapshot")
    );
    assert_eq!(
        (FilingReply::WriteFailed.status(), FilingReply::WriteFailed.body()),
        (500, "write failed")
    );
    assert!(FilingReply::Stored.consults_models());
    assert!(!FilingReply::WriteFailed.consults_models());
}

#[test]
fn filing_goes_step_by_step() {
    let s = FilingStage::new();
    assert_eq!(s.written(true), FilingStage::CreateDirectory);
    let s = s.directory_created(true);
    assert_eq!(s, FilingStage::Serialize);
    let s = s.serialized(true);
    assert_eq!(s, FilingStage::WriteFile);
    assert_eq!(s.written(true), FilingStage::Reply(FilingReply::Stored));
}

#[test]
fn questions_go_to_the_chosen_address() {
    assert_eq!(completions_url(None), "https://api.openai.com/v1/chat/completions");
    assert_eq!(
        completions_url(Some("http://proxy/v1//".to_string())),
        "http://proxy/v1/chat/completions"
    );
    assert_eq!(completions_url(Some(String::new())), "/chat/completions");
}

#[test]
fn a_question_holds_the_snapshot() {
    let t = &targets(&["openai:gpt-4.1-mini"])[0];
    let q = chat_request(t, "processes", "lab", "{\"a\": 1}");
    assert_eq!(q.model, "gpt-4.1-mini");
    assert_eq!(q.messages.len(), 2);
    assert_eq!(q.messages[0].role, "system");
    assert_eq!(
        q.messages[0].content,
        "You are an incident-response assistant. You are analyzing processes telemetry for host \
         lab. Return a concise JSON object with keys like 'summary', 'suspicious_items', and \
         'recommendations'."
    );
    assert_eq!(q.messages[1].role, "user");
    assert_eq!(
        q.messages[1].content,
        "Here is the raw JSON snapshot for stage 'processes' on host 'lab':\n\n{\"a\": 1}"
    );
}

#[test]
fn the_first_choice_is_kept() {
    assert_eq!(analysis_text(&vec![]), "{}");
    assert_eq!(analysis_text(&flags(&["one", "two"])), "one");
}

#[test]
fn analyses_stand_beside_the_snapshot() {
    let file = "process_snapshot_20231114-221320_lab.json";
    assert_eq!(
        analysis_file_name(file, "openai-gpt-4.1-mini"),
        "process_snapshot_20231114-221320_lab.openai-gpt-4.1-mini.analysis.json"
    );
    assert_ne!(analysis_file_name(file, "openai-a"), analysis_file_name(file, "openai-b"));
    assert_ne!(analysis_file_name(file, "openai-a"), file);
    assert_eq!(
        analysis_file_name("net_snapshot_t_lab.corp.json", "openai-a"),
        "net_snapshot_t_lab.corp.openai-a.analysis.json"
    );
}

#[test]
fn consultations_end_in_six_ways() {
    assert_eq!(dispatch_outcome(false, Some(200), true, true), DispatchOutcome::Skipped);
    assert_eq!(dispatch_outcome(true, None, true, true), DispatchOutcome::SendFailed);
    assert_eq!(dispatch_outcome(true, Some(401), true, true), DispatchOutcome::Refused);
    assert_eq!(dispatch_outcome(true, Some(199), true, true), DispatchOutcome::Refused);
    assert_eq!(dispatch_outcome(true, Some(300), true, true), DispatchOutcome::Refused);
    assert_eq!(dispatch_outcome(true, Some(299), false, true), DispatchOutcome::ReplyUnreadable);
    assert_eq!(dispatch_outcome(true, Some(200), true, false), DispatchOutcome::WriteFailed);
    assert_eq!(dispatch_outcome(true, Some(200), true, true), DispatchOutcome::Stored);
}

#[test]
fn only_failures_keep_other_models_from_being_asked() {
    assert!(!DispatchOutcome::Skipped.aborts());
    assert!(!DispatchOutcome::Refused.aborts());
    assert!(!DispatchOutcome::Stored.aborts());
    assert!(DispatchOutcome::SendFailed.aborts());
    assert!(DispatchOutcome::ReplyUnreadable.aborts());
    assert!(DispatchOutcome::WriteFailed.aborts());
}

#[test]
fn a_refusal_is_read_before_the_end() {
    let s = DispatchStage::new().key_read(true).sent(Some(500));
    assert_eq!(s, DispatchStage::ReadRefusal);
    assert_eq!(s.refusal_read(), DispatchStage::Done(DispatchOutcome::Refused));
}

#[test]
fn every_target_has_its_turn() {
    let all = targets(&["ollama:a", "openai:b", "anthropic:c"]);
    let s = FanStage::new().file_read(true).parsed(true).decoded(true, &all);
    assert_eq!(s, FanStage::Visit { index: 0, send: false });
    let s = s.visited(true, &all);
    assert_eq!(s, FanStage::Visit { index: 1, send: true });
    let s = s.visited(true, &all);
    assert_eq!(s, FanStage::Visit { index: 2, send: false });
    assert_eq!(s.visited(true, &all), FanStage::Done(FanOutcome::Complete));
}

#[test]
fn a_failure_ends_the_round() {
    let all = targets(&["openai:a", "openai:b"]);
    let s = FanStage::new().file_read(true).parsed(true).decoded(true, &all).visited(false, &all);
    assert_eq!(s, FanStage::Done(FanOutcome::DispatchFailed(0)));
    assert_eq!(s.visited(true, &all), s);
}

#[test]
fn an_unreadable_snapshot_is_not_shown() {
    let all = targets(&["openai:a"]);
    let end = |read: bool, parsed: bool, text: bool| {
        FanStage::new().file_read(read).parsed(parsed).decoded(text, &all)
    };
    assert_eq!(end(false, true, true), FanStage::Done(FanOutcome::ReadFailed));
    assert_eq!(end(true, false, true), FanStage::Done(FanOutcome::ParseFailed));
    assert_eq!(end(true, true, false), FanStage::Done(FanOutcome::NotText));
}

#[test]
fn a_stored_snapshot_is_read_as_text() {
    assert_eq!(snapshot_text(vec![]).as_deref(), Some(""));
    assert_eq!(snapshot_text(b"{\"a\": 1}".to_vec()).as_deref(), Some("{\"a\": 1}"));
    assert_eq!(snapshot_text(vec![0xc3, 0xa9]).as_deref(), Some("\u{e9}"));
    assert_eq!(snapshot_text(vec![0xf0, 0x9f, 0x98, 0x80]).as_deref(), Some("\u{1f600}"));
    assert_eq!(snapshot_text(vec![0x61, 0xc3]), None);
    assert_eq!(snapshot_text(vec![0xc0, 0x80]), None);
    assert_eq!(snapshot_text(vec![0xed, 0xa0, 0x80]), None);
    assert_eq!(snapshot_text(vec![0xf4, 0x90, 0x80, 0x80]), None);
}

#[test]
fn a_question_ends_in_the_file() {
    let bytes = "{\"host_id\": \"\u{e9}\"}".as_bytes().to_vec();
    let text = snapshot_text(bytes.clone()).expect("the file is text");
    let q = chat_request(&targets(&["openai:a"])[0], "net", "lab", &text);
    assert!(q.messages[1].content.as_bytes().ends_with(&bytes));
}

#[test]
fn case_beyond_ascii_makes_no_difference() {
    let a = parse_llm_flag("\u{212a}:m".to_string()).expect_err("unknown");
    let b = parse_llm_flag("k:m".to_string()).expect_err("unknown");
    assert_eq!(a.message(), b.message());
}
