use diydetect::bytes::PointerWidth;
use diydetect::sensors::process::command_line::{CommandLineProbe, CommandLineStage};
use diydetect::sensors::process::cpu::{
    filetime_to_u64, CpuProbe, CpuStage, CpuUsage, FileTime, ProcessTimes,
};
use diydetect::sensors::process::fingerprint::{FingerprintProbe, FingerprintStage};
use diydetect::sensors::process::image::{
    filled_path, ModulesProbe, ModulesStage, PathProbe, PathStage, MODULE_SLOTS,
};
use diydetect::sensors::process::integrity::{
    integrity_rid_to_string, IntegrityProbe, IntegrityStage,
};
use diydetect::sensors::process::report::{report_of, Findings, ProcessEntry};
use diydetect::sensors::process::signature::{
    is_trusted, path_argument, SignerProbe, SignerStage,
};
use diydetect::sensors::process::tcp::{
    connection_of, connections_in, endpoint_of, is_table_complete, tcp_state_to_string,
    ConnectionsProbe, ConnectionsStage, TcpRow,
};
use diydetect::sensors::process::walk::{ProcessWalk, WalkStage};
use diydetect::sensors::process::{ConnectionInfo, DerivedFlags, ProcessInfo};

fn wide(s: &str) -> Vec<u16> {
    s.encode_utf16().collect()
}

fn unit_bytes_of(s: &str) -> Vec<u8> {
    s.encode_utf16().flat_map(|u| u.to_le_bytes()).collect()
}

fn block_of(parameters: u64) -> Vec<u8> {
    let mut b = vec![0xeeu8; 40];
    b[32..40].copy_from_slice(&parameters.to_le_bytes());
    b
}

fn parameters_of(length: u16, address: u64) -> Vec<u8> {
    let mut b = vec![0xeeu8; 128];
    b[112..114].copy_from_slice(&length.to_le_bytes());
    b[120..128].copy_from_slice(&address.to_le_bytes());
    b
}

fn at_parameters() -> CommandLineProbe {
    CommandLineProbe::new(PointerWidth::Eight)
        .opened(true)
        .basic_information(0, 0x1000)
        .memory(Some(&block_of(0x2000)))
}

#[test]
fn a_command_line_is_found() {
    let text = "cmd.exe /c \u{e9}\u{1f600}";
    let p = CommandLineProbe::new(PointerWidth::Eight);
    assert_eq!(p.stage, CommandLineStage::OpenProcess);
    let p = p.opened(true);
    assert_eq!(p.stage, CommandLineStage::QueryBasicInformation);
    let p = p.basic_information(0, 0x1000);
    assert_eq!(p.stage, CommandLineStage::ReadEnvironmentBlock { address: 0x1000 });
    assert_eq!(p.bytes_wanted(), 40);
    let p = p.memory(Some(&block_of(0x2000)));
    assert_eq!(p.stage, CommandLineStage::ReadParameters { address: 0x2000 });
    assert_eq!(p.bytes_wanted(), 128);
    let bytes = unit_bytes_of(text);
    let p = p.memory(Some(&parameters_of(bytes.len() as u16, 0x3000)));
    assert_eq!(
        p.stage,
        CommandLineStage::ReadText { address: 0x3000, bytes: bytes.len() as u16 }
    );
    assert_eq!(p.bytes_wanted(), bytes.len());
    let p = p.memory(Some(&bytes));
    assert_eq!(p.stage, CommandLineStage::CloseProcess);
    let p = p.closed();
    assert_eq!(p.stage, CommandLineStage::Done);
    assert_eq!(p.text.as_deref(), Some(text));
}

#[test]
fn a_command_line_is_found_with_short_addresses() {
    let mut block = vec![0u8; 20];
    block[16..20].copy_from_slice(&0x2000u32.to_le_bytes());
    let mut parameters = vec![0u8; 72];
    parameters[64..66].copy_from_slice(&4u16.to_le_bytes());
    parameters[68..72].copy_from_slice(&0x3000u32.to_le_bytes());
    let p = CommandLineProbe::new(PointerWidth::Four)
        .opened(true)
        .basic_information(0, 0x1000)
        .memory(Some(&block))
        .memory(Some(&parameters))
        .memory(Some(&unit_bytes_of("hi")))
        .closed();
    assert_eq!(p.text.as_deref(), Some("hi"));
}

#[test]
fn without_the_process_there_is_nothing_to_close() {
    let p = CommandLineProbe::new(PointerWidth::Eight).opened(false);
    assert_eq!(p.stage, CommandLineStage::Done);
    assert!(p.text.is_none());
}

#[test]
fn every_failure_closes_the_process() {
    let queried = || CommandLineProbe::new(PointerWidth::Eight).opened(true);
    let ends = vec![
        queried().basic_information(-1, 0x1000),
        queried().basic_information(0, 0),
        queried().basic_information(0, 0x1000).memory(None),
        queried().basic_information(0, 0x1000).memory(Some(&block_of(0x2000)[..39])),
        queried().basic_information(0, 0x1000).memory(Some(&block_of(0))),
        at_parameters().memory(None),
        at_parameters().memory(Some(&parameters_of(4, 0x3000)[..127])),
        at_parameters().memory(Some(&parameters_of(0, 0x3000))),
        at_parameters().memory(Some(&parameters_of(4, 0))),
        at_parameters().memory(Some(&parameters_of(4, 0x3000))).memory(None),
        at_parameters().memory(Some(&parameters_of(4, 0x3000))).memory(Some(&[0x61, 0, 0x62])),
    ];
    for p in ends {
        assert_eq!(p.stage, CommandLineStage::CloseProcess);
        assert!(p.text.is_none());
    }
}

#[test]
fn an_odd_byte_at_the_end_is_dropped() {
    let p = at_parameters().memory(Some(&parameters_of(3, 0x3000))).memory(Some(&[0x61, 0, 0x62]));
    assert_eq!(p.text.as_deref(), Some("a"));
}

#[test]
fn paths_are_taken_from_the_buffer() {
    assert_eq!(filled_path(&wide("C:\\a.exe\0\0"), 8).as_deref(), Some("C:\\a.exe"));
    assert_eq!(filled_path(&wide("C:\\a.exe"), 0), None);
}

#[test]
fn a_path_is_read_and_the_process_closed() {
    let p = PathProbe::new().opened(true);
    assert_eq!(p.stage, PathStage::ReadPath);
    let p = p.path_read(&wide("C:\\a.exe\0"), 8);
    assert_eq!(p.stage, PathStage::CloseProcess);
    let p = p.closed();
    assert_eq!(p.stage, PathStage::Done);
    assert_eq!(p.path.as_deref(), Some("C:\\a.exe"));
    let p = PathProbe::new().opened(true).path_read(&wide("C:"), 0);
    assert_eq!(p.stage, PathStage::CloseProcess);
    assert!(p.path.is_none());
    assert_eq!(PathProbe::new().opened(false).stage, PathStage::Done);
}

#[test]
fn modules_are_collected_in_order() {
    let p = ModulesProbe::new().opened(true).listed(true, 24, 8);
    assert_eq!(p.stage, ModulesStage::ReadPath { index: 0, count: 3 });
    let p = p.path_read(&wide("a.dll"), 5).path_read(&wide("b.dll"), 0);
    assert_eq!(p.stage, ModulesStage::ReadPath { index: 2, count: 3 });
    let p = p.path_read(&wide("c.dll"), 5);
    assert_eq!(p.stage, ModulesStage::CloseProcess);
    let p = p.closed();
    assert_eq!(p.modules, vec!["a.dll", "c.dll"]);
}

#[test]
fn no_more_modules_than_slots() {
    let p = ModulesProbe::new().opened(true).listed(true, 8 * 5000, 8);
    assert_eq!(p.stage, ModulesStage::ReadPath { index: 0, count: MODULE_SLOTS });
}

#[test]
fn lists_without_modules_close_the_process() {
    assert_eq!(ModulesProbe::new().opened(false).stage, ModulesStage::Done);
    let failed = ModulesProbe::new().opened(true).listed(false, 24, 8);
    assert_eq!(failed.stage, ModulesStage::CloseProcess);
    let empty = ModulesProbe::new().opened(true).listed(true, 0, 8);
    assert_eq!(empty.stage, ModulesStage::CloseProcess);
    let partial = ModulesProbe::new().opened(true).listed(true, 7, 8);
    assert_eq!(partial.stage, ModulesStage::CloseProcess);
}

fn ticks(n: u64) -> FileTime {
    FileTime { low: n as u32, high: (n >> 32) as u32 }
}

#[test]
fn file_times_join_two_halves() {
    assert_eq!(filetime_to_u64(FileTime { low: 0xffff_ffff, high: 0 }), 0xffff_ffff);
    assert_eq!(filetime_to_u64(FileTime { low: 2, high: 1 }), 0x1_0000_0002);
    assert_eq!(filetime_to_u64(FileTime { low: u32::MAX, high: u32::MAX }), u64::MAX);
}

#[test]
fn processor_use_is_an_average_over_the_life() {
    let times = ProcessTimes { creation: ticks(1000), kernel: ticks(30), user: ticks(20) };
    let p = CpuProbe::new().opened(true).times(Some(times)).clock(ticks(1200));
    assert_eq!(p.stage, CpuStage::CountProcessors { elapsed: 200, kernel: 30, user: 20 });
    let done = p.processors(4);
    assert_eq!(done.stage, CpuStage::CloseProcess);
    assert_eq!(
        done.closed().usage,
        Some(CpuUsage::Average { busy: 50, elapsed: 200, processors: 4 })
    );
}

#[test]
fn zero_processors_count_as_one() {
    let times = ProcessTimes { creation: ticks(0), kernel: ticks(1), user: ticks(1) };
    let p = CpuProbe::new().opened(true).times(Some(times)).clock(ticks(10)).processors(0);
    assert_eq!(p.usage, Some(CpuUsage::Average { busy: 2, elapsed: 10, processors: 1 }));
}

#[test]
fn a_process_of_the_future_uses_nothing() {
    let times = ProcessTimes { creation: ticks(10), kernel: ticks(1), user: ticks(1) };
    let p = CpuProbe::new().opened(true).times(Some(times)).clock(ticks(10));
    assert_eq!(p.stage, CpuStage::CloseProcess);
    assert_eq!(p.usage, Some(CpuUsage::NoTime));
    let p = CpuProbe::new().opened(true).times(None);
    assert_eq!(p.stage, CpuStage::CloseProcess);
    assert_eq!(p.usage, None);
    assert_eq!(CpuProbe::new().opened(false).stage, CpuStage::Done);
}

#[test]
fn every_identifier_has_the_same_level() {
    assert_eq!(integrity_rid_to_string(0), "Untrusted");
    assert_eq!(integrity_rid_to_string(0x2000), "Untrusted");
    assert_eq!(integrity_rid_to_string(0x4000), "Untrusted");
}

#[test]
fn a_level_is_found_and_both_handles_closed() {
    let p = IntegrityProbe::new().process_opened(true).token_opened(true).label_measured(28);
    assert_eq!(p.stage, IntegrityStage::ReadLabel { bytes: 28 });
    let p = p.label_read(true, true).parts_counted(Some(2));
    assert_eq!(p.stage, IntegrityStage::ReadPart { index: 1 });
    let p = p.part_read(Some(0x2000));
    assert_eq!(p.stage, IntegrityStage::CloseToken);
    let p = p.token_closed();
    assert_eq!(p.stage, IntegrityStage::CloseProcess);
    let p = p.process_closed();
    assert_eq!(p.stage, IntegrityStage::Done);
    assert_eq!(p.level.as_deref(), Some("Untrusted"));
}

#[test]
fn failures_on_the_way_to_a_level_close_what_is_open() {
    assert_eq!(IntegrityProbe::new().process_opened(false).stage, IntegrityStage::Done);
    let opened = || IntegrityProbe::new().process_opened(true);
    assert_eq!(opened().token_opened(false).stage, IntegrityStage::CloseProcess);
    let token = || opened().token_opened(true);
    let ends = vec![
        token().label_measured(0),
        token().label_measured(28).label_read(false, true),
        token().label_measured(28).label_read(true, false),
        token().label_measured(28).label_read(true, true).parts_counted(None),
        token().label_measured(28).label_read(true, true).parts_counted(Some(0)),
        token().label_measured(28).label_read(true, true).parts_counted(Some(1)).part_read(None),
    ];
    for p in ends {
        assert_eq!(p.stage, IntegrityStage::CloseToken);
        assert!(p.level.is_none());
    }
}

#[test]
fn only_status_zero_is_trusted() {
    assert!(is_trusted(Some(0)));
    assert!(!is_trusted(Some(-2146762496)));
    assert!(!is_trusted(None));
    assert_eq!(path_argument(Some("C:".to_string())), Some(vec![0x43, 0x3a, 0]));
    assert_eq!(path_argument(None), None);
}

#[test]
fn a_signer_is_named_without_the_closing_zero() {
    let p = SignerProbe::new().path_found(true).store_opened(true, true).certificate_found(true);
    assert_eq!(p.stage, SignerStage::ReadName);
    let p = p.name_read(&wide("Contoso\0\0"), 8);
    assert_eq!(p.stage, SignerStage::CloseStore);
    let p = p.store_closed();
    assert_eq!(p.stage, SignerStage::Done);
    assert_eq!(p.name.as_deref(), Some("Contoso"));
}

#[test]
fn failures_on_the_way_to_a_signer_close_the_store() {
    assert_eq!(SignerProbe::new().path_found(false).stage, SignerStage::Done);
    let found = || SignerProbe::new().path_found(true);
    assert_eq!(found().store_opened(false, false).stage, SignerStage::Done);
    assert_eq!(found().store_opened(true, false).stage, SignerStage::Done);
    assert_eq!(found().store_opened(false, true).stage, SignerStage::CloseStore);
    let store = || found().store_opened(true, true);
    assert_eq!(store().certificate_found(false).stage, SignerStage::CloseStore);
    let nameless = store().certificate_found(true).name_read(&wide("x"), 1);
    assert_eq!(nameless.stage, SignerStage::CloseStore);
    assert!(nameless.name.is_none());
}

#[test]
fn states_of_connections_have_names() {
    let names: Vec<&str> = (0..14).map(tcp_state_to_string).collect();
    assert_eq!(
        names,
        vec![
            "UNKNOWN", "CLOSED", "LISTEN", "SYN_SENT", "SYN_RECEIVED", "ESTABLISHED", "FIN_WAIT1",
            "FIN_WAIT2", "CLOSE_WAIT", "CLOSING", "LAST_ACK", "TIME_WAIT", "DELETE_TCB", "UNKNOWN",
        ]
    );
}

#[test]
fn endpoints_are_in_network_order() {
    assert_eq!(endpoint_of(u32::from_le_bytes([127, 0, 0, 1]), 0x5000), "127.0.0.1:80");
    assert_eq!(endpoint_of(0, 0), "0.0.0.0:0");
    assert_eq!(endpoint_of(u32::MAX, 0xabcd_ffff), "255.255.255.255:65535");
}

fn row(state: u32, pid: u32) -> TcpRow {
    TcpRow {
        state,
        local_addr: u32::from_le_bytes([10, 0, 0, 1]),
        local_port: u16::to_be(8080) as u32,
        remote_addr: u32::from_le_bytes([10, 0, 0, 2]),
        remote_port: u16::to_be(443) as u32,
        owning_pid: pid,
    }
}

fn table_of(rows: &[TcpRow]) -> Vec<u8> {
    let mut b = (rows.len() as u32).to_le_bytes().to_vec();
    for r in rows {
        for field in [r.state, r.local_addr, r.local_port, r.remote_addr, r.remote_port, r.owning_pid]
        {
            b.extend_from_slice(&field.to_le_bytes());
        }
    }
    b
}

fn is_sample(c: &ConnectionInfo, state: &str) -> bool {
    c.proto == "tcp" && c.local == "10.0.0.1:8080" && c.remote == "10.0.0.2:443" && c.state == state
}

#[test]
fn connections_are_those_of_the_process() {
    let table = table_of(&[row(5, 7), row(2, 8), row(11, 7)]);
    assert!(is_table_complete(&table));
    let found = connections_in(&table, 7);
    assert_eq!(found.len(), 2);
    assert!(is_sample(&found[0], "ESTABLISHED"));
    assert!(is_sample(&found[1], "TIME_WAIT"));
    assert!(is_sample(&connection_of(row(2, 8)), "LISTEN"));
    assert!(connections_in(&table, 9).is_empty());
}

#[test]
fn tables_that_are_cut_short_are_told() {
    let table = table_of(&[row(5, 7)]);
    assert!(!is_table_complete(&table[..table.len() - 1]));
    assert!(!is_table_complete(&[1, 0, 0]));
    assert!(is_table_complete(&[0, 0, 0, 0]));
    let mut longer = table.clone();
    longer.push(0);
    assert!(is_table_complete(&longer));
    assert!(!is_table_complete(&[0xff, 0xff, 0xff, 0xff]));
}

#[test]
fn a_table_is_measured_and_read() {
    let table = table_of(&[row(5, 7)]);
    let p = ConnectionsProbe::new(7).measured(table.len() as u32);
    assert_eq!(p.stage, ConnectionsStage::ReadTable { bytes: 28 });
    let p = p.table_read(0, &table);
    assert_eq!(p.stage, ConnectionsStage::Done);
    assert_eq!(p.connections.len(), 1);
    assert_eq!(ConnectionsProbe::new(7).measured(0).stage, ConnectionsStage::Done);
    let failed = ConnectionsProbe::new(7).measured(28).table_read(122, &[]);
    assert_eq!(failed.stage, ConnectionsStage::Done);
    assert!(failed.connections.is_empty());
}

#[test]
fn a_fingerprint_ignores_the_cuts() {
    let open = || FingerprintProbe::new().path_found(true).file_opened(true);
    let whole = open().piece(b"abc").piece(b"");
    assert_eq!(whole.stage, FingerprintStage::Done);
    let cut = open().piece(b"a").piece(b"bc").piece(b"");
    assert_eq!(whole.digest, cut.digest);
    assert_eq!(
        cut.digest.as_deref(),
        Some("ba7816bf8f01cfea414140de5dae2223b00361a396177a9cb410ff61f20015ad")
    );
    assert_eq!(open().piece(b"").digest.map(|d| d.len()), Some(64));
    assert!(open().has_room(8192));
}

#[test]
fn a_fingerprint_needs_the_whole_file() {
    assert_eq!(FingerprintProbe::new().path_found(false).stage, FingerprintStage::Done);
    let p = FingerprintProbe::new().path_found(true).file_opened(false);
    assert_eq!(p.stage, FingerprintStage::Done);
    assert!(p.digest.is_none());
    let p = FingerprintProbe::new().path_found(true).file_opened(true).piece(b"a").read_failed();
    assert_eq!(p.stage, FingerprintStage::Done);
    assert!(p.digest.is_none());
}

fn entry(pid: u32, name: &str) -> ProcessEntry {
    let mut exe_file = wide(name);
    exe_file.resize(260, 0);
    ProcessEntry { pid, ppid: 1, thread_count: 3, exe_file }
}

fn findings(path: Option<&str>) -> Findings {
    Findings {
        path: path.map(|p| p.to_string()),
        is_signed: true,
        signer_name: Some("Contoso".to_string()),
        connections: vec![],
        integrity_level: Some("Untrusted".to_string()),
        modules: vec!["a.dll".to_string()],
        sha256: None,
        cpu: Some(CpuUsage::NoTime),
        command_line: Some("a.exe -x".to_string()),
    }
}

#[test]
fn a_report_joins_entry_and_findings() {
    let r = report_of(&entry(7, "a.exe"), findings(Some("C:\\a.exe")));
    assert_eq!((r.pid, r.ppid, r.thread_count), (7, 1, 3));
    assert_eq!(r.exe_path, "C:\\a.exe");
    assert_eq!(r.is_signed, Some(true));
    assert_eq!(r.signer_name.as_deref(), Some("Contoso"));
    assert_eq!(r.integrity_level.as_deref(), Some("Untrusted"));
    assert_eq!(r.modules, vec!["a.dll"]);
    assert_eq!(r.sha256, None);
    assert_eq!(r.cpu_percent, Some(CpuUsage::NoTime));
    assert_eq!(r.command_line.as_deref(), Some("a.exe -x"));
    assert!(r.connections.is_empty());
    assert!(r.user.is_none() && r.domain.is_none() && r.working_set_mb.is_none());
    assert_eq!(report_of(&entry(7, "a.exe"), findings(None)).exe_path, "a.exe");
}

#[test]
fn derived_flags_start_unset() {
    let f = DerivedFlags::default();
    assert!(!f.path_is_temp_or_appdata);
    assert!(!f.parent_is_office_or_browser);
    assert!(!f.has_outbound_network);
    assert!(!f.is_signed_and_trusted);
    assert!(!f.elevated_integrity);
}

fn pids(processes: &Vec<ProcessInfo>) -> Vec<u32> {
    processes.iter().map(|p| p.pid).collect()
}

#[test]
fn a_walk_reports_on_every_process() {
    let w = ProcessWalk::new();
    assert_eq!(w.stage, WalkStage::TakeSnapshot);
    let w = w.snapshot_taken(true).first(Some(entry(4, "System")));
    assert_eq!(w.stage, WalkStage::Inspect { pid: 4, closed_early: false });
    let w = w.inspected(findings(None)).next(Some(entry(7, "a.exe")));
    assert_eq!(w.stage, WalkStage::Inspect { pid: 7, closed_early: false });
    let w = w.inspected(findings(None)).next(None);
    assert_eq!(w.stage, WalkStage::CloseSnapshot { closed_early: false });
    let w = w.closed();
    assert_eq!(w.stage, WalkStage::Done { closed_early: false });
    assert_eq!(pids(&w.processes), vec![4, 7]);
    assert_eq!(w.processes[0].exe_path, "System");
}

#[test]
fn a_walk_without_a_first_entry_reports_on_a_blank_one() {
    let w = ProcessWalk::new().snapshot_taken(true).first(None);
    assert_eq!(w.stage, WalkStage::CloseAfterFailure);
    let w = w.closed();
    assert_eq!(w.stage, WalkStage::Inspect { pid: 0, closed_early: true });
    let w = w.inspected(findings(None)).next(None);
    assert_eq!(w.stage, WalkStage::CloseSnapshot { closed_early: true });
    let w = w.closed();
    assert_eq!(w.stage, WalkStage::Done { closed_early: true });
    assert_eq!(pids(&w.processes), vec![0]);
    assert_eq!(w.processes[0].exe_path, "");
}

#[test]
fn a_walk_without_a_snapshot_gives_up() {
    assert_eq!(ProcessWalk::new().snapshot_taken(false).stage, WalkStage::GiveUp);
}
