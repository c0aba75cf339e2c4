//! What is reported of a process.

use vstd::prelude::*;
use super::cpu::CpuUsage;
use super::tcp::{connections_view, ConnectionInfo, ConnectionView};
use crate::text::{text_view, texts_view};
use crate::utf16::{decode_until_zero, until_zero, utf16_encode, utf16_lossy};

verus! {

/// Signs that a process may be worth a second look.
#[derive(Clone, Copy, Debug, PartialEq, Eq, Structural)]
pub struct DerivedFlags {
    pub path_is_temp_or_appdata: bool,
    pub parent_is_office_or_browser: bool,
    pub has_outbound_network: bool,
    pub is_signed_and_trusted: bool,
    pub elevated_integrity: bool,
}

impl DerivedFlags {
    /// No sign.
    pub open spec fn none() -> Self {
        DerivedFlags {
            path_is_temp_or_appdata: false,
            parent_is_office_or_browser: false,
            has_outbound_network: false,
            is_signed_and_trusted: false,
            elevated_integrity: false,
        }
    }
}

impl Default for DerivedFlags {
    fn default() -> (r: Self)
        ensures
            r == Self::none(),
    {
        DerivedFlags {
            path_is_temp_or_appdata: false,
            parent_is_office_or_browser: false,
            has_outbound_network: false,
            is_signed_and_trusted: false,
            elevated_integrity: false,
        }
    }
}

/// All that is reported of a process.
#[derive(Debug)]
pub struct ProcessInfo {
    pub pid: u32,
    pub ppid: u32,
    pub exe_path: String,
    pub command_line: Option<String>,
    pub user: Option<String>,
    pub domain: Option<String>,
    pub integrity_level: Option<String>,
    pub is_signed: Option<bool>,
    pub signer_name: Option<String>,
    pub sha256: Option<String>,
    /// The share of the processors, as a fraction that is still to be divided.
    pub cpu_percent: Option<CpuUsage>,
    pub working_set_mb: Option<u64>,
    pub thread_count: u32,
    pub modules: Vec<String>,
    pub connections: Vec<ConnectionInfo>,
    pub derived_flags: DerivedFlags,
}

/// What a report holds.
pub struct ProcessView {
    pub pid: u32,
    pub ppid: u32,
    pub exe_path: Seq<char>,
    pub command_line: Option<Seq<char>>,
    pub user: Option<Seq<char>>,
    pub domain: Option<Seq<char>>,
    pub integrity_level: Option<Seq<char>>,
    pub is_signed: Option<bool>,
    pub signer_name: Option<Seq<char>>,
    pub sha256: Option<Seq<char>>,
    pub cpu_percent: Option<CpuUsage>,
    pub working_set_mb: Option<u64>,
    pub thread_count: u32,
    pub modules: Seq<Seq<char>>,
    pub connections: Seq<ConnectionView>,
    pub derived_flags: DerivedFlags,
}

impl View for ProcessInfo {
    type V = ProcessView;

    open spec fn view(&self) -> ProcessView {
        ProcessView {
            pid: self.pid,
            ppid: self.ppid,
            exe_path: self.exe_path@,
            command_line: text_view(self.command_line),
            user: text_view(self.user),
            domain: text_view(self.domain),
            integrity_level: text_view(self.integrity_level),
            is_signed: self.is_signed,
            signer_name: text_view(self.signer_name),
            sha256: text_view(self.sha256),
            cpu_percent: self.cpu_percent,
            working_set_mb: self.working_set_mb,
            thread_count: self.thread_count,
            modules: texts_view(self.modules@),
            connections: connections_view(self.connections@),
            derived_flags: self.derived_flags,
        }
    }
}

/// What a list of reports holds.
pub open spec fn processes_view(v: Seq<ProcessInfo>) -> Seq<ProcessView> {
    v.map_values(|p: ProcessInfo| p@)
}

/// An entry in the list of processes. The name of the image is UTF-16 up to the
/// first zero.
pub struct ProcessEntry {
    pub pid: u32,
    pub ppid: u32,
    pub thread_count: u32,
    pub exe_file: Vec<u16>,
}

/// What an entry holds.
pub struct EntryView {
    pub pid: u32,
    pub ppid: u32,
    pub thread_count: u32,
    pub exe_file: Seq<u16>,
}

impl View for ProcessEntry {
    type V = EntryView;

    open spec fn view(&self) -> EntryView {
        EntryView {
            pid: self.pid,
            ppid: self.ppid,
            thread_count: self.thread_count,
            exe_file: self.exe_file@,
        }
    }
}

impl EntryView {
    /// An entry of zeros.
    pub open spec fn blank() -> Self {
        EntryView { pid: 0, ppid: 0, thread_count: 0, exe_file: Seq::empty() }
    }
}

impl ProcessEntry {
    /// An entry of zeros.
    pub fn blank() -> (r: Self)
        ensures
            r@ == EntryView::blank(),
    {
        let exe_file: Vec<u16> = Vec::new();
        assert(exe_file@ =~= Seq::empty());
        ProcessEntry { pid: 0, ppid: 0, thread_count: 0, exe_file }
    }
}

/// What the dialogues with the system have found out about one process.
pub struct Findings {
    pub path: Option<String>,
    pub is_signed: bool,
    pub signer_name: Option<String>,
    pub connections: Vec<ConnectionInfo>,
    pub integrity_level: Option<String>,
    pub modules: Vec<String>,
    pub sha256: Option<String>,
    pub cpu: Option<CpuUsage>,
    pub command_line: Option<String>,
}

/// What the findings hold.
pub struct FindingsView {
    pub path: Option<Seq<char>>,
    pub is_signed: bool,
    pub signer_name: Option<Seq<char>>,
    pub connections: Seq<ConnectionView>,
    pub integrity_level: Option<Seq<char>>,
    pub modules: Seq<Seq<char>>,
    pub sha256: Option<Seq<char>>,
    pub cpu: Option<CpuUsage>,
    pub command_line: Option<Seq<char>>,
}

impl View for Findings {
    type V = FindingsView;

    open spec fn view(&self) -> FindingsView {
        FindingsView {
            path: text_view(self.path),
            is_signed: self.is_signed,
            signer_name: text_view(self.signer_name),
            connections: connections_view(self.connections@),
            integrity_level: text_view(self.integrity_level),
            modules: texts_view(self.modules@),
            sha256: text_view(self.sha256),
            cpu: self.cpu,
            command_line: text_view(self.command_line),
        }
    }
}

/// The report on a process: what its entry says and what was found out. Where the
/// path is not known, the name of the image stands in its place. The user, the
/// domain and the working set are not looked for, and no sign is derived.
pub open spec fn report(entry: EntryView, findings: FindingsView) -> ProcessView {
    ProcessView {
        pid: entry.pid,
        ppid: entry.ppid,
        exe_path: match findings.path {
            Some(path) => path,
            None => utf16_lossy(until_zero(entry.exe_file)),
        },
        command_line: findings.command_line,
        user: None,
        domain: None,
        integrity_level: findings.integrity_level,
        is_signed: Some(findings.is_signed),
        signer_name: findings.signer_name,
        sha256: findings.sha256,
        cpu_percent: findings.cpu,
        working_set_mb: None,
        thread_count: entry.thread_count,
        modules: findings.modules,
        connections: findings.connections,
        derived_flags: DerivedFlags::none(),
    }
}

/// Reports on a process.
pub fn report_of(entry: &ProcessEntry, findings: Findings) -> (r: ProcessInfo)
    ensures
        r@ == report(entry@, findings@),
        r.pid == entry.pid,
        r.ppid == entry.ppid,
        r.thread_count == entry.thread_count,
        findings.path matches Some(path) ==> r.exe_path@ == path@,
        findings.path is None ==> r.exe_path@ == utf16_lossy(until_zero(entry.exe_file@)),
        text_view(r.command_line) == text_view(findings.command_line),
        text_view(r.integrity_level) == text_view(findings.integrity_level),
        r.is_signed == Some(findings.is_signed),
        text_view(r.signer_name) == text_view(findings.signer_name),
        text_view(r.sha256) == text_view(findings.sha256),
        r.cpu_percent == findings.cpu,
        r.modules@ == findings.modules@,
        r.connections@ == findings.connections@,
        r.user is None && r.domain is None && r.working_set_mb is None,
{
    let exe_path = match findings.path {
        Some(path) => path,
        None => decode_until_zero(&entry.exe_file),
    };
    ProcessInfo {
        pid: entry.pid,
        ppid: entry.ppid,
        exe_path,
        command_line: findings.command_line,
        user: None,
        domain: None,
        integrity_level: findings.integrity_level,
        is_signed: Some(findings.is_signed),
        signer_name: findings.signer_name,
        sha256: findings.sha256,
        cpu_percent: findings.cpu,
        working_set_mb: None,
        thread_count: entry.thread_count,
        modules: findings.modules,
        connections: findings.connections,
        derived_flags: DerivedFlags::default(),
    }
}

/// A report says of a process what was found out about it, field by field, and of
/// its place among the processes what its entry says.
pub proof fn law_report_says_what_was_found(entry: EntryView, findings: FindingsView)
    ensures
        report(entry, findings).pid == entry.pid,
        report(entry, findings).ppid == entry.ppid,
        report(entry, findings).thread_count == entry.thread_count,
        findings.path matches Some(path) ==> report(entry, findings).exe_path == path,
        report(entry, findings).command_line == findings.command_line,
        report(entry, findings).integrity_level == findings.integrity_level,
        report(entry, findings).is_signed == Some(findings.is_signed),
        report(entry, findings).signer_name == findings.signer_name,
        report(entry, findings).sha256 == findings.sha256,
        report(entry, findings).cpu_percent == findings.cpu,
        report(entry, findings).modules == findings.modules,
        report(entry, findings).connections == findings.connections,
{
}

/// What is not looked for is not reported: no user, no domain, no working set, and
/// none of the signs.
pub proof fn law_report_makes_nothing_up(entry: EntryView, findings: FindingsView)
    ensures
        report(entry, findings).user is None,
        report(entry, findings).domain is None,
        report(entry, findings).working_set_mb is None,
        !report(entry, findings).derived_flags.path_is_temp_or_appdata,
        !report(entry, findings).derived_flags.parent_is_office_or_browser,
        !report(entry, findings).derived_flags.has_outbound_network,
        !report(entry, findings).derived_flags.is_signed_and_trusted,
        !report(entry, findings).derived_flags.elevated_integrity,
{
}

/// Where the path is not known, the name of the image in the entry stands in its
/// place: up to the zero behind it, whatever follows.
pub proof fn law_name_stands_in_for_the_path(
    entry: EntryView,
    findings: FindingsView,
    name: Seq<char>,
    garbage: Seq<u16>,
)
    requires
        findings.path is None,
        !name.contains('\u{0}'),
        entry.exe_file == utf16_encode(name).push(0) + garbage || entry.exe_file == utf16_encode(
            name,
        ),
    ensures
        report(entry, findings).exe_path == name,
{
    if entry.exe_file == utf16_encode(name).push(0) + garbage {
        crate::utf16::law_null_terminated_reads_back(name, garbage);
    } else {
        crate::utf16::law_unterminated_reads_back(name);
    }
}

/// Two processes with different findings have different reports: nothing that was
/// found out is lost.
pub proof fn law_report_tells_the_findings(entry: EntryView, a: FindingsView, b: FindingsView)
    requires
        report(entry, a) == report(entry, b),
        a.path is Some && b.path is Some,
    ensures
        a == b,
{
}

/// The view of a report shows every field of it.
pub proof fn law_report_view_is_faithful(p: ProcessInfo)
    ensures
        p@.pid == p.pid,
        p@.ppid == p.ppid,
        p@.exe_path == p.exe_path@,
        p@.command_line == text_view(p.command_line),
        p@.user == text_view(p.user),
        p@.domain == text_view(p.domain),
        p@.integrity_level == text_view(p.integrity_level),
        p@.is_signed == p.is_signed,
        p@.signer_name == text_view(p.signer_name),
        p@.sha256 == text_view(p.sha256),
        p@.cpu_percent == p.cpu_percent,
        p@.working_set_mb == p.working_set_mb,
        p@.thread_count == p.thread_count,
        p@.modules == texts_view(p.modules@),
        p@.connections == connections_view(p.connections@),
        p@.derived_flags == p.derived_flags,
{
}

/// The views of an entry and of findings show every field of them.
pub proof fn law_finding_views_are_faithful(e: ProcessEntry, f: Findings)
    ensures
        e@.pid == e.pid,
        e@.ppid == e.ppid,
        e@.thread_count == e.thread_count,
        e@.exe_file == e.exe_file@,
        f@.path == text_view(f.path),
        f@.is_signed == f.is_signed,
        f@.signer_name == text_view(f.signer_name),
        f@.connections == connections_view(f.connections@),
        f@.integrity_level == text_view(f.integrity_level),
        f@.modules == texts_view(f.modules@),
        f@.sha256 == text_view(f.sha256),
        f@.cpu == f.cpu,
        f@.command_line == text_view(f.command_line),
{
}

} // verus!
