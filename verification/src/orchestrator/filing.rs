//! How the collector files a snapshot and what it answers the agent.

use vstd::prelude::*;
use crate::model::SystemSnapshot;
use crate::orchestrator::openai::{analysis_name, law_analysis_is_named_after_the_snapshot};
use crate::text::same_text;
use crate::time::{
    is_stamp, law_stamp_has_no_underscore, law_stamp_tells_the_second, stamp, stamp_of, Timestamp,
};

verus! {

/// The directory for the snapshots of a stage.
pub open spec fn subdirectory(stage: Seq<char>) -> Seq<char> {
    if stage == "processes"@ {
        "process_snapshots"@
    } else if stage == "net"@ {
        "net_snapshots"@
    } else if stage == "file"@ {
        "file_snapshots"@
    } else {
        stage
    }
}

/// What the name of a file says of the stage.
pub open spec fn stage_label(stage: Seq<char>) -> Seq<char> {
    if stage == "processes"@ {
        "process"@
    } else {
        stage
    }
}

/// The name of the file for a snapshot: stage, time and host.
pub open spec fn snapshot_name(stage: Seq<char>, stamp: Seq<char>, host: Seq<char>) -> Seq<char> {
    stage_label(stage) + "_snapshot_"@ + stamp + "_"@ + host + ".json"@
}

/// Where a snapshot goes, within the storage of the collector.
#[derive(Debug)]
pub struct FilingPlan {
    pub subdirectory: String,
    pub file_name: String,
}

/// Picks the directory for the snapshots of a stage.
pub fn subdirectory_for(stage: &str) -> (r: String)
    ensures
        r@ == subdirectory(stage@),
{
    if same_text(stage, "processes") {
        "process_snapshots".to_owned()
    } else if same_text(stage, "net") {
        "net_snapshots".to_owned()
    } else if same_text(stage, "file") {
        "file_snapshots".to_owned()
    } else {
        stage.to_owned()
    }
}

/// Names the file for a snapshot, given its stamp.
pub fn snapshot_file_name(stage: &str, stamp: &str, host: &str) -> (r: String)
    ensures
        r@ == snapshot_name(stage@, stamp@, host@),
{
    let label = if same_text(stage, "processes") {
        "process".to_owned()
    } else {
        stage.to_owned()
    };
    label.concat("_snapshot_").concat(stamp).concat("_").concat(host).concat(".json")
}

/// Decides where a snapshot of a stage goes.
pub fn plan_filing(stage: &str, snapshot: &SystemSnapshot) -> (r: FilingPlan)
    requires
        snapshot.collected_at.valid(),
    ensures
        r.subdirectory@ == subdirectory(stage@),
        r.file_name@ == snapshot_name(
            stage@,
            stamp(snapshot.collected_at),
            snapshot.host_id@,
        ),
        is_stamp(snapshot.collected_at, stamp(snapshot.collected_at)),
{
    let stamp = stamp_of(snapshot.collected_at);
    FilingPlan {
        subdirectory: subdirectory_for(stage),
        file_name: snapshot_file_name(stage, stamp.as_str(), snapshot.host_id.as_str()),
    }
}

/// What the agent is answered.
#[derive(Clone, Copy, Debug, PartialEq, Eq, Structural)]
pub enum FilingReply {
    StorageError,
    InvalidSnapshot,
    WriteFailed,
    Stored,
}

/// The status of an answer.
pub open spec fn reply_status(reply: FilingReply) -> u16 {
    match reply {
        FilingReply::StorageError => 500,
        FilingReply::InvalidSnapshot => 400,
        FilingReply::WriteFailed => 500,
        FilingReply::Stored => 200,
    }
}

/// The text of an answer.
pub open spec fn reply_text(reply: FilingReply) -> Seq<char> {
    match reply {
        FilingReply::StorageError => "storage error"@,
        FilingReply::InvalidSnapshot => "invalid snapshot"@,
        FilingReply::WriteFailed => "write failed"@,
        FilingReply::Stored => "ok"@,
    }
}

impl FilingReply {
    /// The status of the answer.
    pub fn status(self) -> (r: u16)
        ensures
            r == reply_status(self),
            r == match self {
                FilingReply::StorageError => 500u16,
                FilingReply::InvalidSnapshot => 400,
                FilingReply::WriteFailed => 500,
                FilingReply::Stored => 200,
            },
    {
        match self {
            FilingReply::StorageError => 500,
            FilingReply::InvalidSnapshot => 400,
            FilingReply::WriteFailed => 500,
            FilingReply::Stored => 200,
        }
    }

    /// The text of the answer.
    pub fn body(self) -> (r: &'static str)
        ensures
            r@ == reply_text(self),
            r@ == match self {
                FilingReply::StorageError => "storage error"@,
                FilingReply::InvalidSnapshot => "invalid snapshot"@,
                FilingReply::WriteFailed => "write failed"@,
                FilingReply::Stored => "ok"@,
            },
    {
        match self {
            FilingReply::StorageError => "storage error",
            FilingReply::InvalidSnapshot => "invalid snapshot",
            FilingReply::WriteFailed => "write failed",
            FilingReply::Stored => "ok",
        }
    }

    /// Whether the language models are to look at the snapshot: only one that was
    /// stored.
    pub fn consults_models(self) -> (r: bool)
        ensures
            r == (self is Stored),
    {
        match self {
            FilingReply::Stored => true,
            _ => false,
        }
    }
}

/// What to do next with a snapshot that came in.
#[derive(Clone, Copy, Debug, PartialEq, Eq, Structural)]
pub enum FilingStage {
    CreateDirectory,
    Serialize,
    WriteFile,
    Reply(FilingReply),
}

impl FilingStage {
    /// The next stage after a step went well, or the answer to one that did not.
    pub open spec fn step(self, ok: bool, on_success: FilingStage, on_failure: FilingReply) -> Self {
        if ok {
            on_success
        } else {
            FilingStage::Reply(on_failure)
        }
    }

    /// The start for every snapshot.
    pub fn new() -> (r: Self)
        ensures
            r is CreateDirectory,
    {
        FilingStage::CreateDirectory
    }

    /// Whether the directory is there.
    pub fn directory_created(self, ok: bool) -> (r: Self)
        ensures
            r == if self is CreateDirectory {
                self.step(ok, FilingStage::Serialize, FilingReply::StorageError)
            } else {
                self
            },
    {
        match self {
            FilingStage::CreateDirectory => if ok {
                FilingStage::Serialize
            } else {
                FilingStage::Reply(FilingReply::StorageError)
            },
            _ => self,
        }
    }

    /// Whether the snapshot could be written out as text.
    pub fn serialized(self, ok: bool) -> (r: Self)
        ensures
            r == if self is Serialize {
                self.step(ok, FilingStage::WriteFile, FilingReply::InvalidSnapshot)
            } else {
                self
            },
    {
        match self {
            FilingStage::Serialize => if ok {
                FilingStage::WriteFile
            } else {
                FilingStage::Reply(FilingReply::InvalidSnapshot)
            },
            _ => self,
        }
    }

    /// Whether the file was written.
    pub fn written(self, ok: bool) -> (r: Self)
        ensures
            r == if self is WriteFile {
                self.step(
                    ok,
                    FilingStage::Reply(FilingReply::Stored),
                    FilingReply::WriteFailed,
                )
            } else {
                self
            },
    {
        match self {
            FilingStage::WriteFile => if ok {
                FilingStage::Reply(FilingReply::Stored)
            } else {
                FilingStage::Reply(FilingReply::WriteFailed)
            },
            _ => self,
        }
    }
}

/// The answer to a snapshot, given how each step went: the first step that fails
/// decides it.
pub open spec fn filing_outcome(created: bool, serialized: bool, written: bool) -> FilingReply {
    if !created {
        FilingReply::StorageError
    } else if !serialized {
        FilingReply::InvalidSnapshot
    } else if !written {
        FilingReply::WriteFailed
    } else {
        FilingReply::Stored
    }
}

/// Works out the answer to a snapshot, given how each step went or would have gone.
pub fn filing_reply(created: bool, serialized: bool, written: bool) -> (r: FilingReply)
    ensures
        r == filing_outcome(created, serialized, written),
        r is Stored <==> created && serialized && written,
        r is StorageError <==> !created,
        r is InvalidSnapshot <==> created && !serialized,
        r is WriteFailed <==> created && serialized && !written,
{
    let end = FilingStage::new().directory_created(created).serialized(serialized).written(written);
    match end {
        FilingStage::Reply(reply) => reply,
        _ => FilingReply::StorageError,
    }
}

/// What stands in a file name behind the label of the stage.
spec fn name_tail(stamp: Seq<char>, host: Seq<char>) -> Seq<char> {
    "_snapshot_"@ + stamp + "_"@ + host + ".json"@
}

proof fn lemma_name_parts(stage: Seq<char>, stamp: Seq<char>, host: Seq<char>)
    ensures
        snapshot_name(stage, stamp, host) == stage_label(stage) + name_tail(stamp, host),
{
    let a = stage_label(stage);
    let b = "_snapshot_"@;
    let c = "_"@;
    let d = ".json"@;
    assert(a + b + stamp + c + host + d =~= a + (b + stamp + c + host + d));
}

spec fn no_underscore(s: Seq<char>) -> bool {
    forall|i: int| 0 <= i < s.len() ==> #[trigger] s[i] != '_'
}

/// The underscore behind a stamp is the first, so it ends the stamp.
proof fn lemma_stamp_ends_at_underscore(
    stamp1: Seq<char>,
    host1: Seq<char>,
    stamp2: Seq<char>,
    host2: Seq<char>,
)
    requires
        no_underscore(stamp2),
        name_tail(stamp1, host1) == name_tail(stamp2, host2),
    ensures
        stamp1.len() >= stamp2.len(),
{
    reveal_strlit("_");
    let b = "_snapshot_"@.len();
    if stamp1.len() < stamp2.len() {
        let i = stamp1.len() as int;
        assert(name_tail(stamp1, host1)[b + i] == '_');
        assert(name_tail(stamp2, host2)[b + i] == stamp2[i]);
    }
}

proof fn lemma_tail_tells_stamp_and_host(
    stamp1: Seq<char>,
    host1: Seq<char>,
    stamp2: Seq<char>,
    host2: Seq<char>,
)
    requires
        no_underscore(stamp1),
        no_underscore(stamp2),
        name_tail(stamp1, host1) == name_tail(stamp2, host2),
    ensures
        stamp1 == stamp2,
        host1 == host2,
{
    lemma_stamp_ends_at_underscore(stamp1, host1, stamp2, host2);
    lemma_stamp_ends_at_underscore(stamp2, host2, stamp1, host1);
    let t = name_tail(stamp1, host1);
    let u = name_tail(stamp2, host2);
    let n = stamp1.len() as int;
    let b = "_snapshot_"@.len();
    let c = "_"@.len();
    assert(t.len() == b + n + c + host1.len() + ".json"@.len());
    assert(u.len() == b + n + c + host2.len() + ".json"@.len());
    assert forall|i: int| 0 <= i < n implies stamp1[i] == stamp2[i] by {
        assert(t[b + i] == stamp1[i]);
        assert(u[b + i] == stamp2[i]);
    }
    assert(stamp1 =~= stamp2);
    assert forall|i: int| 0 <= i < host1.len() implies host1[i] == host2[i] by {
        assert(t[b + n + c + i] == host1[i]);
        assert(u[b + n + c + i] == host2[i]);
    }
    assert(host1 =~= host2);
}

/// A stage with a directory of another name, and the stage that is named like that
/// directory, never use the same file name.
proof fn lemma_alias_is_kept_apart(
    stage: Seq<char>,
    stamp1: Seq<char>,
    host1: Seq<char>,
    stamp2: Seq<char>,
    host2: Seq<char>,
)
    requires
        subdirectory(stage) != stage,
    ensures
        snapshot_name(stage, stamp1, host1) != snapshot_name(subdirectory(stage), stamp2, host2),
{
    reveal_strlit("processes");
    reveal_strlit("net");
    reveal_strlit("file");
    reveal_strlit("process");
    reveal_strlit("process_snapshots");
    reveal_strlit("net_snapshots");
    reveal_strlit("file_snapshots");
    reveal_strlit("_snapshot_");
    let dir = subdirectory(stage);
    let label = stage_label(stage);
    lemma_name_parts(stage, stamp1, host1);
    lemma_name_parts(dir, stamp2, host2);
    assert(stage_label(dir) == dir) by {
        assert(dir.len() != "processes"@.len());
    }
    let n = label.len() as int;
    assert(dir.len() == n + 10);
    assert(name_tail(stamp1, host1)[9] == '_');
    assert(snapshot_name(stage, stamp1, host1)[n + 9] == name_tail(stamp1, host1)[9]);
    assert(snapshot_name(dir, stamp2, host2)[n + 9] == dir[n + 9]);
    assert(dir[n + 9] == 's');
}

/// Snapshots that differ in stage, in the second they were taken or in host never
/// share a directory and a file name: none is written over another.
pub proof fn law_snapshots_are_kept_apart(
    stage1: Seq<char>,
    time1: Timestamp,
    stamp1: Seq<char>,
    host1: Seq<char>,
    stage2: Seq<char>,
    time2: Timestamp,
    stamp2: Seq<char>,
    host2: Seq<char>,
)
    requires
        time1.valid(),
        time2.valid(),
        is_stamp(time1, stamp1),
        is_stamp(time2, stamp2),
        subdirectory(stage1) == subdirectory(stage2),
        snapshot_name(stage1, stamp1, host1) == snapshot_name(stage2, stamp2, host2),
    ensures
        stage1 == stage2,
        time1.secs == time2.secs,
        time1.nanos as int / 1_000_000_000 == time2.nanos as int / 1_000_000_000,
        host1 == host2,
{
    law_stamp_has_no_underscore(time1, stamp1);
    law_stamp_has_no_underscore(time2, stamp2);
    if stage1 != stage2 {
        if subdirectory(stage1) == stage1 {
            lemma_alias_is_kept_apart(stage2, stamp2, host2, stamp1, host1);
        } else if subdirectory(stage2) == stage2 {
            lemma_alias_is_kept_apart(stage1, stamp1, host1, stamp2, host2);
        } else {
            lemma_directories_differ();
        }
        assert(false);
    }
    lemma_name_parts(stage1, stamp1, host1);
    lemma_name_parts(stage2, stamp2, host2);
    let l = stage_label(stage1);
    let x = name_tail(stamp1, host1);
    let y = name_tail(stamp2, host2);
    assert((l + x).skip(l.len() as int) =~= x);
    assert((l + y).skip(l.len() as int) =~= y);
    lemma_tail_tells_stamp_and_host(stamp1, host1, stamp2, host2);
    law_stamp_tells_the_second(time1, time2, stamp1);
}

proof fn lemma_directories_differ()
    ensures
        "process_snapshots"@ != "net_snapshots"@,
        "process_snapshots"@ != "file_snapshots"@,
        "net_snapshots"@ != "file_snapshots"@,
{
    reveal_strlit("process_snapshots");
    reveal_strlit("net_snapshots");
    reveal_strlit("file_snapshots");
    assert("process_snapshots"@.len() == 17);
    assert("net_snapshots"@.len() == 13);
    assert("file_snapshots"@.len() == 14);
}

/// Snapshots of processes, of the net and of files have directories of their own, and
/// those of any other stage one that is named like the stage.
pub proof fn law_stages_have_directories(stage: Seq<char>)
    ensures
        subdirectory("processes"@) == "process_snapshots"@,
        subdirectory("net"@) == "net_snapshots"@,
        subdirectory("file"@) == "file_snapshots"@,
        stage != "processes"@ && stage != "net"@ && stage != "file"@ ==> subdirectory(stage)
            == stage,
{
    reveal_strlit("processes");
    reveal_strlit("net");
    reveal_strlit("file");
    assert("processes"@.len() == 9 && "net"@.len() == 3 && "file"@.len() == 4);
}

/// A file name tells stage, time and host, in that order. For processes the stage is
/// in the singular.
pub proof fn law_file_name_tells_stage_time_and_host(
    stage: Seq<char>,
    stamp: Seq<char>,
    host: Seq<char>,
)
    ensures
        snapshot_name("processes"@, stamp, host) == "process_snapshot_"@ + stamp + "_"@ + host
            + ".json"@,
        stage != "processes"@ ==> snapshot_name(stage, stamp, host) == stage + "_snapshot_"@ + stamp
            + "_"@ + host + ".json"@,
{
    reveal_strlit("process");
    reveal_strlit("_snapshot_");
    reveal_strlit("process_snapshot_");
    assert("process"@ + "_snapshot_"@ =~= "process_snapshot_"@);
}

/// What is said of a stored snapshot goes beside it, under the name of its stage, time
/// and host.
pub proof fn law_analysis_stands_beside_its_snapshot(
    stage: Seq<char>,
    stamp: Seq<char>,
    host: Seq<char>,
    id: Seq<char>,
)
    requires
        stage != "processes"@,
    ensures
        analysis_name(snapshot_name(stage, stamp, host), id) == stage + "_snapshot_"@ + stamp
            + "_"@ + host + "."@ + id + ".analysis.json"@,
        analysis_name(snapshot_name("processes"@, stamp, host), id) == "process_snapshot_"@ + stamp
            + "_"@ + host + "."@ + id + ".analysis.json"@,
{
    law_file_name_tells_stage_time_and_host(stage, stamp, host);
    let json = "json"@;
    let a = stage + "_snapshot_"@ + stamp + "_"@ + host;
    let b = "process_snapshot_"@ + stamp + "_"@ + host;
    assert(".json"@ == "."@ + json && !json.contains('.')) by {
        reveal_strlit(".json");
        reveal_strlit(".");
        reveal_strlit("json");
        assert(".json"@ =~= "."@ + json);
    }
    assert(a.len() > 0 && b.len() > 0) by {
        reveal_strlit("_");
    }
    assert(a + ".json"@ =~= a + "."@ + json);
    assert(b + ".json"@ =~= b + "."@ + json);
    law_analysis_is_named_after_the_snapshot(a, json, id);
    law_analysis_is_named_after_the_snapshot(b, json, id);
}

/// Success is answered for a stored snapshot alone. A snapshot that cannot be written
/// out is the fault of the sender, and trouble with the storage that of the collector.
pub proof fn law_status_tells_whose_fault_it_is(reply: FilingReply)
    ensures
        crate::status::is_success(reply_status(reply)) <==> reply is Stored,
        reply is Stored ==> reply_status(reply) == 200 && reply_text(reply) == "ok"@,
        reply is InvalidSnapshot ==> reply_status(reply) == 400 && reply_text(reply)
            == "invalid snapshot"@,
        reply is StorageError ==> reply_status(reply) == 500 && reply_text(reply)
            == "storage error"@,
        reply is WriteFailed ==> reply_status(reply) == 500 && reply_text(reply)
            == "write failed"@,
{
}

/// Of three steps the first that fails decides the answer.
pub proof fn law_first_failure_decides_the_answer(created: bool, serialized: bool, written: bool)
    ensures
        filing_outcome(false, serialized, written) is StorageError,
        filing_outcome(true, false, written) is InvalidSnapshot,
        filing_outcome(true, true, false) is WriteFailed,
        filing_outcome(created, serialized, written) is Stored <==> created && serialized
            && written,
{
}

} // verus!
