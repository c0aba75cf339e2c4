//! What a model behind the chat interface of OpenAI is asked, and what becomes of
//! its answer.

use vstd::prelude::*;
use crate::orchestrator::llm::LlmTarget;
use crate::status::{is_success, is_success_status};
use crate::text::{
    file_stem, law_trimmed_end_ignores_one_more, stem, text_view, texts_view, trim_end_char,
    trimmed_end,
};

verus! {

/// The address of the interface, given the one that the operator chose.
pub open spec fn api_base(chosen: Option<Seq<char>>) -> Seq<char> {
    match chosen {
        Some(base) => base,
        None => "https://api.openai.com/v1"@,
    }
}

/// Where to send a question.
pub open spec fn completions_address(chosen: Option<Seq<char>>) -> Seq<char> {
    trimmed_end(api_base(chosen), '/') + "/chat/completions"@
}

/// Works out where to send a question.
pub fn completions_url(chosen: Option<String>) -> (r: String)
    ensures
        r@ == completions_address(text_view(chosen)),
{
    let base = match chosen {
        Some(base) => base,
        None => "https://api.openai.com/v1".to_owned(),
    };
    trim_end_char(base.as_str(), '/').concat("/chat/completions")
}

/// It makes no difference whether the address that the operator chose ends in a
/// slash.
pub proof fn law_slash_at_the_end_is_ignored(base: Seq<char>)
    ensures
        completions_address(Some(base.push('/'))) == completions_address(Some(base)),
{
    law_trimmed_end_ignores_one_more(base, '/');
}

/// What the model is told of its part.
pub open spec fn system_prompt(stage: Seq<char>, host: Seq<char>) -> Seq<char> {
    "You are an incident-response assistant. You are analyzing "@ + stage
        + " telemetry for host "@ + host
        + ". Return a concise JSON object with keys like 'summary', 'suspicious_items', and 'recommendations'."@
}

/// What the model is asked: it gets the snapshot as it was filed.
pub open spec fn user_prompt(stage: Seq<char>, host: Seq<char>, json: Seq<char>) -> Seq<char> {
    "Here is the raw JSON snapshot for stage '"@ + stage + "' on host '"@ + host + "':\n\n"@ + json
}

/// One turn of a chat.
#[derive(Debug)]
pub struct ChatMessage {
    pub role: String,
    pub content: String,
}

/// What a turn of a chat holds.
pub struct ChatMessageView {
    pub role: Seq<char>,
    pub content: Seq<char>,
}

impl View for ChatMessage {
    type V = ChatMessageView;

    open spec fn view(&self) -> ChatMessageView {
        ChatMessageView { role: self.role@, content: self.content@ }
    }
}

/// A question to a model. It is asked at temperature zero.
#[derive(Debug)]
pub struct ChatRequestBody {
    pub model: String,
    pub messages: Vec<ChatMessage>,
}

/// The turns of a question: first the part of the model, and the snapshot next.
pub open spec fn chat_turns(stage: Seq<char>, host: Seq<char>, json: Seq<char>) -> Seq<
    ChatMessageView,
> {
    seq![
        ChatMessageView { role: "system"@, content: system_prompt(stage, host) },
        ChatMessageView { role: "user"@, content: user_prompt(stage, host, json) },
    ]
}

/// Puts the question about a snapshot together.
pub fn chat_request(target: &LlmTarget, stage: &str, host_id: &str, snapshot_json: &str) -> (r:
    ChatRequestBody)
    ensures
        r.model@ == target.model@,
        r.messages@.len() == 2,
        r.messages@[0].role@ == "system"@,
        r.messages@[0].content@ == "You are an incident-response assistant. You are analyzing "@
            + stage@ + " telemetry for host "@ + host_id@
            + ". Return a concise JSON object with keys like 'summary', 'suspicious_items', and 'recommendations'."@,
        r.messages@[1].role@ == "user"@,
        r.messages@[1].content@ == "Here is the raw JSON snapshot for stage '"@ + stage@
            + "' on host '"@ + host_id@ + "':\n\n"@ + snapshot_json@,
        r.messages@.map_values(|m: ChatMessage| m@) == chat_turns(
            stage@,
            host_id@,
            snapshot_json@,
        ),
{
    let part = "You are an incident-response assistant. You are analyzing ".to_owned().concat(
        stage,
    ).concat(" telemetry for host ").concat(host_id).concat(
        ". Return a concise JSON object with keys like 'summary', 'suspicious_items', and 'recommendations'.",
    );
    let question = "Here is the raw JSON snapshot for stage '".to_owned().concat(stage).concat(
        "' on host '",
    ).concat(host_id).concat("':\n\n").concat(snapshot_json);
    let mut messages: Vec<ChatMessage> = Vec::new();
    messages.push(ChatMessage { role: "system".to_owned(), content: part });
    messages.push(ChatMessage { role: "user".to_owned(), content: question });
    proof {
        assert(messages@.map_values(|m: ChatMessage| m@) =~= chat_turns(
            stage@,
            host_id@,
            snapshot_json@,
        ));
    }
    ChatRequestBody { model: target.model.as_str().to_owned(), messages }
}

/// A snapshot reaches the model unabridged, at the end of the question.
pub proof fn law_question_ends_in_the_snapshot(stage: Seq<char>, host: Seq<char>, json: Seq<char>)
    ensures
        user_prompt(stage, host, json).len() >= json.len(),
        user_prompt(stage, host, json).skip(user_prompt(stage, host, json).len() - json.len())
            == json,
{
    let q = user_prompt(stage, host, json);
    assert(q.skip(q.len() - json.len()) =~= json);
}

/// The text to keep of an answer: that of its first choice, or an empty object
/// where there is none.
pub open spec fn kept_text(choices: Seq<Seq<char>>) -> Seq<char> {
    if choices.len() == 0 {
        "{}"@
    } else {
        choices[0]
    }
}

/// Picks the text to keep of an answer.
pub fn analysis_text(choices: &Vec<String>) -> (r: String)
    ensures
        r@ == kept_text(texts_view(choices@)),
        choices@.len() == 0 ==> r@ == "{}"@,
        choices@.len() > 0 ==> r@ == choices@[0]@,
{
    if choices.len() == 0 {
        "{}".to_owned()
    } else {
        choices[0].as_str().to_owned()
    }
}

/// The name of the file for what a model says of a snapshot.
pub open spec fn analysis_name(snapshot_file: Seq<char>, target_id: Seq<char>) -> Seq<char> {
    stem(snapshot_file) + "."@ + target_id + ".analysis.json"@
}

/// Names the file for what a model says of a snapshot.
pub fn analysis_file_name(snapshot_file: &str, target_id: &str) -> (r: String)
    ensures
        r@ == analysis_name(snapshot_file@, target_id@),
{
    file_stem(snapshot_file).concat(".").concat(target_id).concat(".analysis.json")
}

/// What a model says is never written over the snapshot.
pub proof fn law_analysis_spares_the_snapshot(snapshot_file: Seq<char>, target_id: Seq<char>)
    ensures
        analysis_name(snapshot_file, target_id) != snapshot_file,
{
    reveal_strlit(".");
    reveal_strlit(".analysis.json");
    let name = analysis_name(snapshot_file, target_id);
    if name == snapshot_file {
        let n = name.len();
        name.index_of_last_ensures('.');
        let tail = ".analysis.json"@;
        let dot = n - 5;
        assert(name[dot] == tail[9]);
        assert(name.contains('.'));
        let last = name.index_of_last('.')->0;
        assert(last >= dot);
        assert(stem(name).len() == last);
        assert(name.len() == last + 1 + target_id.len() + 14);
    }
}

/// Two models never share a file for what they say of one snapshot.
pub proof fn law_analyses_are_kept_apart(snapshot_file: Seq<char>, a: Seq<char>, b: Seq<char>)
    requires
        analysis_name(snapshot_file, a) == analysis_name(snapshot_file, b),
    ensures
        a == b,
{
    let x = analysis_name(snapshot_file, a);
    let y = analysis_name(snapshot_file, b);
    let n = stem(snapshot_file).len() + "."@.len();
    let t = ".analysis.json"@.len();
    assert(x.subrange(n as int, x.len() - t) =~= a);
    assert(y.subrange(n as int, y.len() - t) =~= b);
}

/// How the consultation of one model ended.
#[derive(Clone, Copy, Debug, PartialEq, Eq, Structural)]
pub enum DispatchOutcome {
    /// There is no key, so the model was not asked.
    Skipped,
    /// The question could not be sent.
    SendFailed,
    /// The interface answered with a status other than success.
    Refused,
    /// The answer could not be read.
    ReplyUnreadable,
    /// What the model said could not be written.
    WriteFailed,
    /// What the model said was written.
    Stored,
}

impl DispatchOutcome {
    /// The outcome keeps the other models from being asked. A missing key and a
    /// refusal do not.
    pub open spec fn is_error(self) -> bool {
        self is SendFailed || self is ReplyUnreadable || self is WriteFailed
    }

    /// Whether the outcome keeps the other models from being asked.
    pub fn aborts(self) -> (r: bool)
        ensures
            r == self.is_error(),
    {
        match self {
            DispatchOutcome::SendFailed => true,
            DispatchOutcome::ReplyUnreadable => true,
            DispatchOutcome::WriteFailed => true,
            _ => false,
        }
    }
}

/// What to do next to have one model look at a snapshot.
#[derive(Clone, Copy, Debug, PartialEq, Eq, Structural)]
pub enum DispatchStage {
    /// Look for the key.
    ReadKey,
    /// Send the question.
    Send,
    /// Read the text of a refusal, for the log.
    ReadRefusal,
    /// Read the answer.
    ReadReply,
    /// Write what the model said.
    WriteAnalysis,
    Done(DispatchOutcome),
}

impl DispatchStage {
    /// The start for every model.
    pub fn new() -> (r: Self)
        ensures
            r is ReadKey,
    {
        DispatchStage::ReadKey
    }

    /// Whether there is a key.
    pub fn key_read(self, present: bool) -> (r: Self)
        ensures
            r == if self is ReadKey {
                if present {
                    DispatchStage::Send
                } else {
                    DispatchStage::Done(DispatchOutcome::Skipped)
                }
            } else {
                self
            },
    {
        match self {
            DispatchStage::ReadKey => if present {
                DispatchStage::Send
            } else {
                DispatchStage::Done(DispatchOutcome::Skipped)
            },
            _ => self,
        }
    }

    /// The status of the answer to the question, if it could be sent.
    pub fn sent(self, status: Option<u16>) -> (r: Self)
        ensures
            r == if self is Send {
                match status {
                    None => DispatchStage::Done(DispatchOutcome::SendFailed),
                    Some(s) => if is_success(s) {
                        DispatchStage::ReadReply
                    } else {
                        DispatchStage::ReadRefusal
                    },
                }
            } else {
                self
            },
    {
        match self {
            DispatchStage::Send => match status {
                None => DispatchStage::Done(DispatchOutcome::SendFailed),
                Some(s) => if is_success_status(s) {
                    DispatchStage::ReadReply
                } else {
                    DispatchStage::ReadRefusal
                },
            },
            _ => self,
        }
    }

    /// The text of a refusal was read, or could not be.
    pub fn refusal_read(self) -> (r: Self)
        ensures
            r == if self is ReadRefusal {
                DispatchStage::Done(DispatchOutcome::Refused)
            } else {
                self
            },
    {
        match self {
            DispatchStage::ReadRefusal => DispatchStage::Done(DispatchOutcome::Refused),
            _ => self,
        }
    }

    /// Whether the answer could be read.
    pub fn reply_read(self, ok: bool) -> (r: Self)
        ensures
            r == if self is ReadReply {
                if ok {
                    DispatchStage::WriteAnalysis
                } else {
                    DispatchStage::Done(DispatchOutcome::ReplyUnreadable)
                }
            } else {
                self
            },
    {
        match self {
            DispatchStage::ReadReply => if ok {
                DispatchStage::WriteAnalysis
            } else {
                DispatchStage::Done(DispatchOutcome::ReplyUnreadable)
            },
            _ => self,
        }
    }

    /// Whether what the model said was written.
    pub fn written(self, ok: bool) -> (r: Self)
        ensures
            r == if self is WriteAnalysis {
                if ok {
                    DispatchStage::Done(DispatchOutcome::Stored)
                } else {
                    DispatchStage::Done(DispatchOutcome::WriteFailed)
                }
            } else {
                self
            },
    {
        match self {
            DispatchStage::WriteAnalysis => if ok {
                DispatchStage::Done(DispatchOutcome::Stored)
            } else {
                DispatchStage::Done(DispatchOutcome::WriteFailed)
            },
            _ => self,
        }
    }
}

/// Works out how a consultation ends, given how each step went or would have gone:
/// the first step that does not go well decides it.
pub fn dispatch_outcome(key: bool, status: Option<u16>, reply_ok: bool, write_ok: bool) -> (r:
    DispatchOutcome)
    ensures
        r is Skipped <==> !key,
        r is SendFailed <==> key && status is None,
        r is Refused <==> key && status is Some && !is_success(status->0),
        r is ReplyUnreadable <==> key && status is Some && is_success(status->0) && !reply_ok,
        r is WriteFailed <==> key && status is Some && is_success(status->0) && reply_ok
            && !write_ok,
        r is Stored <==> key && status is Some && is_success(status->0) && reply_ok && write_ok,
{
    let end = DispatchStage::new().key_read(key).sent(status).refusal_read().reply_read(
        reply_ok,
    ).written(write_ok);
    match end {
        DispatchStage::Done(outcome) => outcome,
        _ => DispatchOutcome::Skipped,
    }
}

/// Of an answer the first choice is kept as it is, however many follow it. An empty
/// object stands only for an answer without any.
pub proof fn law_first_choice_is_kept(first: Seq<char>, others: Seq<Seq<char>>)
    ensures
        kept_text(seq![first] + others) == first,
        kept_text(Seq::empty()) == "{}"@,
{
}

/// What a model says of a snapshot stands in a file named like that of the snapshot,
/// with the target in place of the extension and a note of what it is.
pub proof fn law_analysis_is_named_after_the_snapshot(
    base: Seq<char>,
    extension: Seq<char>,
    id: Seq<char>,
)
    requires
        base.len() > 0,
        !extension.contains('.'),
    ensures
        analysis_name(base + "."@ + extension, id) == base + "."@ + id + ".analysis.json"@,
{
    crate::text::law_stem_drops_the_extension(base, extension);
}

/// Questions go to the path for chat completions under the address that the operator
/// chose, with any slashes at its end taken off, or else under the public address.
pub proof fn law_questions_go_to_completions(base: Seq<char>, slashes: nat)
    requires
        base.len() == 0 || base.last() != '/',
    ensures
        completions_address(Some(base + Seq::new(slashes, |i: int| '/'))) == base
            + "/chat/completions"@,
        completions_address(None) == "https://api.openai.com/v1/chat/completions"@,
{
    crate::text::law_trimmed_end_drops_all(base, '/', slashes);
    reveal_strlit("https://api.openai.com/v1");
    reveal_strlit("/chat/completions");
    reveal_strlit("https://api.openai.com/v1/chat/completions");
    assert("https://api.openai.com/v1"@.last() == '1');
    assert(completions_address(None) =~= "https://api.openai.com/v1/chat/completions"@);
}

/// The turns of a question: the part of the model names stage and host, and the
/// question names them again and ends in the snapshot.
pub proof fn law_question_has_two_turns(stage: Seq<char>, host: Seq<char>, json: Seq<char>)
    ensures
        chat_turns(stage, host, json).len() == 2,
        chat_turns(stage, host, json)[0].role == "system"@,
        chat_turns(stage, host, json)[0].content
            == "You are an incident-response assistant. You are analyzing "@ + stage
            + " telemetry for host "@ + host
            + ". Return a concise JSON object with keys like 'summary', 'suspicious_items', and 'recommendations'."@,
        chat_turns(stage, host, json)[1].role == "user"@,
        chat_turns(stage, host, json)[1].content == "Here is the raw JSON snapshot for stage '"@
            + stage + "' on host '"@ + host + "':\n\n"@ + json,
{
}

/// A missing key, a refusal and a stored answer let the other models have their turn.
/// Every other outcome does not.
pub proof fn law_only_failures_abort(outcome: DispatchOutcome)
    ensures
        outcome.is_error() <==> !(outcome is Skipped || outcome is Refused || outcome is Stored),
{
}

} // verus!
