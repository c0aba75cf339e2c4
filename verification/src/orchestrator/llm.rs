//! Which language models look at the snapshots.

use vstd::prelude::*;
use crate::text::{chars_of, find_first, range_of, same_text, texts_view};

verus! {

/// Text within ASCII.
pub open spec fn is_ascii_text(s: Seq<char>) -> bool {
    forall|i: int| 0 <= i < s.len() ==> (#[trigger] s[i] as int) < 128
}

/// ASCII text with `a` to `z` in place of `A` to `Z`.
pub open spec fn ascii_lowercase(s: Seq<char>) -> Seq<char> {
    s.map_values(
        |c: char|
            if 'A' <= c <= 'Z' {
                (c as int + 32) as char
            } else {
                c
            },
    )
}

/// The lower-case form of a text, as the standard library has it from Unicode.
pub uninterp spec fn unicode_lowercase(s: Seq<char>) -> Seq<char>;

/// `str::to_lowercase` of the standard library: within ASCII the letters `A` to `Z`
/// become `a` to `z` and nothing else changes. Beyond ASCII the result follows the
/// tables of Unicode.
pub assume_specification[ str::to_lowercase ](s: &str) -> (r: String)
    ensures
        r@ == if is_ascii_text(s@) {
            ascii_lowercase(s@)
        } else {
            unicode_lowercase(s@)
        },
;

/// The lower-case form of a text.
pub open spec fn lowercase(s: Seq<char>) -> Seq<char> {
    if is_ascii_text(s) {
        ascii_lowercase(s)
    } else {
        unicode_lowercase(s)
    }
}

/// Who runs a model.
#[derive(Clone, Copy, Debug, PartialEq, Eq, Structural)]
pub enum LlmProvider {
    OpenAi,
    Anthropic,
    LocalOllama,
}

/// A model that looks at the snapshots.
#[derive(Debug)]
pub struct LlmTarget {
    /// A short name for file names and logs.
    pub id: String,
    pub provider: LlmProvider,
    /// The name of the model at its provider.
    pub model: String,
}

/// What a target holds.
pub struct TargetView {
    pub id: Seq<char>,
    pub provider: LlmProvider,
    pub model: Seq<char>,
}

impl View for LlmTarget {
    type V = TargetView;

    open spec fn view(&self) -> TargetView {
        TargetView { id: self.id@, provider: self.provider, model: self.model@ }
    }
}

/// What a list of targets holds.
pub open spec fn targets_view(v: Seq<LlmTarget>) -> Seq<TargetView> {
    v.map_values(|t: LlmTarget| t@)
}

/// Why the flags cannot be used.
#[derive(Debug)]
pub enum LlmFlagError {
    /// There is no flag at all.
    NoFlags,
    /// The flag has no colon.
    Malformed(String),
    /// No provider goes by that name.
    UnknownProvider(String),
}

/// What an error holds.
pub enum FlagErrorView {
    NoFlags,
    Malformed(Seq<char>),
    UnknownProvider(Seq<char>),
}

impl View for LlmFlagError {
    type V = FlagErrorView;

    open spec fn view(&self) -> FlagErrorView {
        match self {
            LlmFlagError::NoFlags => FlagErrorView::NoFlags,
            LlmFlagError::Malformed(raw) => FlagErrorView::Malformed(raw@),
            LlmFlagError::UnknownProvider(name) => FlagErrorView::UnknownProvider(name@),
        }
    }
}

impl FlagErrorView {
    /// What the operator is told.
    pub open spec fn message(self) -> Seq<char> {
        match self {
            FlagErrorView::NoFlags => "at least one --llm flag is required"@,
            FlagErrorView::Malformed(raw) => "invalid --llm flag '"@ + raw
                + "', expected provider:model"@,
            FlagErrorView::UnknownProvider(name) => "unknown LLM provider '"@ + name + "'"@,
        }
    }
}

impl LlmFlagError {
    /// What the operator is told.
    pub fn message(&self) -> (r: String)
        ensures
            r@ == self@.message(),
    {
        match self {
            LlmFlagError::NoFlags => "at least one --llm flag is required".to_owned(),
            LlmFlagError::Malformed(raw) => "invalid --llm flag '".to_owned().concat(
                raw.as_str(),
            ).concat("', expected provider:model"),
            LlmFlagError::UnknownProvider(name) => "unknown LLM provider '".to_owned().concat(
                name.as_str(),
            ).concat("'"),
        }
    }
}

/// The provider with a given name in lower case.
pub open spec fn provider_named(name: Seq<char>) -> Option<LlmProvider> {
    if name == "openai"@ {
        Some(LlmProvider::OpenAi)
    } else if name == "anthropic"@ {
        Some(LlmProvider::Anthropic)
    } else if name == "ollama"@ || name == "local"@ {
        Some(LlmProvider::LocalOllama)
    } else {
        None
    }
}

/// The target for a provider, named in lower case, and a model.
pub open spec fn target(name: Seq<char>, model: Seq<char>) -> Result<TargetView, FlagErrorView> {
    match provider_named(name) {
        Some(provider) => Ok(TargetView { id: name + "-"@ + model, provider, model }),
        None => Err(FlagErrorView::UnknownProvider(name)),
    }
}

/// What a result of parsing one flag holds.
pub open spec fn target_result_view(r: Result<LlmTarget, LlmFlagError>) -> Result<
    TargetView,
    FlagErrorView,
> {
    match r {
        Ok(t) => Ok(t@),
        Err(e) => Err(e@),
    }
}

/// Makes the target for a provider, named in lower case, and a model.
pub fn target_of(name: String, model: String) -> (r: Result<LlmTarget, LlmFlagError>)
    ensures
        target_result_view(r) == target(name@, model@),
{
    let provider = if same_text(name.as_str(), "openai") {
        LlmProvider::OpenAi
    } else if same_text(name.as_str(), "anthropic") {
        LlmProvider::Anthropic
    } else if same_text(name.as_str(), "ollama") || same_text(name.as_str(), "local") {
        LlmProvider::LocalOllama
    } else {
        return Err(LlmFlagError::UnknownProvider(name));
    };
    let id = name.concat("-").concat(model.as_str());
    Ok(LlmTarget { id, provider, model })
}

/// A flag is a provider, a colon and a model. The name of the provider may be in any
/// case; the model is what stands behind the first colon, as it is.
pub open spec fn parse_flag(raw: Seq<char>) -> Result<TargetView, FlagErrorView> {
    match raw.index_of_first(':') {
        Some(i) => target(lowercase(raw.take(i)), raw.skip(i + 1)),
        None => Err(FlagErrorView::Malformed(raw)),
    }
}

/// Parses one flag.
pub fn parse_llm_flag(raw: String) -> (r: Result<LlmTarget, LlmFlagError>)
    ensures
        target_result_view(r) == parse_flag(raw@),
{
    let chars = chars_of(raw.as_str());
    match find_first(&chars, ':') {
        Some(i) => {
            proof {
                raw@.index_of_first_ensures(':');
                assert(raw@.subrange(0, i as int) =~= raw@.take(i as int));
                assert(raw@.subrange(i + 1, raw@.len() as int) =~= raw@.skip(i + 1));
            }
            let name = range_of(&chars, 0, i);
            let model = range_of(&chars, i + 1, chars.len());
            target_of(name.as_str().to_lowercase(), model)
        },
        None => Err(LlmFlagError::Malformed(raw)),
    }
}

/// Flags one by one, up to the first that cannot be used.
pub open spec fn parse_each(flags: Seq<Seq<char>>) -> Result<Seq<TargetView>, FlagErrorView>
    decreases flags.len(),
{
    if flags.len() == 0 {
        Ok(Seq::empty())
    } else {
        match parse_each(flags.drop_last()) {
            Ok(targets) => match parse_flag(flags.last()) {
                Ok(t) => Ok(targets.push(t)),
                Err(e) => Err(e),
            },
            Err(e) => Err(e),
        }
    }
}

/// All flags. There has to be one.
pub open spec fn parse_flags(flags: Seq<Seq<char>>) -> Result<Seq<TargetView>, FlagErrorView> {
    if flags.len() == 0 {
        Err(FlagErrorView::NoFlags)
    } else {
        parse_each(flags)
    }
}

/// What a result of parsing all flags holds.
pub open spec fn targets_result_view(r: Result<Vec<LlmTarget>, LlmFlagError>) -> Result<
    Seq<TargetView>,
    FlagErrorView,
> {
    match r {
        Ok(v) => Ok(targets_view(v@)),
        Err(e) => Err(e@),
    }
}

/// Once a flag cannot be used, more flags change nothing.
proof fn lemma_error_stays(flags: Seq<Seq<char>>, n: int)
    requires
        0 <= n <= flags.len(),
        parse_each(flags.take(n)) is Err,
    ensures
        parse_each(flags) == parse_each(flags.take(n)),
    decreases flags.len() - n,
{
    if n == flags.len() {
        assert(flags.take(n) =~= flags);
    } else {
        assert(flags.take(n + 1).drop_last() =~= flags.take(n));
        lemma_error_stays(flags, n + 1);
    }
}

/// Parses the flags that name the models.
pub fn parse_llm_flags(flags: Vec<String>) -> (r: Result<Vec<LlmTarget>, LlmFlagError>)
    ensures
        targets_result_view(r) == parse_flags(texts_view(flags@)),
{
    if flags.len() == 0 {
        return Err(LlmFlagError::NoFlags);
    }
    let ghost raws = texts_view(flags@);
    let mut out: Vec<LlmTarget> = Vec::new();
    let mut i: usize = 0;
    assert(targets_view(out@) =~= Seq::empty());
    while i < flags.len()
        invariant
            i <= flags@.len(),
            raws == texts_view(flags@),
            parse_each(raws.take(i as int)) == Ok::<Seq<TargetView>, FlagErrorView>(
                targets_view(out@),
            ),
        decreases flags@.len() - i,
    {
        let ghost before = out@;
        assert(raws.take(i + 1).drop_last() =~= raws.take(i as int));
        assert(raws.take(i + 1).last() == flags@[i as int]@);
        match parse_llm_flag(flags[i].clone()) {
            Ok(t) => {
                out.push(t);
                assert(targets_view(out@) =~= targets_view(before).push(t@));
            },
            Err(e) => {
                proof {
                    lemma_error_stays(raws, i + 1);
                }
                return Err(e);
            },
        }
        i = i + 1;
    }
    assert(raws.take(raws.len() as int) =~= raws);
    Ok(out)
}

/// The flags can be used where there is at least one and each can be used on its own.
/// There is then one target for each flag, in the order of the flags.
pub proof fn law_flags_are_used_one_by_one(flags: Seq<Seq<char>>)
    ensures
        parse_flags(flags) is Ok <==> flags.len() > 0 && forall|i: int|
            0 <= i < flags.len() ==> parse_flag(#[trigger] flags[i]) is Ok,
        parse_flags(flags) matches Ok(targets) ==> targets.len() == flags.len() && forall|i: int|
            0 <= i < flags.len() ==> parse_flag(#[trigger] flags[i]) == Ok::<
                TargetView,
                FlagErrorView,
            >(targets[i]),
{
    lemma_each(flags);
}

proof fn lemma_each(flags: Seq<Seq<char>>)
    ensures
        parse_each(flags) is Ok <==> forall|i: int|
            0 <= i < flags.len() ==> parse_flag(#[trigger] flags[i]) is Ok,
        parse_each(flags) matches Ok(targets) ==> targets.len() == flags.len() && forall|i: int|
            0 <= i < flags.len() ==> parse_flag(#[trigger] flags[i]) == Ok::<
                TargetView,
                FlagErrorView,
            >(targets[i]),
    decreases flags.len(),
{
    if flags.len() > 0 {
        let init = flags.drop_last();
        lemma_each(init);
        assert(flags.last() == flags[flags.len() - 1]);
        assert forall|i: int| 0 <= i < init.len() implies #[trigger] init[i] == flags[i] by {}
        if parse_each(init) is Err {
            let k = choose|k: int| 0 <= k < init.len() && parse_flag(#[trigger] init[k]) is Err;
            assert(parse_flag(flags[k]) is Err);
        }
        if let Ok(targets) = parse_each(flags) {
            assert forall|i: int| 0 <= i < flags.len() implies parse_flag(#[trigger] flags[i])
                == Ok::<TargetView, FlagErrorView>(targets[i]) by {
                if i < init.len() {
                    assert(init[i] == flags[i]);
                }
            }
        }
        if forall|i: int| 0 <= i < flags.len() ==> parse_flag(#[trigger] flags[i]) is Ok {
            assert forall|i: int| 0 <= i < init.len() implies parse_flag(#[trigger] init[i]) is Ok by {
                assert(parse_flag(flags[i]) is Ok);
            }
        }
    }
}

/// The first flag that cannot be used is the one that is complained about.
pub proof fn law_first_bad_flag_is_reported(flags: Seq<Seq<char>>, bad: int)
    requires
        0 <= bad < flags.len(),
        parse_flag(flags[bad]) is Err,
        forall|i: int| 0 <= i < bad ==> parse_flag(#[trigger] flags[i]) is Ok,
    ensures
        parse_flags(flags) == Err::<Seq<TargetView>, FlagErrorView>(
            parse_flag(flags[bad])->Err_0,
        ),
{
    let head = flags.take(bad);
    assert forall|i: int| 0 <= i < head.len() implies parse_flag(#[trigger] head[i]) is Ok by {
        assert(head[i] == flags[i]);
    }
    lemma_each(head);
    assert(flags.take(bad + 1).drop_last() =~= head);
    assert(flags.take(bad + 1).last() == flags[bad]);
    lemma_error_stays(flags, bad + 1);
}

/// No known provider has a dash in its name.
proof fn lemma_provider_has_no_dash(name: Seq<char>)
    requires
        provider_named(name) is Some,
    ensures
        !name.contains('-'),
{
    reveal_strlit("openai");
    reveal_strlit("anthropic");
    reveal_strlit("ollama");
    reveal_strlit("local");
}

/// Two usable flags with the same name for their target name the same provider and
/// the same model.
pub proof fn law_target_id_tells_the_target(a: Seq<char>, b: Seq<char>)
    requires
        parse_flag(a) is Ok,
        parse_flag(b) is Ok,
        parse_flag(a)->Ok_0.id == parse_flag(b)->Ok_0.id,
    ensures
        parse_flag(a)->Ok_0 == parse_flag(b)->Ok_0,
{
    a.index_of_first_ensures(':');
    b.index_of_first_ensures(':');
    let i = a.index_of_first(':')->0;
    let j = b.index_of_first(':')->0;
    let m = lowercase(a.take(i));
    let n = lowercase(b.take(j));
    let x = a.skip(i + 1);
    let y = b.skip(j + 1);
    lemma_provider_has_no_dash(m);
    lemma_provider_has_no_dash(n);
    reveal_strlit("-");
    let l = m + "-"@ + x;
    let r = n + "-"@ + y;
    assert(l[m.len() as int] == '-');
    assert(r[n.len() as int] == '-');
    if m.len() < n.len() {
        assert(r[m.len() as int] == n[m.len() as int]);
        assert(false);
    }
    if n.len() < m.len() {
        assert(l[n.len() as int] == m[n.len() as int]);
        assert(false);
    }
    assert(m =~= n) by {
        assert forall|k: int| 0 <= k < m.len() implies m[k] == n[k] by {
            assert(l[k] == m[k]);
            assert(r[k] == n[k]);
        }
    }
    assert(x =~= y) by {
        assert(l.len() == m.len() + 1 + x.len() && r.len() == n.len() + 1 + y.len());
        assert forall|k: int| 0 <= k < x.len() implies x[k] == y[k] by {
            assert(l[m.len() + 1 + k] == x[k]);
            assert(r[n.len() + 1 + k] == y[k]);
        }
    }
}

/// Two names of a provider that are the same in lower case make no difference.
pub proof fn law_provider_case_is_ignored(a: Seq<char>, b: Seq<char>, model: Seq<char>)
    requires
        lowercase(a) == lowercase(b),
        !a.contains(':'),
        !b.contains(':'),
    ensures
        parse_flag(a + ":"@ + model) == parse_flag(b + ":"@ + model),
{
    lemma_flag_parts(a, model);
    lemma_flag_parts(b, model);
}

/// In a name of ASCII letters it makes no difference whether they are upper-case.
pub proof fn law_ascii_case_is_ignored(name: Seq<char>, model: Seq<char>)
    requires
        is_ascii_text(name),
        !name.contains(':'),
    ensures
        parse_flag(name + ":"@ + model) == parse_flag(ascii_lowercase(name) + ":"@ + model),
{
    let low = ascii_lowercase(name);
    assert forall|i: int| 0 <= i < low.len() implies low[i] != ':' && (#[trigger] low[i] as int)
        < 128 && ascii_lowercase(low)[i] == low[i] by {
        assert(name[i] != ':');
        assert((name[i] as int) < 128);
    }
    assert(ascii_lowercase(low) =~= low);
    law_provider_case_is_ignored(name, low, model);
}

/// A flag falls apart at its first colon.
proof fn lemma_flag_parts(name: Seq<char>, model: Seq<char>)
    requires
        !name.contains(':'),
    ensures
        parse_flag(name + ":"@ + model) == target(lowercase(name), model),
{
    reveal_strlit(":");
    let raw = name + ":"@ + model;
    raw.index_of_first_ensures(':');
    assert(raw[name.len() as int] == ':');
    assert(raw.contains(':'));
    let i = raw.index_of_first(':')->0;
    if i < name.len() {
        assert(raw[i] == name[i]);
        assert(name.contains(':'));
    }
    assert(raw.take(i) =~= name);
    assert(raw.skip(i + 1) =~= model);
}

/// The warning about a target whose provider wants a key that is not set.
pub open spec fn key_warning(t: TargetView, provider: Seq<char>, variable: Seq<char>) -> Seq<char> {
    "Warning: LLM target '"@ + t.id + "' uses "@ + provider + " but "@ + variable
        + " is not set."@
}

/// What the operator is warned of for one target.
pub open spec fn warning(t: TargetView, openai_key: bool, anthropic_key: bool) -> Option<
    Seq<char>,
> {
    match t.provider {
        LlmProvider::OpenAi => if openai_key {
            None
        } else {
            Some(key_warning(t, "OpenAI"@, "OPENAI_API_KEY"@))
        },
        LlmProvider::Anthropic => if anthropic_key {
            None
        } else {
            Some(key_warning(t, "Anthropic"@, "ANTHROPIC_API_KEY"@))
        },
        LlmProvider::LocalOllama => None,
    }
}

/// What the operator is warned of, in the order of the targets.
pub open spec fn warnings(
    targets: Seq<TargetView>,
    openai_key: bool,
    anthropic_key: bool,
) -> Seq<Seq<char>>
    decreases targets.len(),
{
    if targets.len() == 0 {
        Seq::empty()
    } else {
        let before = warnings(targets.drop_last(), openai_key, anthropic_key);
        match warning(targets.last(), openai_key, anthropic_key) {
            Some(w) => before.push(w),
            None => before,
        }
    }
}

fn key_warning_of(t: &LlmTarget, provider: &str, variable: &str) -> (r: String)
    ensures
        r@ == key_warning(t@, provider@, variable@),
{
    "Warning: LLM target '".to_owned().concat(t.id.as_str()).concat("' uses ").concat(
        provider,
    ).concat(" but ").concat(variable).concat(" is not set.")
}

/// Warns of one target.
pub fn warning_of(t: &LlmTarget, openai_key: bool, anthropic_key: bool) -> (r: Option<String>)
    ensures
        crate::text::text_view(r) == warning(t@, openai_key, anthropic_key),
{
    match t.provider {
        LlmProvider::OpenAi => if openai_key {
            None
        } else {
            Some(key_warning_of(t, "OpenAI", "OPENAI_API_KEY"))
        },
        LlmProvider::Anthropic => if anthropic_key {
            None
        } else {
            Some(key_warning_of(t, "Anthropic", "ANTHROPIC_API_KEY"))
        },
        LlmProvider::LocalOllama => None,
    }
}

/// Warns of all targets whose key is not set, given which keys are.
pub fn key_warnings(targets: &Vec<LlmTarget>, openai_key: bool, anthropic_key: bool) -> (r: Vec<
    String,
>)
    ensures
        texts_view(r@) == warnings(targets_view(targets@), openai_key, anthropic_key),
{
    let ghost all = targets_view(targets@);
    let mut r: Vec<String> = Vec::new();
    let mut i: usize = 0;
    assert(texts_view(r@) =~= Seq::empty());
    while i < targets.len()
        invariant
            i <= targets@.len(),
            all == targets_view(targets@),
            texts_view(r@) == warnings(all.take(i as int), openai_key, anthropic_key),
        decreases targets@.len() - i,
    {
        let ghost before = r@;
        assert(all.take(i + 1).drop_last() =~= all.take(i as int));
        assert(all.take(i + 1).last() == targets@[i as int]@);
        if let Some(w) = warning_of(&targets[i], openai_key, anthropic_key) {
            r.push(w);
            assert(texts_view(r@) =~= texts_view(before).push(w@));
        }
        i = i + 1;
    }
    assert(all.take(all.len() as int) =~= all);
    r
}

/// In lower case, the capitals of ASCII text become small letters and nothing else
/// changes.
pub proof fn law_lowercase_changes_capitals_only(s: Seq<char>, i: int)
    requires
        is_ascii_text(s),
        0 <= i < s.len(),
    ensures
        lowercase(s).len() == s.len(),
        'A' <= s[i] <= 'Z' ==> lowercase(s)[i] as int == s[i] as int + 32,
        !('A' <= s[i] <= 'Z') ==> lowercase(s)[i] == s[i],
{
    assert((s[i] as int) < 128);
}

/// A flag names a provider and, behind the first colon, a model. The provider is taken
/// in lower case, and the target is named by provider and model.
pub proof fn law_flag_names_provider_and_model(name: Seq<char>, model: Seq<char>)
    requires
        !name.contains(':'),
    ensures
        ({
            let r = parse_flag(name + ":"@ + model);
            let low = lowercase(name);
            let known = low == "openai"@ || low == "anthropic"@ || low == "ollama"@ || low
                == "local"@;
            &&& known ==> r is Ok && r->Ok_0.model == model && r->Ok_0.id == low + "-"@ + model
            &&& low == "openai"@ ==> r->Ok_0.provider is OpenAi
            &&& low == "anthropic"@ ==> r->Ok_0.provider is Anthropic
            &&& low == "ollama"@ || low == "local"@ ==> r->Ok_0.provider is LocalOllama
            &&& !known ==> r == Err::<TargetView, FlagErrorView>(
                FlagErrorView::UnknownProvider(low),
            )
        }),
{
    lemma_flag_parts(name, model);
    reveal_strlit("openai");
    reveal_strlit("anthropic");
    reveal_strlit("ollama");
    reveal_strlit("local");
    assert("openai"@.len() == 6 && "anthropic"@.len() == 9 && "ollama"@.len() == 6
        && "local"@.len() == 5);
    assert("openai"@[1] == 'p' && "ollama"@[1] == 'l');
}

/// A flag without a colon names nothing.
pub proof fn law_flag_needs_a_colon(raw: Seq<char>)
    requires
        !raw.contains(':'),
    ensures
        parse_flag(raw) == Err::<TargetView, FlagErrorView>(FlagErrorView::Malformed(raw)),
{
    raw.index_of_first_ensures(':');
}

/// There is no starting without a flag.
pub proof fn law_a_flag_is_needed()
    ensures
        parse_flags(Seq::empty()) == Err::<Seq<TargetView>, FlagErrorView>(FlagErrorView::NoFlags),
{
}

/// What the operator is told of flags that cannot be used.
pub proof fn law_errors_quote_the_flag(raw: Seq<char>)
    ensures
        FlagErrorView::NoFlags.message() == "at least one --llm flag is required"@,
        FlagErrorView::Malformed(raw).message() == "invalid --llm flag '"@ + raw
            + "', expected provider:model"@,
        FlagErrorView::UnknownProvider(raw).message() == "unknown LLM provider '"@ + raw + "'"@,
{
}

/// Each target whose provider wants a key that is not set is warned of once, by its
/// name, in the order of the targets. A local model wants no key.
pub proof fn law_missing_keys_are_warned_of(
    targets: Seq<TargetView>,
    t: TargetView,
    openai_key: bool,
    anthropic_key: bool,
)
    ensures
        warnings(Seq::empty(), openai_key, anthropic_key).len() == 0,
        t.provider is OpenAi && !openai_key ==> warnings(
            targets.push(t),
            openai_key,
            anthropic_key,
        ) == warnings(targets, openai_key, anthropic_key).push(
            "Warning: LLM target '"@ + t.id + "' uses "@ + "OpenAI"@ + " but "@ + "OPENAI_API_KEY"@
                + " is not set."@,
        ),
        t.provider is Anthropic && !anthropic_key ==> warnings(
            targets.push(t),
            openai_key,
            anthropic_key,
        ) == warnings(targets, openai_key, anthropic_key).push(
            "Warning: LLM target '"@ + t.id + "' uses "@ + "Anthropic"@ + " but "@
                + "ANTHROPIC_API_KEY"@ + " is not set."@,
        ),
        (t.provider is OpenAi && openai_key) || (t.provider is Anthropic && anthropic_key)
            || t.provider is LocalOllama ==> warnings(targets.push(t), openai_key, anthropic_key)
            == warnings(targets, openai_key, anthropic_key),
{
    assert(targets.push(t).drop_last() =~= targets);
}

/// The views of targets and of errors show what they hold.
pub proof fn law_target_views_are_faithful(t: LlmTarget, v: Seq<LlmTarget>, text: String)
    ensures
        t@.id == t.id@,
        t@.provider == t.provider,
        t@.model == t.model@,
        targets_view(v).len() == v.len(),
        forall|i: int| 0 <= i < v.len() ==> #[trigger] targets_view(v)[i] == v[i]@,
        LlmFlagError::NoFlags@ is NoFlags,
        LlmFlagError::Malformed(text)@ == FlagErrorView::Malformed(text@),
        LlmFlagError::UnknownProvider(text)@ == FlagErrorView::UnknownProvider(text@),
{
}

} // verus!
