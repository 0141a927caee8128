//! The steps of the setup command: what it records after each probe, and how
//! it reads the operator's answers.
use vstd::prelude::*;
use vstd::string::*;
use crate::models::opt_view;
use crate::num::{decimal, parse_u32, parse_unsigned, to_decimal};
use crate::setup::{
    SetupDoc, Section, ProviderView, ProviderField, FieldValue, ProviderEntry, HostedProvider,
    names_view, name_array, custom_upsert, local_upsert, hosted_configure, configure_hosted,
    add_custom_provider, upsert_local_models, live_models, live_pairs, pairs_view, tier_set,
    tiers_distinct, set_tier_default, TierView, lemma_follows_refl, lemma_follows_trans,
};
use crate::text::{eq_ascii_ci, eq_ignore_ascii_case, str_eq, trim, trim_seq, chars_of, string_of_range};
use crate::adapters::{trim_trailing_slashes, trim_slashes_spec};
use crate::ctl::{default_pick_spec, first_ci_match, lemma_first_ci_match_range, find_model_ci, option_names, parse_default_pick};

verus! {

/// `LIVE · <n> model(s)`.
pub open spec fn live_models_line(n: nat) -> Seq<char> {
    "LIVE · "@ + decimal(n) + " model(s)"@
}

pub fn live_models_status(n: usize) -> (r: String)
    ensures
        r@ == live_models_line(n as nat),
{
    let mut r = String::from_str("LIVE · ");
    let d = to_decimal(n as u64);
    r.append(d.as_str());
    r.append(" model(s)");
    r
}

/// `OFF · <reason>`.
pub open spec fn off_line(reason: Seq<char>) -> Seq<char> {
    "OFF · "@ + reason
}

pub fn off_status(reason: &str) -> (r: String)
    ensures
        r@ == off_line(reason@),
{
    let mut r = String::from_str("OFF · ");
    r.append(reason);
    r
}

/// A provider table that the audit probes, as read from the file.
pub struct AuditEntry {
    pub idx: usize,
    pub id: String,
    pub kind: String,
    pub base_url: String,
    pub key_spec: Option<String>,
}

pub struct AuditView {
    pub idx: int,
    pub id: Seq<char>,
    pub kind: Seq<char>,
    pub base_url: Seq<char>,
    pub key_spec: Option<Seq<char>>,
}

impl View for AuditEntry {
    type V = AuditView;

    open spec fn view(&self) -> AuditView {
        AuditView {
            idx: self.idx as int,
            id: self.id@,
            kind: self.kind@,
            base_url: self.base_url@,
            key_spec: opt_view(self.key_spec),
        }
    }
}

pub open spec fn text_or(o: Option<Seq<char>>, d: Seq<char>) -> Seq<char> {
    match o {
        Some(x) => x,
        None => d,
    }
}

/// What the audit reads of table `i`: its id (`?`), kind (`openai`), base
/// URL (empty) and key reference, defaults in brackets.
pub open spec fn audit_of(i: int, t: ProviderView) -> AuditView {
    AuditView {
        idx: i,
        id: text_or(t.id, "?"@),
        kind: text_or(t.kind, "openai"@),
        base_url: text_or(t.base_url, ""@),
        key_spec: t.api_key,
    }
}

/// The tables the audit probes: all but those switched off, in order.
pub open spec fn audit_list(s: Seq<ProviderView>) -> Seq<AuditView>
    decreases s.len(),
{
    if s.len() == 0 {
        Seq::empty()
    } else {
        audit_list(s.drop_last()) + if s.last().enabled == Some(false) {
            Seq::empty()
        } else {
            seq![audit_of(s.len() - 1, s.last())]
        }
    }
}

fn text_or_exec(o: &Option<String>, d: &str) -> (r: String)
    ensures
        r@ == text_or(opt_view(*o), d@),
{
    match o {
        Some(x) => x.clone(),
        None => String::from_str(d),
    }
}

/// The configured providers to probe, all but those switched off.
pub fn audit_entries(doc: &SetupDoc) -> (r: Vec<AuditEntry>)
    ensures
        r@.map_values(|e: AuditEntry| e@) == audit_list(doc.tables_view()),
{
    let mut out: Vec<AuditEntry> = Vec::new();
    let mut i: usize = 0;
    while i < doc.tables.len()
        invariant
            i <= doc.tables@.len(),
            out@.map_values(|e: AuditEntry| e@) == audit_list(doc.tables_view().subrange(0, i as int)),
        decreases doc.tables.len() - i,
    {
        let ghost pre = doc.tables_view().subrange(0, i as int);
        let ghost post = doc.tables_view().subrange(0, i + 1);
        assert(post.drop_last() =~= pre);
        assert(post.last() == doc.tables@[i as int]@);
        let ghost before = out@;
        let t = &doc.tables[i];
        if t.enabled != Some(false) {
            let e = AuditEntry {
                idx: i,
                id: text_or_exec(&t.id, "?"),
                kind: text_or_exec(&t.kind, "openai"),
                base_url: text_or_exec(&t.base_url, ""),
                key_spec: match &t.api_key {
                    Some(k) => Some(k.clone()),
                    None => None,
                },
            };
            out.push(e);
            assert(out@.map_values(|e: AuditEntry| e@) =~= before.map_values(|e: AuditEntry| e@)
                + seq![audit_of(i as int, t@)]);
        } else {
            assert(audit_list(post) =~= audit_list(pre));
        }
        i = i + 1;
    }
    assert(doc.tables_view().subrange(0, doc.tables@.len() as int) =~= doc.tables_view());
    out
}

/// How a configured provider is checked.
pub enum AuditProbe {
    /// A local broker (kind `varlink`): live where its socket exists.
    LocalSocket(String),
    /// Any other kind: list its models at its base URL with its key.
    Remote,
}

impl AuditEntry {
    pub fn probe(&self) -> (p: AuditProbe)
        ensures
            self.kind@ == "varlink"@ ==> (p matches AuditProbe::LocalSocket(path) && path@
                == self.base_url@),
            self.kind@ != "varlink"@ ==> p is Remote,
    {
        if str_eq(self.kind.as_str(), "varlink") {
            AuditProbe::LocalSocket(self.base_url.clone())
        } else {
            AuditProbe::Remote
        }
    }
}

/// The outcome of checking a local broker's socket: no models to list.
pub fn local_socket_outcome(exists: bool) -> (r: Result<Vec<String>, String>)
    ensures
        exists ==> (r matches Ok(ids) && ids@.len() == 0),
        !exists ==> (r matches Err(e) && e@ == "local socket missing"@),
{
    if exists {
        Ok(Vec::new())
    } else {
        Err(String::from_str("local socket missing"))
    }
}

/// A table after its probe answered with `ids`: the models replaced where
/// any were listed, and switched on.
pub open spec fn audit_live(t: ProviderView, ids: Seq<Seq<char>>) -> ProviderView {
    ProviderView {
        models: if ids.len() > 0 {
            name_array(ids)
        } else {
            t.models
        },
        enabled: Some(true),
        ..t
    }
}

pub open spec fn audit_dead(t: ProviderView) -> ProviderView {
    ProviderView { enabled: Some(false), ..t }
}

/// Records the probe of table `idx`: live tables get the models they listed
/// and are switched on, dead ones are switched off. Returns the status line,
/// or `None` where there is no such table.
pub fn record_audit_result(doc: &mut SetupDoc, idx: usize, outcome: Result<Vec<String>, String>) -> (r:
    Option<String>)
    requires
        old(doc).wf(),
    ensures
        final(doc).wf(),
        final(doc).follows_keeping_thresholds(&*old(doc)),
        final(doc).same_outside_providers(&*old(doc)),
        final(doc).providers == old(doc).providers,
        !(old(doc).providers == Section::Present && idx < old(doc).tables@.len()) ==> r is None
            && final(doc).tables_view() == old(doc).tables_view(),
        old(doc).providers == Section::Present && idx < old(doc).tables@.len() ==> match outcome {
            Ok(ids) => {
                &&& final(doc).tables_view() == old(doc).tables_view().update(
                    idx as int,
                    audit_live(old(doc).tables_view()[idx as int], names_view(ids@)),
                )
                &&& r matches Some(line) && line@ == (if ids@.len() == 0 {
                    "LIVE · local"@
                } else {
                    live_models_line(ids@.len())
                })
            },
            Err(e) => {
                &&& final(doc).tables_view() == old(doc).tables_view().update(
                    idx as int,
                    audit_dead(old(doc).tables_view()[idx as int]),
                )
                &&& r matches Some(line) && line@ == off_line(e@)
            },
        },
{
    let ghost d0 = *doc;
    proof {
        lemma_follows_refl(d0);
    }
    if doc.providers != Section::Present || idx >= doc.tables.len() {
        return None;
    }
    let ghost s0 = doc.tables_view();
    match outcome {
        Ok(ids) => {
            let n = ids.len();
            if n > 0 {
                doc.set_field(idx, ProviderField::Models, FieldValue::NameList(ids));
            }
            doc.set_field(idx, ProviderField::Enabled, FieldValue::Flag(true));
            assert(doc.tables_view() =~= s0.update(idx as int, audit_live(s0[idx as int], names_view(ids@))));
            if n == 0 {
                Some(String::from_str("LIVE · local"))
            } else {
                Some(live_models_status(n))
            }
        },
        Err(e) => {
            doc.set_field(idx, ProviderField::Enabled, FieldValue::Flag(false));
            assert(doc.tables_view() =~= s0.update(idx as int, audit_dead(s0[idx as int])));
            Some(off_status(e.as_str()))
        },
    }
}

/// Files smaller than this are stubs, not models (bytes).
pub const MIN_REAL_MODEL_BYTES: u64 = 1000000;

/// A model file worth registering: a `.gguf` file over 1 MB (size `None`
/// where it could not be read).
pub fn is_real_model_file(extension: Option<&str>, size: Option<u64>) -> (b: bool)
    ensures
        b == ((extension matches Some(x) && x@ == "gguf"@) && (size matches Some(n) && n
            > MIN_REAL_MODEL_BYTES)),
{
    let gguf = match extension {
        Some(x) => str_eq(x, "gguf"),
        None => false,
    };
    let big_enough = match size {
        Some(n) => n > MIN_REAL_MODEL_BYTES,
        None => false,
    };
    gguf && big_enough
}

/// What the local detection found.
pub struct LocalFindings {
    /// (provider id, status line) for each thing found.
    pub report: Vec<(String, String)>,
    /// Whether anything usable was found at all.
    pub found_any: bool,
}

/// The provider entry for a live local Ollama server listing `ids`.
pub open spec fn local_ollama_entry(ids: Seq<Seq<char>>) -> ProviderEntry {
    ProviderEntry {
        id: "local-ollama"@,
        name: "Local Ollama"@,
        kind: "ollama"@,
        base_url: "http://127.0.0.1:11434/v1"@,
        api_key: None,
        models: ids,
        enabled: true,
    }
}

/// Records what was found on this machine: the models of a live local
/// Ollama server (`None` where none answered) and real model files `files`,
/// switched on only if the inference broker runs.
pub fn record_local_detection(
    doc: &mut SetupDoc,
    ollama: Option<Vec<String>>,
    files: &Vec<String>,
    broker_alive: bool,
) -> (r: LocalFindings)
    requires
        old(doc).wf(),
    ensures
        final(doc).wf(),
        final(doc).follows_keeping_thresholds(&*old(doc)),
        final(doc).same_outside_providers(&*old(doc)),
        old(doc).providers == Section::Other ==> final(doc).providers == Section::Other
            && final(doc).tables_view() == old(doc).tables_view(),
        old(doc).providers != Section::Other ==> ({
            let s1 = match ollama {
                Some(ids) => custom_upsert(old(doc).tables_view(), local_ollama_entry(names_view(ids@))),
                None => old(doc).tables_view(),
            };
            let s2 = if files@.len() > 0 {
                local_upsert(s1, names_view(files@), broker_alive)
            } else {
                s1
            };
            final(doc).tables_view() == s2
        }),
        old(doc).providers != Section::Other && (ollama is Some || files@.len() > 0) ==> final(doc).providers == Section::Present,
        r.found_any == (ollama is Some || files@.len() > 0),
        r.report@.len() == (if ollama is Some { 1int } else { 0 }) + (if files@.len() > 0 { 1int } else { 0 }),
        ollama matches Some(ids) ==> r.report@[0].0@ == "local-ollama"@ && r.report@[0].1@
            == live_models_line(ids@.len()),
        files@.len() > 0 ==> ({
            let last = r.report@[r.report@.len() - 1];
            &&& last.0@ == "syntrop-local"@
            &&& last.1@ == if broker_alive {
                "LIVE · "@ + decimal(files@.len()) + " file(s)"@
            } else {
                "OFF · broker not running"@
            }
        }),
{
    let ghost d0 = *doc;
    proof {
        lemma_follows_refl(d0);
    }
    let mut report: Vec<(String, String)> = Vec::new();
    let ghost s0 = doc.tables_view();
    let has_ollama = ollama.is_some();
    match ollama {
        Some(ids) => {
            let n = ids.len();
            let ghost mid = *doc;
            add_custom_provider(
                doc,
                "local-ollama",
                "Local Ollama",
                "ollama",
                "http://127.0.0.1:11434/v1",
                None,
                &ids,
                true,
            );
            proof {
                lemma_follows_trans(*doc, mid, d0);
            }
            report.push((String::from_str("local-ollama"), live_models_status(n)));
        },
        None => {},
    }
    if files.len() > 0 {
        let ghost mid = *doc;
        upsert_local_models(doc, files, broker_alive);
        proof {
            lemma_follows_trans(*doc, mid, d0);
        }
        let line = if broker_alive {
            let mut l = String::from_str("LIVE · ");
            let d = to_decimal(files.len() as u64);
            l.append(d.as_str());
            l.append(" file(s)");
            l
        } else {
            String::from_str("OFF · broker not running")
        };
        report.push((String::from_str("syntrop-local"), line));
    }
    LocalFindings { report, found_any: has_ollama || files.len() > 0 }
}

/// The operator's answer to a key prompt and what probing the key gave.
pub enum KeyAnswer {
    /// No key entered.
    Skipped,
    /// A key, and the model ids it listed or why it failed.
    Probed(String, Result<Vec<String>, String>),
}

/// Records a hosted-key step: a key that listed models is stored with them
/// and switched on; a skipped or failing one switches the provider off.
/// Returns the status line.
pub fn record_key_step(doc: &mut SetupDoc, h: HostedProvider, answer: KeyAnswer) -> (r: String)
    requires
        old(doc).wf(),
    ensures
        final(doc).wf(),
        final(doc).follows_keeping_thresholds(&*old(doc)),
        final(doc).same_outside_providers(&*old(doc)),
        old(doc).providers != Section::Other ==> final(doc).providers == Section::Present,
        match answer {
            KeyAnswer::Skipped => {
                &&& old(doc).providers != Section::Other ==> final(doc).tables_view()
                    == hosted_configure(old(doc).tables_view(), h, None, None)
                &&& r@ == "OFF · skipped"@
            },
            KeyAnswer::Probed(key, Ok(ids)) => {
                &&& old(doc).providers != Section::Other ==> final(doc).tables_view()
                    == hosted_configure(old(doc).tables_view(), h, Some(key@), Some(names_view(ids@)))
                &&& r@ == live_models_line(ids@.len())
            },
            KeyAnswer::Probed(_, Err(e)) => {
                &&& old(doc).providers != Section::Other ==> final(doc).tables_view()
                    == hosted_configure(old(doc).tables_view(), h, None, None)
                &&& r@ == off_line(e@)
            },
        },
        old(doc).providers == Section::Other ==> final(doc).tables_view() == old(doc).tables_view(),
{
    match answer {
        KeyAnswer::Skipped => {
            configure_hosted(doc, h, None, None);
            String::from_str("OFF · skipped")
        },
        KeyAnswer::Probed(key, Ok(ids)) => {
            let n = ids.len();
            configure_hosted(doc, h, Some(key), Some(ids));
            live_models_status(n)
        },
        KeyAnswer::Probed(_, Err(e)) => {
            configure_hosted(doc, h, None, None);
            off_status(e.as_str())
        },
    }
}

/// A yes to a `[y/N]` prompt: `y` or `yes` in any ASCII case.
pub fn is_yes(answer: &str) -> (b: bool)
    ensures
        b == (eq_ascii_ci(answer@, "y"@) || eq_ascii_ci(answer@, "yes"@)),
{
    eq_ignore_ascii_case(answer, "y") || eq_ignore_ascii_case(answer, "yes")
}

/// An answer, or `default` for an empty one.
pub fn answer_or(answer: &str, default: &str) -> (r: String)
    ensures
        r@ == if answer@.len() == 0 {
            default@
        } else {
            answer@
        },
{
    if answer.is_empty() {
        String::from_str(default)
    } else {
        String::from_str(answer)
    }
}

/// The base URL a custom provider is given: the OpenAI endpoint for an
/// empty answer, else the answer without trailing slashes.
pub fn custom_base_url(answer: &str) -> (r: String)
    ensures
        r@ == if answer@.len() == 0 {
            "https://api.openai.com/v1"@
        } else {
            trim_slashes_spec(answer@)
        },
{
    if answer.is_empty() {
        String::from_str("https://api.openai.com/v1")
    } else {
        trim_trailing_slashes(answer)
    }
}

/// The non-empty trimmed fields among `fs`, in order.
pub open spec fn kept_fields(fs: Seq<Seq<char>>) -> Seq<Seq<char>>
    decreases fs.len(),
{
    if fs.len() == 0 {
        Seq::empty()
    } else {
        kept_fields(fs.drop_last()) + if trim_seq(fs.last()).len() > 0 {
            seq![trim_seq(fs.last())]
        } else {
            Seq::empty()
        }
    }
}

/// A comma-separated list of model names, each trimmed, empty ones dropped.
pub fn split_model_list(s: &str) -> (r: Vec<String>)
    ensures
        names_view(r@) == kept_fields(split_spec(s@, ',')),
{
    let pieces = split_char(s, ',');
    let ghost fs = split_spec(s@, ',');
    let mut out: Vec<String> = Vec::new();
    let mut i: usize = 0;
    while i < pieces.len()
        invariant
            i <= pieces@.len(),
            names_view(pieces@) == fs,
            names_view(out@) == kept_fields(fs.subrange(0, i as int)),
        decreases pieces.len() - i,
    {
        let ghost pre = fs.subrange(0, i as int);
        let ghost post = fs.subrange(0, i + 1);
        assert(post.drop_last() =~= pre);
        assert(post.last() == pieces@[i as int]@);
        let t = trim(pieces[i].as_str());
        let ghost before = out@;
        if !t.as_str().is_empty() {
            out.push(t);
            assert(names_view(out@) =~= names_view(before) + seq![t@]);
        } else {
            assert(kept_fields(post) =~= kept_fields(pre));
        }
        i = i + 1;
    }
    assert(fs.subrange(0, pieces@.len() as int) =~= fs);
    out
}

/// What became of a custom provider whose probe failed.
pub enum CustomFallback {
    /// Saved anyway (switched off) with these models.
    SaveAnyway(Vec<String>),
    NotSaved,
}

/// Records the custom-provider step: a live endpoint is stored switched on
/// with the models it listed; a dead one is stored switched off with the
/// operator's models if asked to, else left out. Returns the status line.
pub fn record_custom_step(
    doc: &mut SetupDoc,
    id: &str,
    name: &str,
    base_url: &str,
    api_key: Option<&str>,
    outcome: Result<Vec<String>, String>,
    fallback: CustomFallback,
) -> (r: String)
    requires
        old(doc).wf(),
    ensures
        final(doc).wf(),
        final(doc).follows_keeping_thresholds(&*old(doc)),
        final(doc).same_outside_providers(&*old(doc)),
        ({
            let key = match api_key {
                Some(k) => Some(k@),
                None => None,
            };
            match outcome {
                Ok(ids) => {
                    &&& old(doc).providers != Section::Other ==> final(doc).tables_view()
                        == custom_upsert(
                        old(doc).tables_view(),
                        ProviderEntry {
                            id: id@,
                            name: name@,
                            kind: "openai"@,
                            base_url: base_url@,
                            api_key: key,
                            models: names_view(ids@),
                            enabled: true,
                        },
                    )
                    &&& r@ == live_models_line(ids@.len())
                },
                Err(e) => match fallback {
                    CustomFallback::SaveAnyway(ms) => {
                        &&& old(doc).providers != Section::Other ==> final(doc).tables_view()
                            == custom_upsert(
                            old(doc).tables_view(),
                            ProviderEntry {
                                id: id@,
                                name: name@,
                                kind: "openai"@,
                                base_url: base_url@,
                                api_key: key,
                                models: names_view(ms@),
                                enabled: false,
                            },
                        )
                        &&& r@ == off_line(e@ + " (saved anyway)"@)
                    },
                    CustomFallback::NotSaved => {
                        &&& final(doc).tables_view() == old(doc).tables_view()
                        &&& final(doc).providers == old(doc).providers
                        &&& r@ == off_line(e@ + " (not saved)"@)
                    },
                },
            }
        }),
        old(doc).providers == Section::Other ==> final(doc).tables_view() == old(doc).tables_view(),
{
    let ghost d0 = *doc;
    proof {
        lemma_follows_refl(d0);
    }
    match outcome {
        Ok(ids) => {
            add_custom_provider(doc, id, name, "openai", base_url, api_key, &ids, true);
            live_models_status(ids.len())
        },
        Err(e) => match fallback {
            CustomFallback::SaveAnyway(ms) => {
                add_custom_provider(doc, id, name, "openai", base_url, api_key, &ms, false);
                let mut m = e.clone();
                m.append(" (saved anyway)");
                off_status(m.as_str())
            },
            CustomFallback::NotSaved => {
                let mut m = e.clone();
                m.append(" (not saved)");
                off_status(m.as_str())
            },
        },
    }
}

/// Pins the operator's default pick, if any, for both the fast and the hard
/// tier. Returns the model pinned.
pub fn apply_default_pick(doc: &mut SetupDoc, answer: &str) -> (r: Option<String>)
    requires
        old(doc).wf(),
        old(doc).tiers != Section::Other,
        tiers_distinct(old(doc).tiers_view()),
        forall|i: int|
            0 <= i < old(doc).tiers_view().len() && (old(doc).tiers_view()[i].name == "fast"@
                || old(doc).tiers_view()[i].name == "hard"@) ==> old(doc).tiers_view()[i].table_like,
    ensures
        final(doc).wf(),
        final(doc).follows_keeping_thresholds(&*old(doc)),
        final(doc).providers == old(doc).providers,
        final(doc).tables_view() == old(doc).tables_view(),
        ({
            let names = live_pairs(old(doc).tables_view()).map_values(
                |p: (Seq<char>, Seq<char>)| p.1,
            );
            &&& match default_pick_spec(answer@, names) {
                Some(m) => r matches Some(x) && x@ == m,
                None => r is None,
            }
            &&& match r {
                Some(m) => final(doc).tiers_view() == tier_set(
                    tier_set(old(doc).tiers_view(), "fast"@, m@),
                    "hard"@,
                    m@,
                ),
                None => final(doc).tiers_view() == old(doc).tiers_view(),
            }
        }),
{
    let ghost d0 = *doc;
    proof {
        lemma_follows_refl(d0);
    }
    let options = live_models(doc);
    assert(option_names(options@) =~= live_pairs(doc.tables_view()).map_values(
        |p: (Seq<char>, Seq<char>)| p.1,
    )) by {
        assert(pairs_view(options@) == live_pairs(doc.tables_view()));
        assert forall|k: int| 0 <= k < options@.len() implies option_names(options@)[k]
            == pairs_view(options@)[k].1 by {}
    }
    let pick = parse_default_pick(answer, &options);
    match pick {
        Some(m) => {
            proof {
                reveal_strlit("fast");
                reveal_strlit("hard");
            }
            let ghost mid = *doc;
            set_tier_default(doc, "fast", m.as_str());
            proof {
                lemma_follows_trans(*doc, mid, d0);
            }
            assert forall|i: int|
                0 <= i < doc.tiers_view().len() && doc.tiers_view()[i].name == "hard"@ implies doc.tiers_view()[i].table_like by {
            }
            let ghost mid2 = *doc;
            set_tier_default(doc, "hard", m.as_str());
            proof {
                lemma_follows_trans(*doc, mid2, d0);
            }
            Some(m)
        },
        None => None,
    }
}

/// The default model pinned for `tier`, where `[tiers.<tier>]` names one.
pub open spec fn tier_default_spec(ts: Seq<TierView>, tier: Seq<char>) -> Option<Seq<char>> {
    if exists|i: int| 0 <= i < ts.len() && ts[i].name == tier {
        ts[choose|i: int| 0 <= i < ts.len() && ts[i].name == tier].default_model
    } else {
        None
    }
}

/// The default model pinned for `tier`.
pub fn tier_default(doc: &SetupDoc, tier: &str) -> (r: Option<String>)
    requires
        tiers_distinct(doc.tiers_view()),
    ensures
        opt_view(r) == tier_default_spec(doc.tiers_view(), tier@),
{
    let mut i: usize = 0;
    while i < doc.tier_entries.len()
        invariant
            i <= doc.tier_entries@.len(),
            tiers_distinct(doc.tiers_view()),
            forall|j: int| 0 <= j < i ==> #[trigger] doc.tiers_view()[j].name != tier@,
        decreases doc.tier_entries.len() - i,
    {
        assert(doc.tiers_view()[i as int] == doc.tier_entries@[i as int]@);
        if str_eq(doc.tier_entries[i].name.as_str(), tier) {
            let ghost c = choose|k: int| 0 <= k < doc.tiers_view().len() && doc.tiers_view()[k].name == tier@;
            assert(c == i);
            return match &doc.tier_entries[i].default_model {
                Some(m) => Some(m.clone()),
                None => None,
            };
        }
        i = i + 1;
    }
    None
}

/// `names` joined by `sep`.
pub open spec fn joined(names: Seq<Seq<char>>, sep: Seq<char>) -> Seq<char>
    decreases names.len(),
{
    if names.len() == 0 {
        Seq::empty()
    } else if names.len() == 1 {
        names[0]
    } else {
        joined(names.drop_last(), sep) + sep + names.last()
    }
}

/// The refusal for a default model that is not connected.
pub open spec fn not_connected_message(want: Seq<char>, names: Seq<Seq<char>>) -> Seq<char> {
    "'"@ + want + "' is not a connected model."@ + if names.len() == 0 {
        " Run: sudo routerctl setup"@
    } else {
        " Connected: "@ + joined(names, ", "@)
    }
}

fn join_names(pairs: &Vec<(String, String)>) -> (r: String)
    ensures
        r@ == joined(option_names(pairs@), ", "@),
{
    let mut r = String::new();
    let mut i: usize = 0;
    while i < pairs.len()
        invariant
            i <= pairs@.len(),
            r@ == joined(option_names(pairs@).subrange(0, i as int), ", "@),
        decreases pairs.len() - i,
    {
        let ghost pre = option_names(pairs@).subrange(0, i as int);
        let ghost post = option_names(pairs@).subrange(0, i + 1);
        assert(post.drop_last() =~= pre);
        assert(post.last() == pairs@[i as int].1@);
        if i > 0 {
            r.append(", ");
        } else {
            assert(r@ =~= Seq::<char>::empty());
        }
        r.append(pairs[i].1.as_str());
        i = i + 1;
        if i == 1 {
            assert(r@ =~= post[0]);
        }
    }
    assert(option_names(pairs@).subrange(0, pairs@.len() as int) =~= option_names(pairs@));
    r
}

/// Pins `want` (matched without ASCII case against the connected models, in
/// their own spelling) as the default of both tiers; refuses a model that is
/// not connected, naming those that are.
pub fn pin_default_model(doc: &mut SetupDoc, want: &str) -> (r: Result<String, String>)
    requires
        old(doc).wf(),
        old(doc).tiers != Section::Other,
        tiers_distinct(old(doc).tiers_view()),
        forall|i: int|
            0 <= i < old(doc).tiers_view().len() && (old(doc).tiers_view()[i].name == "fast"@
                || old(doc).tiers_view()[i].name == "hard"@) ==> old(doc).tiers_view()[i].table_like,
    ensures
        final(doc).wf(),
        final(doc).follows_keeping_thresholds(&*old(doc)),
        final(doc).providers == old(doc).providers,
        final(doc).tables_view() == old(doc).tables_view(),
        ({
            let names = live_pairs(old(doc).tables_view()).map_values(
                |p: (Seq<char>, Seq<char>)| p.1,
            );
            match first_ci_match(names, want@, 0) {
                Some(k) => r matches Ok(m) && m@ == names[k] && final(doc).tiers_view() == tier_set(
                    tier_set(old(doc).tiers_view(), "fast"@, m@),
                    "hard"@,
                    m@,
                ),
                None => r matches Err(e) && e@ == not_connected_message(want@, names)
                    && final(doc).tiers_view() == old(doc).tiers_view(),
            }
        }),
{
    let ghost d0 = *doc;
    proof {
        lemma_follows_refl(d0);
    }
    let options = live_models(doc);
    assert(option_names(options@) =~= live_pairs(doc.tables_view()).map_values(
        |p: (Seq<char>, Seq<char>)| p.1,
    )) by {
        assert(pairs_view(options@) == live_pairs(doc.tables_view()));
        assert forall|k: int| 0 <= k < options@.len() implies option_names(options@)[k]
            == pairs_view(options@)[k].1 by {}
    }
    let ghost names = option_names(options@);
    match find_model_ci(&options, want) {
        Some(m) => {
            proof {
                reveal_strlit("fast");
                reveal_strlit("hard");
                lemma_first_ci_match_range(names, want@, 0);
                let k = first_ci_match(names, want@, 0).unwrap();
                assert(names[k] == options@[k].1@);
            }
            let ghost mid = *doc;
            set_tier_default(doc, "fast", m.as_str());
            proof {
                lemma_follows_trans(*doc, mid, d0);
            }
            let ghost mid2 = *doc;
            set_tier_default(doc, "hard", m.as_str());
            proof {
                lemma_follows_trans(*doc, mid2, d0);
            }
            Ok(m)
        },
        None => {
            let mut e = String::from_str("'");
            e.append(want);
            e.append("' is not a connected model.");
            if options.len() == 0 {
                e.append(" Run: sudo routerctl setup");
            } else {
                e.append(" Connected: ");
                let j = join_names(&options);
                e.append(j.as_str());
            }
            assert(e@ =~= not_connected_message(want@, names));
            Err(e)
        },
    }
}

/// `s` cut at each `sep`.
pub open spec fn split_spec(s: Seq<char>, sep: char) -> Seq<Seq<char>>
    decreases s.len(),
{
    if s.len() == 0 {
        seq![Seq::empty()]
    } else {
        let prev = split_spec(s.drop_last(), sep);
        if s.last() == sep {
            prev.push(Seq::empty())
        } else {
            prev.update(prev.len() - 1, prev.last().push(s.last()))
        }
    }
}

proof fn lemma_split_nonempty(s: Seq<char>, sep: char)
    ensures
        split_spec(s, sep).len() >= 1,
    decreases s.len(),
{
    if s.len() > 0 {
        lemma_split_nonempty(s.drop_last(), sep);
    }
}

/// `str::split` with a single character.
pub fn split_char(s: &str, sep: char) -> (r: Vec<String>)
    ensures
        names_view(r@) == split_spec(s@, sep),
{
    let v = chars_of(s);
    let mut out: Vec<String> = Vec::new();
    let mut start: usize = 0;
    let mut i: usize = 0;
    while i < v.len()
        invariant
            v@ == s@,
            start <= i <= v@.len(),
            split_spec(s@.subrange(0, i as int), sep).len() >= 1,
            split_spec(s@.subrange(0, i as int), sep).last() == s@.subrange(start as int, i as int),
            names_view(out@) == split_spec(s@.subrange(0, i as int), sep).drop_last(),
        decreases v.len() - i,
    {
        let ghost pre = s@.subrange(0, i as int);
        let ghost post = s@.subrange(0, i + 1);
        assert(post.drop_last() =~= pre);
        assert(post.last() == v@[i as int]);
        proof {
            lemma_split_nonempty(pre, sep);
        }
        if v[i] == sep {
            let field = string_of_range(&v, start, i);
            let ghost before = out@;
            out.push(field);
            assert(names_view(out@) =~= names_view(before).push(field@));
            assert(split_spec(post, sep).drop_last() =~= split_spec(pre, sep));
            assert(split_spec(pre, sep) =~= split_spec(pre, sep).drop_last().push(split_spec(pre, sep).last()));
            start = i + 1;
        } else {
            assert(split_spec(post, sep).drop_last() =~= split_spec(pre, sep).drop_last());
            assert(s@.subrange(start as int, i + 1) =~= s@.subrange(start as int, i as int).push(v@[i as int]));
        }
        i = i + 1;
    }
    assert(s@.subrange(0, v@.len() as int) =~= s@);
    proof {
        lemma_split_nonempty(s@, sep);
    }
    let field = string_of_range(&v, start, v.len());
    let ghost before = out@;
    out.push(field);
    assert(names_view(out@) =~= names_view(before).push(field@));
    assert(split_spec(s@, sep) =~= split_spec(s@, sep).drop_last().push(split_spec(s@, sep).last()));
    out
}

/// A line without the carriage return that ends it, if any.
pub open spec fn without_cr(l: Seq<char>) -> Seq<char> {
    if l.len() > 0 && l.last() == '\r' {
        l.drop_last()
    } else {
        l
    }
}

/// The lines of a text: cut at each line feed, a carriage return before a
/// line feed dropped.
pub open spec fn file_lines(s: Seq<char>) -> Seq<Seq<char>> {
    let p = split_spec(s, '\n');
    Seq::new(
        p.len(),
        |i: int|
            if i < p.len() - 1 {
                without_cr(p[i])
            } else {
                p[i]
            },
    )
}

/// The id a `group:password:gid:members` line gives `group`, where its
/// third field is a `u32`.
pub open spec fn gid_of_line(l: Seq<char>, group: Seq<char>) -> Option<nat> {
    let f = split_spec(l, ':');
    if f.len() >= 3 && f[0] == group {
        parse_unsigned(f[2], u32::MAX as nat)
    } else {
        None
    }
}

/// The id the first line from `from` on gives `group`.
pub open spec fn first_gid(ls: Seq<Seq<char>>, group: Seq<char>, from: int) -> Option<nat>
    decreases ls.len() - from,
{
    if from < 0 || from >= ls.len() {
        None
    } else {
        match gid_of_line(ls[from], group) {
            Some(g) => Some(g),
            None => first_gid(ls, group, from + 1),
        }
    }
}

fn drop_cr(l: &String) -> (r: String)
    ensures
        r@ == without_cr(l@),
{
    let v = chars_of(l.as_str());
    if v.len() > 0 && v[v.len() - 1] == '\r' {
        let r = string_of_range(&v, 0, v.len() - 1);
        assert(r@ =~= l@.drop_last());
        r
    } else {
        l.clone()
    }
}

/// The numeric id of `group` in the text of a group file (`/etc/group`).
pub fn group_gid(group_file: &str, group: &str) -> (r: Option<u32>)
    ensures
        match first_gid(file_lines(group_file@), group@, 0) {
            Some(g) => r == Some(g as u32),
            None => r is None,
        },
{
    let pieces = split_char(group_file, '\n');
    let ghost ls = file_lines(group_file@);
    assert(ls.len() == pieces@.len());
    let mut i: usize = 0;
    while i < pieces.len()
        invariant
            i <= pieces@.len(),
            ls == file_lines(group_file@),
            ls.len() == pieces@.len(),
            names_view(pieces@) == split_spec(group_file@, '\n'),
            first_gid(ls, group@, i as int) == first_gid(ls, group@, 0),
        decreases pieces.len() - i,
    {
        assert(names_view(pieces@)[i as int] == pieces@[i as int]@);
        let line = if i + 1 < pieces.len() {
            drop_cr(&pieces[i])
        } else {
            pieces[i].clone()
        };
        assert(line@ == ls[i as int]);
        let fields = split_char(line.as_str(), ':');
        if fields.len() >= 3 {
            assert(names_view(fields@)[0] == fields@[0]@);
            assert(names_view(fields@)[2] == fields@[2]@);
            if str_eq(fields[0].as_str(), group) {
                match parse_u32(fields[2].as_str()) {
                    Some(g) => {
                        return Some(g);
                    },
                    None => {},
                }
            }
        }
        i = i + 1;
    }
    None
}

} // verus!
