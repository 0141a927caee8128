//! The setup command's model of the router configuration file, and the
//! changes setup makes to it.
//!
//! A `SetupDoc` holds what setup reads of the file: the `[[providers]]`
//! tables, whether `[thresholds]` has `min_tokens_per_second`, and the tier
//! defaults. Every change goes through one of a few primitive edits, each
//! recorded in `edits` in the order made, so that the same edits can be made
//! to the file itself.
use vstd::prelude::*;
use vstd::string::*;
use crate::models::opt_view;
use crate::text::str_eq;

verus! {

/// A value written into the configuration file.
pub enum FieldValue {
    Text(String),
    Flag(bool),
    Integer(i64),
    /// The decimal fraction `mantissa / 10^scale`, such as 1.3 as (13, 1).
    Decimal(i64, u32),
    /// An array of strings.
    NameList(Vec<String>),
}

/// Keys of a provider table that setup writes.
#[derive(Clone, Copy, PartialEq, Eq, Structural, Debug)]
pub enum ProviderField {
    Id,
    Name,
    Kind,
    BaseUrl,
    ApiKey,
    Enabled,
    Tier,
    Weight,
    TimeoutMs,
    Models,
}

/// Keys of the `[thresholds]` table that setup writes.
#[derive(Clone, Copy, PartialEq, Eq, Structural, Debug)]
pub enum ThresholdField {
    MaxLatencyMs,
    PsiMemoryThreshold,
    MaxRetries,
    RssLimitMb,
    MinTokensPerSecond,
}

/// One change to the configuration file.
pub enum DocEdit {
    /// Add an empty `providers` array of tables.
    CreateProviders,
    /// Append an empty table to `providers`.
    AppendProvider,
    /// Set a key of the provider table at `index`.
    SetField { index: usize, field: ProviderField, value: FieldValue },
    /// Append a name to the plain `models` array of the provider at `index`.
    AppendModelName { index: usize, name: String },
    /// Append a `{ name = .. }` table to the `models` tables of the provider at `index`.
    AppendModelTable { index: usize, name: String },
    /// Add an empty `[thresholds]` table.
    CreateThresholds,
    /// Set a key of the `[thresholds]` table.
    SetThreshold { key: ThresholdField, value: FieldValue },
    /// Add an empty `[tiers]` table.
    CreateTiers,
    /// Add an empty `[tiers.<tier>]` table.
    CreateTier { tier: String },
    /// Set `default_model` of `[tiers.<tier>]`.
    SetTierDefault { tier: String, model: String },
}

/// How a top-level key of the file is present.
#[derive(Clone, Copy, PartialEq, Eq, Structural, Debug)]
pub enum Section {
    Absent,
    /// As the table (or, for `providers`, the array of tables) setup expects.
    Present,
    /// As some other kind of value.
    Other,
}

/// The `models` key of a provider table.
pub enum ModelList {
    Absent,
    /// A plain array; each element's text, `None` where it is not a string.
    Names(Vec<Option<String>>),
    /// An array of tables; each table's `name`, `None` where missing or not a string.
    Tables(Vec<Option<String>>),
    /// Some other value.
    Other,
}

/// One `[[providers]]` table, each key as setup reads it: text keys are
/// `None` where missing or not a string. `weight` is known only once setup
/// has written it.
pub struct ProviderTable {
    pub id: Option<String>,
    pub name: Option<String>,
    pub kind: Option<String>,
    pub base_url: Option<String>,
    pub api_key: Option<String>,
    pub enabled: Option<bool>,
    pub tier: Option<String>,
    pub weight: Option<(i64, u32)>,
    pub timeout_ms: Option<i64>,
    pub models: ModelList,
}

/// One key of `[tiers]`: whether it is a table, and its `default_model`.
pub struct TierEntry {
    pub name: String,
    pub table_like: bool,
    pub default_model: Option<String>,
}

/// What setup reads of the configuration file, and the edits it has made.
pub struct SetupDoc {
    pub providers: Section,
    pub tables: Vec<ProviderTable>,
    pub thresholds: Section,
    pub has_min_tokens_per_second: bool,
    pub tiers: Section,
    pub tier_entries: Vec<TierEntry>,
    pub edits: Vec<DocEdit>,
}

pub enum ModelsView {
    Absent,
    Names(Seq<Option<Seq<char>>>),
    Tables(Seq<Option<Seq<char>>>),
    Other,
}

pub struct ProviderView {
    pub id: Option<Seq<char>>,
    pub name: Option<Seq<char>>,
    pub kind: Option<Seq<char>>,
    pub base_url: Option<Seq<char>>,
    pub api_key: Option<Seq<char>>,
    pub enabled: Option<bool>,
    pub tier: Option<Seq<char>>,
    pub weight: Option<(i64, u32)>,
    pub timeout_ms: Option<i64>,
    pub models: ModelsView,
}

pub struct TierView {
    pub name: Seq<char>,
    pub table_like: bool,
    pub default_model: Option<Seq<char>>,
}

pub open spec fn opt_names_view(v: Seq<Option<String>>) -> Seq<Option<Seq<char>>> {
    v.map_values(|o: Option<String>| opt_view(o))
}

pub open spec fn names_view(v: Seq<String>) -> Seq<Seq<char>> {
    v.map_values(|s: String| s@)
}

impl View for ModelList {
    type V = ModelsView;

    open spec fn view(&self) -> ModelsView {
        match self {
            ModelList::Absent => ModelsView::Absent,
            ModelList::Names(v) => ModelsView::Names(opt_names_view(v@)),
            ModelList::Tables(v) => ModelsView::Tables(opt_names_view(v@)),
            ModelList::Other => ModelsView::Other,
        }
    }
}

impl View for ProviderTable {
    type V = ProviderView;

    open spec fn view(&self) -> ProviderView {
        ProviderView {
            id: opt_view(self.id),
            name: opt_view(self.name),
            kind: opt_view(self.kind),
            base_url: opt_view(self.base_url),
            api_key: opt_view(self.api_key),
            enabled: self.enabled,
            tier: opt_view(self.tier),
            weight: self.weight,
            timeout_ms: self.timeout_ms,
            models: self.models@,
        }
    }
}

impl View for TierEntry {
    type V = TierView;

    open spec fn view(&self) -> TierView {
        TierView { name: self.name@, table_like: self.table_like, default_model: opt_view(self.default_model) }
    }
}

/// The text of a value, `None` for other kinds.
pub open spec fn text_of(v: FieldValue) -> Option<Seq<char>> {
    match v {
        FieldValue::Text(s) => Some(s@),
        _ => None,
    }
}

pub open spec fn flag_of(v: FieldValue) -> Option<bool> {
    match v {
        FieldValue::Flag(b) => Some(b),
        _ => None,
    }
}

pub open spec fn integer_of(v: FieldValue) -> Option<i64> {
    match v {
        FieldValue::Integer(n) => Some(n),
        _ => None,
    }
}

pub open spec fn decimal_of(v: FieldValue) -> Option<(i64, u32)> {
    match v {
        FieldValue::Decimal(m, s) => Some((m, s)),
        _ => None,
    }
}

/// A plain array of names, each a string.
pub open spec fn name_array(ns: Seq<Seq<char>>) -> ModelsView {
    ModelsView::Names(ns.map_values(|s: Seq<char>| Some(s)))
}

pub open spec fn models_of(v: FieldValue) -> ModelsView {
    match v {
        FieldValue::NameList(ns) => name_array(names_view(ns@)),
        _ => ModelsView::Other,
    }
}

/// A provider table after setting key `f` to `v`.
pub open spec fn with_field(t: ProviderView, f: ProviderField, v: FieldValue) -> ProviderView {
    ProviderView {
        id: if f == ProviderField::Id { text_of(v) } else { t.id },
        name: if f == ProviderField::Name { text_of(v) } else { t.name },
        kind: if f == ProviderField::Kind { text_of(v) } else { t.kind },
        base_url: if f == ProviderField::BaseUrl { text_of(v) } else { t.base_url },
        api_key: if f == ProviderField::ApiKey { text_of(v) } else { t.api_key },
        enabled: if f == ProviderField::Enabled { flag_of(v) } else { t.enabled },
        tier: if f == ProviderField::Tier { text_of(v) } else { t.tier },
        weight: if f == ProviderField::Weight { decimal_of(v) } else { t.weight },
        timeout_ms: if f == ProviderField::TimeoutMs { integer_of(v) } else { t.timeout_ms },
        models: if f == ProviderField::Models { models_of(v) } else { t.models },
    }
}

/// A freshly appended, empty provider table.
pub open spec fn empty_provider() -> ProviderView {
    ProviderView {
        id: None,
        name: None,
        kind: None,
        base_url: None,
        api_key: None,
        enabled: None,
        tier: None,
        weight: None,
        timeout_ms: None,
        models: ModelsView::Absent,
    }
}

impl SetupDoc {
    pub open spec fn tables_view(&self) -> Seq<ProviderView> {
        self.tables@.map_values(|t: ProviderTable| t@)
    }

    pub open spec fn tiers_view(&self) -> Seq<TierView> {
        self.tier_entries@.map_values(|t: TierEntry| t@)
    }

    /// Tables exist only under a present section.
    pub open spec fn wf(&self) -> bool {
        &&& self.providers != Section::Present ==> self.tables@.len() == 0
        &&& self.thresholds != Section::Present ==> !self.has_min_tokens_per_second
        &&& self.tiers != Section::Present ==> self.tier_entries@.len() == 0
    }

    /// Everything but the provider tables and the edit log is unchanged.
    pub open spec fn same_outside_providers(&self, other: &SetupDoc) -> bool {
        &&& self.thresholds == other.thresholds
        &&& self.has_min_tokens_per_second == other.has_min_tokens_per_second
        &&& self.tiers == other.tiers
        &&& self.tiers_view() == other.tiers_view()
    }

    /// Everything but the thresholds and the edit log is unchanged.
    pub open spec fn same_outside_thresholds(&self, other: &SetupDoc) -> bool {
        &&& self.providers == other.providers
        &&& self.tables_view() == other.tables_view()
        &&& self.tiers == other.tiers
        &&& self.tiers_view() == other.tiers_view()
    }

    /// Everything but the tiers and the edit log is unchanged.
    pub open spec fn same_outside_tiers(&self, other: &SetupDoc) -> bool {
        &&& self.providers == other.providers
        &&& self.tables_view() == other.tables_view()
        &&& self.thresholds == other.thresholds
        &&& self.has_min_tokens_per_second == other.has_min_tokens_per_second
    }
}

/// What the edit log acts on: every part of the file that setup reads.
pub struct DocState {
    pub providers: Section,
    pub tables: Seq<ProviderView>,
    pub thresholds: Section,
    pub has_min_tokens_per_second: bool,
    pub tiers: Section,
    pub tier_list: Seq<TierView>,
}

/// The tier entries after `[tiers.<tier>]` is made an empty table.
pub open spec fn tier_created(ts: Seq<TierView>, tier: Seq<char>) -> Seq<TierView> {
    let fresh = TierView { name: tier, table_like: true, default_model: None };
    if exists|i: int| 0 <= i < ts.len() && ts[i].name == tier {
        let i = choose|i: int| 0 <= i < ts.len() && ts[i].name == tier;
        ts.update(i, fresh)
    } else {
        ts.push(fresh)
    }
}

/// What one edit does to the file, as setup reads it. An edit whose target
/// is missing or of another kind changes nothing.
pub open spec fn apply_edit(s: DocState, e: DocEdit) -> DocState {
    let provider_ok = |i: usize| s.providers == Section::Present && i < s.tables.len();
    match e {
        DocEdit::CreateProviders => if s.providers == Section::Absent {
            DocState { providers: Section::Present, ..s }
        } else {
            s
        },
        DocEdit::AppendProvider => if s.providers == Section::Present {
            DocState { tables: s.tables.push(empty_provider()), ..s }
        } else {
            s
        },
        DocEdit::SetField { index, field, value } => if provider_ok(index) {
            DocState {
                tables: s.tables.update(index as int, with_field(s.tables[index as int], field, value)),
                ..s
            }
        } else {
            s
        },
        DocEdit::AppendModelName { index, name } => if provider_ok(index)
            && s.tables[index as int].models is Names {
            DocState {
                tables: s.tables.update(index as int, with_model_appended(s.tables[index as int], name@)),
                ..s
            }
        } else {
            s
        },
        DocEdit::AppendModelTable { index, name } => if provider_ok(index)
            && s.tables[index as int].models is Tables {
            DocState {
                tables: s.tables.update(index as int, with_model_appended(s.tables[index as int], name@)),
                ..s
            }
        } else {
            s
        },
        DocEdit::CreateThresholds => DocState {
            thresholds: Section::Present,
            has_min_tokens_per_second: false,
            ..s
        },
        DocEdit::SetThreshold { key, value } => if s.thresholds == Section::Present {
            DocState {
                has_min_tokens_per_second: s.has_min_tokens_per_second || key
                    == ThresholdField::MinTokensPerSecond,
                ..s
            }
        } else {
            s
        },
        DocEdit::CreateTiers => DocState { tiers: Section::Present, tier_list: Seq::empty(), ..s },
        DocEdit::CreateTier { tier } => if s.tiers == Section::Present {
            DocState { tier_list: tier_created(s.tier_list, tier@), ..s }
        } else {
            s
        },
        DocEdit::SetTierDefault { tier, model } => if s.tiers == Section::Present {
            DocState { tier_list: tier_set(s.tier_list, tier@, model@), ..s }
        } else {
            s
        },
    }
}

/// The edits made in order.
pub open spec fn replay(s: DocState, es: Seq<DocEdit>) -> DocState
    decreases es.len(),
{
    if es.len() == 0 {
        s
    } else {
        apply_edit(replay(s, es.drop_last()), es.last())
    }
}

/// Whether an edit touches the `[thresholds]` table.
pub open spec fn is_threshold_edit(e: DocEdit) -> bool {
    e is CreateThresholds || e is SetThreshold
}

impl SetupDoc {
    pub open spec fn state(&self) -> DocState {
        DocState {
            providers: self.providers,
            tables: self.tables_view(),
            thresholds: self.thresholds,
            has_min_tokens_per_second: self.has_min_tokens_per_second,
            tiers: self.tiers,
            tier_list: self.tiers_view(),
        }
    }

    /// The edits recorded since `before`.
    pub open spec fn edits_since(&self, before: &SetupDoc) -> Seq<DocEdit> {
        self.edits@.subrange(before.edits@.len() as int, self.edits@.len() as int)
    }

    /// This document is `before` with edits appended to its log, and those
    /// edits, made to `before`, give exactly this document: the file that
    /// receives them ends as this model describes, and nothing else of it
    /// changes.
    pub open spec fn follows(&self, before: &SetupDoc) -> bool {
        &&& before.edits@.len() <= self.edits@.len()
        &&& self.edits@.subrange(0, before.edits@.len() as int) == before.edits@
        &&& replay(before.state(), self.edits_since(before)) == self.state()
    }

    /// As `follows`, with no edit since `before` touching `[thresholds]`.
    pub open spec fn follows_keeping_thresholds(&self, before: &SetupDoc) -> bool {
        &&& self.follows(before)
        &&& forall|k: int|
            before.edits@.len() <= k < self.edits@.len() ==> !is_threshold_edit(
                #[trigger] self.edits@[k],
            )
    }
}

pub proof fn lemma_replay_concat(s: DocState, a: Seq<DocEdit>, b: Seq<DocEdit>)
    ensures
        replay(s, a + b) == replay(replay(s, a), b),
    decreases b.len(),
{
    if b.len() == 0 {
        assert(a + b =~= a);
    } else {
        lemma_replay_concat(s, a, b.drop_last());
        assert((a + b).drop_last() =~= a + b.drop_last());
        assert((a + b).last() == b.last());
    }
}

/// A document follows itself.
pub proof fn lemma_follows_refl(d: SetupDoc)
    ensures
        d.follows_keeping_thresholds(&d),
{
    assert(d.edits@.subrange(0, d.edits@.len() as int) =~= d.edits@);
    assert(d.edits_since(&d) =~= Seq::<DocEdit>::empty());
}

/// Following is transitive.
pub proof fn lemma_follows_trans(a: SetupDoc, b: SetupDoc, c: SetupDoc)
    requires
        a.follows(&b),
        b.follows(&c),
    ensures
        a.follows(&c),
        a.follows_keeping_thresholds(&b) && b.follows_keeping_thresholds(&c)
            ==> a.follows_keeping_thresholds(&c),
{
    let n = c.edits@.len() as int;
    let m = b.edits@.len() as int;
    assert(a.edits@.subrange(0, n) =~= a.edits@.subrange(0, m).subrange(0, n));
    assert(a.edits_since(&c) =~= b.edits_since(&c) + a.edits_since(&b));
    lemma_replay_concat(c.state(), b.edits_since(&c), a.edits_since(&b));
    if a.follows_keeping_thresholds(&b) && b.follows_keeping_thresholds(&c) {
        assert forall|k: int| n <= k < a.edits@.len() implies !is_threshold_edit(
            #[trigger] a.edits@[k],
        ) by {
            if k < m {
                assert(a.edits@[k] == a.edits@.subrange(0, m)[k]);
            }
        }
    }
}

/// One more edit, made as `apply_edit` says, keeps a document following.
proof fn lemma_follows_step(d0: SetupDoc, a: SetupDoc, b: SetupDoc, e: DocEdit)
    requires
        a.follows(&d0),
        b.edits@ == a.edits@.push(e),
        b.state() == apply_edit(a.state(), e),
    ensures
        b.follows(&d0),
        a.follows_keeping_thresholds(&d0) && !is_threshold_edit(e)
            ==> b.follows_keeping_thresholds(&d0),
{
    let n = d0.edits@.len() as int;
    assert(b.edits_since(&d0).drop_last() =~= a.edits_since(&d0));
    assert(b.edits@.subrange(0, n) =~= a.edits@.subrange(0, n));
    if a.follows_keeping_thresholds(&d0) && !is_threshold_edit(e) {
        assert forall|k: int| n <= k < b.edits@.len() implies !is_threshold_edit(
            #[trigger] b.edits@[k],
        ) by {
            if k < a.edits@.len() {
                assert(b.edits@[k] == a.edits@[k]);
            }
        }
    }
}

/// A document that one edit turned `a` into follows whatever `a` follows.
proof fn lemma_extends(a: SetupDoc, b: SetupDoc, e: DocEdit)
    requires
        b.edits@ == a.edits@.push(e),
        b.state() == apply_edit(a.state(), e),
    ensures
        forall|d0: SetupDoc| a.follows(&d0) ==> #[trigger] b.follows(&d0),
        !is_threshold_edit(e) ==> forall|d0: SetupDoc|
            a.follows_keeping_thresholds(&d0) ==> #[trigger] b.follows_keeping_thresholds(&d0),
{
    assert forall|d0: SetupDoc| a.follows(&d0) implies #[trigger] b.follows(&d0) by {
        lemma_follows_step(d0, a, b, e);
    }
    if !is_threshold_edit(e) {
        assert forall|d0: SetupDoc| a.follows_keeping_thresholds(&d0) implies
            #[trigger] b.follows_keeping_thresholds(&d0) by {
            lemma_follows_step(d0, a, b, e);
        }
    }
}

/// A copy of a list of strings.
pub fn copy_names(v: &Vec<String>) -> (r: Vec<String>)
    ensures
        r@ == v@,
{
    let mut r: Vec<String> = Vec::new();
    let mut i: usize = 0;
    while i < v.len()
        invariant
            i <= v@.len(),
            r@ == v@.subrange(0, i as int),
        decreases v.len() - i,
    {
        r.push(v[i].clone());
        i = i + 1;
        assert(r@ =~= v@.subrange(0, i as int));
    }
    assert(v@.subrange(0, v@.len() as int) =~= v@);
    r
}

fn text_value(v: &FieldValue) -> (r: Option<String>)
    ensures
        opt_view(r) == text_of(*v),
{
    match v {
        FieldValue::Text(s) => Some(s.clone()),
        _ => None,
    }
}

fn models_value(v: &FieldValue) -> (r: ModelList)
    ensures
        r@ == models_of(*v),
{
    match v {
        FieldValue::NameList(ns) => {
            let mut out: Vec<Option<String>> = Vec::new();
            let mut i: usize = 0;
            while i < ns.len()
                invariant
                    i <= ns@.len(),
                    opt_names_view(out@) == ns@.subrange(0, i as int).map_values(
                        |s: String| Some(s@),
                    ),
                decreases ns.len() - i,
            {
                let ghost before = out@;
                out.push(Some(ns[i].clone()));
                assert(out@ == before.push(Some(ns@[i as int])));
                assert(opt_names_view(out@) =~= opt_names_view(before).push(Some(ns@[i as int]@)));
                assert(ns@.subrange(0, i + 1).map_values(|s: String| Some(s@)) =~= ns@.subrange(
                    0,
                    i as int,
                ).map_values(|s: String| Some(s@)).push(Some(ns@[i as int]@)));
                i = i + 1;
                assert(opt_names_view(out@) =~= ns@.subrange(0, i as int).map_values(
                    |s: String| Some(s@),
                ));
            }
            assert(ns@.subrange(0, ns@.len() as int) =~= ns@);
            assert(opt_names_view(out@) =~= names_view(ns@).map_values(|s: Seq<char>| Some(s)));
            ModelList::Names(out)
        },
        _ => ModelList::Other,
    }
}

impl SetupDoc {
    /// Adds the `providers` array where it is missing.
    pub(crate) fn create_providers(&mut self)
        requires
            old(self).wf(),
            old(self).providers == Section::Absent,
        ensures
            final(self).wf(),
            final(self).providers == Section::Present,
            final(self).tables_view() == old(self).tables_view(),
            final(self).tables@.len() == old(self).tables@.len(),
            final(self).same_outside_providers(&*old(self)),
            final(self).edits@ == old(self).edits@.push(DocEdit::CreateProviders),
            forall|d0: SetupDoc| old(self).follows(&d0) ==> #[trigger] final(self).follows(&d0),
            forall|d0: SetupDoc|
                old(self).follows_keeping_thresholds(&d0) ==> #[trigger] final(self).follows_keeping_thresholds(&d0),
    {
        let ghost before = *self;
        self.providers = Section::Present;
        self.edits.push(DocEdit::CreateProviders);
        proof {
            assert(self.state() == apply_edit(before.state(), DocEdit::CreateProviders));
            lemma_extends(before, *self, DocEdit::CreateProviders);
        }
    }

    /// Appends an empty provider table.
    pub(crate) fn append_provider(&mut self)
        requires
            old(self).wf(),
            old(self).providers == Section::Present,
        ensures
            final(self).wf(),
            final(self).providers == Section::Present,
            final(self).tables_view() == old(self).tables_view().push(empty_provider()),
            final(self).tables@.len() == old(self).tables@.len() + 1,
            final(self).same_outside_providers(&*old(self)),
            final(self).edits@ == old(self).edits@.push(DocEdit::AppendProvider),
            forall|d0: SetupDoc| old(self).follows(&d0) ==> #[trigger] final(self).follows(&d0),
            forall|d0: SetupDoc|
                old(self).follows_keeping_thresholds(&d0) ==> #[trigger] final(self).follows_keeping_thresholds(&d0),
    {
        let ghost before = *self;
        let t = ProviderTable {
            id: None,
            name: None,
            kind: None,
            base_url: None,
            api_key: None,
            enabled: None,
            tier: None,
            weight: None,
            timeout_ms: None,
            models: ModelList::Absent,
        };
        self.tables.push(t);
        assert(self.tables_view() =~= old(self).tables_view().push(empty_provider()));
        self.edits.push(DocEdit::AppendProvider);
        proof {
            assert(self.state() == apply_edit(before.state(), DocEdit::AppendProvider));
            lemma_extends(before, *self, DocEdit::AppendProvider);
        }
    }

    /// Sets key `f` of the provider table at `i` to `v`.
    pub(crate) fn set_field(&mut self, i: usize, f: ProviderField, v: FieldValue)
        requires
            old(self).wf(),
            old(self).providers == Section::Present,
            i < old(self).tables@.len(),
        ensures
            final(self).wf(),
            final(self).providers == Section::Present,
            final(self).tables_view() == old(self).tables_view().update(
                i as int,
                with_field(old(self).tables_view()[i as int], f, v),
            ),
            final(self).tables@.len() == old(self).tables@.len(),
            final(self).same_outside_providers(&*old(self)),
            final(self).edits@ == old(self).edits@.push(
                DocEdit::SetField { index: i, field: f, value: v },
            ),
            forall|d0: SetupDoc| old(self).follows(&d0) ==> #[trigger] final(self).follows(&d0),
            forall|d0: SetupDoc|
                old(self).follows_keeping_thresholds(&d0) ==> #[trigger] final(self).follows_keeping_thresholds(&d0),
    {
        let ghost before = *self;
        let ghost e = DocEdit::SetField { index: i, field: f, value: v };
        let mut t = self.tables.remove(i);
        match f {
            ProviderField::Id => {
                t.id = text_value(&v);
            },
            ProviderField::Name => {
                t.name = text_value(&v);
            },
            ProviderField::Kind => {
                t.kind = text_value(&v);
            },
            ProviderField::BaseUrl => {
                t.base_url = text_value(&v);
            },
            ProviderField::ApiKey => {
                t.api_key = text_value(&v);
            },
            ProviderField::Enabled => {
                t.enabled = match &v {
                    FieldValue::Flag(b) => Some(*b),
                    _ => None,
                };
            },
            ProviderField::Tier => {
                t.tier = text_value(&v);
            },
            ProviderField::Weight => {
                t.weight = match &v {
                    FieldValue::Decimal(m, s) => Some((*m, *s)),
                    _ => None,
                };
            },
            ProviderField::TimeoutMs => {
                t.timeout_ms = match &v {
                    FieldValue::Integer(n) => Some(*n),
                    _ => None,
                };
            },
            ProviderField::Models => {
                t.models = models_value(&v);
            },
        }
        self.tables.insert(i, t);
        assert(self.tables_view() =~= old(self).tables_view().update(
            i as int,
            with_field(old(self).tables_view()[i as int], f, v),
        ));
        self.edits.push(DocEdit::SetField { index: i, field: f, value: v });
        proof {
            assert(self.state() == apply_edit(before.state(), e));
            lemma_extends(before, *self, e);
        }
    }
}

/// A provider table with `n` appended to its list of models.
pub open spec fn with_model_appended(t: ProviderView, n: Seq<char>) -> ProviderView {
    ProviderView {
        models: match t.models {
            ModelsView::Names(v) => ModelsView::Names(v.push(Some(n))),
            ModelsView::Tables(v) => ModelsView::Tables(v.push(Some(n))),
            other => other,
        },
        ..t
    }
}

pub open spec fn lists_models(t: ProviderView) -> bool {
    t.models is Names || t.models is Tables
}

impl SetupDoc {
    /// Appends `name` to the models of the provider table at `i`, in the
    /// shape its list already has.
    pub(crate) fn append_model(&mut self, i: usize, name: String)
        requires
            old(self).wf(),
            old(self).providers == Section::Present,
            i < old(self).tables@.len(),
            lists_models(old(self).tables_view()[i as int]),
        ensures
            final(self).wf(),
            final(self).providers == Section::Present,
            final(self).tables_view() == old(self).tables_view().update(
                i as int,
                with_model_appended(old(self).tables_view()[i as int], name@),
            ),
            final(self).tables@.len() == old(self).tables@.len(),
            final(self).same_outside_providers(&*old(self)),
            old(self).tables_view()[i as int].models is Names ==> final(self).edits@
                == old(self).edits@.push(DocEdit::AppendModelName { index: i, name }),
            old(self).tables_view()[i as int].models is Tables ==> final(self).edits@
                == old(self).edits@.push(DocEdit::AppendModelTable { index: i, name }),
            forall|d0: SetupDoc| old(self).follows(&d0) ==> #[trigger] final(self).follows(&d0),
            forall|d0: SetupDoc|
                old(self).follows_keeping_thresholds(&d0) ==> #[trigger] final(self).follows_keeping_thresholds(&d0),
    {
        let ghost before = *self;
        let ghost e = if before.tables_view()[i as int].models is Names {
            DocEdit::AppendModelName { index: i, name }
        } else {
            DocEdit::AppendModelTable { index: i, name }
        };
        let mut t = self.tables.remove(i);
        let mut m = ModelList::Absent;
        std::mem::swap(&mut m, &mut t.models);
        let plain = match m {
            ModelList::Names(mut v) => {
                let ghost vb = v@;
                v.push(Some(name.clone()));
                assert(opt_names_view(v@) =~= opt_names_view(vb).push(Some(name@)));
                t.models = ModelList::Names(v);
                true
            },
            ModelList::Tables(mut v) => {
                let ghost vb = v@;
                v.push(Some(name.clone()));
                assert(opt_names_view(v@) =~= opt_names_view(vb).push(Some(name@)));
                t.models = ModelList::Tables(v);
                false
            },
            other => {
                t.models = other;
                true
            },
        };
        self.tables.insert(i, t);
        assert(self.tables_view() =~= old(self).tables_view().update(
            i as int,
            with_model_appended(old(self).tables_view()[i as int], name@),
        ));
        if plain {
            self.edits.push(DocEdit::AppendModelName { index: i, name });
        } else {
            self.edits.push(DocEdit::AppendModelTable { index: i, name });
        }
        proof {
            assert(self.state() == apply_edit(before.state(), e));
            lemma_extends(before, *self, e);
        }
    }

    /// Adds an empty `[thresholds]` table.
    fn create_thresholds(&mut self)
        requires
            old(self).wf(),
            old(self).thresholds == Section::Absent,
        ensures
            final(self).wf(),
            final(self).thresholds == Section::Present,
            !final(self).has_min_tokens_per_second,
            final(self).same_outside_thresholds(&*old(self)),
            final(self).edits@ == old(self).edits@.push(DocEdit::CreateThresholds),
            forall|d0: SetupDoc| old(self).follows(&d0) ==> #[trigger] final(self).follows(&d0),
    {
        let ghost before = *self;
        self.thresholds = Section::Present;
        self.edits.push(DocEdit::CreateThresholds);
        proof {
            assert(self.state() == apply_edit(before.state(), DocEdit::CreateThresholds));
            lemma_extends(before, *self, DocEdit::CreateThresholds);
        }
    }

    /// Sets a key of the `[thresholds]` table.
    fn set_threshold(&mut self, key: ThresholdField, value: FieldValue)
        requires
            old(self).wf(),
            old(self).thresholds == Section::Present,
        ensures
            final(self).wf(),
            final(self).thresholds == Section::Present,
            final(self).has_min_tokens_per_second == (old(self).has_min_tokens_per_second || key
                == ThresholdField::MinTokensPerSecond),
            final(self).same_outside_thresholds(&*old(self)),
            final(self).edits@ == old(self).edits@.push(DocEdit::SetThreshold { key, value }),
            forall|d0: SetupDoc| old(self).follows(&d0) ==> #[trigger] final(self).follows(&d0),
    {
        let ghost before = *self;
        let ghost e = DocEdit::SetThreshold { key, value };
        if key == ThresholdField::MinTokensPerSecond {
            self.has_min_tokens_per_second = true;
        }
        self.edits.push(DocEdit::SetThreshold { key, value });
        proof {
            assert(self.state() == apply_edit(before.state(), e));
            lemma_extends(before, *self, e);
        }
    }

    /// Adds an empty `[tiers]` table.
    fn create_tiers(&mut self)
        requires
            old(self).wf(),
            old(self).tiers == Section::Absent,
        ensures
            final(self).wf(),
            final(self).tiers == Section::Present,
            final(self).tiers_view() == old(self).tiers_view(),
            final(self).tier_entries@.len() == old(self).tier_entries@.len(),
            final(self).same_outside_tiers(&*old(self)),
            final(self).edits@ == old(self).edits@.push(DocEdit::CreateTiers),
            forall|d0: SetupDoc| old(self).follows(&d0) ==> #[trigger] final(self).follows(&d0),
            forall|d0: SetupDoc|
                old(self).follows_keeping_thresholds(&d0) ==> #[trigger] final(self).follows_keeping_thresholds(&d0),
    {
        let ghost before = *self;
        self.tiers = Section::Present;
        self.edits.push(DocEdit::CreateTiers);
        proof {
            assert(self.tiers_view() =~= Seq::<TierView>::empty());
            assert(self.state() == apply_edit(before.state(), DocEdit::CreateTiers));
            lemma_extends(before, *self, DocEdit::CreateTiers);
        }
    }

    /// Adds an empty `[tiers.<tier>]` table.
    fn create_tier(&mut self, tier: String)
        requires
            old(self).wf(),
            old(self).tiers == Section::Present,
            forall|j: int| 0 <= j < old(self).tiers_view().len() ==> #[trigger] old(self).tiers_view()[j].name != tier@,
        ensures
            final(self).wf(),
            final(self).tiers == Section::Present,
            final(self).tiers_view() == old(self).tiers_view().push(
                TierView { name: tier@, table_like: true, default_model: None },
            ),
            final(self).tier_entries@.len() == old(self).tier_entries@.len() + 1,
            final(self).same_outside_tiers(&*old(self)),
            final(self).edits@ == old(self).edits@.push(DocEdit::CreateTier { tier }),
            forall|d0: SetupDoc| old(self).follows(&d0) ==> #[trigger] final(self).follows(&d0),
            forall|d0: SetupDoc|
                old(self).follows_keeping_thresholds(&d0) ==> #[trigger] final(self).follows_keeping_thresholds(&d0),
    {
        let ghost before = *self;
        let ghost ed = DocEdit::CreateTier { tier };
        let e = TierEntry { name: tier.clone(), table_like: true, default_model: None };
        self.tier_entries.push(e);
        assert(self.tiers_view() =~= old(self).tiers_view().push(
            TierView { name: tier@, table_like: true, default_model: None },
        ));
        self.edits.push(DocEdit::CreateTier { tier });
        proof {
            assert(self.state() == apply_edit(before.state(), ed));
            lemma_extends(before, *self, ed);
        }
    }

    /// Sets `default_model` of the tier table at `i`.
    fn set_tier_default_at(&mut self, i: usize, model: String)
        requires
            old(self).wf(),
            old(self).tiers == Section::Present,
            i < old(self).tier_entries@.len(),
            tiers_distinct(old(self).tiers_view()),
        ensures
            final(self).wf(),
            final(self).tiers == Section::Present,
            final(self).tiers_view() == old(self).tiers_view().update(
                i as int,
                TierView { default_model: Some(model@), ..old(self).tiers_view()[i as int] },
            ),
            final(self).same_outside_tiers(&*old(self)),
            final(self).edits@ == old(self).edits@.push(
                DocEdit::SetTierDefault { tier: old(self).tier_entries@[i as int].name, model },
            ),
            forall|d0: SetupDoc| old(self).follows(&d0) ==> #[trigger] final(self).follows(&d0),
            forall|d0: SetupDoc|
                old(self).follows_keeping_thresholds(&d0) ==> #[trigger] final(self).follows_keeping_thresholds(&d0),
    {
        let ghost before = *self;
        let ghost ed = DocEdit::SetTierDefault { tier: self.tier_entries@[i as int].name, model };
        let mut e = self.tier_entries.remove(i);
        let tier = e.name.clone();
        e.default_model = Some(model.clone());
        self.tier_entries.insert(i, e);
        assert(self.tiers_view() =~= old(self).tiers_view().update(
            i as int,
            TierView { default_model: Some(model@), ..old(self).tiers_view()[i as int] },
        ));
        self.edits.push(DocEdit::SetTierDefault { tier, model });
        proof {
            let ts = before.tiers_view();
            assert(ts[i as int].name == before.tier_entries@[i as int].name@);
            let c = choose|j: int| 0 <= j < ts.len() && ts[j].name == ts[i as int].name;
            assert(c == i);
            assert(self.state() == apply_edit(before.state(), ed));
            lemma_extends(before, *self, ed);
        }
    }
}

/// The name a provider table goes by: its `id`, else its `name`.
pub open spec fn key_of(t: ProviderView) -> Option<Seq<char>> {
    if t.id is Some {
        t.id
    } else {
        t.name
    }
}

pub open spec fn keyed(t: ProviderView, key: Seq<char>) -> bool {
    key_of(t) == Some(key)
}

/// `i` is the first table that goes by `key`.
pub open spec fn is_first_keyed(s: Seq<ProviderView>, key: Seq<char>, i: int) -> bool {
    &&& 0 <= i < s.len()
    &&& keyed(s[i], key)
    &&& forall|j: int| 0 <= j < i ==> !keyed(#[trigger] s[j], key)
}

pub open spec fn none_keyed(s: Seq<ProviderView>, key: Seq<char>) -> bool {
    forall|j: int| 0 <= j < s.len() ==> !keyed(#[trigger] s[j], key)
}

/// The first table that goes by `key` (meaningful where one does).
pub open spec fn first_keyed(s: Seq<ProviderView>, key: Seq<char>) -> int {
    choose|i: int| is_first_keyed(s, key, i)
}

/// How many tables satisfy `p`.
pub open spec fn count_where(s: Seq<ProviderView>, p: spec_fn(ProviderView) -> bool) -> nat
    decreases s.len(),
{
    if s.len() == 0 {
        0
    } else {
        count_where(s.drop_last(), p) + if p(s.last()) {
            1nat
        } else {
            0nat
        }
    }
}

/// How many tables go by `key`.
pub open spec fn count_keyed(s: Seq<ProviderView>, key: Seq<char>) -> nat {
    count_where(s, |t: ProviderView| keyed(t, key))
}

/// How many tables belong to the local broker.
pub open spec fn count_local(s: Seq<ProviderView>) -> nat {
    count_where(s, |t: ProviderView| is_local_table(t))
}

pub proof fn lemma_first_keyed_unique(s: Seq<ProviderView>, key: Seq<char>, i: int)
    requires
        is_first_keyed(s, key, i),
    ensures
        first_keyed(s, key) == i,
{
    let k = first_keyed(s, key);
    assert(is_first_keyed(s, key, k));
    if k < i {
        assert(!keyed(s[k], key));
    } else if i < k {
        assert(!keyed(s[i], key));
    }
}

pub proof fn lemma_count_push(s: Seq<ProviderView>, t: ProviderView, p: spec_fn(ProviderView) -> bool)
    ensures
        count_where(s.push(t), p) == count_where(s, p) + if p(t) {
            1nat
        } else {
            0nat
        },
{
    assert(s.push(t).drop_last() =~= s);
}

pub proof fn lemma_count_update(
    s: Seq<ProviderView>,
    i: int,
    t: ProviderView,
    p: spec_fn(ProviderView) -> bool,
)
    requires
        0 <= i < s.len(),
    ensures
        count_where(s.update(i, t), p) + (if p(s[i]) {
            1nat
        } else {
            0nat
        }) == count_where(s, p) + (if p(t) {
            1nat
        } else {
            0nat
        }),
    decreases s.len(),
{
    if i == s.len() - 1 {
        assert(s.update(i, t).drop_last() =~= s.drop_last());
    } else {
        lemma_count_update(s.drop_last(), i, t, p);
        assert(s.update(i, t).drop_last() =~= s.drop_last().update(i, t));
    }
}

pub proof fn lemma_count_none(s: Seq<ProviderView>, p: spec_fn(ProviderView) -> bool)
    requires
        forall|j: int| 0 <= j < s.len() ==> !p(#[trigger] s[j]),
    ensures
        count_where(s, p) == 0,
    decreases s.len(),
{
    if s.len() > 0 {
        assert(!p(s[s.len() - 1]));
        lemma_count_none(s.drop_last(), p);
    }
}

pub proof fn lemma_count_some(s: Seq<ProviderView>, p: spec_fn(ProviderView) -> bool, i: int)
    requires
        0 <= i < s.len(),
        p(s[i]),
    ensures
        count_where(s, p) >= 1,
    decreases s.len(),
{
    if i < s.len() - 1 {
        lemma_count_some(s.drop_last(), p, i);
    }
}

/// Where some table goes by `key`, a first one does.
pub proof fn lemma_first_keyed_exists(s: Seq<ProviderView>, key: Seq<char>)
    requires
        !none_keyed(s, key),
    ensures
        is_first_keyed(s, key, first_keyed(s, key)),
    decreases s.len(),
{
    let d = s.drop_last();
    if !none_keyed(d, key) {
        lemma_first_keyed_exists(d, key);
        let i = first_keyed(d, key);
        assert forall|j: int| 0 <= j < i implies !keyed(#[trigger] s[j], key) by {
            assert(s[j] == d[j]);
        }
        assert(s[i] == d[i]);
        assert(is_first_keyed(s, key, i));
        lemma_first_keyed_unique(s, key, i);
    } else {
        let j = choose|j: int| 0 <= j < s.len() && keyed(#[trigger] s[j], key);
        if j < s.len() - 1 {
            assert(d[j] == s[j]);
        }
        assert forall|k: int| 0 <= k < s.len() - 1 implies !keyed(#[trigger] s[k], key) by {
            assert(d[k] == s[k]);
        }
        assert(is_first_keyed(s, key, s.len() - 1));
        lemma_first_keyed_unique(s, key, s.len() - 1);
    }
}

fn keyed_exec(t: &ProviderTable, key: &str) -> (b: bool)
    ensures
        b == keyed(t@, key@),
{
    match &t.id {
        Some(i) => str_eq(i.as_str(), key),
        None => match &t.name {
            Some(n) => str_eq(n.as_str(), key),
            None => false,
        },
    }
}

impl SetupDoc {
    /// Index of the first provider table that goes by `key`.
    pub fn find_keyed(&self, key: &str) -> (r: Option<usize>)
        ensures
            match r {
                Some(i) => is_first_keyed(self.tables_view(), key@, i as int),
                None => none_keyed(self.tables_view(), key@),
            },
    {
        let mut i: usize = 0;
        while i < self.tables.len()
            invariant
                i <= self.tables@.len(),
                forall|j: int| 0 <= j < i ==> !keyed(#[trigger] self.tables_view()[j], key@),
            decreases self.tables.len() - i,
        {
            if keyed_exec(&self.tables[i], key) {
                return Some(i);
            }
            i = i + 1;
        }
        None
    }
}

/// A provider that setup registers: its id, display name, kind, base URL,
/// API key (where one was given) and models.
pub struct ProviderEntry {
    pub id: Seq<char>,
    pub name: Seq<char>,
    pub kind: Seq<char>,
    pub base_url: Seq<char>,
    pub api_key: Option<Seq<char>>,
    pub models: Seq<Seq<char>>,
    pub enabled: bool,
}

/// The display name: the name given, else the id.
pub open spec fn display_name(id: Seq<char>, name: Seq<char>) -> Seq<char> {
    if name.len() == 0 {
        id
    } else {
        name
    }
}

/// An API key counts as given only where it is not empty.
pub open spec fn given_key(api_key: Option<Seq<char>>) -> Option<Seq<char>> {
    match api_key {
        Some(k) => if k.len() > 0 {
            Some(k)
        } else {
            None
        },
        None => None,
    }
}

/// An existing table rewritten for `e`: name, kind, base URL, models and
/// switch replaced, the key replaced only by a given one.
pub open spec fn custom_updated(t: ProviderView, e: ProviderEntry) -> ProviderView {
    ProviderView {
        name: Some(display_name(e.id, e.name)),
        kind: Some(e.kind),
        base_url: Some(e.base_url),
        api_key: if given_key(e.api_key) is Some {
            given_key(e.api_key)
        } else {
            t.api_key
        },
        enabled: Some(e.enabled),
        models: name_array(e.models),
        ..t
    }
}

/// A new table for `e`, in the fast tier with weight 1.0 and a 30 s timeout.
pub open spec fn custom_new(e: ProviderEntry) -> ProviderView {
    ProviderView {
        id: Some(e.id),
        name: Some(display_name(e.id, e.name)),
        kind: Some(e.kind),
        base_url: Some(e.base_url),
        api_key: given_key(e.api_key),
        enabled: Some(e.enabled),
        tier: Some("fast"@),
        weight: Some((10, 1)),
        timeout_ms: Some(30000),
        models: name_array(e.models),
    }
}

/// The provider tables after registering `e`: the first table that goes by
/// its id is rewritten, else a new one is appended.
pub open spec fn custom_upsert(s: Seq<ProviderView>, e: ProviderEntry) -> Seq<ProviderView> {
    if none_keyed(s, e.id) {
        s.push(custom_new(e))
    } else {
        let i = first_keyed(s, e.id);
        s.update(i, custom_updated(s[i], e))
    }
}

/// Inserts or updates the provider `id`; running it again never adds a
/// second table for the same provider.
pub fn add_custom_provider(
    doc: &mut SetupDoc,
    id: &str,
    name: &str,
    kind: &str,
    base_url: &str,
    api_key: Option<&str>,
    models: &Vec<String>,
    enabled: bool,
)
    requires
        old(doc).wf(),
    ensures
        final(doc).wf(),
        final(doc).follows_keeping_thresholds(&*old(doc)),
        final(doc).same_outside_providers(&*old(doc)),
        old(doc).providers == Section::Other ==> final(doc).providers == Section::Other
            && final(doc).tables_view() == old(doc).tables_view(),
        old(doc).providers != Section::Other ==> final(doc).providers == Section::Present
            && final(doc).tables_view() == custom_upsert(
            old(doc).tables_view(),
            ProviderEntry {
                id: id@,
                name: name@,
                kind: kind@,
                base_url: base_url@,
                api_key: match api_key {
                    Some(k) => Some(k@),
                    None => None,
                },
                models: names_view(models@),
                enabled,
            },
        ),
{
    let ghost d0 = *doc;
    proof {
        lemma_follows_refl(d0);
    }
    let ghost e = ProviderEntry {
        id: id@,
        name: name@,
        kind: kind@,
        base_url: base_url@,
        api_key: match api_key {
            Some(k) => Some(k@),
            None => None,
        },
        models: names_view(models@),
        enabled,
    };
    if doc.providers == Section::Absent {
        doc.create_providers();
    }
    if doc.providers == Section::Other {
        return;
    }
    let ghost s0 = doc.tables_view();
    let shown = if name.is_empty() {
        id
    } else {
        name
    };
    assert(shown@ == display_name(id@, name@));
    let key_given = match api_key {
        Some(k) => !k.is_empty(),
        None => false,
    };
    match doc.find_keyed(id) {
        Some(i) => {
            proof {
                lemma_first_keyed_unique(s0, id@, i as int);
            }
            doc.set_field(i, ProviderField::Name, FieldValue::Text(String::from_str(shown)));
            doc.set_field(i, ProviderField::Kind, FieldValue::Text(String::from_str(kind)));
            doc.set_field(i, ProviderField::BaseUrl, FieldValue::Text(String::from_str(base_url)));
            if key_given {
                if let Some(k) = api_key {
                    doc.set_field(i, ProviderField::ApiKey, FieldValue::Text(String::from_str(k)));
                }
            }
            doc.set_field(i, ProviderField::Models, FieldValue::NameList(copy_names(models)));
            doc.set_field(i, ProviderField::Enabled, FieldValue::Flag(enabled));
            assert(doc.tables_view()[i as int] == custom_updated(s0[i as int], e));
            assert(doc.tables_view() =~= custom_upsert(s0, e));
        },
        None => {
            doc.append_provider();
            let i = doc.tables.len() - 1;
            doc.set_field(i, ProviderField::Id, FieldValue::Text(String::from_str(id)));
            doc.set_field(i, ProviderField::Name, FieldValue::Text(String::from_str(shown)));
            doc.set_field(i, ProviderField::Kind, FieldValue::Text(String::from_str(kind)));
            doc.set_field(i, ProviderField::BaseUrl, FieldValue::Text(String::from_str(base_url)));
            if key_given {
                if let Some(k) = api_key {
                    doc.set_field(i, ProviderField::ApiKey, FieldValue::Text(String::from_str(k)));
                }
            }
            doc.set_field(i, ProviderField::Tier, FieldValue::Text(String::from_str("fast")));
            doc.set_field(i, ProviderField::Weight, FieldValue::Decimal(10, 1));
            doc.set_field(i, ProviderField::Enabled, FieldValue::Flag(enabled));
            doc.set_field(i, ProviderField::TimeoutMs, FieldValue::Integer(30000));
            doc.set_field(i, ProviderField::Models, FieldValue::NameList(copy_names(models)));
            assert(doc.tables_view()[i as int] == custom_new(e));
            assert(doc.tables_view() =~= custom_upsert(s0, e));
        },
    }
}

/// The names in an optional list.
pub open spec fn opt_names_list(o: Option<Vec<String>>) -> Option<Seq<Seq<char>>> {
    match o {
        Some(ms) => Some(names_view(ms@)),
        None => None,
    }
}

/// The hosted providers setup offers to configure with an API key.
#[derive(Clone, Copy, PartialEq, Eq, Structural, Debug)]
pub enum HostedProvider {
    Minimax,
    Mistral,
}

pub open spec fn hosted_id(h: HostedProvider) -> Seq<char> {
    match h {
        HostedProvider::Minimax => "minimax"@,
        HostedProvider::Mistral => "mistral"@,
    }
}

pub open spec fn hosted_name(h: HostedProvider) -> Seq<char> {
    match h {
        HostedProvider::Minimax => "MiniMax AI Cloud"@,
        HostedProvider::Mistral => "Mistral AI Platform"@,
    }
}

pub open spec fn hosted_kind(h: HostedProvider) -> Seq<char> {
    match h {
        HostedProvider::Minimax => "minimax"@,
        HostedProvider::Mistral => "openai"@,
    }
}

pub open spec fn hosted_url(h: HostedProvider) -> Seq<char> {
    match h {
        HostedProvider::Minimax => "https://api.minimaxi.chat/v1"@,
        HostedProvider::Mistral => "https://api.mistral.ai/v1"@,
    }
}

pub open spec fn hosted_timeout(h: HostedProvider) -> i64 {
    match h {
        HostedProvider::Minimax => 30000,
        HostedProvider::Mistral => 25000,
    }
}

/// The id a hosted provider's table goes by.
pub fn hosted_provider_id(h: HostedProvider) -> (r: &'static str)
    ensures
        r@ == hosted_id(h),
{
    match h {
        HostedProvider::Minimax => "minimax",
        HostedProvider::Mistral => "mistral",
    }
}

/// The endpoint a hosted provider is reached at.
pub fn hosted_base_url(h: HostedProvider) -> (r: &'static str)
    ensures
        r@ == hosted_url(h),
{
    match h {
        HostedProvider::Minimax => "https://api.minimaxi.chat/v1",
        HostedProvider::Mistral => "https://api.mistral.ai/v1",
    }
}

/// An existing hosted table after a probe: with a live key, endpoint, key,
/// models (where listed) and switched on; without one, switched off.
pub open spec fn hosted_updated(
    t: ProviderView,
    h: HostedProvider,
    key: Option<Seq<char>>,
    models: Option<Seq<Seq<char>>>,
) -> ProviderView {
    match key {
        Some(k) => ProviderView {
            base_url: Some(hosted_url(h)),
            api_key: Some(k),
            enabled: Some(true),
            models: match models {
                Some(ms) => name_array(ms),
                None => t.models,
            },
            ..t
        },
        None => ProviderView { enabled: Some(false), ..t },
    }
}

/// A new hosted table, in the hard tier with weight 1.0.
pub open spec fn hosted_new(h: HostedProvider, k: Seq<char>, models: Option<Seq<Seq<char>>>) -> ProviderView {
    ProviderView {
        id: Some(hosted_id(h)),
        name: Some(hosted_name(h)),
        kind: Some(hosted_kind(h)),
        base_url: Some(hosted_url(h)),
        api_key: Some(k),
        enabled: Some(true),
        tier: Some("hard"@),
        weight: Some((10, 1)),
        timeout_ms: Some(hosted_timeout(h)),
        models: name_array(
            match models {
                Some(ms) => ms,
                None => Seq::empty(),
            },
        ),
    }
}

/// The provider tables after configuring `h`: its first table is updated;
/// without one, a table is added only for a live key.
pub open spec fn hosted_configure(
    s: Seq<ProviderView>,
    h: HostedProvider,
    key: Option<Seq<char>>,
    models: Option<Seq<Seq<char>>>,
) -> Seq<ProviderView> {
    if none_keyed(s, hosted_id(h)) {
        match key {
            Some(k) => s.push(hosted_new(h, k, models)),
            None => s,
        }
    } else {
        let i = first_keyed(s, hosted_id(h));
        s.update(i, hosted_updated(s[i], h, key, models))
    }
}

/// Records the outcome of probing hosted provider `h`: `api_key` is the key
/// that answered (`None` for a skipped or dead one), `models` what it listed.
pub fn configure_hosted(
    doc: &mut SetupDoc,
    h: HostedProvider,
    api_key: Option<String>,
    models: Option<Vec<String>>,
)
    requires
        old(doc).wf(),
    ensures
        final(doc).wf(),
        final(doc).follows_keeping_thresholds(&*old(doc)),
        final(doc).same_outside_providers(&*old(doc)),
        old(doc).providers == Section::Other ==> final(doc).providers == Section::Other
            && final(doc).tables_view() == old(doc).tables_view(),
        old(doc).providers != Section::Other ==> final(doc).providers == Section::Present
            && final(doc).tables_view() == hosted_configure(
            old(doc).tables_view(),
            h,
            opt_view(api_key),
            opt_names_list(models),
        ),
{
    let ghost d0 = *doc;
    proof {
        lemma_follows_refl(d0);
    }
    let ghost km = opt_names_list(models);
    if doc.providers == Section::Absent {
        doc.create_providers();
    }
    if doc.providers == Section::Other {
        return;
    }
    let ghost s0 = doc.tables_view();
    let id = hosted_provider_id(h);
    let url = hosted_base_url(h);
    match doc.find_keyed(id) {
        Some(i) => {
            proof {
                lemma_first_keyed_unique(s0, hosted_id(h), i as int);
            }
            match api_key {
                Some(key) => {
                    doc.set_field(i, ProviderField::BaseUrl, FieldValue::Text(String::from_str(url)));
                    doc.set_field(i, ProviderField::ApiKey, FieldValue::Text(key));
                    match models {
                        Some(ms) => {
                            doc.set_field(i, ProviderField::Models, FieldValue::NameList(ms));
                        },
                        None => {},
                    }
                    doc.set_field(i, ProviderField::Enabled, FieldValue::Flag(true));
                },
                None => {
                    doc.set_field(i, ProviderField::Enabled, FieldValue::Flag(false));
                },
            }
            assert(doc.tables_view() =~= hosted_configure(s0, h, opt_view(api_key), km));
        },
        None => {
            match api_key {
                Some(key) => {
                    let (name, kind, timeout): (&str, &str, i64) = match h {
                        HostedProvider::Minimax => ("MiniMax AI Cloud", "minimax", 30000),
                        HostedProvider::Mistral => ("Mistral AI Platform", "openai", 25000),
                    };
                    let listed = match models {
                        Some(ms) => ms,
                        None => Vec::new(),
                    };
                    assert(name@ == hosted_name(h) && kind@ == hosted_kind(h) && timeout
                        == hosted_timeout(h));
                    assert(names_view(listed@) =~= match km {
                        Some(ms) => ms,
                        None => Seq::empty(),
                    });
                    doc.append_provider();
                    let i = doc.tables.len() - 1;
                    doc.set_field(i, ProviderField::Id, FieldValue::Text(String::from_str(id)));
                    doc.set_field(i, ProviderField::Name, FieldValue::Text(String::from_str(name)));
                    doc.set_field(i, ProviderField::Kind, FieldValue::Text(String::from_str(kind)));
                    doc.set_field(i, ProviderField::BaseUrl, FieldValue::Text(String::from_str(url)));
                    doc.set_field(i, ProviderField::ApiKey, FieldValue::Text(key));
                    doc.set_field(i, ProviderField::Enabled, FieldValue::Flag(true));
                    doc.set_field(i, ProviderField::Tier, FieldValue::Text(String::from_str("hard")));
                    doc.set_field(i, ProviderField::Weight, FieldValue::Decimal(10, 1));
                    doc.set_field(i, ProviderField::TimeoutMs, FieldValue::Integer(timeout));
                    doc.set_field(i, ProviderField::Models, FieldValue::NameList(listed));
                    assert(doc.tables_view()[i as int] == hosted_new(h, opt_view(api_key).unwrap(), km));
                    assert(doc.tables_view() =~= hosted_configure(s0, h, opt_view(api_key), km));
                },
                None => {
                    assert(doc.tables_view() =~= hosted_configure(s0, h, opt_view(api_key), km));
                },
            }
        },
    }
}

/// Configures MiniMax from the outcome of probing its key.
pub fn configure_minimax(doc: &mut SetupDoc, api_key: Option<String>, models: Option<Vec<String>>)
    requires
        old(doc).wf(),
    ensures
        final(doc).wf(),
        final(doc).follows_keeping_thresholds(&*old(doc)),
        final(doc).same_outside_providers(&*old(doc)),
        old(doc).providers == Section::Other ==> final(doc).providers == Section::Other
            && final(doc).tables_view() == old(doc).tables_view(),
        old(doc).providers != Section::Other ==> final(doc).providers == Section::Present
            && final(doc).tables_view() == hosted_configure(
            old(doc).tables_view(),
            HostedProvider::Minimax,
            opt_view(api_key),
            opt_names_list(models),
        ),
{
    configure_hosted(doc, HostedProvider::Minimax, api_key, models)
}

/// Configures Mistral from the outcome of probing its key.
pub fn configure_mistral(doc: &mut SetupDoc, api_key: Option<String>, models: Option<Vec<String>>)
    requires
        old(doc).wf(),
    ensures
        final(doc).wf(),
        final(doc).follows_keeping_thresholds(&*old(doc)),
        final(doc).same_outside_providers(&*old(doc)),
        old(doc).providers == Section::Other ==> final(doc).providers == Section::Other
            && final(doc).tables_view() == old(doc).tables_view(),
        old(doc).providers != Section::Other ==> final(doc).providers == Section::Present
            && final(doc).tables_view() == hosted_configure(
            old(doc).tables_view(),
            HostedProvider::Mistral,
            opt_view(api_key),
            opt_names_list(models),
        ),
{
    configure_hosted(doc, HostedProvider::Mistral, api_key, models)
}

/// The table of the local inference broker: it goes by `syntrop-local` or
/// is of kind `varlink`.
pub open spec fn is_local_table(t: ProviderView) -> bool {
    keyed(t, "syntrop-local"@) || t.kind == Some("varlink"@)
}

pub open spec fn is_first_local(s: Seq<ProviderView>, i: int) -> bool {
    &&& 0 <= i < s.len()
    &&& is_local_table(s[i])
    &&& forall|j: int| 0 <= j < i ==> !is_local_table(#[trigger] s[j])
}

pub open spec fn none_local(s: Seq<ProviderView>) -> bool {
    forall|j: int| 0 <= j < s.len() ==> !is_local_table(#[trigger] s[j])
}

pub open spec fn first_local(s: Seq<ProviderView>) -> int {
    choose|i: int| is_first_local(s, i)
}

proof fn lemma_first_local_unique(s: Seq<ProviderView>, i: int)
    requires
        is_first_local(s, i),
    ensures
        first_local(s) == i,
{
    let k = first_local(s);
    assert(is_first_local(s, k));
    if k < i {
        assert(!is_local_table(s[k]));
    } else if i < k {
        assert(!is_local_table(s[i]));
    }
}

/// Where some table belongs to the local broker, a first one does.
pub proof fn lemma_first_local_exists(s: Seq<ProviderView>)
    requires
        !none_local(s),
    ensures
        is_first_local(s, first_local(s)),
    decreases s.len(),
{
    let d = s.drop_last();
    if !none_local(d) {
        lemma_first_local_exists(d);
        let i = first_local(d);
        assert forall|j: int| 0 <= j < i implies !is_local_table(#[trigger] s[j]) by {
            assert(s[j] == d[j]);
        }
        assert(s[i] == d[i]);
        assert(is_first_local(s, i));
        lemma_first_local_unique(s, i);
    } else {
        let j = choose|j: int| 0 <= j < s.len() && is_local_table(#[trigger] s[j]);
        if j < s.len() - 1 {
            assert(d[j] == s[j]);
        }
        assert forall|k: int| 0 <= k < s.len() - 1 implies !is_local_table(#[trigger] s[k]) by {
            assert(d[k] == s[k]);
        }
        assert(is_first_local(s, s.len() - 1));
        lemma_first_local_unique(s, s.len() - 1);
    }
}

/// A new table for the local broker, in the fast tier with weight 1.3.
pub open spec fn local_new(enabled: bool) -> ProviderView {
    ProviderView {
        id: Some("syntrop-local"@),
        name: Some("Syntrop Local Inferenced Broker"@),
        kind: Some("varlink"@),
        base_url: Some("/run/syntrop/io.syntrop.Inference1"@),
        api_key: None,
        enabled: Some(enabled),
        tier: Some("fast"@),
        weight: Some((13, 1)),
        timeout_ms: Some(10000),
        models: ModelsView::Absent,
    }
}

/// `existing` with each of `names` appended unless already listed.
pub open spec fn merged_names(existing: Seq<Option<Seq<char>>>, names: Seq<Seq<char>>) -> Seq<
    Option<Seq<char>>,
>
    decreases names.len(),
{
    if names.len() == 0 {
        existing
    } else {
        let prev = merged_names(existing, names.drop_last());
        if prev.contains(Some(names.last())) {
            prev
        } else {
            prev.push(Some(names.last()))
        }
    }
}

/// A models list after merging in `names`: a list of either shape gains the
/// names it lacks; a missing list becomes `names`; any other value stays.
pub open spec fn merge_models(m: ModelsView, names: Seq<Seq<char>>) -> ModelsView {
    match m {
        ModelsView::Names(v) => ModelsView::Names(merged_names(v, names)),
        ModelsView::Tables(v) => ModelsView::Tables(merged_names(v, names)),
        ModelsView::Absent => name_array(names),
        ModelsView::Other => ModelsView::Other,
    }
}

pub open spec fn local_merged(t: ProviderView, names: Seq<Seq<char>>, enabled: bool) -> ProviderView {
    ProviderView { enabled: Some(enabled), models: merge_models(t.models, names), ..t }
}

/// The provider tables after registering model files `names` with the local
/// broker: its first table is switched and merged into, else one is added.
pub open spec fn local_upsert(s: Seq<ProviderView>, names: Seq<Seq<char>>, enabled: bool) -> Seq<
    ProviderView,
> {
    if none_local(s) {
        s.push(local_merged(local_new(enabled), names, enabled))
    } else {
        let i = first_local(s);
        s.update(i, local_merged(s[i], names, enabled))
    }
}

fn is_local_exec(t: &ProviderTable) -> (b: bool)
    ensures
        b == is_local_table(t@),
{
    if keyed_exec(t, "syntrop-local") {
        return true;
    }
    match &t.kind {
        Some(k) => str_eq(k.as_str(), "varlink"),
        None => false,
    }
}

fn list_contains(v: &Vec<Option<String>>, name: &str) -> (b: bool)
    ensures
        b == opt_names_view(v@).contains(Some(name@)),
{
    let mut i: usize = 0;
    while i < v.len()
        invariant
            i <= v@.len(),
            forall|j: int| 0 <= j < i ==> opt_names_view(v@)[j] != Some(name@),
        decreases v.len() - i,
    {
        let hit = match &v[i] {
            Some(s) => str_eq(s.as_str(), name),
            None => false,
        };
        if hit {
            assert(opt_names_view(v@)[i as int] == Some(name@));
            return true;
        }
        i = i + 1;
    }
    false
}

impl SetupDoc {
    /// Index of the local broker's first table.
    fn find_local(&self) -> (r: Option<usize>)
        ensures
            match r {
                Some(i) => is_first_local(self.tables_view(), i as int),
                None => none_local(self.tables_view()),
            },
    {
        let mut i: usize = 0;
        while i < self.tables.len()
            invariant
                i <= self.tables@.len(),
                forall|j: int| 0 <= j < i ==> !is_local_table(#[trigger] self.tables_view()[j]),
            decreases self.tables.len() - i,
        {
            if is_local_exec(&self.tables[i]) {
                return Some(i);
            }
            i = i + 1;
        }
        None
    }

    /// Whether the models list of the table at `i` already holds `name`.
    fn lists_model(&self, i: usize, name: &str) -> (b: bool)
        requires
            i < self.tables@.len(),
        ensures
            match self.tables_view()[i as int].models {
                ModelsView::Names(v) => b == v.contains(Some(name@)),
                ModelsView::Tables(v) => b == v.contains(Some(name@)),
                _ => !b,
            },
    {
        match &self.tables[i].models {
            ModelList::Names(v) => list_contains(v, name),
            ModelList::Tables(v) => list_contains(v, name),
            _ => false,
        }
    }
}

/// Registers on-disk model files `names` with the local inference broker
/// (switched on or off by `enabled`), merging them into whatever list is
/// there and never listing a name twice. No names, no change.
pub fn upsert_local_models(doc: &mut SetupDoc, names: &Vec<String>, enabled: bool)
    requires
        old(doc).wf(),
    ensures
        final(doc).wf(),
        final(doc).follows_keeping_thresholds(&*old(doc)),
        final(doc).same_outside_providers(&*old(doc)),
        names@.len() == 0 ==> final(doc).providers == old(doc).providers && final(doc).tables_view()
            == old(doc).tables_view() && final(doc).edits@ == old(doc).edits@,
        names@.len() > 0 && old(doc).providers == Section::Other ==> final(doc).providers
            == Section::Other && final(doc).tables_view() == old(doc).tables_view(),
        names@.len() > 0 && old(doc).providers != Section::Other ==> final(doc).providers
            == Section::Present && final(doc).tables_view() == local_upsert(
            old(doc).tables_view(),
            names_view(names@),
            enabled,
        ),
{
    let ghost d0 = *doc;
    proof {
        lemma_follows_refl(d0);
    }
    if names.len() == 0 {
        return;
    }
    if doc.providers == Section::Absent {
        doc.create_providers();
    }
    if doc.providers == Section::Other {
        return;
    }
    let ghost s0 = doc.tables_view();
    let ghost ns = names_view(names@);
    let i = match doc.find_local() {
        Some(i) => {
            proof {
                lemma_first_local_unique(s0, i as int);
            }
            i
        },
        None => {
            doc.append_provider();
            let i = doc.tables.len() - 1;
            doc.set_field(i, ProviderField::Id, FieldValue::Text(String::from_str("syntrop-local")));
            doc.set_field(
                i,
                ProviderField::Name,
                FieldValue::Text(String::from_str("Syntrop Local Inferenced Broker")),
            );
            doc.set_field(i, ProviderField::Kind, FieldValue::Text(String::from_str("varlink")));
            doc.set_field(
                i,
                ProviderField::BaseUrl,
                FieldValue::Text(String::from_str("/run/syntrop/io.syntrop.Inference1")),
            );
            doc.set_field(i, ProviderField::Tier, FieldValue::Text(String::from_str("fast")));
            doc.set_field(i, ProviderField::Weight, FieldValue::Decimal(13, 1));
            doc.set_field(i, ProviderField::Enabled, FieldValue::Flag(enabled));
            doc.set_field(i, ProviderField::TimeoutMs, FieldValue::Integer(10000));
            assert(doc.tables_view() =~= s0.push(local_new(enabled)));
            i
        },
    };
    let ghost s1 = doc.tables_view();
    let ghost t1 = s1[i as int];
    doc.set_field(i, ProviderField::Enabled, FieldValue::Flag(enabled));
    assert(doc.tables_view()[i as int] == doc.tables@[i as int]@);
    let shape_listed = match &doc.tables[i].models {
        ModelList::Names(_) => true,
        ModelList::Tables(_) => true,
        _ => false,
    };
    let absent = match &doc.tables[i].models {
        ModelList::Absent => true,
        _ => false,
    };
    if shape_listed {
        assert(ns.subrange(0, 0) =~= Seq::<Seq<char>>::empty());
        assert(doc.tables_view() =~= s1.update(
            i as int,
            local_merged(t1, ns.subrange(0, 0), enabled),
        ));
        let mut k: usize = 0;
        while k < names.len()
            invariant
                doc.wf(),
                doc.providers == Section::Present,
                doc.same_outside_providers(&*old(doc)),
                doc.follows_keeping_thresholds(&d0),
                i < s1.len(),
                s1.len() == doc.tables@.len(),
                k <= names@.len(),
                ns == names_view(names@),
                t1.models is Names || t1.models is Tables,
                doc.tables_view() == s1.update(
                    i as int,
                    local_merged(t1, ns.subrange(0, k as int), enabled),
                ),
            decreases names.len() - k,
        {
            let ghost pre = ns.subrange(0, k as int);
            let ghost post = ns.subrange(0, k + 1);
            assert(post.drop_last() =~= pre);
            assert(post.last() == names@[k as int]@);
            assert(doc.tables_view()[i as int] == local_merged(t1, pre, enabled));
            if !doc.lists_model(i, names[k].as_str()) {
                doc.append_model(i, names[k].clone());
            }
            k = k + 1;
            assert(doc.tables_view() =~= s1.update(
                i as int,
                local_merged(t1, ns.subrange(0, k as int), enabled),
            ));
        }
        assert(ns.subrange(0, names@.len() as int) =~= ns);
    } else if absent {
        doc.set_field(i, ProviderField::Models, FieldValue::NameList(copy_names(names)));
        assert(doc.tables_view() =~= s1.update(i as int, local_merged(t1, ns, enabled)));
    } else {
        assert(doc.tables_view() =~= s1.update(i as int, local_merged(t1, ns, enabled)));
    }
    assert(doc.tables_view() =~= local_upsert(s0, ns, enabled));
}

/// The names present in a list, in order.
pub open spec fn somes(v: Seq<Option<Seq<char>>>) -> Seq<Seq<char>>
    decreases v.len(),
{
    if v.len() == 0 {
        Seq::empty()
    } else {
        somes(v.drop_last()) + match v.last() {
            Some(x) => seq![x],
            None => Seq::empty(),
        }
    }
}

/// The model names a provider table lists.
pub open spec fn table_models(t: ProviderView) -> Seq<Seq<char>> {
    match t.models {
        ModelsView::Names(v) => somes(v),
        ModelsView::Tables(v) => somes(v),
        _ => Seq::empty(),
    }
}

/// A table's `id`, or `?` without one.
pub open spec fn id_or_unknown(t: ProviderView) -> Seq<char> {
    match t.id {
        Some(i) => i,
        None => "?"@,
    }
}

pub open spec fn tagged(id: Seq<char>, ms: Seq<Seq<char>>) -> Seq<(Seq<char>, Seq<char>)> {
    ms.map_values(|m: Seq<char>| (id, m))
}

/// (provider id, model) for every model of every provider switched on.
pub open spec fn live_pairs(s: Seq<ProviderView>) -> Seq<(Seq<char>, Seq<char>)>
    decreases s.len(),
{
    if s.len() == 0 {
        Seq::empty()
    } else {
        live_pairs(s.drop_last()) + if s.last().enabled == Some(true) {
            tagged(id_or_unknown(s.last()), table_models(s.last()))
        } else {
            Seq::empty()
        }
    }
}

pub open spec fn pairs_view(v: Seq<(String, String)>) -> Seq<(Seq<char>, Seq<char>)> {
    v.map_values(|p: (String, String)| (p.0@, p.1@))
}

fn push_tagged(out: &mut Vec<(String, String)>, id: &String, v: &Vec<Option<String>>)
    ensures
        pairs_view(final(out)@) == pairs_view(old(out)@) + tagged(id@, somes(opt_names_view(v@))),
{
    let ghost start = pairs_view(out@);
    let mut j: usize = 0;
    while j < v.len()
        invariant
            j <= v@.len(),
            pairs_view(out@) == start + tagged(id@, somes(opt_names_view(v@).subrange(0, j as int))),
        decreases v.len() - j,
    {
        let ghost pre = opt_names_view(v@).subrange(0, j as int);
        let ghost post = opt_names_view(v@).subrange(0, j + 1);
        assert(post.drop_last() =~= pre);
        assert(post.last() == opt_view(v@[j as int]));
        let ghost before = out@;
        match &v[j] {
            Some(m) => {
                out.push((id.clone(), m.clone()));
                assert(pairs_view(out@) =~= pairs_view(before).push((id@, m@)));
                assert(somes(post) =~= somes(pre) + seq![m@]);
                assert(tagged(id@, somes(post)) =~= tagged(id@, somes(pre)).push((id@, m@)));
            },
            None => {
                assert(somes(post) =~= somes(pre));
            },
        }
        j = j + 1;
        assert(pairs_view(out@) =~= start + tagged(id@, somes(opt_names_view(v@).subrange(0, j as int))));
    }
    assert(opt_names_view(v@).subrange(0, v@.len() as int) =~= opt_names_view(v@));
}

/// Every model of every provider switched on, with the provider's id, in
/// the order of the file.
pub fn live_models(doc: &SetupDoc) -> (r: Vec<(String, String)>)
    ensures
        pairs_view(r@) == live_pairs(doc.tables_view()),
{
    let mut out: Vec<(String, String)> = Vec::new();
    let mut i: usize = 0;
    while i < doc.tables.len()
        invariant
            i <= doc.tables@.len(),
            pairs_view(out@) == live_pairs(doc.tables_view().subrange(0, i as int)),
        decreases doc.tables.len() - i,
    {
        let ghost pre = doc.tables_view().subrange(0, i as int);
        let ghost post = doc.tables_view().subrange(0, i + 1);
        assert(post.drop_last() =~= pre);
        assert(post.last() == doc.tables@[i as int]@);
        let t = &doc.tables[i];
        if t.enabled == Some(true) {
            let id = match &t.id {
                Some(x) => x.clone(),
                None => String::from_str("?"),
            };
            assert(id@ == id_or_unknown(t@));
            match &t.models {
                ModelList::Names(v) => {
                    push_tagged(&mut out, &id, v);
                },
                ModelList::Tables(v) => {
                    push_tagged(&mut out, &id, v);
                },
                _ => {
                    assert(tagged(id@, table_models(t@)) =~= Seq::empty());
                },
            }
            assert(pairs_view(out@) =~= live_pairs(post));
        } else {
            assert(live_pairs(post) =~= live_pairs(pre));
        }
        i = i + 1;
    }
    assert(doc.tables_view().subrange(0, doc.tables@.len() as int) =~= doc.tables_view());
    out
}

/// The tier tables after pinning `tier`'s default model to `model`.
pub open spec fn tier_set(ts: Seq<TierView>, tier: Seq<char>, model: Seq<char>) -> Seq<TierView> {
    if exists|i: int| 0 <= i < ts.len() && ts[i].name == tier {
        let i = choose|i: int| 0 <= i < ts.len() && ts[i].name == tier;
        ts.update(i, TierView { default_model: Some(model), ..ts[i] })
    } else {
        ts.push(TierView { name: tier, table_like: true, default_model: Some(model) })
    }
}

/// The keys of `[tiers]` are distinct, as in any TOML table.
pub open spec fn tiers_distinct(ts: Seq<TierView>) -> bool {
    forall|i: int, j: int| 0 <= i < j < ts.len() ==> ts[i].name != ts[j].name
}

impl SetupDoc {
    /// Index of the `[tiers]` key named `tier`.
    fn find_tier(&self, tier: &str) -> (r: Option<usize>)
        ensures
            match r {
                Some(i) => i < self.tier_entries@.len() && self.tiers_view()[i as int].name == tier@,
                None => forall|j: int|
                    0 <= j < self.tiers_view().len() ==> #[trigger] self.tiers_view()[j].name
                        != tier@,
            },
    {
        let mut i: usize = 0;
        while i < self.tier_entries.len()
            invariant
                i <= self.tier_entries@.len(),
                forall|j: int| 0 <= j < i ==> #[trigger] self.tiers_view()[j].name != tier@,
            decreases self.tier_entries.len() - i,
        {
            assert(self.tiers_view()[i as int] == self.tier_entries@[i as int]@);
            if str_eq(self.tier_entries[i].name.as_str(), tier) {
                return Some(i);
            }
            i = i + 1;
        }
        None
    }
}

/// Pins `tier`'s default model to `model`, creating `[tiers]` and
/// `[tiers.<tier>]` where missing. Both must be tables where present.
pub fn set_tier_default(doc: &mut SetupDoc, tier: &str, model: &str)
    requires
        old(doc).wf(),
        old(doc).tiers != Section::Other,
        tiers_distinct(old(doc).tiers_view()),
        forall|i: int|
            0 <= i < old(doc).tiers_view().len() && old(doc).tiers_view()[i].name == tier@
                ==> old(doc).tiers_view()[i].table_like,
    ensures
        final(doc).wf(),
        final(doc).follows_keeping_thresholds(&*old(doc)),
        final(doc).tiers == Section::Present,
        final(doc).tiers_view() == tier_set(old(doc).tiers_view(), tier@, model@),
        tiers_distinct(final(doc).tiers_view()),
        final(doc).same_outside_tiers(&*old(doc)),
{
    let ghost d0 = *doc;
    proof {
        lemma_follows_refl(d0);
    }
    if doc.tiers == Section::Absent {
        doc.create_tiers();
    }
    let ghost t0 = doc.tiers_view();
    let found = doc.find_tier(tier);
    match found {
        Some(k) => {
            assert(t0[k as int].name == tier@);
            let ghost c = choose|j: int| 0 <= j < t0.len() && t0[j].name == tier@;
            assert(c == k);
            doc.set_tier_default_at(k, String::from_str(model));
            assert(doc.tiers_view() =~= tier_set(t0, tier@, model@));
        },
        None => {
            doc.create_tier(String::from_str(tier));
            let n = doc.tier_entries.len() - 1;
            doc.set_tier_default_at(n, String::from_str(model));
            assert(doc.tiers_view() =~= tier_set(t0, tier@, model@));
        },
    }
}

/// The edits that complete the `[thresholds]` table.
pub open spec fn threshold_edits(section: Section, has_min: bool) -> Seq<DocEdit> {
    match section {
        Section::Absent => seq![
            DocEdit::CreateThresholds,
            DocEdit::SetThreshold { key: ThresholdField::MaxLatencyMs, value: FieldValue::Integer(15000) },
            DocEdit::SetThreshold { key: ThresholdField::PsiMemoryThreshold, value: FieldValue::Decimal(250, 1) },
            DocEdit::SetThreshold { key: ThresholdField::MaxRetries, value: FieldValue::Integer(2) },
            DocEdit::SetThreshold { key: ThresholdField::RssLimitMb, value: FieldValue::Integer(15) },
            DocEdit::SetThreshold { key: ThresholdField::MinTokensPerSecond, value: FieldValue::Decimal(100, 1) },
        ],
        Section::Present => if has_min {
            Seq::empty()
        } else {
            seq![DocEdit::SetThreshold { key: ThresholdField::MinTokensPerSecond, value: FieldValue::Decimal(100, 1) }]
        },
        Section::Other => Seq::empty(),
    }
}

/// Adds a default `[thresholds]` table where there is none, and the
/// `min_tokens_per_second` floor (10.0) to one that lacks it; a value set by
/// the operator is kept.
pub fn ensure_thresholds_config(doc: &mut SetupDoc)
    requires
        old(doc).wf(),
    ensures
        final(doc).wf(),
        final(doc).follows(&*old(doc)),
        final(doc).same_outside_thresholds(&*old(doc)),
        final(doc).thresholds == if old(doc).thresholds == Section::Absent {
            Section::Present
        } else {
            old(doc).thresholds
        },
        final(doc).has_min_tokens_per_second == (old(doc).thresholds != Section::Other),
        final(doc).edits@ == old(doc).edits@ + threshold_edits(
            old(doc).thresholds,
            old(doc).has_min_tokens_per_second,
        ),
{
    let ghost d0 = *doc;
    proof {
        lemma_follows_refl(d0);
    }
    let ghost e0 = doc.edits@;
    if doc.thresholds == Section::Absent {
        doc.create_thresholds();
        doc.set_threshold(ThresholdField::MaxLatencyMs, FieldValue::Integer(15000));
        doc.set_threshold(ThresholdField::PsiMemoryThreshold, FieldValue::Decimal(250, 1));
        doc.set_threshold(ThresholdField::MaxRetries, FieldValue::Integer(2));
        doc.set_threshold(ThresholdField::RssLimitMb, FieldValue::Integer(15));
        doc.set_threshold(ThresholdField::MinTokensPerSecond, FieldValue::Decimal(100, 1));
        assert(doc.edits@ =~= e0 + threshold_edits(Section::Absent, false));
    } else if doc.thresholds == Section::Present {
        if !doc.has_min_tokens_per_second {
            doc.set_threshold(ThresholdField::MinTokensPerSecond, FieldValue::Decimal(100, 1));
            assert(doc.edits@ =~= e0 + threshold_edits(Section::Present, false));
        } else {
            assert(doc.edits@ =~= e0 + threshold_edits(Section::Present, true));
        }
    } else {
        assert(doc.edits@ =~= e0 + threshold_edits(Section::Other, doc.has_min_tokens_per_second));
    }
}

} // verus!
