use vstd::prelude::*;

use crate::assoc::str_eq;
use crate::commands::SelectionKind;
use crate::selection_filter::{matches_query, query_matches};
use crate::seqs::{first_index, lemma_filter_push, lemma_first_index_at};
use crate::text::{contains, contains_seq, lowercase, push_str, strings_view, to_lowercase};

verus! {

/// The most agents or models one search lists.
pub const SELECTION_LIMIT: usize = 100;

/// A model, named by its provider and its id within the provider.
pub struct ModelRef {
    pub provider_id: String,
    pub model_id: String,
}

pub struct ModelRefView {
    pub provider_id: Seq<char>,
    pub model_id: Seq<char>,
}

impl View for ModelRef {
    type V = ModelRefView;

    open spec fn view(&self) -> ModelRefView {
        ModelRefView { provider_id: self.provider_id@, model_id: self.model_id@ }
    }
}

impl ModelRef {
    pub fn duplicate(&self) -> (r: ModelRef)
        ensures
            r@ == self@,
    {
        ModelRef { provider_id: self.provider_id.clone(), model_id: self.model_id.clone() }
    }

    pub fn same_as(&self, other: &ModelRef) -> (r: bool)
        ensures
            r == (self@ == other@),
    {
        str_eq(self.provider_id.as_str(), other.provider_id.as_str()) && str_eq(
            self.model_id.as_str(),
            other.model_id.as_str(),
        )
    }
}

/// An agent that the composer offers.
pub struct CatalogAgent {
    pub name: String,
    pub description: String,
}

pub struct CatalogAgentView {
    pub name: Seq<char>,
    pub description: Seq<char>,
}

impl View for CatalogAgent {
    type V = CatalogAgentView;

    open spec fn view(&self) -> CatalogAgentView {
        CatalogAgentView { name: self.name@, description: self.description@ }
    }
}

/// A model that the composer offers, with the variants it knows.
pub struct CatalogModel {
    pub reference: ModelRef,
    pub name: String,
    pub provider_name: String,
    pub variants: Vec<String>,
}

pub struct CatalogModelView {
    pub reference: ModelRefView,
    pub name: Seq<char>,
    pub provider_name: Seq<char>,
    pub variants: Seq<Seq<char>>,
}

impl View for CatalogModel {
    type V = CatalogModelView;

    open spec fn view(&self) -> CatalogModelView {
        CatalogModelView {
            reference: self.reference@,
            name: self.name@,
            provider_name: self.provider_name@,
            variants: strings_view(self.variants@),
        }
    }
}

/// The agents and models that a directory's server offers the composer.
pub struct ComposerCatalog {
    pub agents: Vec<CatalogAgent>,
    pub models: Vec<CatalogModel>,
}

pub struct ComposerCatalogView {
    pub agents: Seq<CatalogAgentView>,
    pub models: Seq<CatalogModelView>,
}

impl View for ComposerCatalog {
    type V = ComposerCatalogView;

    open spec fn view(&self) -> ComposerCatalogView {
        ComposerCatalogView {
            agents: self.agents@.map_values(|a: CatalogAgent| a@),
            models: self.models@.map_values(|m: CatalogModel| m@),
        }
    }
}

/// One entry of the agent, model or variant picker.
pub enum SelectionItem {
    Agent { name: String, description: String },
    Model { reference: ModelRef, name: String, provider: String },
    Variant(String),
}

pub enum SelectionItemView {
    Agent { name: Seq<char>, description: Seq<char> },
    Model { reference: ModelRefView, name: Seq<char>, provider: Seq<char> },
    Variant(Seq<char>),
}

impl View for SelectionItem {
    type V = SelectionItemView;

    open spec fn view(&self) -> SelectionItemView {
        match self {
            SelectionItem::Agent { name, description } => SelectionItemView::Agent {
                name: name@,
                description: description@,
            },
            SelectionItem::Model { reference, name, provider } => SelectionItemView::Model {
                reference: reference@,
                name: name@,
                provider: provider@,
            },
            SelectionItem::Variant(v) => SelectionItemView::Variant(v@),
        }
    }
}

pub open spec fn items_view(items: Seq<SelectionItem>) -> Seq<SelectionItemView> {
    items.map_values(|i: SelectionItem| i@)
}

/// The first `n` elements of `s`, or all of them when there are fewer.
pub open spec fn first_n<T>(s: Seq<T>, n: int) -> Seq<T> {
    if s.len() <= n {
        s
    } else {
        s.take(n)
    }
}

/// Whether the agent matches the (lowered) query by its name or description.
pub open spec fn agent_matches(query: Seq<char>) -> spec_fn(CatalogAgentView) -> bool {
    |a: CatalogAgentView| query_matches(seq![a.name, a.description], query)
}

/// Whether the model matches the (lowered) query by its name, its provider's
/// name, the provider's id or the model's id.
pub open spec fn model_matches(query: Seq<char>) -> spec_fn(CatalogModelView) -> bool {
    |m: CatalogModelView|
        query_matches(
            seq![m.name, m.provider_name, m.reference.provider_id, m.reference.model_id],
            query,
        )
}

pub open spec fn agent_item(a: CatalogAgentView) -> SelectionItemView {
    SelectionItemView::Agent { name: a.name, description: a.description }
}

pub open spec fn model_item(m: CatalogModelView) -> SelectionItemView {
    SelectionItemView::Model { reference: m.reference, name: m.name, provider: m.provider_name }
}

/// The variants of the selected model: none when no model is selected or
/// the catalog does not list it.
pub open spec fn variants_of(c: ComposerCatalogView, model: Option<ModelRefView>) -> Seq<Seq<char>> {
    match model {
        None => Seq::empty(),
        Some(m) => {
            let i = first_index(c.models, |x: CatalogModelView| x.reference == m);
            if i < c.models.len() {
                c.models[i].variants
            } else {
                Seq::empty()
            }
        },
    }
}

/// The variant picker's choices: the server's default (the empty name) ahead
/// of the model's own variants, when it has any.
pub open spec fn variant_choices(variants: Seq<Seq<char>>) -> Seq<Seq<char>> {
    if variants.len() == 0 {
        variants
    } else {
        seq![Seq::<char>::empty()] + variants
    }
}

/// How a variant reads in the picker.
pub open spec fn variant_label(v: Seq<char>) -> Seq<char> {
    if v.len() == 0 {
        "default"@
    } else {
        v
    }
}

pub open spec fn variant_matches(query: Seq<char>) -> spec_fn(Seq<char>) -> bool {
    |v: Seq<char>| contains_seq(lowercase(variant_label(v)), query)
}

/// What the picker of `kind` lists for the (lowered) query.
pub open spec fn filtered_items(
    c: ComposerCatalogView,
    kind: SelectionKind,
    query: Seq<char>,
    model: Option<ModelRefView>,
) -> Seq<SelectionItemView> {
    match kind {
        SelectionKind::Agent => first_n(
            c.agents.filter(agent_matches(query)).map_values(|a: CatalogAgentView| agent_item(a)),
            SELECTION_LIMIT as int,
        ),
        SelectionKind::Model => first_n(
            c.models.filter(model_matches(query)).map_values(|m: CatalogModelView| model_item(m)),
            SELECTION_LIMIT as int,
        ),
        SelectionKind::Variant => variant_choices(variants_of(c, model)).filter(
            variant_matches(query),
        ).map_values(|v: Seq<char>| SelectionItemView::Variant(v)),
    }
}

proof fn lemma_first_n_push<T>(s: Seq<T>, x: T, n: int)
    requires
        n >= 0,
    ensures
        first_n(s.push(x), n) == (if s.len() < n {
            first_n(s, n).push(x)
        } else {
            first_n(s, n)
        }),
{
    if s.len() >= n {
        assert(s.push(x).take(n) =~= first_n(s, n));
    }
}

proof fn lemma_filter_map_push<A, B>(s: Seq<A>, x: A, pred: spec_fn(A) -> bool, f: spec_fn(A) -> B)
    ensures
        s.push(x).filter(pred).map_values(f) == (if pred(x) {
            s.filter(pred).map_values(f).push(f(x))
        } else {
            s.filter(pred).map_values(f)
        }),
{
    lemma_filter_push(s, x, pred);
    if pred(x) {
        assert(s.filter(pred).push(x).map_values(f) =~= s.filter(pred).map_values(f).push(f(x)));
    }
}

impl ComposerCatalog {
    /// Where the catalog lists the model, or the number of models when it
    /// does not.
    pub fn model_position(&self, model: &ModelRef) -> (r: usize)
        ensures
            r == first_index(self@.models, |x: CatalogModelView| x.reference == model@),
    {
        let ghost pred = |x: CatalogModelView| x.reference == model@;
        let mut i: usize = 0;
        while i < self.models.len()
            invariant
                i <= self.models@.len(),
                self@.models.len() == self.models@.len(),
                pred == (|x: CatalogModelView| x.reference == model@),
                forall|j: int| 0 <= j < i ==> !pred(#[trigger] self@.models[j]),
            decreases self.models@.len() - i,
        {
            if self.models[i].reference.same_as(model) {
                proof {
                    assert(pred(self@.models[i as int]));
                    lemma_first_index_at(self@.models, pred, i as int);
                }
                return i;
            }
            assert(!pred(self@.models[i as int]));
            i += 1;
        }
        proof {
            lemma_first_index_at(self@.models, pred, i as int);
        }
        i
    }
}

fn agent_matches_query(agent: &CatalogAgent, query: &str) -> (r: bool)
    ensures
        r == agent_matches(query@)(agent@),
{
    let values = vec![agent.name.as_str(), agent.description.as_str()];
    let r = matches_query(values.as_slice(), query);
    assert(values@.map_values(|v: &str| v@) =~= seq![agent@.name, agent@.description]);
    r
}

fn model_matches_query(model: &CatalogModel, query: &str) -> (r: bool)
    ensures
        r == model_matches(query@)(model@),
{
    let values = vec![
        model.name.as_str(),
        model.provider_name.as_str(),
        model.reference.provider_id.as_str(),
        model.reference.model_id.as_str(),
    ];
    let r = matches_query(values.as_slice(), query);
    assert(values@.map_values(|v: &str| v@) =~= seq![
        model@.name,
        model@.provider_name,
        model@.reference.provider_id,
        model@.reference.model_id,
    ]);
    r
}

fn variant_matches_query(variant: &str, query: &str) -> (r: bool)
    ensures
        r == variant_matches(query@)(variant@),
{
    let lowered = if variant.is_empty() {
        proof {
            reveal_strlit("default");
        }
        to_lowercase("default")
    } else {
        to_lowercase(variant)
    };
    contains(lowered.as_str(), query)
}

fn agent_items(catalog: &ComposerCatalog, query: &str) -> (r: Vec<SelectionItem>)
    ensures
        items_view(r@) == filtered_items(catalog@, SelectionKind::Agent, query@, None),
{
    let ghost agents = catalog@.agents;
    let ghost pred = agent_matches(query@);
    let ghost f = |a: CatalogAgentView| agent_item(a);
    let mut out: Vec<SelectionItem> = Vec::new();
    let mut i: usize = 0;
    while i < catalog.agents.len()
        invariant
            i <= catalog.agents@.len(),
            agents == catalog@.agents,
            agents.len() == catalog.agents@.len(),
            pred == agent_matches(query@),
            f == (|a: CatalogAgentView| agent_item(a)),
            items_view(out@) == first_n(agents.take(i as int).filter(pred).map_values(f), SELECTION_LIMIT as int),
            out@.len() <= SELECTION_LIMIT,
        decreases catalog.agents@.len() - i,
    {
        let agent = &catalog.agents[i];
        proof {
            assert(agents.take(i + 1) =~= agents.take(i as int).push(agent@));
            lemma_filter_map_push(agents.take(i as int), agent@, pred, f);
            lemma_first_n_push(agents.take(i as int).filter(pred).map_values(f), f(agent@), SELECTION_LIMIT as int);
        }
        if out.len() < SELECTION_LIMIT && agent_matches_query(agent, query) {
            let item = SelectionItem::Agent { name: agent.name.clone(), description: agent.description.clone() };
            let ghost before = items_view(out@);
            out.push(item);
            proof {
                assert(items_view(out@) =~= before.push(f(agent@)));
            }
        }
        i += 1;
    }
    assert(agents.take(agents.len() as int) =~= agents);
    out
}

fn model_items(catalog: &ComposerCatalog, query: &str) -> (r: Vec<SelectionItem>)
    ensures
        items_view(r@) == filtered_items(catalog@, SelectionKind::Model, query@, None),
{
    let ghost models = catalog@.models;
    let ghost pred = model_matches(query@);
    let ghost f = |m: CatalogModelView| model_item(m);
    let mut out: Vec<SelectionItem> = Vec::new();
    let mut i: usize = 0;
    while i < catalog.models.len()
        invariant
            i <= catalog.models@.len(),
            models == catalog@.models,
            models.len() == catalog.models@.len(),
            pred == model_matches(query@),
            f == (|m: CatalogModelView| model_item(m)),
            items_view(out@) == first_n(models.take(i as int).filter(pred).map_values(f), SELECTION_LIMIT as int),
            out@.len() <= SELECTION_LIMIT,
        decreases catalog.models@.len() - i,
    {
        let model = &catalog.models[i];
        proof {
            assert(models.take(i + 1) =~= models.take(i as int).push(model@));
            lemma_filter_map_push(models.take(i as int), model@, pred, f);
            lemma_first_n_push(models.take(i as int).filter(pred).map_values(f), f(model@), SELECTION_LIMIT as int);
        }
        if out.len() < SELECTION_LIMIT && model_matches_query(model, query) {
            let item = SelectionItem::Model {
                reference: model.reference.duplicate(),
                name: model.name.clone(),
                provider: model.provider_name.clone(),
            };
            let ghost before = items_view(out@);
            out.push(item);
            proof {
                assert(items_view(out@) =~= before.push(f(model@)));
            }
        }
        i += 1;
    }
    assert(models.take(models.len() as int) =~= models);
    out
}

fn variant_items(variants: &Vec<String>, query: &str) -> (r: Vec<SelectionItem>)
    ensures
        items_view(r@) == variant_choices(strings_view(variants@)).filter(variant_matches(query@)).map_values(
            |v: Seq<char>| SelectionItemView::Variant(v),
        ),
{
    let ghost pred = variant_matches(query@);
    let ghost f = |v: Seq<char>| SelectionItemView::Variant(v);
    let mut choices: Vec<String> = Vec::new();
    if variants.len() > 0 {
        choices.push(String::new());
    }
    let mut k: usize = 0;
    while k < variants.len()
        invariant
            k <= variants@.len(),
            strings_view(choices@) == (if variants@.len() == 0 {
                Seq::<Seq<char>>::empty()
            } else {
                seq![Seq::<char>::empty()] + strings_view(variants@).take(k as int)
            }),
        decreases variants@.len() - k,
    {
        let ghost before = strings_view(choices@);
        choices.push(variants[k].clone());
        proof {
            assert(strings_view(choices@) =~= before.push(variants@[k as int]@));
            assert(strings_view(variants@).take(k + 1) =~= strings_view(variants@).take(k as int).push(
                variants@[k as int]@,
            ));
        }
        k += 1;
    }
    let ghost all = strings_view(choices@);
    proof {
        assert(strings_view(variants@).take(variants@.len() as int) =~= strings_view(variants@));
        assert(all =~= variant_choices(strings_view(variants@)));
    }
    let mut out: Vec<SelectionItem> = Vec::new();
    let mut i: usize = 0;
    while i < choices.len()
        invariant
            i <= choices@.len(),
            all == strings_view(choices@),
            all.len() == choices@.len(),
            pred == variant_matches(query@),
            f == (|v: Seq<char>| SelectionItemView::Variant(v)),
            items_view(out@) == all.take(i as int).filter(pred).map_values(f),
        decreases choices@.len() - i,
    {
        proof {
            assert(all.take(i + 1) =~= all.take(i as int).push(choices@[i as int]@));
            lemma_filter_map_push(all.take(i as int), choices@[i as int]@, pred, f);
        }
        if variant_matches_query(choices[i].as_str(), query) {
            let ghost before = items_view(out@);
            out.push(SelectionItem::Variant(choices[i].clone()));
            proof {
                assert(items_view(out@) =~= before.push(f(choices@[i as int]@)));
            }
        }
        i += 1;
    }
    assert(all.take(all.len() as int) =~= all);
    out
}

/// The entries of the picker of `kind` that match `query`, which the caller
/// has lowered: agents and models by any of their names, at most
/// `SELECTION_LIMIT` of them in catalog order; and the selected model's
/// variants by their label, the server's default first.
pub fn filter_items(
    catalog: &ComposerCatalog,
    kind: SelectionKind,
    query: &str,
    model: Option<&ModelRef>,
) -> (r: Vec<SelectionItem>)
    ensures
        items_view(r@) == filtered_items(
            catalog@,
            kind,
            query@,
            match model {
                Some(m) => Some(m@),
                None => None,
            },
        ),
{
    match kind {
        SelectionKind::Agent => agent_items(catalog, query),
        SelectionKind::Model => model_items(catalog, query),
        SelectionKind::Variant => {
            match model {
                None => {
                    let empty: Vec<String> = Vec::new();
                    let r = variant_items(&empty, query);
                    assert(strings_view(empty@) =~= Seq::<Seq<char>>::empty());
                    r
                },
                Some(m) => {
                    let i = catalog.model_position(m);
                    if i < catalog.models.len() {
                        variant_items(&catalog.models[i].variants, query)
                    } else {
                        let empty: Vec<String> = Vec::new();
                        let r = variant_items(&empty, query);
                        assert(strings_view(empty@) =~= Seq::<Seq<char>>::empty());
                        r
                    }
                },
            }
        },
    }
}

/// The title a picker row shows for an item.
pub open spec fn item_title(item: SelectionItemView) -> Seq<char> {
    match item {
        SelectionItemView::Agent { name, .. } => name,
        SelectionItemView::Model { name, .. } => name,
        SelectionItemView::Variant(v) => variant_label(v),
    }
}

/// The detail line a picker row shows under the title.
pub open spec fn item_detail(item: SelectionItemView) -> Seq<char> {
    match item {
        SelectionItemView::Agent { description, .. } => description,
        SelectionItemView::Model { reference, provider, .. } => provider + "  |  "@
            + reference.provider_id + "/"@ + reference.model_id,
        SelectionItemView::Variant(v) => if v.len() == 0 {
            "let OpenCode choose the variant"@
        } else if v == "none"@ {
            "reasoning disabled"@
        } else {
            "selected model variant"@
        },
    }
}

impl SelectionItem {
    pub fn title(&self) -> (r: String)
        ensures
            r@ == item_title(self@),
    {
        match self {
            SelectionItem::Variant(name) => {
                if name.as_str().is_empty() {
                    proof {
                        reveal_strlit("default");
                    }
                    "default".to_string()
                } else {
                    name.clone()
                }
            },
            SelectionItem::Agent { name, .. } => name.clone(),
            SelectionItem::Model { name, .. } => name.clone(),
        }
    }

    pub fn detail(&self) -> (r: String)
        ensures
            r@ == item_detail(self@),
    {
        match self {
            SelectionItem::Agent { description, .. } => description.clone(),
            SelectionItem::Model { reference, provider, .. } => {
                let mut out = provider.clone();
                push_str(&mut out, "  |  ");
                push_str(&mut out, reference.provider_id.as_str());
                push_str(&mut out, "/");
                push_str(&mut out, reference.model_id.as_str());
                out
            },
            SelectionItem::Variant(name) => {
                proof {
                    reveal_strlit("none");
                    reveal_strlit("let OpenCode choose the variant");
                    reveal_strlit("reasoning disabled");
                    reveal_strlit("selected model variant");
                }
                if name.as_str().is_empty() {
                    "let OpenCode choose the variant".to_string()
                } else if str_eq(name.as_str(), "none") {
                    "reasoning disabled".to_string()
                } else {
                    "selected model variant".to_string()
                }
            },
        }
    }
}

/// The heading of the picker of `kind`.
pub fn selection_title(kind: SelectionKind) -> (r: &'static str)
    ensures
        r@ == match kind {
            SelectionKind::Agent => "Select agent"@,
            SelectionKind::Model => "Select model"@,
            SelectionKind::Variant => "Select variant"@,
        },
{
    match kind {
        SelectionKind::Agent => "Select agent",
        SelectionKind::Model => "Select model",
        SelectionKind::Variant => "Select variant",
    }
}

/// What the composer sends a prompt with: the agent, the model and its
/// variant, and whether the user chose them.
pub struct ComposerSelection {
    pub agent: Option<String>,
    pub model: Option<ModelRef>,
    pub variant: Option<String>,
    pub explicit: bool,
}

pub struct ComposerSelectionView {
    pub agent: Option<Seq<char>>,
    pub model: Option<ModelRefView>,
    pub variant: Option<Seq<char>>,
    pub explicit: bool,
}

impl View for ComposerSelection {
    type V = ComposerSelectionView;

    open spec fn view(&self) -> ComposerSelectionView {
        ComposerSelectionView {
            agent: match self.agent {
                Some(a) => Some(a@),
                None => None,
            },
            model: match self.model {
                Some(m) => Some(m@),
                None => None,
            },
            variant: match self.variant {
                Some(v) => Some(v@),
                None => None,
            },
            explicit: self.explicit,
        }
    }
}

/// The selection after the user picks `item`: an agent or a model replaces
/// the current one (a new model forgets the variant), the empty variant
/// stands for the server's default; the selection counts as the user's own.
pub open spec fn accepted(s: ComposerSelectionView, item: SelectionItemView) -> ComposerSelectionView {
    let picked = match item {
        SelectionItemView::Agent { name, .. } => ComposerSelectionView { agent: Some(name), ..s },
        SelectionItemView::Model { reference, .. } => ComposerSelectionView {
            model: Some(reference),
            variant: None,
            ..s
        },
        SelectionItemView::Variant(v) => ComposerSelectionView {
            variant: if v.len() == 0 {
                None
            } else {
                Some(v)
            },
            ..s
        },
    };
    ComposerSelectionView { explicit: true, ..picked }
}

impl ComposerSelection {
    pub fn accept(&mut self, item: SelectionItem)
        ensures
            final(self)@ == accepted(old(self)@, item@),
    {
        match item {
            SelectionItem::Agent { name, .. } => self.agent = Some(name),
            SelectionItem::Model { reference, .. } => {
                self.model = Some(reference);
                self.variant = None;
            },
            SelectionItem::Variant(variant) => {
                self.variant = if variant.as_str().is_empty() {
                    None
                } else {
                    Some(variant)
                };
            },
        }
        self.explicit = true;
    }
}

/// Where loading a directory's catalog stands.
pub enum CatalogState {
    Loading,
    Failed(String),
    Ready(ComposerCatalog),
}

/// The line the picker shows in place of entries, if any.
pub open spec fn selection_status_of(state: CatalogState, kind: SelectionKind, empty: bool) -> Option<Seq<char>> {
    match state {
        CatalogState::Loading => Some("loading catalog…"@),
        CatalogState::Failed(error) => Some("catalog unavailable: "@ + error@),
        CatalogState::Ready(_) => if empty {
            if kind == SelectionKind::Variant {
                Some("selected model has no variants"@)
            } else {
                Some("no matches"@)
            }
        } else {
            None
        },
    }
}

/// The line shown in place of the picker's entries: while the catalog loads,
/// when it failed, and when nothing matches (`no_suggestions`).
pub fn selection_status(state: &CatalogState, kind: SelectionKind, no_suggestions: bool) -> (r: Option<String>)
    ensures
        match r {
            Some(t) => selection_status_of(*state, kind, no_suggestions) == Some(t@),
            None => selection_status_of(*state, kind, no_suggestions) is None,
        },
{
    proof {
        reveal_strlit("loading catalog…");
        reveal_strlit("catalog unavailable: ");
        reveal_strlit("selected model has no variants");
        reveal_strlit("no matches");
    }
    match state {
        CatalogState::Loading => Some("loading catalog…".to_string()),
        CatalogState::Failed(error) => {
            let mut out = "catalog unavailable: ".to_string();
            push_str(&mut out, error.as_str());
            Some(out)
        },
        CatalogState::Ready(_) => {
            if !no_suggestions {
                None
            } else if matches!(kind, SelectionKind::Variant) {
                Some("selected model has no variants".to_string())
            } else {
                Some("no matches".to_string())
            }
        },
    }
}

/// Picking a row changes only what the row is about, and makes the
/// selection the user's own: an agent replaces the agent; a model replaces
/// the model and forgets the variant; a variant replaces the variant, the
/// empty one standing for the server's default (no variant).
pub proof fn law_accepting_changes_only_the_picked(
    s: ComposerSelectionView,
    name: Seq<char>,
    description: Seq<char>,
    reference: ModelRefView,
    provider: Seq<char>,
    v: Seq<char>,
)
    ensures
        ({
            let r = accepted(s, SelectionItemView::Agent { name, description });
            r.agent == Some(name) && r.model == s.model && r.variant == s.variant && r.explicit
        }),
        ({
            let r = accepted(s, SelectionItemView::Model { reference, name, provider });
            r.model == Some(reference) && r.variant is None && r.agent == s.agent && r.explicit
        }),
        ({
            let r = accepted(s, SelectionItemView::Variant(v));
            &&& r.agent == s.agent && r.model == s.model && r.explicit
            &&& v.len() > 0 ==> r.variant == Some(v)
            &&& v.len() == 0 ==> r.variant is None
        }),
{
}

/// The agent picker lists at most the limit, each row the item of an agent
/// of the catalog whose name or description holds the query, taking them in
/// catalog order; the model picker likewise lists models of the catalog
/// matching by name, provider or ids; with the empty query the agent picker
/// lists the catalog's agents from the first, up to the limit.
pub proof fn law_pickers_list_matching_catalog_entries(
    c: ComposerCatalogView,
    query: Seq<char>,
    model: Option<ModelRefView>,
)
    ensures
        filtered_items(c, SelectionKind::Agent, query, model).len() <= SELECTION_LIMIT,
        filtered_items(c, SelectionKind::Model, query, model).len() <= SELECTION_LIMIT,
        forall|i: int|
            0 <= i < filtered_items(c, SelectionKind::Agent, query, model).len() ==> {
                let a = c.agents.filter(agent_matches(query))[i];
                &&& c.agents.contains(a)
                &&& agent_matches(query)(a)
                &&& #[trigger] filtered_items(c, SelectionKind::Agent, query, model)[i]
                    == agent_item(a)
            },
        forall|i: int|
            0 <= i < filtered_items(c, SelectionKind::Model, query, model).len() ==> {
                let m = c.models.filter(model_matches(query))[i];
                &&& c.models.contains(m)
                &&& model_matches(query)(m)
                &&& #[trigger] filtered_items(c, SelectionKind::Model, query, model)[i]
                    == model_item(m)
            },
        query.len() == 0 ==> filtered_items(c, SelectionKind::Agent, query, model) == first_n(
            c.agents.map_values(|a: CatalogAgentView| agent_item(a)),
            SELECTION_LIMIT as int,
        ),
{
    assert forall|i: int|
        0 <= i < filtered_items(c, SelectionKind::Agent, query, model).len() implies {
            let a = c.agents.filter(agent_matches(query))[i];
            &&& c.agents.contains(a)
            &&& agent_matches(query)(a)
            &&& #[trigger] filtered_items(c, SelectionKind::Agent, query, model)[i]
                == agent_item(a)
        } by {
        lemma_agent_row(c, query, model, i);
    }
    assert forall|i: int|
        0 <= i < filtered_items(c, SelectionKind::Model, query, model).len() implies {
            let m = c.models.filter(model_matches(query))[i];
            &&& c.models.contains(m)
            &&& model_matches(query)(m)
            &&& #[trigger] filtered_items(c, SelectionKind::Model, query, model)[i]
                == model_item(m)
        } by {
        lemma_model_row(c, query, model, i);
    }
    if query.len() == 0 {
        assert(c.agents.filter(agent_matches(query)) =~= c.agents) by {
            lemma_filter_all(c.agents, agent_matches(query));
        }
    }
}

proof fn lemma_agent_row(c: ComposerCatalogView, query: Seq<char>, model: Option<ModelRefView>, i: int)
    requires
        0 <= i < filtered_items(c, SelectionKind::Agent, query, model).len(),
    ensures
        c.agents.contains(c.agents.filter(agent_matches(query))[i]),
        agent_matches(query)(c.agents.filter(agent_matches(query))[i]),
        filtered_items(c, SelectionKind::Agent, query, model)[i] == agent_item(
            c.agents.filter(agent_matches(query))[i],
        ),
{
    let fa = c.agents.filter(agent_matches(query));
    let la = fa.map_values(|a: CatalogAgentView| agent_item(a));
    assert(filtered_items(c, SelectionKind::Agent, query, model)[i] == la[i]);
    c.agents.lemma_filter_pred(agent_matches(query), i);
    assert(fa.contains(fa[i]));
    c.agents.lemma_filter_contains_rev(agent_matches(query), fa[i]);
}

proof fn lemma_model_row(c: ComposerCatalogView, query: Seq<char>, model: Option<ModelRefView>, i: int)
    requires
        0 <= i < filtered_items(c, SelectionKind::Model, query, model).len(),
    ensures
        c.models.contains(c.models.filter(model_matches(query))[i]),
        model_matches(query)(c.models.filter(model_matches(query))[i]),
        filtered_items(c, SelectionKind::Model, query, model)[i] == model_item(
            c.models.filter(model_matches(query))[i],
        ),
{
    let fm = c.models.filter(model_matches(query));
    let lm = fm.map_values(|m: CatalogModelView| model_item(m));
    assert(filtered_items(c, SelectionKind::Model, query, model)[i] == lm[i]);
    c.models.lemma_filter_pred(model_matches(query), i);
    assert(fm.contains(fm[i]));
    c.models.lemma_filter_contains_rev(model_matches(query), fm[i]);
}

proof fn lemma_filter_all<T>(s: Seq<T>, pred: spec_fn(T) -> bool)
    requires
        forall|x: T| #[trigger] pred(x),
    ensures
        s.filter(pred) == s,
    decreases s.len(),
{
    if s.len() > 0 {
        lemma_filter_all(s.drop_last(), pred);
        lemma_filter_push(s.drop_last(), s.last(), pred);
        assert(s.drop_last().push(s.last()) =~= s);
    } else {
        assert(s.filter(pred) =~= s) by {
            reveal_with_fuel(Seq::filter, 1);
        }
    }
}

} // verus!
