use opencode_gpui::commands::SelectionKind;
use opencode_gpui::selection::{
    filter_items, selection_status, selection_title, CatalogAgent, CatalogModel, CatalogState,
    ComposerCatalog, ComposerSelection, ModelRef, SelectionItem,
};
use opencode_gpui::seqs::wrap_index;

fn model_ref(provider_id: &str, model_id: &str) -> ModelRef {
    ModelRef { provider_id: provider_id.into(), model_id: model_id.into() }
}

fn catalog_model(provider_id: &str, id: &str, variants: &[&str]) -> CatalogModel {
    CatalogModel {
        reference: model_ref(provider_id, id),
        name: format!("{id} model"),
        provider_name: format!("{provider_id} provider"),
        variants: variants.iter().map(|v| v.to_string()).collect(),
    }
}

fn catalog() -> ComposerCatalog {
    ComposerCatalog {
        agents: vec![
            CatalogAgent { name: "build".into(), description: "build agent".into() },
            CatalogAgent { name: "plan".into(), description: "Plans Work".into() },
        ],
        models: vec![
            catalog_model("connected", "active", &["high", "none"]),
            catalog_model("connected", "old", &[]),
        ],
    }
}

fn names(items: &[SelectionItem]) -> Vec<String> {
    items.iter().map(|item| item.title()).collect()
}

fn model_item(id: &str) -> SelectionItem {
    SelectionItem::Model {
        reference: model_ref("provider", id),
        name: id.into(),
        provider: "Provider".into(),
    }
}

#[test]
fn variant_picker_distinguishes_server_default_from_reasoning_off() {
    let catalog = catalog();
    let model = catalog.models[0].reference.duplicate();
    let items = filter_items(&catalog, SelectionKind::Variant, "", Some(&model));
    assert!(matches!(items.first(), Some(SelectionItem::Variant(value)) if value.is_empty()));
    assert!(
        items
            .iter()
            .any(|item| matches!(item, SelectionItem::Variant(value) if value == "none"))
    );
}

#[test]
fn variant_filter_reads_the_default_by_its_label() {
    let catalog = catalog();
    let model = model_ref("connected", "active");
    let items = filter_items(&catalog, SelectionKind::Variant, "def", Some(&model));
    assert_eq!(names(&items), ["default"]);
    let items = filter_items(&catalog, SelectionKind::Variant, "h", Some(&model));
    assert_eq!(names(&items), ["high"]);
}

#[test]
fn models_without_variants_offer_no_default_either() {
    let catalog = catalog();
    let old = model_ref("connected", "old");
    assert!(filter_items(&catalog, SelectionKind::Variant, "", Some(&old)).is_empty());
    let unknown = model_ref("elsewhere", "active");
    assert!(filter_items(&catalog, SelectionKind::Variant, "", Some(&unknown)).is_empty());
    assert!(filter_items(&catalog, SelectionKind::Variant, "", None).is_empty());
}

#[test]
fn agents_match_by_name_or_lowered_description() {
    let catalog = catalog();
    assert_eq!(names(&filter_items(&catalog, SelectionKind::Agent, "", None)), ["build", "plan"]);
    assert_eq!(names(&filter_items(&catalog, SelectionKind::Agent, "work", None)), ["plan"]);
    assert!(filter_items(&catalog, SelectionKind::Agent, "Work", None).is_empty());
}

#[test]
fn models_match_by_any_of_their_names() {
    let catalog = catalog();
    assert_eq!(
        names(&filter_items(&catalog, SelectionKind::Model, "connected", None)),
        ["active model", "old model"]
    );
    assert_eq!(names(&filter_items(&catalog, SelectionKind::Model, "old", None)), ["old model"]);
}

#[test]
fn agent_and_model_lists_stop_at_one_hundred() {
    let catalog = ComposerCatalog {
        agents: (0..150)
            .map(|i| CatalogAgent { name: format!("agent-{i}"), description: String::new() })
            .collect(),
        models: Vec::new(),
    };
    let items = filter_items(&catalog, SelectionKind::Agent, "agent", None);
    assert_eq!(items.len(), 100);
    assert_eq!(items[99].title(), "agent-99");
}

#[test]
fn item_titles_and_details() {
    let item = model_item("gpt");
    assert_eq!(item.title(), "gpt");
    assert_eq!(item.detail(), "Provider  |  provider/gpt");
    assert_eq!(SelectionItem::Variant(String::new()).title(), "default");
    assert_eq!(SelectionItem::Variant(String::new()).detail(), "let OpenCode choose the variant");
    assert_eq!(SelectionItem::Variant("none".into()).detail(), "reasoning disabled");
    assert_eq!(SelectionItem::Variant("high".into()).detail(), "selected model variant");
    let agent = SelectionItem::Agent { name: "build".into(), description: "builds".into() };
    assert_eq!(agent.detail(), "builds");
    assert_eq!(selection_title(SelectionKind::Variant), "Select variant");
}

#[test]
fn accepting_default_variant_clears_it() {
    let mut selection = ComposerSelection {
        agent: None,
        model: None,
        variant: Some("none".into()),
        explicit: false,
    };
    selection.accept(SelectionItem::Variant(String::new()));
    assert_eq!(selection.variant, None);
    assert!(selection.explicit);
}

#[test]
fn accepting_a_model_clears_the_stale_variant() {
    let mut selection = ComposerSelection {
        agent: Some("build".into()),
        model: None,
        variant: Some("old".into()),
        explicit: false,
    };
    let items = [model_item("first"), model_item("second")];
    let index = wrap_index(0, -1, items.len());
    assert_eq!(index, 1);
    let SelectionItem::Model { reference, name, provider } = &items[index] else {
        panic!("a model item");
    };
    selection.accept(SelectionItem::Model {
        reference: reference.duplicate(),
        name: name.clone(),
        provider: provider.clone(),
    });
    assert_eq!(selection.model.as_ref().unwrap().model_id, "second");
    assert_eq!(selection.variant, None);
    assert_eq!(selection.agent.as_deref(), Some("build"));
}

#[test]
fn picker_status_lines() {
    assert_eq!(
        selection_status(&CatalogState::Loading, SelectionKind::Agent, true).as_deref(),
        Some("loading catalog…")
    );
    assert_eq!(
        selection_status(&CatalogState::Failed("offline".into()), SelectionKind::Model, false)
            .as_deref(),
        Some("catalog unavailable: offline")
    );
    let ready = CatalogState::Ready(catalog());
    assert_eq!(
        selection_status(&ready, SelectionKind::Variant, true).as_deref(),
        Some("selected model has no variants")
    );
    assert_eq!(selection_status(&ready, SelectionKind::Model, true).as_deref(), Some("no matches"));
    assert_eq!(selection_status(&ready, SelectionKind::Model, false), None);
}
