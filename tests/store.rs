use elementary::identity::ComponentId;
use elementary::node::{CoreError, Node};
use elementary::store::{ComponentEntry, ComponentStore};

fn entry(text: &str) -> ComponentEntry {
    ComponentEntry {
        properties: vec![("name".to_string(), text.to_string())],
        children: Vec::new(),
        rendered: Node::Text(text.to_string()),
    }
}

fn rendered_text(store: &ComponentStore, id: ComponentId) -> String {
    match &store.get(id).unwrap().rendered {
        Node::Text(s) => s.clone(),
        _ => panic!("unexpected node"),
    }
}

#[test]
fn second_insert_of_one_id_is_a_duplicate() {
    let mut store = ComponentStore::new();
    let id = ComponentId::derive("Greeter", 1);
    assert_eq!(store.insert(id, entry("first")), Ok(()));
    assert_eq!(store.insert(id, entry("second")), Err(CoreError::DuplicateComponentId(id)));
    assert_eq!(store.len(), 1);
    assert_eq!(rendered_text(&store, id), "first");
}

#[test]
fn get_of_absent_id_is_not_found() {
    let store = ComponentStore::new();
    let id = ComponentId::derive("Greeter", 1);
    assert!(matches!(store.get(id), Err(CoreError::ComponentNotFound(k)) if k == id));
    assert!(!store.contains_id(id));
}

#[test]
fn update_replaces_and_reports_absent_ids() {
    let mut store = ComponentStore::new();
    let id = ComponentId::derive("Greeter", 1);
    let other = ComponentId::derive("Greeter", 2);
    assert_eq!(store.update(id, entry("x")), Err(CoreError::ComponentNotFound(id)));
    assert_eq!(store.len(), 0);
    store.insert(id, entry("old")).unwrap();
    store.insert(other, entry("other")).unwrap();
    assert_eq!(store.update(id, entry("new")), Ok(()));
    assert_eq!(rendered_text(&store, id), "new");
    assert_eq!(rendered_text(&store, other), "other");
    assert_eq!(store.len(), 2);
}

#[test]
fn remove_is_idempotent() {
    let mut store = ComponentStore::new();
    let id = ComponentId::derive("Greeter", 1);
    let other = ComponentId::derive("Greeter", 2);
    store.insert(id, entry("a")).unwrap();
    store.insert(other, entry("b")).unwrap();
    store.remove(id);
    assert!(!store.contains_id(id));
    assert_eq!(store.len(), 1);
    store.remove(id);
    assert_eq!(store.len(), 1);
    assert_eq!(rendered_text(&store, other), "b");
    assert_eq!(store.insert(id, entry("again")), Ok(()));
    assert_eq!(rendered_text(&store, id), "again");
}
