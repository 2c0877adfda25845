use std::cell::Cell;

use elementary::builder::{build_entity, store_entity, ComponentRegistry};
use elementary::identity::{ComponentId, ExpressionId};
use elementary::node::{ComponentElement, CoreError, HtmlElement, Node, TemplateNode};
use elementary::render::{render, ExpressionValues};
use elementary::store::{ComponentEntry, ComponentStore};

/// Position context of the slot inside the greeter's own template.
const GREETER_NAME_SLOT: u64 = 100;

/// Knows `Greeter`, whose subtree is `<h1>Hello, {name}</h1>`, and `Panel`,
/// which wraps the nodes written between its tags in a `section`.
struct Registry {
    calls: Cell<usize>,
}

impl ComponentRegistry for Registry {
    fn node(
        &self,
        component: &ComponentElement,
        children: &Vec<Node>,
        store: &mut ComponentStore,
    ) -> Result<Node, CoreError> {
        self.calls.set(self.calls.get() + 1);
        match component.name.as_str() {
            "Greeter" => {
                let template = TemplateNode::HtmlElement {
                    element: HtmlElement::new("h1".to_string(), Vec::new())?,
                    child_nodes: vec![
                        TemplateNode::Text("Hello, ".to_string()),
                        TemplateNode::Expression { source: "name".to_string(), context: GREETER_NAME_SLOT },
                    ],
                };
                template.lower(self, store)
            }
            "Panel" => {
                let copies = children.iter().map(copy_node).collect();
                Ok(Node::HtmlElement { element: HtmlElement::new("section".to_string(), Vec::new())?, child_nodes: copies })
            }
            "Loop" => {
                let again = TemplateNode::ComponentElement {
                    component: ComponentElement { name: "Loop".to_string(), properties: Vec::new() },
                    child_nodes: Vec::new(),
                    context: 1,
                };
                again.lower(self, store)
            }
            _ => Err(CoreError::MalformedTemplate),
        }
    }
}

fn copy_node(n: &Node) -> Node {
    match n {
        Node::Text(s) => Node::Text(s.clone()),
        Node::HtmlElement { element, child_nodes } => Node::HtmlElement {
            element: HtmlElement { tag: element.tag.clone(), attributes: element.attributes.clone() },
            child_nodes: child_nodes.iter().map(copy_node).collect(),
        },
        Node::Component(id) => Node::Component(*id),
        Node::Expression(id) => Node::Expression(*id),
    }
}

fn greeter(name: &str) -> ComponentElement {
    ComponentElement { name: "Greeter".to_string(), properties: vec![("name".to_string(), name.to_string())] }
}

/// The host's side of a render pass: the greeter's slot shows its `name`.
fn greeter_values(store: &ComponentStore, id: ComponentId) -> ExpressionValues {
    let mut values = ExpressionValues::new();
    let entry = store.get(id).unwrap();
    let name = entry.properties.iter().find(|(k, _)| k == "name").unwrap().1.clone();
    values.bind(ExpressionId::derive(GREETER_NAME_SLOT, "name"), name);
    values
}

#[test]
fn greeter_renders_hello_world() {
    let registry = Registry { calls: Cell::new(0) };
    let mut store = ComponentStore::new();
    let node = build_entity(&registry, &mut store, greeter("World"), Vec::new(), 1).unwrap();
    let id = ComponentId::derive("Greeter", 1);
    assert!(matches!(node, Node::Component(k) if k == id));
    let values = greeter_values(&store, id);
    assert_eq!(render(&node, &store, &values).unwrap(), "<h1>Hello, World</h1>");
}

#[test]
fn existing_instance_is_reused() {
    let registry = Registry { calls: Cell::new(0) };
    let mut store = ComponentStore::new();
    build_entity(&registry, &mut store, greeter("World"), Vec::new(), 1).unwrap();
    let again = build_entity(&registry, &mut store, greeter("Other"), Vec::new(), 1).unwrap();
    assert_eq!(registry.calls.get(), 1);
    assert_eq!(store.len(), 1);
    let id = ComponentId::derive("Greeter", 1);
    let values = greeter_values(&store, id);
    assert_eq!(render(&again, &store, &values).unwrap(), "<h1>Hello, World</h1>");
}

#[test]
fn two_positions_make_two_instances() {
    let registry = Registry { calls: Cell::new(0) };
    let mut store = ComponentStore::new();
    let a = build_entity(&registry, &mut store, greeter("A"), Vec::new(), 1).unwrap();
    let b = build_entity(&registry, &mut store, greeter("B"), Vec::new(), 2).unwrap();
    assert_eq!(store.len(), 2);
    assert!(matches!((a, b), (Node::Component(x), Node::Component(y)) if x != y));
}

#[test]
fn store_entity_reports_duplicates() {
    let mut store = ComponentStore::new();
    let id = ComponentId::derive("Greeter", 1);
    let first = store_entity(&mut store, id, greeter("A"), Vec::new(), Node::Text("a".to_string()));
    assert!(matches!(first, Ok(Node::Component(k)) if k == id));
    let second = store_entity(&mut store, id, greeter("B"), Vec::new(), Node::Text("b".to_string()));
    assert!(matches!(second, Err(CoreError::DuplicateComponentId(k)) if k == id));
    assert_eq!(store.get(id).unwrap().properties[0].1, "A");
}

#[test]
fn lowering_keeps_markup_and_builds_components() {
    let registry = Registry { calls: Cell::new(0) };
    let mut store = ComponentStore::new();
    let template = TemplateNode::HtmlElement {
        element: HtmlElement::new("div".to_string(), vec![("class".to_string(), "page".to_string())]).unwrap(),
        child_nodes: vec![
            TemplateNode::Text("Hi ".to_string()),
            TemplateNode::ComponentElement {
                component: ComponentElement { name: "Panel".to_string(), properties: Vec::new() },
                child_nodes: vec![TemplateNode::Expression { source: "{{ x }}".to_string(), context: 5 }],
                context: 3,
            },
        ],
    };
    let root = template.lower(&registry, &mut store).unwrap();
    assert_eq!(store.len(), 1);
    let panel = ComponentId::derive("Panel", 3);
    assert_eq!(store.get(panel).unwrap().children.len(), 1);
    let mut values = ExpressionValues::new();
    values.bind(ExpressionId::derive(5, "{{ x }}"), "X".to_string());
    assert_eq!(
        render(&root, &store, &values).unwrap(),
        "<div class=\"page\">Hi <section>X</section></div>"
    );
}

#[test]
fn sibling_expressions_with_equal_source_get_distinct_slots() {
    let registry = Registry { calls: Cell::new(0) };
    let mut store = ComponentStore::new();
    let template = TemplateNode::HtmlElement {
        element: HtmlElement::new("p".to_string(), Vec::new()).unwrap(),
        child_nodes: vec![
            TemplateNode::Expression { source: "{{ x }}".to_string(), context: 1 },
            TemplateNode::Expression { source: "{{ x }}".to_string(), context: 2 },
        ],
    };
    let root = template.lower(&registry, &mut store).unwrap();
    let ids: Vec<ExpressionId> = match &root {
        Node::HtmlElement { child_nodes, .. } => child_nodes
            .iter()
            .map(|n| match n {
                Node::Expression(id) => *id,
                _ => panic!("expected a slot"),
            })
            .collect(),
        _ => panic!("expected an element"),
    };
    assert_eq!(ids.len(), 2);
    assert_ne!(ids[0], ids[1]);
    let mut values = ExpressionValues::new();
    values.bind(ids[0], "1".to_string());
    values.bind(ids[1], "2".to_string());
    assert_eq!(render(&root, &store, &values).unwrap(), "<p>12</p>");
}

#[test]
fn lowering_rejects_an_empty_tag_before_touching_the_store() {
    let registry = Registry { calls: Cell::new(0) };
    let mut store = ComponentStore::new();
    let template = TemplateNode::HtmlElement {
        element: HtmlElement { tag: String::new(), attributes: Vec::new() },
        child_nodes: vec![TemplateNode::ComponentElement {
            component: greeter("World"),
            child_nodes: Vec::new(),
            context: 1,
        }],
    };
    assert!(matches!(template.lower(&registry, &mut store), Err(CoreError::MalformedTemplate)));
    assert_eq!(store.len(), 0);
    assert_eq!(registry.calls.get(), 0);
}

#[test]
fn unknown_component_kind_is_reported() {
    let registry = Registry { calls: Cell::new(0) };
    let mut store = ComponentStore::new();
    let unknown = ComponentElement { name: "Nope".to_string(), properties: Vec::new() };
    assert!(matches!(
        build_entity(&registry, &mut store, unknown, Vec::new(), 1),
        Err(CoreError::MalformedTemplate)
    ));
    assert_eq!(store.len(), 0);
}

#[test]
fn component_that_builds_itself_is_malformed() {
    let registry = Registry { calls: Cell::new(0) };
    let mut store = ComponentStore::new();
    let looping = ComponentElement { name: "Loop".to_string(), properties: Vec::new() };
    let r = build_entity(&registry, &mut store, looping, Vec::new(), 1);
    assert!(matches!(r, Err(CoreError::MalformedTemplate)));
    assert_eq!(registry.calls.get(), 1);
    assert_eq!(store.len(), 0);
    assert!(!store.is_building(ComponentId::derive("Loop", 1)));
}

#[test]
fn stored_instance_is_not_built_again() {
    let registry = Registry { calls: Cell::new(0) };
    let mut store = ComponentStore::new();
    let id = ComponentId::derive("Loop", 1);
    let entry = ComponentEntry { properties: Vec::new(), children: Vec::new(), rendered: Node::Text("x".to_string()) };
    store.insert(id, entry).unwrap();
    let looping = ComponentElement { name: "Loop".to_string(), properties: Vec::new() };
    let again = build_entity(&registry, &mut store, looping, Vec::new(), 1).unwrap();
    assert!(matches!(again, Node::Component(k) if k == id));
    assert_eq!(registry.calls.get(), 0);
}
