//! Lowering template positions into nodes, and building component instances
//! into the store.
use vstd::prelude::*;
use crate::identity::{component_id, expression_id, ComponentId, ExpressionId};
use crate::node::{element_well_formed, ComponentElement, CoreError, HtmlElement, Node, TemplateNode};
use crate::store::{insert_outcome, insert_post, ComponentEntry, ComponentStore};

verus! {

/// The components that templates may name. `node` produces the subtree of
/// one instance of `component`, given the nodes written between its tags;
/// it may build nested components into `store` on the way.
pub trait ComponentRegistry {
    fn node(&self, component: &ComponentElement, children: &Vec<Node>, store: &mut ComponentStore) -> Result<
        Node,
        CoreError,
    >;
}

/// The node that stands for the instance `id` once it is in the store.
pub open spec fn built(outcome: Result<(), CoreError>, id: ComponentId) -> Result<Node, CoreError> {
    match outcome {
        Ok(()) => Ok(Node::Component(id)),
        Err(e) => Err(e),
    }
}

/// Stores a new instance `id` with its properties, its children and the
/// subtree its component produced, and returns the reference to it. An
/// identity that the store already holds is reported and left as it was.
pub fn store_entity(
    store: &mut ComponentStore,
    id: ComponentId,
    component: ComponentElement,
    children: Vec<Node>,
    rendered: Node,
) -> (r: Result<Node, CoreError>)
    ensures
        r == built(insert_outcome(old(store).contains(id), id), id),
        insert_post(
            *old(store),
            *final(store),
            id,
            (ComponentEntry { properties: component.properties, children, rendered }),
        ),
{
    let entry = ComponentEntry { properties: component.properties, children, rendered };
    match store.insert(id, entry) {
        Ok(()) => Ok(Node::Component(id)),
        Err(e) => Err(e),
    }
}

/// Builds the instance of `component` at position `context`. An instance
/// that the store already holds is reused as it is; otherwise the registry
/// produces its subtree and the instance is stored. An instance whose
/// subtree asks for the instance itself is a malformed template.
pub fn build_entity<R: ComponentRegistry>(
    registry: &R,
    store: &mut ComponentStore,
    component: ComponentElement,
    children: Vec<Node>,
    context: u64,
) -> (r: Result<Node, CoreError>)
    ensures
        old(store).contains(component_id(component.name@, context)) ==> r == Ok::<Node, CoreError>(
            Node::Component(component_id(component.name@, context)),
        ) && final(store).spec_len() == old(store).spec_len() && forall|k: ComponentId|
            final(store).spec_get(k) == old(store).spec_get(k),
        !old(store).contains(component_id(component.name@, context)) && old(
            store,
        ).spec_building().contains(component_id(component.name@, context)) ==> r == Err::<
            Node,
            CoreError,
        >(CoreError::MalformedTemplate) && final(store).spec_len() == old(store).spec_len()
            && forall|k: ComponentId| final(store).spec_get(k) == old(store).spec_get(k),
        r is Ok ==> r == Ok::<Node, CoreError>(Node::Component(component_id(component.name@, context)))
            && final(store).contains(component_id(component.name@, context)),
{
    let id = ComponentId::derive(component.name.as_str(), context);
    if store.contains_id(id) {
        return Ok(Node::Component(id));
    }
    if store.is_building(id) {
        return Err(CoreError::MalformedTemplate);
    }
    store.begin_building(id);
    let produced = registry.node(&component, &children, store);
    store.end_building();
    match produced {
        Err(e) => Err(e),
        Ok(rendered) => store_entity(store, id, component, children, rendered),
    }
}

/// Every element in the template has a non-empty tag and attribute names.
pub open spec fn template_well_formed(t: TemplateNode) -> bool
    decreases t,
{
    match t {
        TemplateNode::HtmlElement { element, child_nodes } => element_well_formed(element) && forall|
            i: int,
        |
            0 <= i < child_nodes@.len() ==> template_well_formed(#[trigger] child_nodes@[i]),
        TemplateNode::ComponentElement { child_nodes, .. } => forall|i: int|
            0 <= i < child_nodes@.len() ==> template_well_formed(#[trigger] child_nodes@[i]),
        _ => true,
    }
}

/// The template names no component.
pub open spec fn component_free(t: TemplateNode) -> bool
    decreases t,
{
    match t {
        TemplateNode::HtmlElement { child_nodes, .. } => forall|i: int|
            0 <= i < child_nodes@.len() ==> component_free(#[trigger] child_nodes@[i]),
        TemplateNode::ComponentElement { .. } => false,
        _ => true,
    }
}

/// `n` is what lowering makes of `t`: text and markup are kept, an
/// expression becomes a slot whose identity comes from its source text and
/// position, and a component becomes a reference to its instance.
pub open spec fn lowers_to(t: TemplateNode, n: Node) -> bool
    decreases t,
{
    match t {
        TemplateNode::Text(s) => n == Node::Text(s),
        TemplateNode::HtmlElement { element, child_nodes } => match n {
            Node::HtmlElement { element: e, child_nodes: ns } => e == element && ns@.len()
                == child_nodes@.len() && forall|i: int|
                0 <= i < child_nodes@.len() ==> lowers_to(#[trigger] child_nodes@[i], ns@[i]),
            _ => false,
        },
        TemplateNode::ComponentElement { component, context, .. } => n == Node::Component(
            component_id(component.name@, context),
        ),
        TemplateNode::Expression { source, context } => n == Node::Expression(
            expression_id(context, source@),
        ),
    }
}

impl TemplateNode {
    /// Turns this template into a node, building the components it names
    /// into `store` in source order. A template that names no component
    /// leaves the store as it was, and lowers exactly when it is well formed.
    pub fn lower<R: ComponentRegistry>(self, registry: &R, store: &mut ComponentStore) -> (r: Result<
        Node,
        CoreError,
    >)
        ensures
            r is Ok ==> lowers_to(self, r->Ok_0),
            component_free(self) ==> {
                &&& (r is Ok <==> template_well_formed(self))
                &&& (r is Err ==> r == Err::<Node, CoreError>(CoreError::MalformedTemplate))
                &&& final(store).spec_len() == old(store).spec_len()
                &&& forall|k: ComponentId| final(store).spec_get(k) == old(store).spec_get(k)
            },
        decreases self,
    {
        let ghost t = self;
        match self {
            TemplateNode::Text(s) => Ok(Node::Text(s)),
            TemplateNode::Expression { source, context } => Ok(
                Node::Expression(ExpressionId::derive(context, source.as_str())),
            ),
            TemplateNode::HtmlElement { element, child_nodes } => {
                if !element.check() {
                    return Err(CoreError::MalformedTemplate);
                }
                match lower_all(child_nodes, registry, store) {
                    Ok(lowered) => Ok(Node::HtmlElement { element, child_nodes: lowered }),
                    Err(e) => Err(e),
                }
            },
            TemplateNode::ComponentElement { component, child_nodes, context } => {
                match lower_all(child_nodes, registry, store) {
                    Ok(lowered) => build_entity(registry, store, component, lowered, context),
                    Err(e) => Err(e),
                }
            },
        }
    }
}

/// Lowers sibling templates in order; the first failure stops the rest.
fn lower_all<R: ComponentRegistry>(ts: Vec<TemplateNode>, registry: &R, store: &mut ComponentStore) -> (r:
    Result<Vec<Node>, CoreError>)
    ensures
        r is Ok ==> r->Ok_0@.len() == ts@.len() && forall|i: int|
            0 <= i < ts@.len() ==> lowers_to(#[trigger] ts@[i], r->Ok_0@[i]),
        (forall|i: int| 0 <= i < ts@.len() ==> component_free(#[trigger] ts@[i])) ==> {
            &&& (r is Ok <==> forall|i: int|
                0 <= i < ts@.len() ==> template_well_formed(#[trigger] ts@[i]))
            &&& (r is Err ==> r == Err::<Vec<Node>, CoreError>(CoreError::MalformedTemplate))
            &&& final(store).spec_len() == old(store).spec_len()
            &&& forall|k: ComponentId| final(store).spec_get(k) == old(store).spec_get(k)
        },
    decreases ts,
{
    let ghost all = ts@;
    let len = ts.len();
    let mut rest = ts;
    let mut lowered: Vec<Node> = Vec::new();
    let mut i: usize = 0;
    while i < len
        invariant
            all == ts@,
            all.len() == len,
            i <= all.len(),
            rest@ == all.subrange(i as int, all.len() as int),
            lowered@.len() == i,
            forall|j: int| 0 <= j < i ==> lowers_to(#[trigger] all[j], lowered@[j]),
            (forall|j: int| 0 <= j < all.len() ==> component_free(#[trigger] all[j])) ==> {
                &&& forall|j: int| 0 <= j < i ==> template_well_formed(#[trigger] all[j])
                &&& store.spec_len() == old(store).spec_len()
                &&& forall|k: ComponentId| store.spec_get(k) == old(store).spec_get(k)
            },
        decreases all.len() - i,
    {
        let t = rest.remove(0);
        proof {
            assert(t == all[i as int]);
            assert(decreases_to!(ts => ts@));
            assert(i < all.len());
            assert(decreases_to!(ts@ => ts@[i as int]));
        }
        match t.lower(registry, store) {
            Ok(n) => {
                lowered.push(n);
            },
            Err(e) => {
                return Err(e);
            },
        }
        i = i + 1;
    }
    Ok(lowered)
}

} // verus!
