//! The tree model: the nodes that the renderer walks, the template nodes that
//! lowering turns into them, and the failures that the core reports.
use vstd::prelude::*;
use crate::identity::{ComponentId, ExpressionId};

verus! {

/// Static markup: a tag and its attributes, in source order.
pub struct HtmlElement {
    pub tag: String,
    pub attributes: Vec<(String, String)>,
}

/// A nested component as written in a template: its kind and its declared
/// properties, each a name and a value.
pub struct ComponentElement {
    pub name: String,
    pub properties: Vec<(String, String)>,
}

/// A renderable node. A tree holds no back-edges: a parent owns its
/// children, and a component is reached only through its identity.
pub enum Node {
    /// Static text.
    Text(String),
    /// Static markup with its children in source order.
    HtmlElement { element: HtmlElement, child_nodes: Vec<Node> },
    /// A component instance whose subtree lives in the component store.
    Component(ComponentId),
    /// A dynamic slot whose value is computed when the tree is rendered.
    Expression(ExpressionId),
}

/// A template position as the lowering step hands it over: markup, text, a
/// nested component, or the source text of an expression. `context` is the
/// position context that tells equal expressions or equal component kinds
/// at different places apart.
pub enum TemplateNode {
    Text(String),
    HtmlElement { element: HtmlElement, child_nodes: Vec<TemplateNode> },
    ComponentElement {
        component: ComponentElement,
        child_nodes: Vec<TemplateNode>,
        context: u64,
    },
    Expression { source: String, context: u64 },
}

/// The failures of the core.
#[derive(Clone, Copy, Debug, PartialEq, Eq, Structural)]
pub enum CoreError {
    /// A template with an invalid shape: an empty tag or attribute name, or
    /// components that contain themselves.
    MalformedTemplate,
    /// A component reference with no entry in the store.
    ComponentNotFound(ComponentId),
    /// A non-replacing insert of an identity that the store already holds.
    DuplicateComponentId(ComponentId),
    /// An expression slot that has no computed value.
    ExpressionEvaluationFailure(ExpressionId),
}

/// Tag and attribute names are non-empty.
pub open spec fn element_well_formed(e: HtmlElement) -> bool {
    &&& e.tag@.len() > 0
    &&& forall|i: int| 0 <= i < e.attributes@.len() ==> (#[trigger] e.attributes@[i]).0@.len() > 0
}

impl HtmlElement {
    /// Makes an element, rejecting an empty tag or attribute name.
    pub fn new(tag: String, attributes: Vec<(String, String)>) -> (r: Result<HtmlElement, CoreError>)
        ensures
            match r {
                Ok(e) => e.tag == tag && e.attributes == attributes && element_well_formed(e),
                Err(err) => err == CoreError::MalformedTemplate && !element_well_formed(
                    HtmlElement { tag, attributes },
                ),
            },
    {
        let e = HtmlElement { tag, attributes };
        if e.check() {
            Ok(e)
        } else {
            Err(CoreError::MalformedTemplate)
        }
    }

    /// Tells whether the tag and every attribute name are non-empty.
    pub fn check(&self) -> (r: bool)
        ensures
            r == element_well_formed(*self),
    {
        if self.tag.as_str().unicode_len() == 0 {
            return false;
        }
        let mut i: usize = 0;
        while i < self.attributes.len()
            invariant
                i <= self.attributes@.len(),
                forall|j: int| 0 <= j < i ==> (#[trigger] self.attributes@[j]).0@.len() > 0,
            decreases self.attributes@.len() - i,
        {
            if self.attributes[i].0.as_str().unicode_len() == 0 {
                return false;
            }
            i = i + 1;
        }
        true
    }
}

} // verus!
