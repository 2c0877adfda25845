//! Laws that relate several operations of the library.
use vstd::prelude::*;
use crate::identity::{ComponentId, ExpressionId};
use crate::node::{CoreError, HtmlElement, Node};
use crate::render::{close_tag, open_tag, render_children, render_node, spec_render, value_of};
use crate::store::{insert_outcome, insert_post, ComponentEntry, ComponentStore};

verus! {

/// The two stores hold the same entries under the same identities.
pub open spec fn same_contents(s1: ComponentStore, s2: ComponentStore) -> bool {
    &&& s1.spec_len() == s2.spec_len()
    &&& forall|k: ComponentId| s1.spec_get(k) == s2.spec_get(k)
}

/// The two tables give every slot the same value.
pub open spec fn same_values(v1: Seq<(ExpressionId, String)>, v2: Seq<(ExpressionId, String)>) -> bool {
    forall|id: ExpressionId| value_of(v1, id) == value_of(v2, id)
}

proof fn lemma_render_node_congruent(
    n: Node,
    s1: ComponentStore,
    s2: ComponentStore,
    v1: Seq<(ExpressionId, String)>,
    v2: Seq<(ExpressionId, String)>,
    fuel: nat,
)
    requires
        same_contents(s1, s2),
        same_values(v1, v2),
    ensures
        render_node(n, s1, v1, fuel) == render_node(n, s2, v2, fuel),
    decreases fuel, n,
{
    match n {
        Node::HtmlElement { element, child_nodes } => {
            lemma_render_children_congruent(child_nodes@, s1, s2, v1, v2, fuel);
        },
        Node::Component(id) => {
            if fuel > 0 && s1.spec_get(id) is Some {
                lemma_render_node_congruent(
                    s1.spec_get(id)->Some_0.rendered,
                    s1,
                    s2,
                    v1,
                    v2,
                    (fuel - 1) as nat,
                );
            }
        },
        Node::Expression(id) => {
            assert(value_of(v1, id) == value_of(v2, id));
        },
        _ => {},
    }
}

proof fn lemma_render_children_congruent(
    cs: Seq<Node>,
    s1: ComponentStore,
    s2: ComponentStore,
    v1: Seq<(ExpressionId, String)>,
    v2: Seq<(ExpressionId, String)>,
    fuel: nat,
)
    requires
        same_contents(s1, s2),
        same_values(v1, v2),
    ensures
        render_children(cs, s1, v1, fuel) == render_children(cs, s2, v2, fuel),
    decreases fuel, cs,
{
    if cs.len() > 0 {
        lemma_render_children_congruent(cs.drop_last(), s1, s2, v1, v2, fuel);
        lemma_render_node_congruent(cs.last(), s1, s2, v1, v2, fuel);
    }
}

/// Rendering is a function of the tree, of what the store holds and of the
/// slot values alone: rendering a tree again, against a store with the same
/// entries and the same slot values, gives the same output or the same
/// failure.
pub proof fn lemma_render_idempotent(
    root: Node,
    s1: ComponentStore,
    s2: ComponentStore,
    v1: Seq<(ExpressionId, String)>,
    v2: Seq<(ExpressionId, String)>,
)
    requires
        same_contents(s1, s2),
        same_values(v1, v2),
    ensures
        spec_render(root, s1, v1) == spec_render(root, s2, v2),
{
    lemma_render_node_congruent(root, s1, s2, v1, v2, s1.spec_len());
}

/// Of two inserts of one identity, at most one succeeds: once the first has
/// run, the store holds the identity, the second is reported as a duplicate,
/// and the entry stays the one that was stored first.
pub proof fn lemma_insert_at_most_one_winner(
    s0: ComponentStore,
    s1: ComponentStore,
    s2: ComponentStore,
    id: ComponentId,
    e1: ComponentEntry,
    e2: ComponentEntry,
)
    requires
        insert_post(s0, s1, id, e1),
        insert_post(s1, s2, id, e2),
    ensures
        !(insert_outcome(s0.contains(id), id) is Ok && insert_outcome(s1.contains(id), id) is Ok),
        insert_outcome(s1.contains(id), id) == Err::<(), CoreError>(
            CoreError::DuplicateComponentId(id),
        ),
        s2.spec_get(id) == s1.spec_get(id),
        s2.spec_get(id) == if s0.contains(id) {
            s0.spec_get(id)
        } else {
            Some(e1)
        },
{
}

/// Siblings are rendered in order: the HTML of `a + b` is the HTML of `a`
/// followed by the HTML of `b`.
pub proof fn lemma_children_concat(
    a: Seq<Node>,
    b: Seq<Node>,
    store: ComponentStore,
    values: Seq<(ExpressionId, String)>,
    fuel: nat,
)
    requires
        render_children(a, store, values, fuel) is Ok,
        render_children(b, store, values, fuel) is Ok,
    ensures
        render_children(a + b, store, values, fuel) == Ok::<Seq<char>, CoreError>(
            render_children(a, store, values, fuel)->Ok_0 + render_children(
                b,
                store,
                values,
                fuel,
            )->Ok_0,
        ),
    decreases b.len(),
{
    if b.len() == 0 {
        assert(a + b =~= a);
        assert(render_children(a, store, values, fuel)->Ok_0 + Seq::<char>::empty()
            =~= render_children(a, store, values, fuel)->Ok_0);
    } else {
        assert(render_children(b.drop_last(), store, values, fuel) is Ok);
        lemma_children_concat(a, b.drop_last(), store, values, fuel);
        assert((a + b).drop_last() =~= a + b.drop_last());
        assert((a + b).last() == b.last());
        let ra = render_children(a, store, values, fuel)->Ok_0;
        let rb = render_children(b.drop_last(), store, values, fuel)->Ok_0;
        let rl = render_node(b.last(), store, values, fuel)->Ok_0;
        assert(ra + rb + rl =~= ra + (rb + rl));
    }
}

/// An element shows its children in their order: children `[x, y]` give
/// the opening tag, `x`, `y` and the closing tag, and the same children
/// swapped give `y` before `x`.
pub proof fn lemma_element_children_order(
    element: HtmlElement,
    x: Node,
    y: Node,
    xy: Vec<Node>,
    yx: Vec<Node>,
    store: ComponentStore,
    values: Seq<(ExpressionId, String)>,
    fuel: nat,
)
    requires
        xy@ == seq![x, y],
        yx@ == seq![y, x],
        render_node(x, store, values, fuel) is Ok,
        render_node(y, store, values, fuel) is Ok,
    ensures
        render_node(Node::HtmlElement { element, child_nodes: xy }, store, values, fuel) == Ok::<
            Seq<char>,
            CoreError,
        >(
            open_tag(element) + render_node(x, store, values, fuel)->Ok_0 + render_node(
                y,
                store,
                values,
                fuel,
            )->Ok_0 + close_tag(element),
        ),
        render_node(Node::HtmlElement { element, child_nodes: yx }, store, values, fuel) == Ok::<
            Seq<char>,
            CoreError,
        >(
            open_tag(element) + render_node(y, store, values, fuel)->Ok_0 + render_node(
                x,
                store,
                values,
                fuel,
            )->Ok_0 + close_tag(element),
        ),
{
    let rx = render_node(x, store, values, fuel)->Ok_0;
    let ry = render_node(y, store, values, fuel)->Ok_0;
    assert(seq![x, y].drop_last() =~= seq![x]);
    assert(seq![y, x].drop_last() =~= seq![y]);
    assert(seq![x].drop_last() =~= Seq::<Node>::empty());
    assert(seq![y].drop_last() =~= Seq::<Node>::empty());
    assert(seq![x].last() == x);
    assert(seq![y].last() == y);
    assert(render_children(Seq::<Node>::empty(), store, values, fuel) == Ok::<Seq<char>, CoreError>(
        Seq::empty(),
    ));
    assert(Seq::<char>::empty() + rx =~= rx);
    assert(Seq::<char>::empty() + ry =~= ry);
    assert(render_children(seq![x], store, values, fuel) == Ok::<Seq<char>, CoreError>(rx));
    assert(render_children(seq![y], store, values, fuel) == Ok::<Seq<char>, CoreError>(ry));
    assert(render_children(xy@, store, values, fuel) == Ok::<Seq<char>, CoreError>(rx + ry));
    assert(render_children(yx@, store, values, fuel) == Ok::<Seq<char>, CoreError>(ry + rx));
    assert(open_tag(element) + (rx + ry) + close_tag(element) =~= open_tag(element) + rx + ry
        + close_tag(element));
    assert(open_tag(element) + (ry + rx) + close_tag(element) =~= open_tag(element) + ry + rx
        + close_tag(element));
}

} // verus!
