//! Serialising a tree to HTML, and the values of its expression slots.
use vstd::prelude::*;
use vstd::string::*;
use crate::identity::ExpressionId;
use crate::node::{CoreError, HtmlElement, Node};
use crate::store::ComponentStore;

verus! {

/// The values that the host computed for the expression slots of one render
/// pass. A later binding of an identity overrides an earlier one.
pub struct ExpressionValues {
    items: Vec<(ExpressionId, String)>,
}

/// The value bound last to `id` in `items`.
pub open spec fn value_of(items: Seq<(ExpressionId, String)>, id: ExpressionId) -> Option<Seq<char>>
    decreases items.len(),
{
    if items.len() == 0 {
        None
    } else if items.last().0 == id {
        Some(items.last().1@)
    } else {
        value_of(items.drop_last(), id)
    }
}

impl View for ExpressionValues {
    type V = Seq<(ExpressionId, String)>;

    closed spec fn view(&self) -> Seq<(ExpressionId, String)> {
        self.items@
    }
}

impl ExpressionValues {
    /// No values.
    pub fn new() -> (r: ExpressionValues)
        ensures
            r@.len() == 0,
            forall|id: ExpressionId| value_of(r@, id) is None,
    {
        ExpressionValues { items: Vec::new() }
    }

    /// Binds `value` to `id`.
    pub fn bind(&mut self, id: ExpressionId, value: String)
        ensures
            final(self)@ == old(self)@.push((id, value)),
            value_of(final(self)@, id) == Some(value@),
            forall|k: ExpressionId| k != id ==> value_of(final(self)@, k) == value_of(old(self)@, k),
    {
        self.items.push((id, value));
        proof {
            assert(self.items@.drop_last() =~= old(self).items@);
        }
    }

    /// The value bound last to `id`, if any.
    pub fn get(&self, id: ExpressionId) -> (r: Option<&String>)
        ensures
            match value_of(self@, id) {
                Some(v) => r is Some && r->0@ == v,
                None => r is None,
            },
    {
        let mut i: usize = self.items.len();
        proof {
            assert(self.items@.subrange(0, i as int) =~= self.items@);
        }
        while i > 0
            invariant
                i <= self.items@.len(),
                value_of(self.items@, id) == value_of(self.items@.subrange(0, i as int), id),
            decreases i,
        {
            let ghost prefix = self.items@.subrange(0, i as int);
            proof {
                assert(prefix.drop_last() =~= self.items@.subrange(0, i - 1));
            }
            if self.items[i - 1].0 == id {
                return Some(&self.items[i - 1].1);
            }
            i = i - 1;
        }
        None
    }
}

/// How one character of text or of an attribute value is written in HTML.
pub open spec fn escape_char(c: char) -> Seq<char> {
    if c == '&' {
        seq!['&', 'a', 'm', 'p', ';']
    } else if c == '<' {
        seq!['&', 'l', 't', ';']
    } else if c == '>' {
        seq!['&', 'g', 't', ';']
    } else if c == '"' {
        seq!['&', 'q', 'u', 'o', 't', ';']
    } else if c == '\'' {
        seq!['&', '#', '3', '9', ';']
    } else {
        seq![c]
    }
}

/// Text with the HTML-special characters replaced by their entities.
pub open spec fn escape(s: Seq<char>) -> Seq<char>
    decreases s.len(),
{
    if s.len() == 0 {
        Seq::empty()
    } else {
        escape(s.drop_last()) + escape_char(s.last())
    }
}

/// The attributes of an element as written inside its opening tag.
pub open spec fn attributes_text(attrs: Seq<(String, String)>) -> Seq<char>
    decreases attrs.len(),
{
    if attrs.len() == 0 {
        Seq::empty()
    } else {
        attributes_text(attrs.drop_last()) + seq![' '] + attrs.last().0@ + seq!['=', '"']
            + escape(attrs.last().1@) + seq!['"']
    }
}

pub open spec fn open_tag(e: HtmlElement) -> Seq<char> {
    seq!['<'] + e.tag@ + attributes_text(e.attributes@) + seq!['>']
}

pub open spec fn close_tag(e: HtmlElement) -> Seq<char> {
    seq!['<', '/'] + e.tag@ + seq!['>']
}

/// The HTML of a node. `fuel` bounds how many component references may be
/// followed one inside another; running out of it means that components
/// contain themselves.
pub open spec fn render_node(
    n: Node,
    store: ComponentStore,
    values: Seq<(ExpressionId, String)>,
    fuel: nat,
) -> Result<Seq<char>, CoreError>
    decreases fuel, n,
{
    match n {
        Node::Text(s) => Ok(escape(s@)),
        Node::HtmlElement { element, child_nodes } => match render_children(
            child_nodes@,
            store,
            values,
            fuel,
        ) {
            Ok(body) => Ok(open_tag(element) + body + close_tag(element)),
            Err(e) => Err(e),
        },
        Node::Component(id) => match store.spec_get(id) {
            None => Err(CoreError::ComponentNotFound(id)),
            Some(entry) => if fuel == 0 {
                Err(CoreError::MalformedTemplate)
            } else {
                render_node(entry.rendered, store, values, (fuel - 1) as nat)
            },
        },
        Node::Expression(id) => match value_of(values, id) {
            None => Err(CoreError::ExpressionEvaluationFailure(id)),
            Some(v) => Ok(escape(v)),
        },
    }
}

/// The HTML of a sequence of sibling nodes, in order; the first failure wins.
pub open spec fn render_children(
    cs: Seq<Node>,
    store: ComponentStore,
    values: Seq<(ExpressionId, String)>,
    fuel: nat,
) -> Result<Seq<char>, CoreError>
    decreases fuel, cs,
{
    if cs.len() == 0 {
        Ok(Seq::empty())
    } else {
        match render_children(cs.drop_last(), store, values, fuel) {
            Err(e) => Err(e),
            Ok(a) => match render_node(cs.last(), store, values, fuel) {
                Err(e) => Err(e),
                Ok(b) => Ok(a + b),
            },
        }
    }
}

/// The HTML of `root` with the components of `store`: components may be
/// nested as deep as the store has entries, and no deeper.
pub open spec fn spec_render(
    root: Node,
    store: ComponentStore,
    values: Seq<(ExpressionId, String)>,
) -> Result<Seq<char>, CoreError> {
    render_node(root, store, values, store.spec_len())
}

/// Relies on String::push: appends one character at the end.
#[verifier::external_body]
fn push_char(s: &mut String, c: char)
    ensures
        final(s)@ == old(s)@.push(c),
{
    s.push(c);
}

/// Appends `s` to `out` with the HTML-special characters escaped.
pub fn escape_into(s: &str, out: &mut String)
    ensures
        final(out)@ == old(out)@ + escape(s@),
{
    let n = s.unicode_len();
    let mut i: usize = 0;
    while i < n
        invariant
            n == s@.len(),
            i <= n,
            out@ == old(out)@ + escape(s@.subrange(0, i as int)),
        decreases n - i,
    {
        let c = s.get_char(i);
        let ghost before = out@;
        if c == '&' {
            proof {
                reveal_strlit("&amp;");
            }
            out.append("&amp;");
        } else if c == '<' {
            proof {
                reveal_strlit("&lt;");
            }
            out.append("&lt;");
        } else if c == '>' {
            proof {
                reveal_strlit("&gt;");
            }
            out.append("&gt;");
        } else if c == '"' {
            proof {
                reveal_strlit("&quot;");
            }
            out.append("&quot;");
        } else if c == '\'' {
            proof {
                reveal_strlit("&#39;");
            }
            out.append("&#39;");
        } else {
            push_char(out, c);
        }
        proof {
            assert(out@ =~= before + escape_char(c));
            assert(s@.subrange(0, i + 1).drop_last() =~= s@.subrange(0, i as int));
            assert(out@ =~= old(out)@ + escape(s@.subrange(0, i + 1)));
        }
        i = i + 1;
    }
    proof {
        assert(s@.subrange(0, n as int) =~= s@);
    }
}

/// Appends the opening tag of `e`, attributes included.
fn open_tag_into(e: &HtmlElement, out: &mut String)
    ensures
        final(out)@ == old(out)@ + open_tag(*e),
{
    proof {
        reveal_strlit("<");
        reveal_strlit(" ");
        reveal_strlit("=\"");
        reveal_strlit("\"");
        reveal_strlit(">");
    }
    out.append("<");
    out.append(e.tag.as_str());
    let ghost start = out@;
    let mut i: usize = 0;
    proof {
        assert(e.attributes@.subrange(0, 0) =~= Seq::<(String, String)>::empty());
        assert(out@ =~= start + attributes_text(e.attributes@.subrange(0, 0)));
    }
    while i < e.attributes.len()
        invariant
            i <= e.attributes@.len(),
            out@ == start + attributes_text(e.attributes@.subrange(0, i as int)),
        decreases e.attributes@.len() - i,
    {
        let ghost before = out@;
        proof {
            reveal_strlit(" ");
            reveal_strlit("=\"");
            reveal_strlit("\"");
        }
        out.append(" ");
        out.append(e.attributes[i].0.as_str());
        out.append("=\"");
        escape_into(e.attributes[i].1.as_str(), out);
        out.append("\"");
        proof {
            let attrs = e.attributes@.subrange(0, i + 1);
            assert(attrs.drop_last() =~= e.attributes@.subrange(0, i as int));
            assert(attrs.last() == e.attributes@[i as int]);
            assert(out@ =~= start + attributes_text(attrs));
        }
        i = i + 1;
    }
    out.append(">");
    proof {
        assert(e.attributes@.subrange(0, i as int) =~= e.attributes@);
        assert(out@ =~= old(out)@ + open_tag(*e));
    }
}

/// Appends the closing tag of `e`.
fn close_tag_into(e: &HtmlElement, out: &mut String)
    ensures
        final(out)@ == old(out)@ + close_tag(*e),
{
    proof {
        reveal_strlit("</");
        reveal_strlit(">");
    }
    out.append("</");
    out.append(e.tag.as_str());
    out.append(">");
    proof {
        assert(out@ =~= old(out)@ + close_tag(*e));
    }
}

/// Once a prefix of the siblings fails, all of them fail the same way.
proof fn lemma_children_error_persists(
    cs: Seq<Node>,
    k: int,
    store: ComponentStore,
    values: Seq<(ExpressionId, String)>,
    fuel: nat,
)
    requires
        0 <= k <= cs.len(),
        render_children(cs.subrange(0, k), store, values, fuel) is Err,
    ensures
        render_children(cs, store, values, fuel) == render_children(
            cs.subrange(0, k),
            store,
            values,
            fuel,
        ),
    decreases cs.len() - k,
{
    if k < cs.len() {
        assert(cs.subrange(0, k + 1).drop_last() =~= cs.subrange(0, k));
        lemma_children_error_persists(cs, k + 1, store, values, fuel);
    } else {
        assert(cs.subrange(0, k) =~= cs);
    }
}

/// Appends the HTML of `n` to `out`; on failure `out` holds a partial
/// rendering that the caller discards.
fn render_node_into(
    n: &Node,
    store: &ComponentStore,
    values: &ExpressionValues,
    fuel: usize,
    out: &mut String,
) -> (r: Result<(), CoreError>)
    ensures
        match render_node(*n, *store, values@, fuel as nat) {
            Ok(s) => r is Ok && final(out)@ == old(out)@ + s,
            Err(e) => r == Err::<(), CoreError>(e),
        },
    decreases fuel, n,
{
    match n {
        Node::Text(s) => {
            escape_into(s.as_str(), out);
            Ok(())
        },
        Node::HtmlElement { element, child_nodes } => {
            open_tag_into(element, out);
            let ghost mid = out@;
            let mut i: usize = 0;
            proof {
                assert(child_nodes@.subrange(0, 0) =~= Seq::<Node>::empty());
                assert(out@ =~= mid + Seq::<char>::empty());
            }
            while i < child_nodes.len()
                invariant
                    *n == (Node::HtmlElement { element: *element, child_nodes: *child_nodes }),
                    i <= child_nodes@.len(),
                    render_children(child_nodes@.subrange(0, i as int), *store, values@, fuel as nat) is Ok,
                    out@ == mid + render_children(
                        child_nodes@.subrange(0, i as int),
                        *store,
                        values@,
                        fuel as nat,
                    )->Ok_0,
                decreases child_nodes@.len() - i,
            {
                let ghost before = out@;
                let ghost prefix = child_nodes@.subrange(0, i + 1);
                proof {
                    assert(prefix.drop_last() =~= child_nodes@.subrange(0, i as int));
                    assert(prefix.last() == child_nodes@[i as int]);
                    assert(decreases_to!(child_nodes => child_nodes[i as int]));
                    assert(decreases_to!(*n => *child_nodes));
                }
                match render_node_into(&child_nodes[i], store, values, fuel, out) {
                    Err(e) => {
                        proof {
                            assert(render_children(prefix, *store, values@, fuel as nat) == Err::<
                                Seq<char>,
                                CoreError,
                            >(e));
                            lemma_children_error_persists(
                                child_nodes@,
                                i + 1,
                                *store,
                                values@,
                                fuel as nat,
                            );
                        }
                        return Err(e);
                    },
                    Ok(()) => {},
                }
                proof {
                    assert(out@ =~= mid + render_children(prefix, *store, values@, fuel as nat)->Ok_0);
                }
                i = i + 1;
            }
            proof {
                assert(child_nodes@.subrange(0, i as int) =~= child_nodes@);
            }
            let ghost body_end = out@;
            close_tag_into(element, out);
            proof {
                assert(out@ =~= old(out)@ + open_tag(*element) + render_children(
                    child_nodes@,
                    *store,
                    values@,
                    fuel as nat,
                )->Ok_0 + close_tag(*element));
            }
            Ok(())
        },
        Node::Component(id) => match store.get(*id) {
            Err(e) => Err(e),
            Ok(entry) => {
                if fuel == 0 {
                    Err(CoreError::MalformedTemplate)
                } else {
                    render_node_into(&entry.rendered, store, values, fuel - 1, out)
                }
            },
        },
        Node::Expression(id) => match values.get(*id) {
            None => Err(CoreError::ExpressionEvaluationFailure(*id)),
            Some(v) => {
                escape_into(v.as_str(), out);
                Ok(())
            },
        },
    }
}

/// Renders `root` to HTML, following component references through `store`
/// and taking each expression slot's value from `values`. Fails, with no
/// output, on a missing component, a slot without a value, or components
/// that contain themselves.
pub fn render(root: &Node, store: &ComponentStore, values: &ExpressionValues) -> (r: Result<
    String,
    CoreError,
>)
    ensures
        match spec_render(*root, *store, values@) {
            Ok(s) => r is Ok && r->Ok_0@ == s,
            Err(e) => r == Err::<String, CoreError>(e),
        },
{
    let mut out = String::new();
    let fuel = store.len();
    match render_node_into(root, store, values, fuel, &mut out) {
        Ok(()) => {
            proof {
                assert(out@ =~= Seq::<char>::empty() + out@);
            }
            Ok(out)
        },
        Err(e) => Err(e),
    }
}

} // verus!
