//! The markup reducer: a depth-first, pre-order walk of a parsed HTML
//! tree that concatenates the character content of every visible text
//! node. A text node is invisible exactly when the tag name of its
//! nearest enclosing element is one of the four literal casings
//! `script`, `SCRIPT`, `style`, `STYLE`; only the immediate enclosing
//! element's name is consulted, carried down the walk as one explicit
//! context value. Mixed casings beyond those four (such as `Script`) are
//! deliberately not recognised.
//!
//! Processing instructions are an invalid input for this pipeline: a
//! lenient HTML parser never produces one, so trees that contain one are
//! excluded by precondition rather than handled.

use vstd::prelude::*;

use crate::strutil::str_eq;

verus! {

/// What one node of the parsed document tree is.
pub enum NodeData {
    Document,
    Doctype,
    Text { contents: String },
    Comment,
    Element { name: String },
    ProcessingInstruction,
}

/// One node of the parsed document tree, owning its children in document
/// order.
pub struct DomNode {
    pub data: NodeData,
    pub children: Vec<DomNode>,
}

/// The tag names whose enclosed text is suppressed.
pub open spec fn is_suppressed(tag: Seq<char>) -> bool {
    ||| tag == "script"@
    ||| tag == "SCRIPT"@
    ||| tag == "style"@
    ||| tag == "STYLE"@
}

/// The context handed to a node's children: an element replaces the
/// carried tag name by its own; every other node passes it on unchanged.
pub open spec fn child_context(data: NodeData, ctx: Option<Seq<char>>) -> Option<Seq<char>> {
    match data {
        NodeData::Element { name } => Some(name@),
        _ => ctx,
    }
}

/// What a node itself contributes: a text node's contents, unless the
/// carried context is a suppressed tag name; nothing from any other kind.
pub open spec fn own_text(data: NodeData, ctx: Option<Seq<char>>) -> Seq<char> {
    match data {
        NodeData::Text { contents } => match ctx {
            Some(tag) => if is_suppressed(tag) {
                Seq::empty()
            } else {
                contents@
            },
            None => contents@,
        },
        _ => Seq::empty(),
    }
}

/// The visible text of a subtree: the node's own contribution followed by
/// its children's, in document order.
pub open spec fn node_text(n: DomNode, ctx: Option<Seq<char>>) -> Seq<char>
    decreases n,
{
    own_text(n.data, ctx) + children_text(n.children@, child_context(n.data, ctx))
}

/// The visible text of a forest of siblings, in order.
pub open spec fn children_text(s: Seq<DomNode>, ctx: Option<Seq<char>>) -> Seq<char>
    decreases s,
{
    if s.len() == 0 {
        Seq::empty()
    } else {
        node_text(s[0], ctx) + children_text(s.drop_first(), ctx)
    }
}

/// No processing instruction anywhere in the subtree.
pub open spec fn pi_free(n: DomNode) -> bool
    decreases n,
{
    &&& !(n.data matches NodeData::ProcessingInstruction)
    &&& forall|i: int| 0 <= i < n.children@.len() ==> pi_free(#[trigger] n.children@[i])
}

/// The view of the context argument carried by the executable walk.
pub open spec fn tag_view(tag: Option<&str>) -> Option<Seq<char>> {
    match tag {
        Some(t) => Some(t@),
        None => None,
    }
}

/// Appending one more sibling's text extends the forest's text on the
/// right.
pub proof fn lemma_children_text_snoc(s: Seq<DomNode>, ctx: Option<Seq<char>>, i: int)
    requires
        0 <= i < s.len(),
    ensures
        children_text(s.subrange(0, i + 1), ctx) == children_text(s.subrange(0, i), ctx)
            + node_text(s[i], ctx),
    decreases i,
{
    let a = s.subrange(0, i + 1);
    let b = s.subrange(0, i);
    if i == 0 {
        assert(a.drop_first() =~= Seq::<DomNode>::empty());
        assert(children_text(a, ctx) == node_text(s[0], ctx) + children_text(
            Seq::<DomNode>::empty(),
            ctx,
        ));
        assert(node_text(s[0], ctx) + Seq::<char>::empty() =~= node_text(s[0], ctx));
        assert(children_text(b, ctx) == Seq::<char>::empty());
        assert(Seq::<char>::empty() + node_text(s[0], ctx) =~= node_text(s[0], ctx));
    } else {
        let t = s.drop_first();
        assert(a.drop_first() =~= t.subrange(0, i));
        assert(b.drop_first() =~= t.subrange(0, i - 1));
        lemma_children_text_snoc(t, ctx, i - 1);
        assert(a[0] == s[0]);
        assert(b[0] == s[0]);
        assert(t[i - 1] == s[i]);
        assert(children_text(a, ctx) == node_text(s[0], ctx) + (children_text(
            t.subrange(0, i - 1),
            ctx,
        ) + node_text(s[i], ctx)));
        assert(node_text(s[0], ctx) + (children_text(t.subrange(0, i - 1), ctx) + node_text(
            s[i],
            ctx,
        )) =~= (node_text(s[0], ctx) + children_text(t.subrange(0, i - 1), ctx)) + node_text(
            s[i],
            ctx,
        ));
    }
}

/// The retained text nodes of a subtree, in document (pre-order,
/// depth-first) order, each kept as its own entry.
pub open spec fn node_texts(n: DomNode, ctx: Option<Seq<char>>) -> Seq<Seq<char>>
    decreases n,
{
    own_texts(n.data, ctx) + children_texts(n.children@, child_context(n.data, ctx))
}

/// The retained text nodes of a forest of siblings, in order.
pub open spec fn children_texts(s: Seq<DomNode>, ctx: Option<Seq<char>>) -> Seq<Seq<char>>
    decreases s,
{
    if s.len() == 0 {
        Seq::empty()
    } else {
        node_texts(s[0], ctx) + children_texts(s.drop_first(), ctx)
    }
}

/// What a node itself retains, as a list: one entry for a visible text
/// node, nothing otherwise.
pub open spec fn own_texts(data: NodeData, ctx: Option<Seq<char>>) -> Seq<Seq<char>> {
    match data {
        NodeData::Text { contents } => match ctx {
            Some(tag) => if is_suppressed(tag) {
                Seq::empty()
            } else {
                seq![contents@]
            },
            None => seq![contents@],
        },
        _ => Seq::empty(),
    }
}

/// Law: the reduced text is exactly the concatenation, in document
/// (pre-order, depth-first) order, of the retained text nodes' contents.
pub proof fn lemma_text_in_document_order(n: DomNode, ctx: Option<Seq<char>>)
    ensures
        node_text(n, ctx) == node_texts(n, ctx).flatten(),
    decreases n,
{
    let cctx = child_context(n.data, ctx);
    lemma_forest_text_in_document_order(n.children@, cctx);
    vstd::seq_lib::lemma_flatten_concat(own_texts(n.data, ctx), children_texts(n.children@, cctx));
    assert(own_texts(n.data, ctx).flatten() == own_text(n.data, ctx)) by {
        let ot = own_texts(n.data, ctx);
        if ot.len() == 0 {
            assert(ot.flatten() =~= Seq::<char>::empty());
            assert(own_text(n.data, ctx) =~= Seq::<char>::empty());
        } else {
            ot.lemma_flatten_singleton();
        }
    }
}

/// Law: the visible text of a forest is the concatenation of its retained
/// text nodes, in order.
pub proof fn lemma_forest_text_in_document_order(s: Seq<DomNode>, ctx: Option<Seq<char>>)
    ensures
        children_text(s, ctx) == children_texts(s, ctx).flatten(),
    decreases s,
{
    if s.len() == 0 {
        assert(children_texts(s, ctx).flatten() =~= Seq::<char>::empty());
    } else {
        lemma_text_in_document_order(s[0], ctx);
        lemma_forest_text_in_document_order(s.drop_first(), ctx);
        vstd::seq_lib::lemma_flatten_concat(
            node_texts(s[0], ctx),
            children_texts(s.drop_first(), ctx),
        );
    }
}

/// A context under which every text node is suppressed.
pub open spec fn suppressed_context(ctx: Option<Seq<char>>) -> bool {
    match ctx {
        Some(tag) => is_suppressed(tag),
        None => false,
    }
}

/// No element node anywhere in the subtree, so a context carried into the
/// subtree reaches every text node in it unchanged.
pub open spec fn element_free(n: DomNode) -> bool
    decreases n,
{
    &&& !(n.data matches NodeData::Element { .. })
    &&& forall|i: int| 0 <= i < n.children@.len() ==> element_free(#[trigger] n.children@[i])
}

/// Under a suppressed context, an element-free subtree contributes no
/// text at all.
pub proof fn lemma_suppressed_subtree_silent(n: DomNode, ctx: Option<Seq<char>>)
    requires
        element_free(n),
        suppressed_context(ctx),
    ensures
        node_text(n, ctx) == Seq::<char>::empty(),
    decreases n,
{
    lemma_suppressed_forest_silent(n.children@, ctx);
    assert(own_text(n.data, ctx) + Seq::<char>::empty() =~= Seq::<char>::empty());
}

/// Under a suppressed context, an element-free forest contributes no text
/// at all.
pub proof fn lemma_suppressed_forest_silent(s: Seq<DomNode>, ctx: Option<Seq<char>>)
    requires
        forall|i: int| 0 <= i < s.len() ==> element_free(#[trigger] s[i]),
        suppressed_context(ctx),
    ensures
        children_text(s, ctx) == Seq::<char>::empty(),
    decreases s,
{
    if s.len() == 0 {
    } else {
        lemma_suppressed_subtree_silent(s[0], ctx);
        lemma_suppressed_forest_silent(s.drop_first(), ctx);
        assert(Seq::<char>::empty() + Seq::<char>::empty() =~= Seq::<char>::empty());
    }
}

/// Law: text nested under a `script` or `style` element never appears in
/// the reduced output. The walk consults only the nearest enclosing
/// element's name, so the law asks that no further element stands between
/// the suppressed element and the text below it — which is how a standard
/// HTML parser always delivers `script` and `style` content.
pub proof fn lemma_suppressed_element_silent(n: DomNode, ctx: Option<Seq<char>>)
    requires
        n.data matches NodeData::Element { name } && is_suppressed(name@),
        forall|i: int| 0 <= i < n.children@.len() ==> element_free(#[trigger] n.children@[i]),
    ensures
        node_text(n, ctx) == Seq::<char>::empty(),
{
    lemma_suppressed_forest_silent(n.children@, child_context(n.data, ctx));
    assert(own_text(n.data, ctx) + Seq::<char>::empty() =~= Seq::<char>::empty());
}

/// Reduces one subtree to its visible text, appending to `content`.
///
/// `tag` is the name of the nearest enclosing element, or `None` at the
/// root. Matches the reduction the specification functions describe:
/// pre-order, depth-first, append-only.
pub fn walk(handle: &DomNode, tag: Option<&str>, content: &mut String)
    requires
        pi_free(*handle),
    ensures
        final(content)@ == old(content)@ + node_text(*handle, tag_view(tag)),
    decreases *handle,
{
    let ghost entry: Seq<char> = content@;
    let child_tag: Option<&str> = match &handle.data {
        NodeData::Document => tag,
        NodeData::Doctype => tag,
        NodeData::Text { contents } => {
            let suppressed: bool = match tag {
                Some(t) => str_eq(t, "script") || str_eq(t, "SCRIPT") || str_eq(t, "style")
                    || str_eq(t, "STYLE"),
                None => false,
            };
            if !suppressed {
                content.append(contents.as_str());
            }
            tag
        },
        NodeData::Comment => tag,
        NodeData::Element { name } => Some(name.as_str()),
        NodeData::ProcessingInstruction => {
            proof {
                assert(false);
            }
            tag
        },
    };
    let ghost cctx = child_context(handle.data, tag_view(tag));
    proof {
        assert(tag_view(child_tag) == cctx);
        assert(content@ == entry + own_text(handle.data, tag_view(tag)));
        assert(handle.children@.subrange(0, 0) =~= Seq::<DomNode>::empty());
        assert(content@ + Seq::<char>::empty() =~= content@);
    }
    let mut i: usize = 0;
    while i < handle.children.len()
        invariant
            pi_free(*handle),
            i <= handle.children@.len(),
            tag_view(child_tag) == cctx,
            content@ == entry + own_text(handle.data, tag_view(tag)) + children_text(
                handle.children@.subrange(0, i as int),
                cctx,
            ),
        decreases handle.children@.len() - i,
    {
        walk(&handle.children[i], child_tag, content);
        proof {
            lemma_children_text_snoc(handle.children@, cctx, i as int);
            assert((entry + own_text(handle.data, tag_view(tag)) + children_text(
                handle.children@.subrange(0, i as int),
                cctx,
            )) + node_text(handle.children@[i as int], cctx) =~= entry + own_text(
                handle.data,
                tag_view(tag),
            ) + children_text(handle.children@.subrange(0, i + 1), cctx));
        }
        i += 1;
    }
    proof {
        assert(handle.children@.subrange(0, handle.children@.len() as int) =~= handle.children@);
        assert(entry + own_text(handle.data, tag_view(tag)) + children_text(handle.children@, cctx)
            =~= entry + node_text(*handle, tag_view(tag)));
    }
}

} // verus!
