//! The token segmenter: turns the morpheme node sequence emitted by the
//! segmentation primitive into one space-joined token stream.
//!
//! Each node carries the primitive's status code, its surface buffer and
//! the reported token length. Beginning-of-sequence and end-of-sequence
//! sentinel nodes contribute nothing; an ordinary node contributes one
//! separator space followed by exactly the first `length` characters of
//! its surface (the surface buffer may run past the token's end).
//!
//! The status codes are the ones mecab's node interface uses for its
//! `MECAB_BOS_NODE` and `MECAB_EOS_NODE` markers.

use vstd::prelude::*;

use crate::strutil::push_char;

verus! {

/// Status code of a beginning-of-sequence sentinel node.
pub const BOS_NODE_STAT: u8 = 2;

/// Status code of an end-of-sequence sentinel node.
pub const EOS_NODE_STAT: u8 = 3;

/// One emitted node of the segmentation primitive, as plain values.
pub struct MorphemeNode {
    pub stat: u8,
    pub surface: String,
    pub length: usize,
}

/// A sentinel marks a sequence boundary and is not real content.
pub open spec fn is_sentinel(n: MorphemeNode) -> bool {
    n.stat == BOS_NODE_STAT || n.stat == EOS_NODE_STAT
}

/// The reported length never runs past the surface buffer.
pub open spec fn wf_node(n: MorphemeNode) -> bool {
    n.length <= n.surface@.len()
}

/// What one node adds to the stream: nothing for a sentinel, one leading
/// space and exactly the first `length` surface characters otherwise.
pub open spec fn node_emission(n: MorphemeNode) -> Seq<char> {
    if is_sentinel(n) {
        Seq::empty()
    } else {
        seq![' '] + n.surface@.subrange(0, n.length as int)
    }
}

/// The token stream for a whole node sequence, in emission order.
pub open spec fn stream_text(s: Seq<MorphemeNode>) -> Seq<char>
    decreases s,
{
    if s.len() == 0 {
        Seq::empty()
    } else {
        node_emission(s[0]) + stream_text(s.drop_first())
    }
}

/// Appending one more node extends the stream on the right.
pub proof fn lemma_stream_text_snoc(s: Seq<MorphemeNode>, i: int)
    requires
        0 <= i < s.len(),
    ensures
        stream_text(s.subrange(0, i + 1)) == stream_text(s.subrange(0, i)) + node_emission(s[i]),
    decreases i,
{
    let a = s.subrange(0, i + 1);
    let b = s.subrange(0, i);
    if i == 0 {
        assert(a.drop_first() =~= Seq::<MorphemeNode>::empty());
        assert(a[0] == s[0]);
        assert(stream_text(a) == node_emission(s[0]) + stream_text(Seq::<MorphemeNode>::empty()));
        assert(node_emission(s[0]) + Seq::<char>::empty() =~= node_emission(s[0]));
        assert(stream_text(b) == Seq::<char>::empty());
        assert(Seq::<char>::empty() + node_emission(s[0]) =~= node_emission(s[0]));
    } else {
        let t = s.drop_first();
        assert(a.drop_first() =~= t.subrange(0, i));
        assert(b.drop_first() =~= t.subrange(0, i - 1));
        lemma_stream_text_snoc(t, i - 1);
        assert(t[i - 1] == s[i]);
        assert(node_emission(s[0]) + (stream_text(t.subrange(0, i - 1)) + node_emission(s[i]))
            =~= (node_emission(s[0]) + stream_text(t.subrange(0, i - 1))) + node_emission(s[i]));
    }
}

/// Law: sentinels are invisible. Inserting a beginning or end marker
/// anywhere in a node sequence leaves the emitted token stream unchanged.
pub proof fn lemma_sentinel_invisible(
    pre: Seq<MorphemeNode>,
    sentinel: MorphemeNode,
    post: Seq<MorphemeNode>,
)
    requires
        is_sentinel(sentinel),
    ensures
        stream_text(pre + seq![sentinel] + post) == stream_text(pre + post),
    decreases pre,
{
    if pre.len() == 0 {
        let w = pre + seq![sentinel] + post;
        assert(w[0] == sentinel);
        assert(w.drop_first() =~= post);
        assert(pre + post =~= post);
        assert(Seq::<char>::empty() + stream_text(post) =~= stream_text(post));
    } else {
        let w = pre + seq![sentinel] + post;
        let v = pre + post;
        assert(w[0] == pre[0]);
        assert(v[0] == pre[0]);
        assert(w.drop_first() =~= pre.drop_first() + seq![sentinel] + post);
        assert(v.drop_first() =~= pre.drop_first() + post);
        lemma_sentinel_invisible(pre.drop_first(), sentinel, post);
    }
}

/// Joins the emitted tokens of a node sequence onto `output`: every
/// non-sentinel node contributes one leading space and exactly its first
/// `length` surface characters, in emission order; sentinels contribute
/// nothing.
pub fn tokenize(nodes: &Vec<MorphemeNode>, output: &mut String)
    requires
        forall|i: int| 0 <= i < nodes@.len() ==> wf_node(#[trigger] nodes@[i]),
    ensures
        final(output)@ == old(output)@ + stream_text(nodes@),
{
    let ghost entry: Seq<char> = output@;
    proof {
        assert(nodes@.subrange(0, 0) =~= Seq::<MorphemeNode>::empty());
        assert(entry + Seq::<char>::empty() =~= entry);
    }
    let mut idx: usize = 0;
    while idx < nodes.len()
        invariant
            forall|i: int| 0 <= i < nodes@.len() ==> wf_node(#[trigger] nodes@[i]),
            idx <= nodes@.len(),
            output@ == entry + stream_text(nodes@.subrange(0, idx as int)),
        decreases nodes@.len() - idx,
    {
        let node = &nodes[idx];
        if node.stat == BOS_NODE_STAT || node.stat == EOS_NODE_STAT {
        } else {
            push_char(output, ' ');
            let tok = node.surface.as_str().substring_char(0, node.length);
            output.append(tok);
            proof {
                assert(output@ =~= (entry + stream_text(nodes@.subrange(0, idx as int)))
                    + node_emission(nodes@[idx as int]));
            }
        }
        proof {
            lemma_stream_text_snoc(nodes@, idx as int);
            assert((entry + stream_text(nodes@.subrange(0, idx as int))) + node_emission(
                nodes@[idx as int],
            ) =~= entry + stream_text(nodes@.subrange(0, idx + 1)));
            assert((entry + stream_text(nodes@.subrange(0, idx as int))) + Seq::<char>::empty()
                =~= entry + stream_text(nodes@.subrange(0, idx as int)));
        }
        idx += 1;
    }
    proof {
        assert(nodes@.subrange(0, nodes@.len() as int) =~= nodes@);
    }
}

} // verus!
