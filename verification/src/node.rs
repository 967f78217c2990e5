//! The generic document tree: mapping, sequence and scalar nodes produced by
//! the loader before any schema knowledge, together with its ghost mirror and
//! a verified renderer used by diagnostic messages.

use vstd::prelude::*;
use vstd::string::StringExecFns;

use crate::text::{dec_str, i64_dec, int_str, usize_dec};

verus! {

/// One node of the document tree.
pub enum Node {
    /// A text scalar.
    Str(String),
    /// A boolean scalar.
    Bool(bool),
    /// An integer scalar.
    Int(i64),
    /// A floating-point scalar, kept as its source text.
    Real(String),
    /// An ordered list of nodes.
    Sequence(Vec<Node>),
    /// An ordered list of key/value pairs with distinct keys.
    Mapping(Vec<(Node, Node)>),
    /// A reference to an anchored node that the loader did not resolve.
    Alias(usize),
    /// An explicit null scalar.
    Null,
    /// A placeholder for a value the loader could not make sense of.
    Bad,
}

/// The ghost mirror of [`Node`]: the same tree over mathematical values.
pub enum NodeView {
    Str(Seq<char>),
    Bool(bool),
    Int(int),
    Real(Seq<char>),
    Sequence(Seq<NodeView>),
    Mapping(Seq<(NodeView, NodeView)>),
    Alias(nat),
    Null,
    Bad,
}

/// The ghost mirror of a tree node.
pub open spec fn node_view(n: Node) -> NodeView
    decreases n,
{
    match n {
        Node::Str(s) => NodeView::Str(s@),
        Node::Bool(b) => NodeView::Bool(b),
        Node::Int(i) => NodeView::Int(i as int),
        Node::Real(s) => NodeView::Real(s@),
        Node::Sequence(v) => NodeView::Sequence(seq_views(v@)),
        Node::Mapping(v) => NodeView::Mapping(pair_views(v@)),
        Node::Alias(a) => NodeView::Alias(a as nat),
        Node::Null => NodeView::Null,
        Node::Bad => NodeView::Bad,
    }
}

/// The ghost mirrors of a sequence of nodes.
pub open spec fn seq_views(s: Seq<Node>) -> Seq<NodeView>
    decreases s,
{
    if s.len() == 0 {
        Seq::empty()
    } else {
        seq![node_view(s[0])] + seq_views(s.subrange(1, s.len() as int))
    }
}

/// The ghost mirrors of a sequence of key/value pairs.
pub open spec fn pair_views(s: Seq<(Node, Node)>) -> Seq<(NodeView, NodeView)>
    decreases s,
{
    if s.len() == 0 {
        Seq::empty()
    } else {
        seq![(node_view(s[0].0), node_view(s[0].1))] + pair_views(
            s.subrange(1, s.len() as int),
        )
    }
}

pub proof fn lemma_seq_views(s: Seq<Node>)
    ensures
        seq_views(s).len() == s.len(),
        forall|i: int| 0 <= i < s.len() ==> #[trigger] seq_views(s)[i] == node_view(s[i]),
    decreases s.len(),
{
    if s.len() > 0 {
        lemma_seq_views(s.subrange(1, s.len() as int));
    }
}

pub proof fn lemma_pair_views(s: Seq<(Node, Node)>)
    ensures
        pair_views(s).len() == s.len(),
        forall|i: int|
            0 <= i < s.len() ==> #[trigger] pair_views(s)[i] == (
                node_view(s[i].0),
                node_view(s[i].1),
            ),
    decreases s.len(),
{
    if s.len() > 0 {
        lemma_pair_views(s.subrange(1, s.len() as int));
    }
}

/// A sequence of characters surrounded by double quotes.
pub open spec fn quoted(s: Seq<char>) -> Seq<char> {
    seq!['"'] + s + seq!['"']
}

/// How a node is written inside a diagnostic message.
pub open spec fn describe_view(v: NodeView) -> Seq<char>
    decreases v,
{
    match v {
        NodeView::Str(s) => "String("@ + quoted(s) + ")"@,
        NodeView::Bool(b) => if b {
            "Boolean(true)"@
        } else {
            "Boolean(false)"@
        },
        NodeView::Int(i) => "Integer("@ + int_str(i) + ")"@,
        NodeView::Real(s) => "Real("@ + quoted(s) + ")"@,
        NodeView::Sequence(items) => "Array(["@ + describe_items(items) + "])"@,
        NodeView::Mapping(entries) => "Hash({"@ + describe_entries(entries) + "})"@,
        NodeView::Alias(a) => "Alias("@ + dec_str(a) + ")"@,
        NodeView::Null => "Null"@,
        NodeView::Bad => "BadValue"@,
    }
}

/// The items of a sequence node, comma-separated.
pub open spec fn describe_items(items: Seq<NodeView>) -> Seq<char>
    decreases items,
{
    if items.len() == 0 {
        Seq::empty()
    } else if items.len() == 1 {
        describe_view(items[0])
    } else {
        describe_view(items[0]) + ", "@ + describe_items(items.subrange(1, items.len() as int))
    }
}

/// The entries of a mapping node, comma-separated, each `key: value`.
pub open spec fn describe_entries(entries: Seq<(NodeView, NodeView)>) -> Seq<char>
    decreases entries,
{
    if entries.len() == 0 {
        Seq::empty()
    } else if entries.len() == 1 {
        describe_view(entries[0].0) + ": "@ + describe_view(entries[0].1)
    } else {
        describe_view(entries[0].0) + ": "@ + describe_view(entries[0].1) + ", "@
            + describe_entries(entries.subrange(1, entries.len() as int))
    }
}

/// Renders a node as it is written inside a diagnostic message.
pub fn describe(n: &Node) -> (r: String)
    ensures
        r@ == describe_view(node_view(*n)),
    decreases *n, 0int,
{
    match n {
        Node::Str(s) => {
            let mut out = "String(\"".to_owned();
            out.append(s.as_str());
            out.append("\")");
            proof {
                reveal_strlit("String(\"");
                reveal_strlit("\")");
                reveal_strlit("String(");
                reveal_strlit(")");
                assert(out@ =~= describe_view(node_view(*n)));
            }
            out
        },
        Node::Bool(b) => {
            if *b {
                "Boolean(true)".to_owned()
            } else {
                "Boolean(false)".to_owned()
            }
        },
        Node::Int(i) => {
            let mut out = "Integer(".to_owned();
            let num = i64_dec(*i);
            out.append(num.as_str());
            out.append(")");
            proof {
                reveal_strlit("Integer(");
                reveal_strlit(")");
                assert(out@ =~= describe_view(node_view(*n)));
            }
            out
        },
        Node::Real(s) => {
            let mut out = "Real(\"".to_owned();
            out.append(s.as_str());
            out.append("\")");
            proof {
                reveal_strlit("Real(\"");
                reveal_strlit("\")");
                reveal_strlit("Real(");
                reveal_strlit(")");
                assert(out@ =~= describe_view(node_view(*n)));
            }
            out
        },
        Node::Sequence(v) => {
            let mut out = "Array([".to_owned();
            let items = describe_items_exec(v, 0);
            out.append(items.as_str());
            out.append("])");
            proof {
                reveal_strlit("Array([");
                reveal_strlit("])");
                assert(seq_views(v@).subrange(0, seq_views(v@).len() as int) =~= seq_views(v@));
                assert(out@ =~= describe_view(node_view(*n)));
            }
            out
        },
        Node::Mapping(v) => {
            let mut out = "Hash({".to_owned();
            let entries = describe_entries_exec(v, 0);
            out.append(entries.as_str());
            out.append("})");
            proof {
                reveal_strlit("Hash({");
                reveal_strlit("})");
                assert(pair_views(v@).subrange(0, pair_views(v@).len() as int) =~= pair_views(v@));
                assert(out@ =~= describe_view(node_view(*n)));
            }
            out
        },
        Node::Alias(a) => {
            let mut out = "Alias(".to_owned();
            let num = usize_dec(*a);
            out.append(num.as_str());
            out.append(")");
            proof {
                reveal_strlit("Alias(");
                reveal_strlit(")");
                assert(out@ =~= describe_view(node_view(*n)));
            }
            out
        },
        Node::Null => "Null".to_owned(),
        Node::Bad => "BadValue".to_owned(),
    }
}

fn describe_items_exec(v: &Vec<Node>, i: usize) -> (r: String)
    requires
        i <= v@.len(),
    ensures
        r@ == describe_items(seq_views(v@).subrange(i as int, seq_views(v@).len() as int)),
    decreases *v, v@.len() - i + 1,
{
    proof {
        lemma_seq_views(v@);
    }
    let ghost tail = seq_views(v@).subrange(i as int, seq_views(v@).len() as int);
    if i == v.len() {
        proof {
            reveal_strlit("");
            assert(""@ =~= describe_items(tail));
        }
        "".to_owned()
    } else {
        let mut out = describe(&v[i]);
        if i + 1 < v.len() {
            out.append(", ");
            let rest = describe_items_exec(v, i + 1);
            out.append(rest.as_str());
            proof {
                reveal_strlit(", ");
                assert(tail.subrange(1, tail.len() as int) =~= seq_views(v@).subrange(
                    i + 1,
                    seq_views(v@).len() as int,
                ));
                assert(out@ =~= describe_items(tail));
            }
        } else {
            proof {
                assert(tail.len() == 1);
                assert(out@ =~= describe_items(tail));
            }
        }
        out
    }
}

fn describe_entries_exec(v: &Vec<(Node, Node)>, i: usize) -> (r: String)
    requires
        i <= v@.len(),
    ensures
        r@ == describe_entries(pair_views(v@).subrange(i as int, pair_views(v@).len() as int)),
    decreases *v, v@.len() - i + 1,
{
    proof {
        lemma_pair_views(v@);
    }
    let ghost tail = pair_views(v@).subrange(i as int, pair_views(v@).len() as int);
    if i == v.len() {
        proof {
            reveal_strlit("");
            assert(""@ =~= describe_entries(tail));
        }
        "".to_owned()
    } else {
        let mut out = describe(&v[i].0);
        out.append(": ");
        let value = describe(&v[i].1);
        out.append(value.as_str());
        if i + 1 < v.len() {
            out.append(", ");
            let rest = describe_entries_exec(v, i + 1);
            out.append(rest.as_str());
            proof {
                reveal_strlit(": ");
                reveal_strlit(", ");
                assert(tail.subrange(1, tail.len() as int) =~= pair_views(v@).subrange(
                    i + 1,
                    pair_views(v@).len() as int,
                ));
                assert(out@ =~= describe_entries(tail));
            }
        } else {
            proof {
                reveal_strlit(": ");
                assert(tail.len() == 1);
                assert(out@ =~= describe_entries(tail));
            }
        }
        out
    }
}

} // verus!
