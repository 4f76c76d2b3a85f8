use crate::tokens::{Location, LocationView};
use vstd::prelude::*;

verus! {

/// What one parsed construct is. A node is one of:
/// - a string literal used as an argument,
/// - an identifier used as an argument,
/// - an import directive (`Include`), naming the referenced unit,
/// - a literal print statement (`Print`), carrying the printed text,
/// - a function declaration: return type, name, and a fully parsed body,
/// - a function call: callee name and its argument expressions.
#[derive(Debug, PartialEq)]
pub enum NodeKind {
    String(String),
    Identifier(String),
    Include(String),
    Print(String),
    FuncDecl(String, String, Vec<Box<Node>>),
    FuncCall(String, Vec<Box<NodeKind>>),
}

/// One parsed construct together with the source coordinates it was
/// recognised at.
#[derive(Debug, PartialEq)]
pub struct Node {
    pub kind: NodeKind,
    pub location: Location,
}

/// Mathematical image of a `NodeKind`.
pub ghost enum NodeKindView {
    String(Seq<char>),
    Identifier(Seq<char>),
    Include(Seq<char>),
    Print(Seq<char>),
    FuncDecl(Seq<char>, Seq<char>, Seq<NodeView>),
    FuncCall(Seq<char>, Seq<NodeKindView>),
}

/// Mathematical image of a `Node`.
pub ghost struct NodeView {
    pub kind: NodeKindView,
    pub location: LocationView,
}

/// The image of a node.
pub open spec fn node_view(n: Node) -> NodeView
    decreases n,
{
    NodeView { kind: kind_view(n.kind), location: n.location@ }
}

/// The image of a node kind.
pub open spec fn kind_view(k: NodeKind) -> NodeKindView
    decreases k,
{
    match k {
        NodeKind::String(s) => NodeKindView::String(s@),
        NodeKind::Identifier(s) => NodeKindView::Identifier(s@),
        NodeKind::Include(s) => NodeKindView::Include(s@),
        NodeKind::Print(s) => NodeKindView::Print(s@),
        NodeKind::FuncDecl(t, n, body) => NodeKindView::FuncDecl(t@, n@, boxed_node_views(body@)),
        NodeKind::FuncCall(n, args) => NodeKindView::FuncCall(n@, boxed_kind_views(args@)),
    }
}

/// The images of a sequence of boxed nodes.
pub open spec fn boxed_node_views(s: Seq<Box<Node>>) -> Seq<NodeView>
    decreases s,
{
    if s.len() == 0 {
        Seq::empty()
    } else {
        boxed_node_views(s.subrange(0, s.len() - 1)).push(node_view(*s[s.len() - 1]))
    }
}

/// The images of a sequence of boxed node kinds.
pub open spec fn boxed_kind_views(s: Seq<Box<NodeKind>>) -> Seq<NodeKindView>
    decreases s,
{
    if s.len() == 0 {
        Seq::empty()
    } else {
        boxed_kind_views(s.subrange(0, s.len() - 1)).push(kind_view(*s[s.len() - 1]))
    }
}

impl View for Node {
    type V = NodeView;

    open spec fn view(&self) -> NodeView {
        node_view(*self)
    }
}

/// The images of a sequence of nodes.
pub open spec fn node_views(ns: Seq<Node>) -> Seq<NodeView> {
    ns.map_values(|n: Node| node_view(n))
}

impl NodeKind {
    /// A fresh node kind with the same image (`Clone` cannot be derived for
    /// a recursive type here, so copying is explicit).
    pub fn duplicate(&self) -> (r: Self)
        ensures
            kind_view(r) == kind_view(*self),
        decreases *self,
    {
        match self {
            NodeKind::String(s) => NodeKind::String(s.clone()),
            NodeKind::Identifier(s) => NodeKind::Identifier(s.clone()),
            NodeKind::Include(s) => NodeKind::Include(s.clone()),
            NodeKind::Print(s) => NodeKind::Print(s.clone()),
            NodeKind::FuncDecl(t, n, body) => {
                let mut out: Vec<Box<Node>> = Vec::new();
                let mut idx: usize = 0;
                proof {
                    assert(body@.subrange(0, 0) =~= Seq::<Box<Node>>::empty());
                }
                while idx < body.len()
                    invariant
                        idx <= body@.len(),
                        boxed_node_views(out@) == boxed_node_views(body@.subrange(0, idx as int)),
                        *self == NodeKind::FuncDecl(*t, *n, *body),
                    decreases body@.len() - idx,
                {
                    proof {
                        broadcast use vstd::std_specs::vec::group_vec_axioms;

                        let me = *self;
                        assert(decreases_to!(me => me->FuncDecl_2));
                        assert(me->FuncDecl_2 == *body);
                        assert(decreases_to!(*body => body@));
                        assert(decreases_to!(body@ => body@[idx as int]));
                    }
                    let copy = body[idx].duplicate();
                    proof {
                        lemma_boxed_node_views_push(out@, Box::new(copy));
                        lemma_boxed_node_views_push(
                            body@.subrange(0, idx as int),
                            body@[idx as int],
                        );
                        assert(body@.subrange(0, idx as int).push(body@[idx as int]) =~= body@
                            .subrange(0, idx as int + 1));
                    }
                    out.push(Box::new(copy));
                    idx = idx + 1;
                }
                proof {
                    assert(body@.subrange(0, body@.len() as int) =~= body@);
                }
                NodeKind::FuncDecl(t.clone(), n.clone(), out)
            },
            NodeKind::FuncCall(n, args) => {
                let mut out: Vec<Box<NodeKind>> = Vec::new();
                let mut idx: usize = 0;
                proof {
                    assert(args@.subrange(0, 0) =~= Seq::<Box<NodeKind>>::empty());
                }
                while idx < args.len()
                    invariant
                        idx <= args@.len(),
                        boxed_kind_views(out@) == boxed_kind_views(args@.subrange(0, idx as int)),
                        *self == NodeKind::FuncCall(*n, *args),
                    decreases args@.len() - idx,
                {
                    proof {
                        broadcast use vstd::std_specs::vec::group_vec_axioms;

                        let me = *self;
                        assert(decreases_to!(me => me->FuncCall_1));
                        assert(me->FuncCall_1 == *args);
                        assert(decreases_to!(*args => args@));
                        assert(decreases_to!(args@ => args@[idx as int]));
                    }
                    let copy = args[idx].duplicate();
                    proof {
                        lemma_boxed_kind_views_push(out@, Box::new(copy));
                        lemma_boxed_kind_views_push(
                            args@.subrange(0, idx as int),
                            args@[idx as int],
                        );
                        assert(args@.subrange(0, idx as int).push(args@[idx as int]) =~= args@
                            .subrange(0, idx as int + 1));
                    }
                    out.push(Box::new(copy));
                    idx = idx + 1;
                }
                proof {
                    assert(args@.subrange(0, args@.len() as int) =~= args@);
                }
                NodeKind::FuncCall(n.clone(), out)
            },
        }
    }
}

impl Node {
    /// A fresh node with the same image.
    pub fn duplicate(&self) -> (r: Self)
        ensures
            r@ == node_view(*self),
        decreases *self,
    {
        Node { kind: self.kind.duplicate(), location: self.location.duplicate() }
    }
}

/// Appending to a sequence of boxed nodes appends its image.
pub proof fn lemma_boxed_node_views_push(s: Seq<Box<Node>>, n: Box<Node>)
    ensures
        boxed_node_views(s.push(n)) == boxed_node_views(s).push(node_view(*n)),
{
    assert(s.push(n).subrange(0, s.push(n).len() - 1) =~= s);
}

/// Appending to a sequence of boxed node kinds appends its image.
pub proof fn lemma_boxed_kind_views_push(s: Seq<Box<NodeKind>>, k: Box<NodeKind>)
    ensures
        boxed_kind_views(s.push(k)) == boxed_kind_views(s).push(kind_view(*k)),
{
    assert(s.push(k).subrange(0, s.push(k).len() - 1) =~= s);
}

} // verus!
