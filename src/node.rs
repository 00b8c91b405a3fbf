use vstd::prelude::*;

verus! {

/// The kind of a node in the window manager's layout tree.
#[derive(Clone, Copy, Debug, PartialEq, Eq, Structural)]
pub enum NodeType {
    Root,
    Output,
    Con,
    FloatingCon,
    Workspace,
    Dockarea,
}

/// The metadata that the window manager attaches to a node that holds a window.
pub struct WindowProperties {
    pub title: Option<String>,
    pub class: Option<String>,
}

/// One node of a layout tree snapshot, with its tiled and floating children
/// in the order the window manager reports them.
pub struct Node {
    pub id: usize,
    pub name: Option<String>,
    pub num: Option<i32>,
    pub node_type: NodeType,
    pub output: Option<String>,
    pub window_properties: Option<WindowProperties>,
    pub nodes: Vec<Node>,
    pub floating_nodes: Vec<Node>,
}

/// The number of nodes in the subtree rooted at `n`.
pub open spec fn node_size(n: Node) -> nat
    decreases n,
{
    1 + forest_size(n.nodes@) + forest_size(n.floating_nodes@)
}

/// The number of nodes in all the subtrees of `f`.
pub open spec fn forest_size(f: Seq<Node>) -> nat
    decreases f,
{
    if f.len() == 0 {
        0
    } else {
        node_size(f[0]) + forest_size(f.subrange(1, f.len() as int))
    }
}

pub(crate) proof fn lemma_forest_size_concat(a: Seq<Node>, b: Seq<Node>)
    ensures
        forest_size(a + b) == forest_size(a) + forest_size(b),
    decreases a.len(),
{
    if a.len() == 0 {
        assert(a + b =~= b);
    } else {
        let ab = a + b;
        assert(ab[0] == a[0]);
        assert(ab.subrange(1, ab.len() as int) =~= a.subrange(1, a.len() as int) + b);
        lemma_forest_size_concat(a.subrange(1, a.len() as int), b);
    }
}

/// The nodes that a reference queue points at.
pub open spec fn derefs(q: Seq<&Node>) -> Seq<Node> {
    q.map_values(|r: &Node| *r)
}

/// The error of an extraction that met a node it cannot read: a workspace
/// without its number, name or output, or a window without class or title.
#[derive(Clone, Copy, Debug, PartialEq, Eq, Structural)]
pub struct MalformedNode {
    pub id: usize,
}

/// `acc` followed by what a traversal of the rest yields, or the rest's error.
pub open spec fn prepend<T>(acc: Seq<T>, r: Result<Seq<T>, usize>) -> Result<Seq<T>, usize> {
    match r {
        Ok(s) => Ok(acc + s),
        Err(e) => Err(e),
    }
}

/// Appends references to `children` to `queue`.
pub(crate) fn push_children<'a>(queue: &mut Vec<&'a Node>, children: &'a Vec<Node>)
    ensures
        derefs(final(queue)@) == derefs(old(queue)@) + children@,
        final(queue)@.len() == old(queue)@.len() + children@.len(),
{
    let mut i: usize = 0;
    while i < children.len()
        invariant
            i <= children@.len(),
            derefs(queue@) == derefs(old(queue)@) + children@.subrange(0, i as int),
            queue@.len() == old(queue)@.len() + i,
        decreases children@.len() - i,
    {
        let ghost prev = queue@;
        let c: &Node = &children[i];
        queue.push(c);
        proof {
            assert(*c == children@[i as int]);
            assert(queue@ == prev.push(c));
            assert(derefs(queue@) =~= derefs(prev).push(children@[i as int]));
            assert(children@.subrange(0, i + 1) =~= children@.subrange(0, i as int).push(children@[i as int]));
            assert(derefs(queue@) =~= derefs(old(queue)@) + children@.subrange(0, i + 1));
        }
        i = i + 1;
    }
    proof {
        assert(children@.subrange(0, i as int) =~= children@);
    }
}

/// Splitting off the head of a non-empty queue.
pub(crate) proof fn lemma_queue_step(q: Seq<&Node>, head: int)
    requires
        0 <= head < q.len(),
    ensures
        derefs(q.subrange(head, q.len() as int))[0] == *q[head],
        derefs(q.subrange(head, q.len() as int)).subrange(1, q.len() - head)
            =~= derefs(q.subrange(head + 1, q.len() as int)),
        derefs(q.subrange(head, q.len() as int)).len() == q.len() - head,
{
}

} // verus!
