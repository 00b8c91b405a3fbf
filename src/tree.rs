use vstd::prelude::*;

use crate::node::{
    derefs, forest_size, lemma_forest_size_concat, lemma_queue_step, node_size, prepend,
    push_children, MalformedNode, Node, NodeType,
};
use crate::window::{window_models, windows_bfs, NodeWindowExtractor, Window, WindowModel};

verus! {

/// A workspace as found in one snapshot of the layout tree, with its windows
/// in traversal order.
pub struct Workspace {
    pub num: i32,
    pub name: String,
    pub output: String,
    pub windows: Vec<Window>,
}

/// The mathematical value of a `Workspace`.
pub struct WorkspaceModel {
    pub num: i32,
    pub name: Seq<char>,
    pub output: Seq<char>,
    pub windows: Seq<WindowModel>,
}

impl View for Workspace {
    type V = WorkspaceModel;

    open spec fn view(&self) -> WorkspaceModel {
        WorkspaceModel {
            num: self.num,
            name: self.name@,
            output: self.output@,
            windows: window_models(self.windows@),
        }
    }
}

pub open spec fn workspace_models(v: Seq<Workspace>) -> Seq<WorkspaceModel> {
    v.map_values(|w: Workspace| w@)
}

/// The workspace that a workspace node stands for, or the id of the first
/// node in it that cannot be read.
pub open spec fn workspace_of(n: Node) -> Result<WorkspaceModel, usize> {
    match (n.num, n.name, n.output) {
        (Some(num), Some(name), Some(output)) => match windows_bfs(seq![n]) {
            Ok(ws) => Ok(WorkspaceModel { num, name: name@, output: output@, windows: ws }),
            Err(e) => Err(e),
        },
        _ => Err(n.id),
    }
}

/// The workspaces found by a breadth-first walk from the queue `q`: a
/// workspace node is a leaf; any other node is expanded into its tiled
/// children.
pub open spec fn workspaces_bfs(q: Seq<Node>) -> Result<Seq<WorkspaceModel>, usize>
    decreases forest_size(q),
    via workspaces_bfs_decreases
{
    if q.len() == 0 {
        Ok(Seq::empty())
    } else {
        let n = q[0];
        let rest = q.subrange(1, q.len() as int);
        if n.node_type == NodeType::Workspace {
            match workspace_of(n) {
                Ok(w) => prepend(seq![w], workspaces_bfs(rest)),
                Err(e) => Err(e),
            }
        } else {
            workspaces_bfs(rest + n.nodes@)
        }
    }
}

#[via_fn]
proof fn workspaces_bfs_decreases(q: Seq<Node>) {
    if q.len() > 0 {
        let n = q[0];
        let rest = q.subrange(1, q.len() as int);
        lemma_forest_size_concat(rest, n.nodes@);
        assert(forest_size(q) == node_size(n) + forest_size(rest));
    }
}

/// Reads a workspace node: its number, name, output and windows.
pub fn extract_workspace(node: &Node) -> (r: Result<Workspace, MalformedNode>)
    ensures
        match r {
            Ok(w) => workspace_of(*node) == Ok::<WorkspaceModel, usize>(w@),
            Err(e) => workspace_of(*node) == Err::<WorkspaceModel, usize>(e.id),
        },
{
    match (&node.num, &node.name, &node.output) {
        (Some(num), Some(name), Some(output)) => {
            let windows = node.extract_windows()?;
            Ok(Workspace { num: *num, name: name.clone(), output: output.clone(), windows })
        },
        _ => Err(MalformedNode { id: node.id }),
    }
}

/// Whether a workspace holds a window with this id.
pub open spec fn holds_window(w: WorkspaceModel, window_id: usize) -> bool {
    exists|j: int| 0 <= j < w.windows.len() && w.windows[j].id == window_id
}

/// The flat list of workspaces of one layout tree snapshot.
pub struct Tree {
    pub workspaces: Vec<Workspace>,
}

impl View for Tree {
    type V = Seq<WorkspaceModel>;

    open spec fn view(&self) -> Seq<WorkspaceModel> {
        workspace_models(self.workspaces@)
    }
}

/// The workspaces of the tree rooted at `root`, in breadth-first order.
pub open spec fn tree_workspaces(root: Node) -> Result<Seq<WorkspaceModel>, usize> {
    workspaces_bfs(root.nodes@)
}

impl Tree {
    /// Extracts the workspaces of a snapshot; fails on the first workspace or
    /// window node, in traversal order, that lacks a required attribute.
    pub fn new(root_node: &Node) -> (r: Result<Tree, MalformedNode>)
        ensures
            match r {
                Ok(t) => tree_workspaces(*root_node) == Ok::<Seq<WorkspaceModel>, usize>(t@),
                Err(e) => tree_workspaces(*root_node) == Err::<Seq<WorkspaceModel>, usize>(e.id),
            },
    {
        let workspaces = Self::extract_workspaces(root_node)?;
        Ok(Tree { workspaces })
    }

    fn extract_workspaces(root_node: &Node) -> (r: Result<Vec<Workspace>, MalformedNode>)
        ensures
            match r {
                Ok(v) => tree_workspaces(*root_node) == Ok::<Seq<WorkspaceModel>, usize>(workspace_models(v@)),
                Err(e) => tree_workspaces(*root_node) == Err::<Seq<WorkspaceModel>, usize>(e.id),
            },
    {
        let mut queue: Vec<&Node> = Vec::new();
        push_children(&mut queue, &root_node.nodes);
        let mut head: usize = 0;
        let mut out: Vec<Workspace> = Vec::new();
        proof {
            assert(derefs(queue@).subrange(0, queue@.len() as int) =~= root_node.nodes@);
            assert(derefs(queue@.subrange(0, queue@.len() as int)) =~= root_node.nodes@);
            match tree_workspaces(*root_node) {
                Ok(s) => {
                    assert(workspace_models(out@) + s =~= s);
                },
                Err(_) => {},
            }
        }
        while head < queue.len()
            invariant
                head <= queue@.len(),
                tree_workspaces(*root_node) == prepend(
                    workspace_models(out@),
                    workspaces_bfs(derefs(queue@.subrange(head as int, queue@.len() as int))),
                ),
            decreases forest_size(derefs(queue@.subrange(head as int, queue@.len() as int))),
        {
            let ghost q = derefs(queue@.subrange(head as int, queue@.len() as int));
            let node: &Node = queue[head];
            proof {
                lemma_queue_step(queue@, head as int);
                assert(forest_size(q) == node_size(*node) + forest_size(q.subrange(1, q.len() as int)));
            }
            head = head + 1;
            if node.node_type == NodeType::Workspace {
                let w = extract_workspace(node)?;
                let ghost before = out@;
                out.push(w);
                proof {
                    assert(workspace_models(out@) =~= workspace_models(before) + seq![w@]);
                    let rest = q.subrange(1, q.len() as int);
                    assert(workspaces_bfs(q) == prepend(seq![w@], workspaces_bfs(rest)));
                    match workspaces_bfs(rest) {
                        Ok(s) => {
                            assert(workspace_models(before) + (seq![w@] + s)
                                =~= workspace_models(out@) + s);
                        },
                        Err(_) => {},
                    }
                }
            } else {
                let ghost tail = derefs(queue@.subrange(head as int, queue@.len() as int));
                let ghost old_queue = queue@;
                push_children(&mut queue, &node.nodes);
                proof {
                    assert(derefs(queue@.subrange(head as int, queue@.len() as int))
                        =~= derefs(queue@).subrange(head as int, queue@.len() as int));
                    assert(tail =~= derefs(old_queue).subrange(head as int, old_queue.len() as int));
                    assert(derefs(queue@.subrange(head as int, queue@.len() as int)) =~= tail + node.nodes@);
                    lemma_forest_size_concat(tail, node.nodes@);
                }
            }
        }
        proof {
            assert(derefs(queue@.subrange(head as int, queue@.len() as int)) =~= Seq::<Node>::empty());
            assert(workspace_models(out@) + Seq::<WorkspaceModel>::empty() =~= workspace_models(out@));
        }
        Ok(out)
    }

    /// The first workspace that holds the window `window_id`.
    pub fn find_workspace_for_window(&self, window_id: usize) -> (r: Option<&Workspace>)
        ensures
            r matches Some(w) ==> workspace_for_window(self@, window_id) == Some(w@),
            r is None ==> workspace_for_window(self@, window_id) is None,
    {
        let mut i: usize = 0;
        while i < self.workspaces.len()
            invariant
                i <= self@.len(),
                self@.len() == self.workspaces@.len(),
                first_holder(self@, window_id, 0) == first_holder(self@, window_id, i as int),
            decreases self.workspaces@.len() - i,
        {
            let ws = &self.workspaces[i];
            proof {
                assert(self@[i as int] == self.workspaces@[i as int]@);
            }
            let mut j: usize = 0;
            while j < ws.windows.len()
                invariant
                    j <= ws.windows@.len(),
                    i < self@.len(),
                    first_holder(self@, window_id, 0) == first_holder(self@, window_id, i as int),
                    ws@ == self@[i as int],
                    forall|m: int| 0 <= m < j ==> ws@.windows[m].id != window_id,
                decreases ws.windows@.len() - j,
            {
                if ws.windows[j].id == window_id {
                    proof {
                        assert(ws@.windows[j as int].id == window_id);
                        assert(holds_window(self@[i as int], window_id));
                    }
                    return Some(ws);
                }
                j = j + 1;
            }
            i = i + 1;
        }
        None
    }

    /// The first workspace whose number is `workspace_num`.
    pub fn find_workspace(&self, workspace_num: i32) -> (r: Option<&Workspace>)
        ensures
            r matches Some(w) ==> workspace_numbered(self@, workspace_num) == Some(w@),
            r is None ==> workspace_numbered(self@, workspace_num) is None,
    {
        let mut i: usize = 0;
        while i < self.workspaces.len()
            invariant
                i <= self@.len(),
                self@.len() == self.workspaces@.len(),
                first_numbered(self@, workspace_num, 0) == first_numbered(self@, workspace_num, i as int),
            decreases self.workspaces@.len() - i,
        {
            proof {
                assert(self@[i as int] == self.workspaces@[i as int]@);
            }
            if self.workspaces[i].num == workspace_num {
                return Some(&self.workspaces[i]);
            }
            i = i + 1;
        }
        None
    }
}

/// Extraction is deterministic: two extractions of the same snapshot yield
/// the same workspaces, with the same windows, in the same order.
pub proof fn lemma_extraction_deterministic(root: Node, a: Tree, b: Tree)
    requires
        tree_workspaces(root) == Ok::<Seq<WorkspaceModel>, usize>(a@),
        tree_workspaces(root) == Ok::<Seq<WorkspaceModel>, usize>(b@),
    ensures
        a@ == b@,
{
}

/// The index of the first workspace at or after `i` that holds the window.
pub open spec fn first_holder(t: Seq<WorkspaceModel>, window_id: usize, i: int) -> Option<int>
    decreases t.len() - i,
{
    if i < 0 || i >= t.len() {
        None
    } else if holds_window(t[i], window_id) {
        Some(i)
    } else {
        first_holder(t, window_id, i + 1)
    }
}

/// The first workspace of `t` that holds the window.
pub open spec fn workspace_for_window(t: Seq<WorkspaceModel>, window_id: usize) -> Option<WorkspaceModel> {
    match first_holder(t, window_id, 0) {
        Some(i) => Some(t[i]),
        None => None,
    }
}

/// The index of the first workspace at or after `i` with this number.
pub open spec fn first_numbered(t: Seq<WorkspaceModel>, num: i32, i: int) -> Option<int>
    decreases t.len() - i,
{
    if i < 0 || i >= t.len() {
        None
    } else if t[i].num == num {
        Some(i)
    } else {
        first_numbered(t, num, i + 1)
    }
}

/// The first workspace of `t` with this number.
pub open spec fn workspace_numbered(t: Seq<WorkspaceModel>, num: i32) -> Option<WorkspaceModel> {
    match first_numbered(t, num, 0) {
        Some(i) => Some(t[i]),
        None => None,
    }
}

} // verus!
