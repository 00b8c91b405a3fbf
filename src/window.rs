use vstd::prelude::*;

use crate::node::{
    derefs, forest_size, lemma_forest_size_concat, lemma_queue_step, node_size, prepend,
    push_children, MalformedNode, Node,
};
use crate::text::{before_first, find_str, first_occurrence, has_prefix, starts_with, str_eq};

verus! {

/// A window as found in one snapshot of the layout tree.
pub struct Window {
    pub id: usize,
    pub window_class: String,
    pub window_title: String,
}

/// The mathematical value of a `Window`.
pub struct WindowModel {
    pub id: usize,
    pub class: Seq<char>,
    pub title: Seq<char>,
}

impl View for Window {
    type V = WindowModel;

    open spec fn view(&self) -> WindowModel {
        WindowModel { id: self.id, class: self.window_class@, title: self.window_title@ }
    }
}

pub open spec fn window_models(v: Seq<Window>) -> Seq<WindowModel> {
    v.map_values(|w: Window| w@)
}

/// The label of a terminal window: the session named before the first `:` of
/// the title, after one leading space, unless it is one of the terminal's own
/// `WS` sessions.
pub open spec fn terminal_label(title: Seq<char>) -> Seq<char> {
    let seg = before_first(title, ":"@);
    if has_prefix(seg, " "@) && !has_prefix(seg.subrange(1, seg.len() as int), "WS"@) {
        "\u{f120} "@ + seg.subrange(1, seg.len() as int)
    } else {
        "\u{f120}"@
    }
}

/// The label of an IDE window: the project named before ` [` in the title.
pub open spec fn project_label(title: Seq<char>) -> Seq<char> {
    match first_occurrence(title, " ["@, 0) {
        Some(k) => "\u{f121} "@ + title.subrange(0, k),
        None => "\u{f121}"@,
    }
}

/// The short display label of a window with this class and title.
pub open spec fn window_label(class: Seq<char>, title: Seq<char>) -> Seq<char> {
    if class == "jetbrains-pycharm"@ {
        "pycharm"@
    } else if class == "jetbrains-idea-ce"@ {
        project_label(title)
    } else if class == "Slack"@ {
        "\u{f086}"@
    } else if class == "Alacritty"@ {
        terminal_label(title)
    } else if class == "firefox"@ {
        "\u{e007}"@
    } else if class == "Thunar"@ {
        "\u{f07c}"@
    } else if class == "qBittorrent"@ {
        "\u{f0ed} qB"@
    } else if class == "vlc"@ {
        "\u{f144}"@
    } else if class == "Zathura"@ {
        "\u{f1c1}"@
    } else if class == "Galculator"@ {
        "\u{f1ec}"@
    } else if class == "beekeeper-studio"@ {
        "\u{f1c0} SQL"@
    } else {
        class
    }
}

fn project_name(title: &str) -> (r: String)
    ensures
        r@ == project_label(title@),
{
    match find_str(title, " [") {
        Some(k) => {
            let mut r = String::from_str("\u{f121} ");
            r.append(title.substring_char(0, k));
            r
        },
        None => String::from_str("\u{f121}"),
    }
}

fn session_name(title: &str) -> (r: String)
    ensures
        r@ == terminal_label(title@),
{
    proof {
        reveal_strlit(" ");
    }
    let seg: &str = match find_str(title, ":") {
        Some(k) => title.substring_char(0, k),
        None => title,
    };
    if starts_with(seg, " ") {
        let n = seg.unicode_len();
        let session = seg.substring_char(1, n);
        if !starts_with(session, "WS") {
            let mut r = String::from_str("\u{f120} ");
            r.append(session);
            return r;
        }
    }
    String::from_str("\u{f120}")
}

impl Window {
    /// The label of this window, by its class and, for some classes, its title.
    pub fn get_name(&self) -> (r: String)
        ensures
            r@ == window_label(self.window_class@, self.window_title@),
    {
        let class = self.window_class.as_str();
        let title = self.window_title.as_str();
        if str_eq(class, "jetbrains-pycharm") {
            String::from_str("pycharm")
        } else if str_eq(class, "jetbrains-idea-ce") {
            project_name(title)
        } else if str_eq(class, "Slack") {
            String::from_str("\u{f086}")
        } else if str_eq(class, "Alacritty") {
            session_name(title)
        } else if str_eq(class, "firefox") {
            String::from_str("\u{e007}")
        } else if str_eq(class, "Thunar") {
            String::from_str("\u{f07c}")
        } else if str_eq(class, "qBittorrent") {
            String::from_str("\u{f0ed} qB")
        } else if str_eq(class, "vlc") {
            String::from_str("\u{f144}")
        } else if str_eq(class, "Zathura") {
            String::from_str("\u{f1c1}")
        } else if str_eq(class, "Galculator") {
            String::from_str("\u{f1ec}")
        } else if str_eq(class, "beekeeper-studio") {
            String::from_str("\u{f1c0} SQL")
        } else {
            self.window_class.clone()
        }
    }
}

/// The window that a node with window metadata stands for, if it has both
/// class and title.
pub open spec fn window_of(n: Node) -> Option<WindowModel> {
    match n.window_properties {
        Some(p) => match (p.class, p.title) {
            (Some(c), Some(t)) => Some(WindowModel { id: n.id, class: c@, title: t@ }),
            _ => None,
        },
        None => None,
    }
}

/// The windows found by a breadth-first walk from the queue `q`: a node with
/// window metadata is a window and a leaf; any other node is expanded into
/// its tiled, then its floating children. The error is the id of the first
/// window node without class or title.
pub open spec fn windows_bfs(q: Seq<Node>) -> Result<Seq<WindowModel>, usize>
    decreases forest_size(q),
    via windows_bfs_decreases
{
    if q.len() == 0 {
        Ok(Seq::empty())
    } else {
        let n = q[0];
        let rest = q.subrange(1, q.len() as int);
        if n.window_properties is Some {
            match window_of(n) {
                Some(w) => prepend(seq![w], windows_bfs(rest)),
                None => Err(n.id),
            }
        } else {
            windows_bfs(rest + n.nodes@ + n.floating_nodes@)
        }
    }
}

#[via_fn]
proof fn windows_bfs_decreases(q: Seq<Node>) {
    if q.len() > 0 {
        let n = q[0];
        let rest = q.subrange(1, q.len() as int);
        lemma_forest_size_concat(rest, n.nodes@);
        lemma_forest_size_concat(rest + n.nodes@, n.floating_nodes@);
        assert(forest_size(q) == node_size(n) + forest_size(rest));
    }
}

/// Collects the windows of a subtree.
pub trait NodeWindowExtractor {
    /// The windows of the subtree, in breadth-first order, or the id of the
    /// first malformed window node.
    spec fn window_list(&self) -> Result<Seq<WindowModel>, usize>;

    fn extract_windows(&self) -> (r: Result<Vec<Window>, MalformedNode>)
        ensures
            match r {
                Ok(v) => self.window_list() == Ok::<Seq<WindowModel>, usize>(window_models(v@)),
                Err(e) => self.window_list() == Err::<Seq<WindowModel>, usize>(e.id),
            },
    ;
}

impl NodeWindowExtractor for Node {
    open spec fn window_list(&self) -> Result<Seq<WindowModel>, usize> {
        windows_bfs(seq![*self])
    }

    fn extract_windows(&self) -> (r: Result<Vec<Window>, MalformedNode>) {
        let mut queue: Vec<&Node> = Vec::new();
        queue.push(self);
        let mut head: usize = 0;
        let mut out: Vec<Window> = Vec::new();
        proof {
            assert(derefs(queue@.subrange(0, queue@.len() as int)) =~= seq![*self]);
            assert(window_models(out@) =~= Seq::<WindowModel>::empty());
            match windows_bfs(seq![*self]) {
                Ok(s) => {
                    assert(window_models(out@) + s =~= s);
                },
                Err(_) => {},
            }
        }
        while head < queue.len()
            invariant
                head <= queue@.len(),
                windows_bfs(seq![*self]) == prepend(
                    window_models(out@),
                    windows_bfs(derefs(queue@.subrange(head as int, queue@.len() as int))),
                ),
            decreases forest_size(derefs(queue@.subrange(head as int, queue@.len() as int))),
        {
            let ghost q = derefs(queue@.subrange(head as int, queue@.len() as int));
            let node: &Node = queue[head];
            proof {
                lemma_queue_step(queue@, head as int);
                assert(forest_size(q) == node_size(*node) + forest_size(q.subrange(1, q.len() as int)));
            }
            head = head + 1;
            match &node.window_properties {
                Some(p) => {
                    match (&p.class, &p.title) {
                        (Some(c), Some(t)) => {
                            let w = Window { id: node.id, window_class: c.clone(), window_title: t.clone() };
                            let ghost before = out@;
                            out.push(w);
                            proof {
                                assert(window_models(out@) =~= window_models(before) + seq![w@]);
                                let rest = q.subrange(1, q.len() as int);
                                assert(window_of(*node) == Some(w@));
                                assert(windows_bfs(q) == prepend(seq![w@], windows_bfs(rest)));
                                match windows_bfs(rest) {
                                    Ok(s) => {
                                        assert(window_models(before) + (seq![w@] + s)
                                            =~= window_models(out@) + s);
                                    },
                                    Err(_) => {},
                                }
                            }
                        },
                        _ => {
                            return Err(MalformedNode { id: node.id });
                        },
                    }
                },
                None => {
                    let ghost tail = derefs(queue@.subrange(head as int, queue@.len() as int));
                    let ghost old_queue = queue@;
                    push_children(&mut queue, &node.nodes);
                    push_children(&mut queue, &node.floating_nodes);
                    proof {
                        assert(derefs(queue@) =~= derefs(old_queue) + node.nodes@ + node.floating_nodes@);
                        assert(derefs(queue@.subrange(head as int, queue@.len() as int))
                            =~= derefs(queue@).subrange(head as int, queue@.len() as int));
                        assert(tail =~= derefs(old_queue).subrange(head as int, old_queue.len() as int));
                        assert(derefs(queue@.subrange(head as int, queue@.len() as int)) =~= tail + node.nodes@ + node.floating_nodes@);
                        lemma_forest_size_concat(tail, node.nodes@);
                        lemma_forest_size_concat(tail + node.nodes@, node.floating_nodes@);
                    }
                },
            }
        }
        proof {
            assert(derefs(queue@.subrange(head as int, queue@.len() as int)) =~= Seq::<Node>::empty());
            assert(window_models(out@) + Seq::<WindowModel>::empty() =~= window_models(out@));
        }
        Ok(out)
    }
}

} // verus!
