use vstd::prelude::*;

use std::collections::HashMap;

use crate::naming::{rename_commands, rename_workspace, texts};
use crate::text::{int_text, push_int};
use crate::tree::{
    extract_workspace, workspace_for_window, workspace_numbered, workspace_of, Tree, Workspace,
    WorkspaceModel,
};
use crate::window::{window_models, NodeWindowExtractor, Window, WindowModel};
use crate::node::Node;

verus! {

broadcast use vstd::std_specs::hash::group_hash_axioms;

/// The number of the scratchpad pseudo-workspace.
pub const SCRATCHPAD_WORKSPACE_NUM: i32 = -1;

/// A physical display, in logical pixels.
pub struct Output {
    pub name: String,
    pub width: i64,
    pub height: i64,
}

/// The daemon's long-lived state: where each window was last seen, the known
/// outputs, and the output each scratchpad window was last sized for.
pub struct I3Daemon {
    pub window_to_workspace_num: HashMap<usize, i32>,
    pub outputs: Vec<Output>,
    pub last_seen_scratchpad_output: HashMap<usize, String>,
}

/// The ids of a list of windows.
pub open spec fn window_ids(windows: Seq<WindowModel>) -> Set<usize> {
    Set::new(|k: usize| exists|j: int| 0 <= j < windows.len() && windows[j].id == k)
}

/// `reg` with every window of `windows` mapped to workspace `num`.
pub open spec fn register(reg: Map<usize, i32>, windows: Seq<WindowModel>, num: i32) -> Map<usize, i32> {
    Map::new(
        |k: usize| reg.dom().contains(k) || window_ids(windows).contains(k),
        |k: usize| if window_ids(windows).contains(k) { num } else { reg[k] },
    )
}

/// `reg` without the windows of `windows`.
pub open spec fn unregister(reg: Map<usize, i32>, windows: Seq<WindowModel>) -> Map<usize, i32> {
    reg.remove_keys(window_ids(windows))
}

proof fn lemma_window_ids_step(windows: Seq<WindowModel>, i: int)
    requires
        0 <= i < windows.len(),
    ensures
        window_ids(windows.subrange(0, i + 1)) =~= window_ids(windows.subrange(0, i)).insert(
            windows[i].id,
        ),
{
    let a = windows.subrange(0, i + 1);
    let b = windows.subrange(0, i);
    assert forall|k: usize| window_ids(a).contains(k) implies window_ids(b).insert(windows[i].id).contains(k) by {
        let j = choose|j: int| 0 <= j < a.len() && a[j].id == k;
        if j < i {
            assert(b[j].id == k);
        }
    }
    assert forall|k: usize| window_ids(b).insert(windows[i].id).contains(k) implies window_ids(a).contains(k) by {
        if k == windows[i].id {
            assert(a[i].id == k);
        } else {
            let j = choose|j: int| 0 <= j < b.len() && b[j].id == k;
            assert(a[j].id == k);
        }
    }
}

/// The kinds of window change the window manager reports.
#[derive(Clone, Copy, Debug, PartialEq, Eq, Structural)]
pub enum WindowChange {
    New,
    Close,
    Focus,
    Title,
    FullscreenMode,
    Move,
    Floating,
    Urgent,
    Mark,
}

/// The kinds of workspace change the window manager reports.
#[derive(Clone, Copy, Debug, PartialEq, Eq, Structural)]
pub enum WorkspaceChange {
    Focus,
    Init,
    Empty,
    Urgent,
    Rename,
    Reload,
    Restored,
    Move,
}

/// Why an event could not be handled. The state is left as it was.
#[derive(Clone, Copy, Debug, PartialEq, Eq, Structural)]
pub enum EventError {
    /// The event's node holds a workspace or window without a required attribute.
    MalformedNode { id: usize },
    /// A window moved that the registry does not know.
    UntrackedWindow { id: usize },
    /// A moved window is on no workspace of the fresh tree.
    WindowNotInTree { id: usize },
    /// A window left the scratchpad with no output given.
    NoOutput { id: usize },
    /// A workspace event came without its workspace.
    NoWorkspace,
}

/// The window changes that may alter a workspace's content or label.
pub open spec fn is_tracked(change: WindowChange) -> bool {
    change == WindowChange::New || change == WindowChange::Move || change == WindowChange::Title
        || change == WindowChange::Close
}

/// Whether a window change is one the daemon acts on.
pub fn is_tracked_change(change: WindowChange) -> (r: bool)
    ensures
        r == is_tracked(change),
{
    match change {
        WindowChange::New | WindowChange::Move | WindowChange::Title | WindowChange::Close => true,
        _ => false,
    }
}

/// The renames that an optional workspace needs.
pub open spec fn renames_of(w: Option<WorkspaceModel>) -> Seq<Seq<char>> {
    match w {
        Some(w) => rename_commands(w),
        None => Seq::empty(),
    }
}

/// The outcome of a window event: the new registry, the new scratchpad
/// memory and the commands to issue, or the error.
pub open spec fn window_step(
    reg: Map<usize, i32>,
    memory: Map<usize, String>,
    outputs: Seq<Output>,
    change: WindowChange,
    windows: Result<Seq<WindowModel>, usize>,
    output: Option<String>,
    tree: Seq<WorkspaceModel>,
) -> Result<(Map<usize, i32>, Map<usize, String>, Seq<Seq<char>>), EventError> {
    if !is_tracked(change) {
        Ok((reg, memory, Seq::empty()))
    } else {
        match windows {
            Err(e) => Err(EventError::MalformedNode { id: e }),
            Ok(ws) => if ws.len() == 0 {
                Ok((reg, memory, Seq::empty()))
            } else {
                let id = ws[0].id;
                let target = workspace_for_window(tree, id);
                if change == WindowChange::New {
                    match target {
                        Some(w) => Ok((register(reg, ws, w.num), memory, rename_commands(w))),
                        None => Ok((reg, memory, Seq::empty())),
                    }
                } else if change == WindowChange::Title {
                    Ok((reg, memory, renames_of(target)))
                } else if change == WindowChange::Close {
                    Ok((unregister(reg, ws), memory, renames_of(target)))
                } else if !reg.contains_key(id) {
                    Err(EventError::UntrackedWindow { id })
                } else {
                    match target {
                        None => Err(EventError::WindowNotInTree { id }),
                        Some(new_ws) => {
                            let old_num = reg[id];
                            let new_reg = register(unregister(reg, ws), ws, new_ws.num);
                            let renames = renames_of(workspace_numbered(tree, old_num))
                                + rename_commands(new_ws);
                            if old_num == SCRATCHPAD_WORKSPACE_NUM {
                                match output {
                                    None => Err(EventError::NoOutput { id }),
                                    Some(cur) => {
                                        let (m, resize) = scratchpad_step(memory, outputs, id, cur);
                                        Ok((new_reg, m, resize + renames))
                                    },
                                }
                            } else {
                                Ok((new_reg, memory, renames))
                            }
                        },
                    }
                }
            },
        }
    }
}

/// The commands a workspace event issues, or the error.
pub open spec fn workspace_step(change: WorkspaceChange, current: Option<Node>) -> Result<Seq<Seq<char>>, EventError> {
    if change != WorkspaceChange::Empty {
        Ok(Seq::empty())
    } else {
        match current {
            None => Err(EventError::NoWorkspace),
            Some(n) => match workspace_of(n) {
                Ok(w) => Ok(rename_commands(w)),
                Err(e) => Err(EventError::MalformedNode { id: e }),
            },
        }
    }
}

/// The registry after the start-up pass over the workspaces `t`, in order.
pub open spec fn bootstrap_registry(reg: Map<usize, i32>, t: Seq<WorkspaceModel>) -> Map<usize, i32>
    decreases t.len(),
{
    if t.len() == 0 {
        reg
    } else {
        register(bootstrap_registry(reg, t.drop_last()), t.last().windows, t.last().num)
    }
}

/// The renames that the start-up pass over the workspaces `t` issues.
pub open spec fn bootstrap_commands(t: Seq<WorkspaceModel>) -> Seq<Seq<char>>
    decreases t.len(),
{
    if t.len() == 0 {
        Seq::empty()
    } else {
        bootstrap_commands(t.drop_last()) + rename_commands(t.last())
    }
}

/// Scratchpad debounce: a second exit onto the same known output issues no
/// resize, and a following exit onto another known output issues a fresh one.
pub proof fn lemma_scratchpad_debounce(
    memory: Map<usize, String>,
    outputs: Seq<Output>,
    window_id: usize,
    first: String,
    second: String,
    third: String,
)
    requires
        second@ == first@,
        third@ != first@,
        first_output_named(outputs, first@, 0) is Some,
        first_output_named(outputs, third@, 0) is Some,
    ensures
        ({
            let (m1, c1) = scratchpad_step(memory, outputs, window_id, first);
            let (m2, c2) = scratchpad_step(m1, outputs, window_id, second);
            let (m3, c3) = scratchpad_step(m2, outputs, window_id, third);
            &&& c2 == Seq::<Seq<char>>::empty()
            &&& c3 == resize_commands(outputs[first_output_named(outputs, third@, 0)->0])
        }),
{
}

/// 95% of a length, rounded toward zero.
pub open spec fn scaled_95(x: int) -> int {
    if x >= 0 {
        x * 95 / 100
    } else {
        -((-x) * 95 / 100)
    }
}

fn scale_95(x: i64) -> (r: i64)
    ensures
        r == scaled_95(x as int),
{
    let w = x as i128;
    if w >= 0 {
        let r = w * 95 / 100;
        assert(r <= w) by (nonlinear_arith)
            requires w >= 0, r == w * 95 / 100;
        r as i64
    } else {
        let m = -w;
        let r = m * 95 / 100;
        assert(r <= m) by (nonlinear_arith)
            requires m >= 0, r == m * 95 / 100;
        (-r) as i64
    }
}

/// The commands that size a scratchpad window for `o` and center it.
pub open spec fn resize_commands(o: Output) -> Seq<Seq<char>> {
    seq![
        "border pixel 10"@,
        "resize set width "@ + int_text(scaled_95(o.width as int)) + " px"@,
        "resize set height "@ + int_text(scaled_95(o.height as int)) + " px"@,
        "move position center"@,
    ]
}

/// The index of the first output at or after `i` with this name.
pub open spec fn first_output_named(outputs: Seq<Output>, name: Seq<char>, i: int) -> Option<int>
    decreases outputs.len() - i,
{
    if i < 0 || i >= outputs.len() {
        None
    } else if outputs[i].name@ == name {
        Some(i)
    } else {
        first_output_named(outputs, name, i + 1)
    }
}

/// What a window leaving the scratchpad onto output `current` does to the
/// memory of outputs and which commands it issues. The first sighting only
/// records the output; a sighting on the remembered output does nothing; one
/// on another known output resizes the window and remembers the new output.
pub open spec fn scratchpad_step(
    memory: Map<usize, String>,
    outputs: Seq<Output>,
    window_id: usize,
    current: String,
) -> (Map<usize, String>, Seq<Seq<char>>) {
    if !memory.contains_key(window_id) {
        (memory.insert(window_id, current), Seq::empty())
    } else if memory[window_id]@ == current@ {
        (memory, Seq::empty())
    } else {
        match first_output_named(outputs, current@, 0) {
            Some(i) => (memory.insert(window_id, current), resize_commands(outputs[i])),
            None => (memory, Seq::empty()),
        }
    }
}

fn push_resize(commands: &mut Vec<String>, output: &Output)
    ensures
        texts(final(commands)@) == texts(old(commands)@) + resize_commands(*output),
{
    let c1 = String::from_str("border pixel 10");
    let mut c2 = String::from_str("resize set width ");
    push_int(&mut c2, scale_95(output.width));
    c2.append(" px");
    let mut c3 = String::from_str("resize set height ");
    push_int(&mut c3, scale_95(output.height));
    c3.append(" px");
    let c4 = String::from_str("move position center");
    let ghost before = commands@;
    commands.push(c1);
    commands.push(c2);
    commands.push(c3);
    commands.push(c4);
    proof {
        assert(texts(commands@) =~= texts(before) + resize_commands(*output));
    }
}

impl I3Daemon {
    /// A daemon with empty registries and no known outputs.
    pub fn new() -> (r: Self)
        ensures
            r.window_to_workspace_num@ == Map::<usize, i32>::empty(),
            r.outputs@.len() == 0,
            r.last_seen_scratchpad_output@ == Map::<usize, String>::empty(),
    {
        I3Daemon {
            window_to_workspace_num: HashMap::new(),
            outputs: Vec::new(),
            last_seen_scratchpad_output: HashMap::new(),
        }
    }

    /// Replaces the known outputs wholesale.
    pub fn update_outputs(&mut self, outputs: Vec<Output>)
        ensures
            final(self).outputs@ == outputs@,
            final(self).window_to_workspace_num == old(self).window_to_workspace_num,
            final(self).last_seen_scratchpad_output == old(self).last_seen_scratchpad_output,
    {
        self.outputs = outputs;
    }

    /// Handles one window event against a fresh tree `tree`; `container` is
    /// the event's node.
    pub fn handle_window_event(&mut self, change: WindowChange, container: &Node, tree: &Tree) -> (r:
        Result<Vec<String>, EventError>)
        ensures
            match window_step(
                old(self).window_to_workspace_num@,
                old(self).last_seen_scratchpad_output@,
                old(self).outputs@,
                change,
                container.window_list(),
                container.output,
                tree@,
            ) {
                Ok((reg, memory, cmds)) => match r {
                    Ok(v) => texts(v@) == cmds && final(self).window_to_workspace_num@ == reg
                        && final(self).last_seen_scratchpad_output@ == memory,
                    Err(_) => false,
                },
                Err(e) => r == Err::<Vec<String>, EventError>(e)
                    && final(self).window_to_workspace_num@ == old(self).window_to_workspace_num@
                    && final(self).last_seen_scratchpad_output@ == old(self).last_seen_scratchpad_output@,
            },
            final(self).outputs == old(self).outputs,
    {
        let mut commands: Vec<String> = Vec::new();
        proof {
            assert(texts(commands@) =~= Seq::<Seq<char>>::empty());
        }
        if !is_tracked_change(change) {
            return Ok(commands);
        }
        let windows = match container.extract_windows() {
            Ok(w) => w,
            Err(e) => {
                return Err(EventError::MalformedNode { id: e.id });
            },
        };
        if windows.len() == 0 {
            return Ok(commands);
        }
        let id = windows[0].id;
        proof {
            assert(window_models(windows@)[0].id == id);
        }
        match change {
            WindowChange::New => {
                if let Some(ws) = tree.find_workspace_for_window(id) {
                    self.register_windows_to_workspace(&windows, ws);
                    rename_workspace(&mut commands, ws);
                }
            },
            WindowChange::Title => {
                if let Some(ws) = tree.find_workspace_for_window(id) {
                    rename_workspace(&mut commands, ws);
                }
            },
            WindowChange::Close => {
                self.unregister_windows(&windows);
                if let Some(ws) = tree.find_workspace_for_window(id) {
                    rename_workspace(&mut commands, ws);
                }
            },
            _ => {
                let old_num: i32 = match self.window_to_workspace_num.get(&id) {
                    Some(n) => *n,
                    None => {
                        return Err(EventError::UntrackedWindow { id });
                    },
                };
                let new_ws = match tree.find_workspace_for_window(id) {
                    Some(w) => w,
                    None => {
                        return Err(EventError::WindowNotInTree { id });
                    },
                };
                if old_num == SCRATCHPAD_WORKSPACE_NUM {
                    match &container.output {
                        Some(current) => {
                            self.handle_scratchpad_window(&mut commands, id, current);
                        },
                        None => {
                            return Err(EventError::NoOutput { id });
                        },
                    }
                }
                let ghost before_renames = texts(commands@);
                if let Some(old_ws) = tree.find_workspace(old_num) {
                    rename_workspace(&mut commands, old_ws);
                }
                rename_workspace(&mut commands, new_ws);
                proof {
                    assert(texts(commands@) =~= before_renames + (renames_of(workspace_numbered(tree@, old_num))
                        + rename_commands(new_ws@)));
                }
                self.unregister_windows(&windows);
                self.register_windows_to_workspace(&windows, new_ws);
            },
        }
        Ok(commands)
    }

    /// Handles one workspace event; `current` is the event's workspace node.
    pub fn handle_workspace_event(&self, change: WorkspaceChange, current: &Option<Node>) -> (r: Result<
        Vec<String>,
        EventError,
    >)
        ensures
            match workspace_step(change, *current) {
                Ok(cmds) => match r {
                    Ok(v) => texts(v@) == cmds,
                    Err(_) => false,
                },
                Err(e) => r == Err::<Vec<String>, EventError>(e),
            },
    {
        let mut commands: Vec<String> = Vec::new();
        proof {
            assert(texts(commands@) =~= Seq::<Seq<char>>::empty());
        }
        match change {
            WorkspaceChange::Empty => {
                let node = match current {
                    Some(n) => n,
                    None => {
                        return Err(EventError::NoWorkspace);
                    },
                };
                let workspace = match extract_workspace(node) {
                    Ok(w) => w,
                    Err(e) => {
                        return Err(EventError::MalformedNode { id: e.id });
                    },
                };
                rename_workspace(&mut commands, &workspace);
                proof {
                    assert(texts(commands@) =~= rename_commands(workspace@));
                }
                Ok(commands)
            },
            _ => Ok(commands),
        }
    }

    /// The start-up pass: registers the windows of every workspace of `tree`
    /// and renames each workspace that needs it.
    pub fn init_state(&mut self, tree: &Tree) -> (r: Vec<String>)
        ensures
            final(self).window_to_workspace_num@ == bootstrap_registry(
                old(self).window_to_workspace_num@,
                tree@,
            ),
            texts(r@) == bootstrap_commands(tree@),
            final(self).outputs == old(self).outputs,
            final(self).last_seen_scratchpad_output == old(self).last_seen_scratchpad_output,
    {
        let mut commands: Vec<String> = Vec::new();
        let mut i: usize = 0;
        proof {
            assert(tree@.subrange(0, 0) =~= Seq::<WorkspaceModel>::empty());
            assert(texts(commands@) =~= Seq::<Seq<char>>::empty());
        }
        while i < tree.workspaces.len()
            invariant
                i <= tree@.len(),
                tree@.len() == tree.workspaces@.len(),
                self.window_to_workspace_num@ == bootstrap_registry(
                    old(self).window_to_workspace_num@,
                    tree@.subrange(0, i as int),
                ),
                texts(commands@) == bootstrap_commands(tree@.subrange(0, i as int)),
                self.outputs == old(self).outputs,
                self.last_seen_scratchpad_output == old(self).last_seen_scratchpad_output,
            decreases tree.workspaces@.len() - i,
        {
            let workspace = &tree.workspaces[i];
            self.register_windows_to_workspace(&workspace.windows, workspace);
            rename_workspace(&mut commands, workspace);
            proof {
                let p = tree@.subrange(0, i + 1);
                assert(p.drop_last() =~= tree@.subrange(0, i as int));
                assert(p.last() == workspace@);
            }
            i = i + 1;
        }
        proof {
            assert(tree@.subrange(0, i as int) =~= tree@);
        }
        commands
    }

    /// Handles a window leaving the scratchpad onto output `current`.
    pub fn handle_scratchpad_window(&mut self, commands: &mut Vec<String>, window_id: usize, current: &String)
        ensures
            (final(self).last_seen_scratchpad_output@, texts(final(commands)@)) == ({
                let (m, c) = scratchpad_step(
                    old(self).last_seen_scratchpad_output@,
                    old(self).outputs@,
                    window_id,
                    *current,
                );
                (m, texts(old(commands)@) + c)
            }),
            final(self).window_to_workspace_num == old(self).window_to_workspace_num,
            final(self).outputs == old(self).outputs,
    {
        let last = self.last_seen_scratchpad_output.get(&window_id);
        match last {
            None => {
                self.last_seen_scratchpad_output.insert(window_id, current.clone());
                proof {
                    assert(texts(commands@) =~= texts(old(commands)@) + Seq::<Seq<char>>::empty());
                }
            },
            Some(last) => {
                if *last == *current {
                    proof {
                        assert(texts(commands@) =~= texts(old(commands)@) + Seq::<Seq<char>>::empty());
                    }
                    return;
                }
                let mut i: usize = 0;
                while i < self.outputs.len()
                    invariant
                        i <= self.outputs@.len(),
                        self == old(self),
                        commands == old(commands),
                        self.last_seen_scratchpad_output@.contains_key(window_id),
                        self.last_seen_scratchpad_output@[window_id]@ != current@,
                        first_output_named(self.outputs@, current@, 0)
                            == first_output_named(self.outputs@, current@, i as int),
                    decreases self.outputs@.len() - i,
                {
                    if self.outputs[i].name == *current {
                        proof {
                            assert(first_output_named(self.outputs@, current@, i as int) == Some(i as int));
                        }
                        push_resize(commands, &self.outputs[i]);
                        self.last_seen_scratchpad_output.insert(window_id, current.clone());
                        return;
                    }
                    i = i + 1;
                }
                proof {
                    assert(texts(commands@) =~= texts(old(commands)@) + Seq::<Seq<char>>::empty());
                }
            },
        }
    }

    /// Records every window of `windows` as being on `workspace`.
    pub fn register_windows_to_workspace(&mut self, windows: &Vec<Window>, workspace: &Workspace)
        ensures
            final(self).window_to_workspace_num@ == register(
                old(self).window_to_workspace_num@,
                window_models(windows@),
                workspace.num,
            ),
            final(self).outputs == old(self).outputs,
            final(self).last_seen_scratchpad_output == old(self).last_seen_scratchpad_output,
    {
        let ghost models = window_models(windows@);
        let mut i: usize = 0;
        proof {
            assert(window_ids(models.subrange(0, 0)) =~= Set::<usize>::empty());
            assert(self.window_to_workspace_num@ =~= register(old(self).window_to_workspace_num@, models.subrange(0, 0), workspace.num));
        }
        while i < windows.len()
            invariant
                i <= windows@.len(),
                models == window_models(windows@),
                self.window_to_workspace_num@ == register(
                    old(self).window_to_workspace_num@,
                    models.subrange(0, i as int),
                    workspace.num,
                ),
                self.outputs == old(self).outputs,
                self.last_seen_scratchpad_output == old(self).last_seen_scratchpad_output,
            decreases windows@.len() - i,
        {
            let ghost before = self.window_to_workspace_num@;
            self.window_to_workspace_num.insert(windows[i].id, workspace.num);
            proof {
                lemma_window_ids_step(models, i as int);
                assert(models[i as int].id == windows@[i as int].id);
                assert(self.window_to_workspace_num@ =~= register(
                    old(self).window_to_workspace_num@,
                    models.subrange(0, i + 1),
                    workspace.num,
                ));
            }
            i = i + 1;
        }
        proof {
            assert(models.subrange(0, i as int) =~= models);
        }
    }

    /// Forgets every window of `windows`.
    pub fn unregister_windows(&mut self, windows: &Vec<Window>)
        ensures
            final(self).window_to_workspace_num@ == unregister(
                old(self).window_to_workspace_num@,
                window_models(windows@),
            ),
            final(self).outputs == old(self).outputs,
            final(self).last_seen_scratchpad_output == old(self).last_seen_scratchpad_output,
    {
        let ghost models = window_models(windows@);
        let mut i: usize = 0;
        proof {
            assert(window_ids(models.subrange(0, 0)) =~= Set::<usize>::empty());
            assert(self.window_to_workspace_num@ =~= unregister(old(self).window_to_workspace_num@, models.subrange(0, 0)));
        }
        while i < windows.len()
            invariant
                i <= windows@.len(),
                models == window_models(windows@),
                self.window_to_workspace_num@ == unregister(
                    old(self).window_to_workspace_num@,
                    models.subrange(0, i as int),
                ),
                self.outputs == old(self).outputs,
                self.last_seen_scratchpad_output == old(self).last_seen_scratchpad_output,
            decreases windows@.len() - i,
        {
            let id = windows[i].id;
            self.window_to_workspace_num.remove(&id);
            proof {
                lemma_window_ids_step(models, i as int);
                assert(models[i as int].id == windows@[i as int].id);
                assert(self.window_to_workspace_num@ =~= unregister(
                    old(self).window_to_workspace_num@,
                    models.subrange(0, i + 1),
                ));
            }
            i = i + 1;
        }
        proof {
            assert(models.subrange(0, i as int) =~= models);
        }
    }
}

} // verus!
