use vstd::prelude::*;

use crate::text::{int_text, push_int};
use crate::tree::{Workspace, WorkspaceModel};
use crate::window::window_label;

verus! {

/// The name a workspace should carry: its number, followed by the label of
/// its first window when it has one.
pub open spec fn expected_name(w: WorkspaceModel) -> Seq<char> {
    if w.windows.len() == 0 {
        int_text(w.num as int)
    } else {
        int_text(w.num as int) + ": "@ + window_label(w.windows[0].class, w.windows[0].title)
    }
}

/// The text of the command that renames workspace `from` to `to`.
pub open spec fn rename_text(from: Seq<char>, to: Seq<char>) -> Seq<char> {
    "rename workspace \""@ + from + "\" to \""@ + to + "\""@
}

/// The commands that bring a workspace's name up to date: none for the
/// scratchpad and for a workspace already named as expected, else one rename.
pub open spec fn rename_commands(w: WorkspaceModel) -> Seq<Seq<char>> {
    if w.num < 0 || w.name == expected_name(w) {
        Seq::empty()
    } else {
        seq![rename_text(w.name, expected_name(w))]
    }
}

/// A workspace that carries the name it should.
pub open spec fn renamed(w: WorkspaceModel) -> WorkspaceModel {
    WorkspaceModel { name: expected_name(w), ..w }
}

/// Renaming is idempotent: a workspace needs at most one rename, and once it
/// carries the name asked for it needs none.
pub proof fn lemma_rename_idempotent(w: WorkspaceModel)
    ensures
        rename_commands(w).len() <= 1,
        rename_commands(renamed(w)).len() == 0,
{
    assert(expected_name(renamed(w)) == expected_name(w));
}

/// The scratchpad is never renamed.
pub proof fn lemma_scratchpad_never_renamed(w: WorkspaceModel)
    requires
        w.num == -1,
    ensures
        rename_commands(w) == Seq::<Seq<char>>::empty(),
{
}

/// A PyCharm window is labelled `pycharm` whatever its title.
pub proof fn lemma_pycharm_label(title: Seq<char>)
    ensures
        window_label("jetbrains-pycharm"@, title) == "pycharm"@,
{
}

/// The texts of a list of commands.
pub open spec fn texts(v: Seq<String>) -> Seq<Seq<char>> {
    v.map_values(|s: String| s@)
}

/// Computes the name that `workspace` should carry.
pub fn expected_name_of(workspace: &Workspace) -> (r: String)
    ensures
        r@ == expected_name(workspace@),
{
    let mut r = String::new();
    push_int(&mut r, workspace.num as i64);
    if workspace.windows.len() > 0 {
        let label = workspace.windows[0].get_name();
        r.append(": ");
        r.append(label.as_str());
        proof {
            assert(workspace@.windows[0] == workspace.windows@[0]@);
        }
    }
    proof {
        assert(Seq::<char>::empty() + int_text(workspace.num as int) =~= int_text(workspace.num as int));
    }
    r
}

/// Appends to `commands` the rename, if any, that `workspace` needs.
pub fn rename_workspace(commands: &mut Vec<String>, workspace: &Workspace)
    ensures
        texts(final(commands)@) == texts(old(commands)@) + rename_commands(workspace@),
{
    if workspace.num < 0 {
        proof {
            assert(texts(commands@) =~= texts(old(commands)@) + rename_commands(workspace@));
        }
        return;
    }
    let expected = expected_name_of(workspace);
    if workspace.name != expected {
        let mut c = String::from_str("rename workspace \"");
        c.append(workspace.name.as_str());
        c.append("\" to \"");
        c.append(expected.as_str());
        c.append("\"");
        let ghost before = commands@;
        commands.push(c);
        proof {
            assert(texts(commands@) =~= texts(before).push(c@));
            assert(texts(commands@) =~= texts(old(commands)@) + rename_commands(workspace@));
        }
    } else {
        proof {
            assert(texts(commands@) =~= texts(old(commands)@) + rename_commands(workspace@));
        }
    }
}

} // verus!
