//! Workspaces: named data directories of the node, and the record of them.

use crate::params::SharedParams;
use vstd::prelude::*;

verus! {

/// Name of the file that holds the record of the workspaces.
pub const METADATA_FILE: &'static str = "_metadata";

/// Name of the workspace that is used where none is set.
pub const DEFAULT_WORKSPACE: &'static str = "default";

/// The record of the workspaces: the ones that were used, and the current
/// default one.
#[derive(Clone, Debug)]
pub struct Metadata {
    pub workspaces: Option<Vec<String>>,
    pub current_workspace: Option<String>,
}

/// The record of the workspaces, as a mathematical value.
pub struct MetadataView {
    pub workspaces: Option<Seq<Seq<char>>>,
    pub current_workspace: Option<Seq<char>>,
}

/// The names as texts.
pub open spec fn names_view(names: Seq<String>) -> Seq<Seq<char>> {
    Seq::new(names.len(), |i: int| names[i]@)
}

impl View for Metadata {
    type V = MetadataView;

    open spec fn view(&self) -> MetadataView {
        MetadataView {
            workspaces: match self.workspaces {
                Some(list) => Some(names_view(list@)),
                None => None,
            },
            current_workspace: match self.current_workspace {
                Some(name) => Some(name@),
                None => None,
            },
        }
    }
}

/// The command that works on the record of the workspaces.
#[derive(Debug)]
pub struct WorkspaceCmd {
    pub shared_params: SharedParams,
    pub subcommand: WorkspaceSubCmd,
}

/// What to do with the record of the workspaces.
#[derive(Debug)]
pub enum WorkspaceSubCmd {
    /// List all workspace.
    List,
    /// Set current default workspace, could set a workspace which not in
    /// workspace list,
    Default(DefaultCmd),
    /// Delete a workspace, if the workspace has data, it would **remove all
    /// data** in this workspace.
    Delete(DeleteCmd),
}

/// Sets the current default workspace.
#[derive(Debug)]
pub struct DefaultCmd {
    pub default: String,
}

/// Deletes a workspace.
#[derive(Debug)]
pub struct DeleteCmd {
    pub deleted: String,
}

/// The names without every occurrence of `deleted`, in their order.
pub open spec fn without(names: Seq<Seq<char>>, deleted: Seq<char>) -> Seq<Seq<char>>
    decreases names.len(),
{
    if names.len() == 0 {
        Seq::empty()
    } else if names.last() == deleted {
        without(names.drop_last(), deleted)
    } else {
        without(names.drop_last(), deleted).push(names.last())
    }
}

/// The record after a subcommand: a listing changes nothing, a new default
/// is set as the current workspace, and a deleted workspace leaves the list
/// and is no longer the current one.
pub open spec fn updated(sub: WorkspaceSubCmd, m: MetadataView) -> MetadataView {
    match sub {
        WorkspaceSubCmd::List => m,
        WorkspaceSubCmd::Default(cmd) => MetadataView {
            workspaces: m.workspaces,
            current_workspace: Some(cmd.default@),
        },
        WorkspaceSubCmd::Delete(cmd) => MetadataView {
            workspaces: match m.workspaces {
                Some(list) => Some(without(list, cmd.deleted@)),
                None => None,
            },
            current_workspace: if m.current_workspace == Some(cmd.deleted@) {
                None
            } else {
                m.current_workspace
            },
        },
    }
}

/// Removes every occurrence of `deleted` from the names.
pub fn remove_name(names: &Vec<String>, deleted: &String) -> (kept: Vec<String>)
    ensures
        names_view(kept@) == without(names_view(names@), deleted@),
{
    let ghost all = names_view(names@);
    let mut kept: Vec<String> = Vec::new();
    let mut i: usize = 0;
    while i < names.len()
        invariant
            i <= names@.len(),
            all == names_view(names@),
            names_view(kept@) == without(all.subrange(0, i as int), deleted@),
        decreases names@.len() - i,
    {
        let ghost before = names_view(kept@);
        assert(all.subrange(0, i + 1).drop_last() == all.subrange(0, i as int));
        assert(all.subrange(0, i + 1).last() == names@[i as int]@);
        if !(names[i] == *deleted) {
            kept.push(names[i].clone());
            assert(names_view(kept@) == before.push(names@[i as int]@));
        }
        i += 1;
    }
    assert(all.subrange(0, names@.len() as int) == all);
    kept
}

impl Metadata {
    /// The name of the workspace that is used: the current one, or the
    /// default name where none is set.
    pub fn current_or_default(&self) -> (name: String)
        ensures
            name@ == (match self.current_workspace {
                Some(current) => current@,
                None => DEFAULT_WORKSPACE@,
            }),
    {
        match &self.current_workspace {
            Some(current) => current.clone(),
            None => DEFAULT_WORKSPACE.to_owned(),
        }
    }
}

impl WorkspaceCmd {
    /// The record of the workspaces after this command.
    pub fn update(&self, m: Metadata) -> (r: Metadata)
        ensures
            r@ == updated(self.subcommand, m@),
    {
        match &self.subcommand {
            WorkspaceSubCmd::List => m,
            WorkspaceSubCmd::Default(cmd) => Metadata {
                workspaces: m.workspaces,
                current_workspace: Some(cmd.default.clone()),
            },
            WorkspaceSubCmd::Delete(cmd) => {
                let current_workspace: Option<String> = match m.current_workspace {
                    Some(current) => if current == cmd.deleted {
                        None
                    } else {
                        Some(current)
                    },
                    None => None,
                };
                let workspaces: Option<Vec<String>> = match &m.workspaces {
                    Some(list) => Some(remove_name(list, &cmd.deleted)),
                    None => None,
                };
                Metadata { workspaces, current_workspace }
            },
        }
    }

    /// The workspace whose data this command removes, if it removes any.
    pub fn removed_workspace(&self) -> (name: Option<String>)
        ensures
            name == (match self.subcommand {
                WorkspaceSubCmd::Delete(cmd) => Some(cmd.deleted),
                _ => None,
            }),
    {
        match &self.subcommand {
            WorkspaceSubCmd::Delete(cmd) => Some(cmd.deleted.clone()),
            _ => None,
        }
    }
}

/// Deleting a workspace leaves no workspace of that name in the list, and
/// deleting it once more changes nothing.
pub proof fn lemma_without(names: Seq<Seq<char>>, deleted: Seq<char>)
    ensures
        forall|i: int|
            0 <= i < without(names, deleted).len() ==> #[trigger] without(names, deleted)[i]
                != deleted,
        without(without(names, deleted), deleted) == without(names, deleted),
    decreases names.len(),
{
    if names.len() > 0 {
        lemma_without(names.drop_last(), deleted);
        if names.last() != deleted {
            let front = without(names.drop_last(), deleted);
            assert(front.push(names.last()).drop_last() == front);
        }
    }
}

/// The workspace that a run uses: the requested one, else the current one
/// of the record, else the default one.
pub open spec fn selected_name(m: MetadataView, requested: Option<Seq<char>>) -> Seq<char> {
    match requested {
        Some(name) => name,
        None => match m.current_workspace {
            Some(current) => current,
            None => DEFAULT_WORKSPACE@,
        },
    }
}

/// The record once a run has selected its workspace: the workspace is the
/// current one, and it is in the list, at its end where it was not in it.
pub open spec fn selected(m: MetadataView, requested: Option<Seq<char>>) -> MetadataView {
    let name = selected_name(m, requested);
    MetadataView {
        workspaces: Some(
            match m.workspaces {
                Some(list) => if list.contains(name) {
                    list
                } else {
                    list.push(name)
                },
                None => seq![name],
            },
        ),
        current_workspace: Some(name),
    }
}

/// Whether the names hold `name`.
pub fn has_name(names: &Vec<String>, name: &String) -> (found: bool)
    ensures
        found == names_view(names@).contains(name@),
{
    let mut i: usize = 0;
    while i < names.len()
        invariant
            i <= names@.len(),
            forall|j: int| 0 <= j < i ==> names_view(names@)[j] != name@,
        decreases names@.len() - i,
    {
        if names[i] == *name {
            assert(names_view(names@)[i as int] == name@);
            return true;
        }
        i += 1;
    }
    false
}

impl Metadata {
    /// Selects the workspace of a run and records it.
    pub fn select(self, requested: Option<&str>) -> (r: Metadata)
        ensures
            r@ == selected(
                self@,
                match requested {
                    Some(name) => Some(name@),
                    None => None,
                },
            ),
    {
        let workspace: String = match requested {
            Some(name) => name.to_owned(),
            None => self.current_or_default(),
        };
        let workspaces: Vec<String> = match self.workspaces {
            Some(list) => {
                let mut list: Vec<String> = list;
                if !has_name(&list, &workspace) {
                    let ghost before = names_view(list@);
                    list.push(workspace.clone());
                    assert(names_view(list@) == before.push(workspace@));
                }
                list
            },
            None => {
                let mut list: Vec<String> = Vec::new();
                list.push(workspace.clone());
                assert(names_view(list@) == seq![workspace@]);
                list
            },
        };
        Metadata { workspaces: Some(workspaces), current_workspace: Some(workspace) }
    }
}

} // verus!
