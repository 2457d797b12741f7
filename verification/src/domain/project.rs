//! The thing that all the work belongs to.

use crate::domain::ids::ProjectId;
use crate::time::{clock_time, Timestamp};
use vstd::prelude::*;
use vstd::string::*;

verus! {

/// The branch that checkpoints are compared against when nothing more specific
/// is known.
#[derive(Debug, PartialEq, Eq)]
pub enum DefaultBranch {
    /// `main`.
    Main,
    /// `master`.
    Master,
    /// A branch by name.
    Named(String),
}

/// What a [`DefaultBranch`] holds.
#[verifier::ext_equal]
pub enum DefaultBranchView {
    Main,
    Master,
    Named(Seq<char>),
}

impl View for DefaultBranch {
    type V = DefaultBranchView;

    open spec fn view(&self) -> DefaultBranchView {
        match self {
            DefaultBranch::Main => DefaultBranchView::Main,
            DefaultBranch::Master => DefaultBranchView::Master,
            DefaultBranch::Named(x) => DefaultBranchView::Named(x.deep_view()),
        }
    }
}

impl DeepView for DefaultBranch {
    type V = DefaultBranchView;

    open spec fn deep_view(&self) -> DefaultBranchView {
        self.view()
    }
}

impl Clone for DefaultBranch {
    fn clone(&self) -> (r: Self)
        ensures
            r@ == self@,
    {
        match self {
            DefaultBranch::Main => DefaultBranch::Main,
            DefaultBranch::Master => DefaultBranch::Master,
            DefaultBranch::Named(x) => DefaultBranch::Named(x.clone()),
        }
    }
}

/// The name of a default branch.
pub open spec fn default_branch_text(b: DefaultBranchView) -> Seq<char> {
    match b {
        DefaultBranchView::Main => "main"@,
        DefaultBranchView::Master => "master"@,
        DefaultBranchView::Named(name) => name,
    }
}

impl DefaultBranch {
    /// The branch's name.
    pub fn to_string(&self) -> (r: String)
        ensures
            r@ == default_branch_text(self@),
    {
        match self {
            DefaultBranch::Main => "main".to_owned(),
            DefaultBranch::Master => "master".to_owned(),
            DefaultBranch::Named(name) => name.clone(),
        }
    }
}

/// One working tree, one set of tasks, one plan at a time.
#[derive(Debug, PartialEq, Eq)]
pub struct Project {
    /// The project's identifier.
    pub id: ProjectId,
    /// A name for display.
    pub name: String,
    /// The absolute path of the working tree.
    pub root: String,
    /// The branch to compare checkpoints against.
    pub default_branch: DefaultBranch,
    /// When it was registered.
    pub created_at: Timestamp,
    /// When it last changed.
    pub updated_at: Timestamp,
}

/// What a [`Project`] holds.
#[verifier::ext_equal]
pub struct ProjectView {
    pub id: Seq<char>,
    pub name: Seq<char>,
    pub root: Seq<char>,
    pub default_branch: DefaultBranchView,
    pub created_at: Timestamp,
    pub updated_at: Timestamp,
}

impl View for Project {
    type V = ProjectView;

    open spec fn view(&self) -> ProjectView {
        ProjectView {
            id: self.id.deep_view(),
            name: self.name.deep_view(),
            root: self.root.deep_view(),
            default_branch: self.default_branch.deep_view(),
            created_at: self.created_at,
            updated_at: self.updated_at,
        }
    }
}

impl DeepView for Project {
    type V = ProjectView;

    open spec fn deep_view(&self) -> ProjectView {
        self.view()
    }
}

impl Clone for Project {
    fn clone(&self) -> (r: Self)
        ensures
            r@ == self@,
    {
        let r: Project = Project {
            id: self.id.clone(),
            name: self.name.clone(),
            root: self.root.clone(),
            default_branch: self.default_branch.clone(),
            created_at: self.created_at,
            updated_at: self.updated_at,
        };
        r
    }
}

impl Project {
    /// A project rooted at `root`, on `main`.
    pub fn new(id: ProjectId, name: &str, root: &str) -> (r: Self)
        ensures
            clock_time(r.created_at@),
            r@ == (ProjectView {
                id: id@,
                name: name@,
                root: root@,
                default_branch: DefaultBranchView::Main,
                created_at: r.created_at,
                updated_at: r.created_at,
            }),
    {
        let now: Timestamp = Timestamp::now();
        Project {
            id,
            name: name.to_owned(),
            root: root.to_owned(),
            default_branch: DefaultBranch::Main,
            created_at: now,
            updated_at: now,
        }
    }

    /// Records a change, stamping `updated_at` with what the clock shows.
    pub fn touch(&mut self)
        ensures
            clock_time(final(self).updated_at@),
            final(self)@ == (ProjectView { updated_at: final(self).updated_at, ..old(self)@ }),
    {
        self.touch_at(Timestamp::now());
    }

    /// Records a change that was made at `now`.
    pub fn touch_at(&mut self, now: Timestamp)
        ensures
            final(self)@ == (ProjectView { updated_at: now, ..old(self)@ }),
    {
        self.updated_at = now;
    }
}

/// A branch is written by its own name, whichever way it is held.
pub proof fn law_a_branch_is_written_by_its_name(name: Seq<char>)
    ensures
        default_branch_text(DefaultBranchView::Main) == default_branch_text(
            DefaultBranchView::Named("main"@),
        ),
        default_branch_text(DefaultBranchView::Master) == default_branch_text(
            DefaultBranchView::Named("master"@),
        ),
        default_branch_text(DefaultBranchView::Named(name)) == name,
{
}

} // verus!
