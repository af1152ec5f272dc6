//! Bringing the local repository to the commit of a pull request, on a
//! branch named after the session.
//!
//! The repository itself is out of reach here. `Synchronizer` decides what
//! is done to it and in which order: `stage` names the next operation,
//! `step` takes its result.

use crate::session::{branch_name_of, branch_tokens, Args, ArgsView};
use crate::text::{decimal, decimal_string, join, str_eq, views};
use vstd::prelude::*;

verus! {

/// The branch that every synchronisation starts from.
pub open spec fn primary_branch_of() -> Seq<char> {
    "main"@
}

/// The ref of a pull request as it is fetched from the remote.
pub open spec fn refspec_of(pr_nr: u32) -> Seq<char> {
    "pull/"@ + decimal(pr_nr as nat) + "/head"@
}

/// The name under which the remote lists the head of a pull request.
pub open spec fn head_ref_of(pr_nr: u32) -> Seq<char> {
    "refs/pull/"@ + decimal(pr_nr as nat) + "/head"@
}

/// The directory of the local repository.
pub fn repository_dir() -> (r: &'static str)
    ensures
        r@ == "packages"@,
{
    "packages"
}

/// The name of the remote that pull requests are fetched from.
pub fn remote_name() -> (r: &'static str)
    ensures
        r@ == "origin"@,
{
    "origin"
}

/// The name of the primary branch.
pub fn primary_branch() -> (r: &'static str)
    ensures
        r@ == primary_branch_of(),
{
    "main"
}

/// The operation that a synchronisation waits for.
#[derive(Clone, Copy, Debug, PartialEq, Eq, Structural)]
pub enum SyncStage {
    /// Open the repository at `repository_dir`.
    OpenRepository,
    /// Read the name of the branch that the head points to.
    ReadHead,
    /// Check out the primary branch.
    CheckoutPrimary,
    /// List the names of the local branches.
    ListBranches,
    /// Delete the local branch `branch`.
    DeleteBranch,
    /// Fetch `refspec` from the remote.
    Fetch,
    /// List the heads that the remote offers.
    ListRemoteHeads,
    /// Look up the commit `commit`.
    FindCommit,
    /// Create the local branch `branch` at `commit`, replacing one of that name.
    CreateBranch,
    /// Check out the branch `branch`.
    CheckoutBranch,
    /// The working tree is at the commit of the pull request.
    Done,
    /// The synchronisation has stopped with an error.
    Failed,
}

/// Why a synchronisation stopped.
#[derive(Clone, Copy, Debug, PartialEq, Eq, Structural)]
pub enum SyncFault {
    /// There is no repository at `repository_dir`.
    RepositoryNotFound,
    /// The head or a branch could not be read or checked out.
    BranchNotResolvable,
    /// The pull request could not be fetched.
    FetchError,
    /// What was fetched a moment ago cannot be found.
    InvariantViolation,
    /// A branch could not be deleted or created.
    InvalidRef,
}

/// The text that tells a user why a synchronisation stopped.
pub open spec fn sync_message(fault: SyncFault) -> Seq<char> {
    match fault {
        SyncFault::RepositoryNotFound => "repository not found"@,
        SyncFault::BranchNotResolvable => "branch could not be resolved"@,
        SyncFault::FetchError => "failed to fetch the pull request"@,
        SyncFault::InvariantViolation => "remote head missing after it was fetched"@,
        SyncFault::InvalidRef => "branch could not be deleted or created"@,
    }
}

impl SyncFault {
    /// The fault as a sentence for the user.
    pub fn message(&self) -> (r: String)
        ensures
            r@ == sync_message(*self),
    {
        match self {
            SyncFault::RepositoryNotFound => String::from_str("repository not found"),
            SyncFault::BranchNotResolvable => String::from_str("branch could not be resolved"),
            SyncFault::FetchError => String::from_str("failed to fetch the pull request"),
            SyncFault::InvariantViolation => String::from_str(
                "remote head missing after it was fetched",
            ),
            SyncFault::InvalidRef => String::from_str("branch could not be deleted or created"),
        }
    }
}

/// A head that the remote offers.
#[derive(Debug)]
pub struct RemoteHead {
    /// The full name of the ref.
    pub name: String,
    /// The commit it points to, as hexadecimal digits.
    pub commit: String,
}

/// The result of an operation.
#[derive(Debug)]
pub enum SyncEvent {
    /// The operation succeeded and has nothing to report.
    Succeeded,
    /// The operation failed.
    Failed,
    /// The short name of the branch that the head points to, or `None`
    /// if it points to no branch.
    Head(Option<String>),
    /// The names of the local branches; `None` for a name that is not text.
    Branches(Vec<Option<String>>),
    /// The heads of the remote.
    RemoteHeads(Vec<RemoteHead>),
}

/// A result as plain values: heads are pairs of name and commit.
pub enum SyncEventView {
    Succeeded,
    Failed,
    Head(Option<Seq<char>>),
    Branches(Seq<Option<Seq<char>>>),
    RemoteHeads(Seq<(Seq<char>, Seq<char>)>),
}

/// The views of a list of branch names.
pub open spec fn name_views(names: Seq<Option<String>>) -> Seq<Option<Seq<char>>> {
    Seq::new(
        names.len(),
        |i: int|
            match names[i] {
                Some(name) => Some(name@),
                None => None,
            },
    )
}

/// The views of a list of remote heads.
pub open spec fn head_views(heads: Seq<RemoteHead>) -> Seq<(Seq<char>, Seq<char>)> {
    Seq::new(heads.len(), |i: int| (heads[i].name@, heads[i].commit@))
}

impl View for SyncEvent {
    type V = SyncEventView;

    open spec fn view(&self) -> SyncEventView {
        match self {
            SyncEvent::Succeeded => SyncEventView::Succeeded,
            SyncEvent::Failed => SyncEventView::Failed,
            SyncEvent::Head(Some(name)) => SyncEventView::Head(Some(name@)),
            SyncEvent::Head(None) => SyncEventView::Head(None),
            SyncEvent::Branches(names) => SyncEventView::Branches(name_views(names@)),
            SyncEvent::RemoteHeads(heads) => SyncEventView::RemoteHeads(head_views(heads@)),
        }
    }
}

/// The state of a synchronisation as plain values.
pub struct SyncView {
    pub stage: SyncStage,
    /// The branch of the session.
    pub branch: Seq<char>,
    pub pr_nr: u32,
    /// The commit of the pull request, once the remote has named it.
    pub commit: Option<Seq<char>>,
    /// The fault, once the synchronisation has failed.
    pub fault: Option<SyncFault>,
}

impl SyncView {
    /// This state at another stage.
    pub open spec fn at(self, stage: SyncStage) -> SyncView {
        SyncView { stage, ..self }
    }

    /// This state, stopped with a fault.
    pub open spec fn fail(self, fault: SyncFault) -> SyncView {
        SyncView { stage: SyncStage::Failed, fault: Some(fault), ..self }
    }
}

/// The state of a synchronisation that has not begun.
pub open spec fn sync_start(session: ArgsView) -> SyncView {
    SyncView {
        stage: SyncStage::OpenRepository,
        branch: branch_name_of(session),
        pr_nr: session.pr_nr,
        commit: None,
        fault: None,
    }
}

/// The position of the first head named `name`, or the length of `heads`.
pub open spec fn first_head(heads: Seq<(Seq<char>, Seq<char>)>, name: Seq<char>) -> int
    decreases heads.len(),
{
    if heads.len() == 0 || heads[0].0 == name {
        0
    } else {
        1 + first_head(heads.skip(1), name)
    }
}

/// The fault of an operation that fails.
pub open spec fn fault_of(stage: SyncStage) -> SyncFault {
    match stage {
        SyncStage::OpenRepository => SyncFault::RepositoryNotFound,
        SyncStage::Fetch => SyncFault::FetchError,
        SyncStage::ListRemoteHeads | SyncStage::FindCommit => SyncFault::InvariantViolation,
        SyncStage::DeleteBranch | SyncStage::CreateBranch => SyncFault::InvalidRef,
        _ => SyncFault::BranchNotResolvable,
    }
}

/// The stage that follows an operation that succeeded with nothing to report.
pub open spec fn stage_after(stage: SyncStage) -> SyncStage {
    match stage {
        SyncStage::OpenRepository => SyncStage::ReadHead,
        SyncStage::CheckoutPrimary => SyncStage::ListBranches,
        SyncStage::DeleteBranch => SyncStage::Fetch,
        SyncStage::Fetch => SyncStage::ListRemoteHeads,
        SyncStage::FindCommit => SyncStage::CreateBranch,
        SyncStage::CreateBranch => SyncStage::CheckoutBranch,
        SyncStage::CheckoutBranch => SyncStage::Done,
        _ => stage,
    }
}

/// The state that follows when `event` is the result of the operation that
/// `s` waits for. An event that is no result of that operation changes
/// nothing.
///
/// The primary branch is checked out unless the head is on it already. A
/// branch with the session's name is deleted before the pull request is
/// fetched. The branch is then created at the commit that the remote lists
/// for the pull request, and checked out. The first failure stops the
/// synchronisation; nothing is undone.
pub open spec fn sync_step(s: SyncView, event: SyncEventView) -> SyncView {
    match (s.stage, event) {
        (SyncStage::Done, _) | (SyncStage::Failed, _) => s,
        (SyncStage::ReadHead, SyncEventView::Head(head)) => if head == Some(primary_branch_of()) {
            s.at(SyncStage::ListBranches)
        } else {
            s.at(SyncStage::CheckoutPrimary)
        },
        (SyncStage::ListBranches, SyncEventView::Branches(names)) => if names.contains(
            Some(s.branch),
        ) {
            s.at(SyncStage::DeleteBranch)
        } else {
            s.at(SyncStage::Fetch)
        },
        (SyncStage::ListRemoteHeads, SyncEventView::RemoteHeads(heads)) => {
            let i = first_head(heads, head_ref_of(s.pr_nr));
            if 0 <= i < heads.len() {
                SyncView { stage: SyncStage::FindCommit, commit: Some(heads[i].1), ..s }
            } else {
                s.fail(SyncFault::InvariantViolation)
            }
        },
        (_, SyncEventView::Succeeded) => s.at(stage_after(s.stage)),
        (_, SyncEventView::Failed) => s.fail(fault_of(s.stage)),
        _ => s,
    }
}

/// Tells whether the head is on the primary branch, so that it need not be
/// checked out.
pub fn on_primary(head: &Option<String>) -> (r: bool)
    ensures
        r == (head matches Some(name) && name@ == primary_branch_of()),
{
    match head {
        Some(name) => str_eq(name.as_str(), primary_branch()),
        None => false,
    }
}

/// Tells whether one of the names is `target`.
pub fn has_branch(names: &Vec<Option<String>>, target: &str) -> (r: bool)
    ensures
        r == name_views(names@).contains(Some(target@)),
{
    let n: usize = names.len();
    let mut i: usize = 0;
    while i < n
        invariant
            i <= n,
            n == names@.len(),
            forall|k: int| 0 <= k < i ==> name_views(names@)[k] != Some(target@),
        decreases n - i,
    {
        match &names[i] {
            Some(name) => {
                if str_eq(name.as_str(), target) {
                    assert(name_views(names@)[i as int] == Some(target@));
                    return true;
                }
            },
            None => {},
        }
        i += 1;
    }
    false
}

/// Finds the first head named `name`.
pub fn find_head(heads: &Vec<RemoteHead>, name: &str) -> (r: usize)
    ensures
        r == first_head(head_views(heads@), name@),
        r <= heads@.len(),
{
    let n: usize = heads.len();
    let mut i: usize = 0;
    let ghost all = head_views(heads@);
    assert(all.skip(0) =~= all);
    while i < n && !str_eq(heads[i].name.as_str(), name)
        invariant
            i <= n,
            n == heads@.len(),
            all == head_views(heads@),
            first_head(all, name@) == i + first_head(all.skip(i as int), name@),
        decreases n - i,
    {
        assert(all.skip(i as int)[0] == all[i as int]);
        assert(all.skip(i as int).skip(1) =~= all.skip(i as int + 1));
        i += 1;
    }
    proof {
        if i < n {
            assert(all.skip(i as int)[0] == all[i as int]);
        }
    }
    i
}

/// The branches that cleaning removes: every named branch but the
/// primary one, in the order of the listing.
pub open spec fn stale_branches_of(names: Seq<Option<Seq<char>>>) -> Seq<Seq<char>>
    decreases names.len(),
{
    if names.len() == 0 {
        Seq::empty()
    } else {
        let before = stale_branches_of(names.drop_last());
        match names.last() {
            Some(name) => if name != primary_branch_of() {
                before.push(name)
            } else {
                before
            },
            None => before,
        }
    }
}

/// Picks the branches to remove when cleaning.
pub fn stale_branches(names: &Vec<Option<String>>) -> (r: Vec<String>)
    ensures
        views(r@) == stale_branches_of(name_views(names@)),
{
    let mut out: Vec<String> = Vec::new();
    let n: usize = names.len();
    let mut i: usize = 0;
    let ghost all = name_views(names@);
    assert(all.take(0) =~= Seq::<Option<Seq<char>>>::empty());
    assert(views(out@) =~= Seq::<Seq<char>>::empty());
    while i < n
        invariant
            i <= n,
            n == names@.len(),
            all == name_views(names@),
            views(out@) == stale_branches_of(all.take(i as int)),
        decreases n - i,
    {
        let ghost before = views(out@);
        assert(all.take(i as int + 1).drop_last() =~= all.take(i as int));
        assert(all.take(i as int + 1).last() == all[i as int]);
        match &names[i] {
            Some(name) => {
                if !str_eq(name.as_str(), primary_branch()) {
                    out.push(String::from_str(name.as_str()));
                    assert(views(out@) =~= before.push(name@));
                }
            },
            None => {},
        }
        i += 1;
    }
    assert(all.take(n as int) =~= all);
    out
}

/// A synchronisation, operation by operation.
#[derive(Debug)]
pub struct Synchronizer {
    branch: String,
    pr_nr: u32,
    stage: SyncStage,
    commit: Option<String>,
    fault: Option<SyncFault>,
}

impl View for Synchronizer {
    type V = SyncView;

    closed spec fn view(&self) -> SyncView {
        SyncView {
            stage: self.stage,
            branch: self.branch@,
            pr_nr: self.pr_nr,
            commit: match self.commit {
                Some(c) => Some(c@),
                None => None,
            },
            fault: self.fault,
        }
    }
}

impl Synchronizer {
    /// The synchronisation of a session, not yet begun.
    pub fn new(session: &Args) -> (r: Synchronizer)
        ensures
            r@ == sync_start(session@),
    {
        Synchronizer {
            branch: session.branch_name(),
            pr_nr: session.pr_nr,
            stage: SyncStage::OpenRepository,
            commit: None,
            fault: None,
        }
    }

    /// The operation to perform next.
    pub fn stage(&self) -> (r: SyncStage)
        ensures
            r == self@.stage,
    {
        self.stage
    }

    /// The fault, once the synchronisation has failed.
    pub fn fault(&self) -> (r: Option<SyncFault>)
        ensures
            r == self@.fault,
    {
        self.fault
    }

    /// The branch of the session.
    pub fn branch(&self) -> (r: &str)
        ensures
            r@ == self@.branch,
    {
        self.branch.as_str()
    }

    /// The ref to fetch from the remote.
    pub fn refspec(&self) -> (r: String)
        ensures
            r@ == refspec_of(self@.pr_nr),
    {
        let mut out = String::from_str("pull/");
        out.append(decimal_string(self.pr_nr).as_str());
        out.append("/head");
        out
    }

    /// The name under which the remote lists the pull request.
    pub fn head_ref(&self) -> (r: String)
        ensures
            r@ == head_ref_of(self@.pr_nr),
    {
        let mut out = String::from_str("refs/pull/");
        out.append(decimal_string(self.pr_nr).as_str());
        out.append("/head");
        out
    }

    /// The commit of the pull request, once the remote has named it.
    pub fn commit(&self) -> (r: Option<&str>)
        ensures
            match r {
                Some(c) => self@.commit == Some(c@),
                None => self@.commit is None,
            },
    {
        match &self.commit {
            Some(c) => Some(c.as_str()),
            None => None,
        }
    }

    /// This synchronisation at another stage.
    fn at(self, stage: SyncStage) -> (r: Synchronizer)
        ensures
            r@ == self@.at(stage),
    {
        Synchronizer {
            branch: self.branch,
            pr_nr: self.pr_nr,
            stage,
            commit: self.commit,
            fault: self.fault,
        }
    }

    /// This synchronisation, stopped with a fault.
    fn fail(self, fault: SyncFault) -> (r: Synchronizer)
        ensures
            r@ == self@.fail(fault),
    {
        Synchronizer {
            branch: self.branch,
            pr_nr: self.pr_nr,
            stage: SyncStage::Failed,
            commit: self.commit,
            fault: Some(fault),
        }
    }

    /// The fault of the pending operation, should it fail.
    fn pending_fault(&self) -> (r: SyncFault)
        ensures
            r == fault_of(self@.stage),
    {
        match self.stage {
            SyncStage::OpenRepository => SyncFault::RepositoryNotFound,
            SyncStage::Fetch => SyncFault::FetchError,
            SyncStage::ListRemoteHeads | SyncStage::FindCommit => SyncFault::InvariantViolation,
            SyncStage::DeleteBranch | SyncStage::CreateBranch => SyncFault::InvalidRef,
            _ => SyncFault::BranchNotResolvable,
        }
    }

    /// The stage after the pending operation, when it has nothing to report.
    fn following_stage(&self) -> (r: SyncStage)
        ensures
            r == stage_after(self@.stage),
    {
        match self.stage {
            SyncStage::OpenRepository => SyncStage::ReadHead,
            SyncStage::CheckoutPrimary => SyncStage::ListBranches,
            SyncStage::DeleteBranch => SyncStage::Fetch,
            SyncStage::Fetch => SyncStage::ListRemoteHeads,
            SyncStage::FindCommit => SyncStage::CreateBranch,
            SyncStage::CreateBranch => SyncStage::CheckoutBranch,
            SyncStage::CheckoutBranch => SyncStage::Done,
            stage => stage,
        }
    }

    /// Takes the result of the pending operation and moves on.
    pub fn step(self, event: SyncEvent) -> (r: Synchronizer)
        ensures
            r@ == sync_step(self@, event@),
    {
        match self.stage {
            SyncStage::Done => self,
            SyncStage::Failed => self,
            _ => match event {
                SyncEvent::Succeeded => {
                    let next = self.following_stage();
                    self.at(next)
                },
                SyncEvent::Failed => {
                    let fault = self.pending_fault();
                    self.fail(fault)
                },
                SyncEvent::Head(head) => match self.stage {
                    SyncStage::ReadHead => {
                        if on_primary(&head) {
                            self.at(SyncStage::ListBranches)
                        } else {
                            self.at(SyncStage::CheckoutPrimary)
                        }
                    },
                    _ => self,
                },
                SyncEvent::Branches(names) => match self.stage {
                    SyncStage::ListBranches => {
                        if has_branch(&names, self.branch.as_str()) {
                            self.at(SyncStage::DeleteBranch)
                        } else {
                            self.at(SyncStage::Fetch)
                        }
                    },
                    _ => self,
                },
                SyncEvent::RemoteHeads(heads) => match self.stage {
                    SyncStage::ListRemoteHeads => {
                        let name = self.head_ref();
                        let i: usize = find_head(&heads, name.as_str());
                        if i < heads.len() {
                            Synchronizer {
                                branch: self.branch,
                                pr_nr: self.pr_nr,
                                stage: SyncStage::FindCommit,
                                commit: Some(String::from_str(heads[i].commit.as_str())),
                                fault: self.fault,
                            }
                        } else {
                            self.fail(SyncFault::InvariantViolation)
                        }
                    },
                    _ => self,
                },
            },
        }
    }
}

/// A repository and its remote, as far as a synchronisation can tell.
pub struct Repository {
    /// Whether there is a repository at all.
    pub present: bool,
    /// The branch that is checked out, if the head is on one.
    pub head: Option<Seq<char>>,
    /// The local branches with their commits.
    pub branches: Map<Seq<char>, Seq<char>>,
    /// The pull requests of the remote with their commits.
    pub pulls: Map<u32, Seq<char>>,
}

/// Whether `names` lists the local branches of `repo`.
pub open spec fn lists_branches(names: Seq<Option<Seq<char>>>, repo: Repository) -> bool {
    forall|name: Seq<char>| names.contains(Some(name)) <==> repo.branches.dom().contains(name)
}

/// What the operation that `s` waits for does to a repository, and its
/// result. A branch that is checked out can be neither deleted nor
/// replaced; a branch is checked out only if it exists; `names` is what
/// listing the branches gives.
pub open spec fn operate(repo: Repository, s: SyncView, names: Seq<Option<Seq<char>>>) -> (
    Repository,
    SyncEventView,
) {
    match s.stage {
        SyncStage::OpenRepository => (
            repo,
            if repo.present {
                SyncEventView::Succeeded
            } else {
                SyncEventView::Failed
            },
        ),
        SyncStage::ReadHead => (repo, SyncEventView::Head(repo.head)),
        SyncStage::CheckoutPrimary => if repo.branches.dom().contains(primary_branch_of()) {
            (Repository { head: Some(primary_branch_of()), ..repo }, SyncEventView::Succeeded)
        } else {
            (repo, SyncEventView::Failed)
        },
        SyncStage::ListBranches => (repo, SyncEventView::Branches(names)),
        SyncStage::DeleteBranch => if repo.head != Some(s.branch) && repo.branches.dom().contains(
            s.branch,
        ) {
            (
                Repository { branches: repo.branches.remove(s.branch), ..repo },
                SyncEventView::Succeeded,
            )
        } else {
            (repo, SyncEventView::Failed)
        },
        SyncStage::Fetch => (
            repo,
            if repo.pulls.dom().contains(s.pr_nr) {
                SyncEventView::Succeeded
            } else {
                SyncEventView::Failed
            },
        ),
        SyncStage::ListRemoteHeads => (
            repo,
            SyncEventView::RemoteHeads(
                if repo.pulls.dom().contains(s.pr_nr) {
                    seq![(head_ref_of(s.pr_nr), repo.pulls[s.pr_nr])]
                } else {
                    Seq::empty()
                },
            ),
        ),
        SyncStage::CreateBranch => match s.commit {
            Some(commit) => if repo.head != Some(s.branch) {
                (
                    Repository { branches: repo.branches.insert(s.branch, commit), ..repo },
                    SyncEventView::Succeeded,
                )
            } else {
                (repo, SyncEventView::Failed)
            },
            None => (repo, SyncEventView::Failed),
        },
        SyncStage::CheckoutBranch => if repo.branches.dom().contains(s.branch) {
            (Repository { head: Some(s.branch), ..repo }, SyncEventView::Succeeded)
        } else {
            (repo, SyncEventView::Failed)
        },
        _ => (repo, SyncEventView::Succeeded),
    }
}

/// The repository and the state after at most `fuel` operations from `s`.
pub open spec fn sync_run(
    repo: Repository,
    s: SyncView,
    names: Seq<Option<Seq<char>>>,
    fuel: nat,
) -> (Repository, SyncView)
    decreases fuel,
{
    if fuel == 0 || s.stage == SyncStage::Done || s.stage == SyncStage::Failed {
        (repo, s)
    } else {
        let (next, event) = operate(repo, s, names);
        sync_run(next, sync_step(s, event), names, (fuel - 1) as nat)
    }
}

/// No session's branch is the primary branch.
pub proof fn lemma_branch_is_not_primary(session: ArgsView)
    ensures
        branch_name_of(session) != primary_branch_of(),
{
    let tokens = join(branch_tokens(session.packages), seq![',']);
    let name = branch_name_of(session);
    reveal_strlit("main");
    assert(name[tokens.len() as int + 1] == '#');
    if name == primary_branch_of() {
        assert(name.len() == 4);
        assert(name[0] == 'm' && name[1] == 'a' && name[2] == 'i' && name[3] == 'n');
    }
}

/// Synchronising leaves the session's branch at the commit of the pull
/// request and checked out, whatever was there before; so a second
/// synchronisation ends in the state that the first one left, and a
/// branch from an earlier run does not stop it.
///
/// This holds of a repository that is present and has the primary branch,
/// and of a remote that offers the pull request, when no operation fails
/// for a reason of its own.
pub proof fn lemma_sync_is_idempotent(
    repo: Repository,
    session: ArgsView,
    names: Seq<Option<Seq<char>>>,
    names_after: Seq<Option<Seq<char>>>,
)
    requires
        repo.present,
        repo.branches.dom().contains(primary_branch_of()),
        repo.pulls.dom().contains(session.pr_nr),
        lists_branches(names, repo),
        lists_branches(names_after, sync_run(repo, sync_start(session), names, 10).0),
    ensures
        ({
            let once = sync_run(repo, sync_start(session), names, 10);
            let twice = sync_run(once.0, sync_start(session), names_after, 10);
            &&& once.1.stage == SyncStage::Done
            &&& once.0.head == Some(branch_name_of(session))
            &&& once.0.branches == repo.branches.insert(
                branch_name_of(session),
                repo.pulls[session.pr_nr],
            )
            &&& twice.1.stage == SyncStage::Done
            &&& twice.0 == once.0
        }),
{
    lemma_sync_reaches_commit(repo, session, names);
    let once = sync_run(repo, sync_start(session), names, 10);
    lemma_sync_reaches_commit(once.0, session, names_after);
    let twice = sync_run(once.0, sync_start(session), names_after, 10);
    assert(twice.0.branches =~= once.0.branches);
}

/// One synchronisation, from any state of the repository.
proof fn lemma_sync_reaches_commit(
    repo: Repository,
    session: ArgsView,
    names: Seq<Option<Seq<char>>>,
)
    requires
        repo.present,
        repo.branches.dom().contains(primary_branch_of()),
        repo.pulls.dom().contains(session.pr_nr),
        lists_branches(names, repo),
    ensures
        ({
            let end = sync_run(repo, sync_start(session), names, 10);
            &&& end.1.stage == SyncStage::Done
            &&& end.0.present
            &&& end.0.pulls == repo.pulls
            &&& end.0.head == Some(branch_name_of(session))
            &&& end.0.branches == repo.branches.insert(
                branch_name_of(session),
                repo.pulls[session.pr_nr],
            )
        }),
{
    let branch = branch_name_of(session);
    let commit = repo.pulls[session.pr_nr];
    let heads = seq![(head_ref_of(session.pr_nr), commit)];
    lemma_branch_is_not_primary(session);
    reveal_with_fuel(sync_run, 11);
    assert(first_head(heads, head_ref_of(session.pr_nr)) == 0);
    assert(heads[0].1 == commit);
    assert(names.contains(Some(branch)) <==> repo.branches.dom().contains(branch));
    assert(repo.branches.remove(branch).insert(branch, commit) =~= repo.branches.insert(
        branch,
        commit,
    ));
}

} // verus!
