//! What the producers read: the repository of the working directory, and
//! the home directory. Nothing is known of what is read before it is read,
//! so the functions that read promise nothing of what they return.

use crate::segments::segment_git::{
    BranchInfo, FileStatus, GitReply, GitReplyView, GitRequest, ObjectId,
};
use vstd::prelude::*;

verus! {

/// A repository that `git2` has opened.
#[verifier::external_type_specification]
#[verifier::external_body]
pub struct ExRepository(git2::Repository);

/// A branch of an open repository.
#[verifier::external_type_specification]
#[verifier::external_body]
pub struct ExBranch<'repo>(git2::Branch<'repo>);

/// The status flags of one path.
#[verifier::external_type_specification]
#[verifier::external_body]
pub struct ExStatus(git2::Status);

/// Which branches are listed.
#[derive(Clone, Copy, Debug, PartialEq, Eq, Structural)]
pub enum BranchKind {
    /// The branches of this repository.
    Local,
    /// The branches it tracks from elsewhere.
    Remote,
}

/// Which side of the state of a path is read.
#[derive(Clone, Copy, Debug, PartialEq, Eq, Structural)]
pub enum Scope {
    /// What the index holds against the head.
    Index,
    /// What the working tree holds against the index.
    Workdir,
    /// Both.
    IndexAndWorkdir,
}

/// `Repository::discover` opens the repository at `path` or above it, if
/// there is one. The search starts from the working directory and from
/// nowhere else.
#[verifier::external_body]
fn discover(path: &str) -> (found: Option<git2::Repository>)
    requires
        path@ == "."@,
{
    git2::Repository::discover(path).ok()
}

/// `Repository::branches` and what its iterator gives: the branches of one
/// kind, which is the local kind and no other. A branch that cannot be read
/// is `None`, and so is the list if it cannot be made.
#[verifier::external_body]
fn branches<'repo>(repository: &'repo git2::Repository, kind: BranchKind) -> (listed: Option<
    Vec<Option<git2::Branch<'repo>>>,
>)
    requires
        kind == BranchKind::Local,
{
    let kind = match kind {
        BranchKind::Local => git2::BranchType::Local,
        BranchKind::Remote => git2::BranchType::Remote,
    };
    let listed = repository.branches(Some(kind)).ok()?;
    Some(listed.map(|branch| branch.ok().map(|(branch, _)| branch)).collect())
}

/// `Branch::is_head` tells whether the branch is the one checked out.
#[verifier::external_body]
fn branch_is_head(branch: &git2::Branch<'_>) -> (is_head: bool) {
    branch.is_head()
}

/// `Branch::get`, `Reference::target` and `Oid::as_bytes`: the revision
/// that the branch points to, if it points to one directly.
#[verifier::external_body]
fn branch_target(branch: &git2::Branch<'_>) -> (target: Option<ObjectId>) {
    let target = branch.get().target()?;
    Some(ObjectId { bytes: target.as_bytes().try_into().ok()? })
}

/// `Branch::upstream`, then `Branch::get`, `Reference::target` and
/// `Oid::as_bytes` on what it gives: the revision that the upstream of the
/// branch points to, if the branch has an upstream.
#[verifier::external_body]
fn branch_upstream_target(branch: &git2::Branch<'_>) -> (target: Option<ObjectId>) {
    let target = branch.upstream().ok()?.get().target()?;
    Some(ObjectId { bytes: target.as_bytes().try_into().ok()? })
}

/// `Branch::name` gives the name of the branch, if it has one that is
/// valid text.
#[verifier::external_body]
fn branch_name(branch: &git2::Branch<'_>) -> (name: Option<String>) {
    branch.name().ok()?.map(str::to_string)
}

/// `Repository::head`, `Reference::target`, `Repository::find_object`,
/// `Object::short_id` and `Buf::as_str`, each on what the one before gives:
/// the short name of the revision that is checked out, if there is one and
/// it can be named.
#[verifier::external_body]
fn head_short_id(repository: &git2::Repository) -> (short: Option<String>) {
    let target = repository.head().ok()?.target()?;
    let object = repository.find_object(target, Some(git2::ObjectType::Any)).ok()?;
    object.short_id().ok()?.as_str().map(str::to_string)
}

/// `Repository::statuses` with a `StatusOptions` whose `show`,
/// `include_untracked`, `renames_from_rewrites` and `renames_head_to_index`
/// are set as given, then `StatusEntry::status` of every entry: the flags
/// of every path that has any, or `None` if they cannot be read. The scan
/// is always the full one: index and working tree, with untracked paths
/// and with renames found both among rewritten files and between head and
/// index.
#[verifier::external_body]
fn statuses(
    repository: &git2::Repository,
    scope: Scope,
    untracked: bool,
    renames_from_rewrites: bool,
    renames_head_to_index: bool,
) -> (flags: Option<Vec<git2::Status>>)
    requires
        scope == Scope::IndexAndWorkdir,
        untracked,
        renames_from_rewrites,
        renames_head_to_index,
{
    let mut options = git2::StatusOptions::new();
    options.show(
        match scope {
            Scope::Index => git2::StatusShow::Index,
            Scope::Workdir => git2::StatusShow::Workdir,
            Scope::IndexAndWorkdir => git2::StatusShow::IndexAndWorkdir,
        },
    );
    options.include_untracked(untracked).renames_from_rewrites(renames_from_rewrites);
    options.renames_head_to_index(renames_head_to_index);
    let listed = repository.statuses(Some(&mut options)).ok()?;
    Some(listed.iter().map(|entry| entry.status()).collect())
}

/// `Status::contains`, once for each flag that is counted.
#[verifier::external_body]
fn file_status(flags: git2::Status) -> (status: FileStatus) {
    FileStatus {
        index_new: flags.contains(git2::Status::INDEX_NEW),
        index_modified: flags.contains(git2::Status::INDEX_MODIFIED),
        index_deleted: flags.contains(git2::Status::INDEX_DELETED),
        index_renamed: flags.contains(git2::Status::INDEX_RENAMED),
        index_typechange: flags.contains(git2::Status::INDEX_TYPECHANGE),
        wt_new: flags.contains(git2::Status::WT_NEW),
        wt_modified: flags.contains(git2::Status::WT_MODIFIED),
        wt_deleted: flags.contains(git2::Status::WT_DELETED),
        wt_typechange: flags.contains(git2::Status::WT_TYPECHANGE),
        conflicted: flags.contains(git2::Status::CONFLICTED),
    }
}

/// `Oid::from_bytes` for either revision, then
/// `Repository::graph_ahead_behind`: how many commits `local` has that
/// `upstream` lacks, and how many `upstream` has that `local` lacks.
#[verifier::external_body]
fn graph_distance(repository: &git2::Repository, local: &ObjectId, upstream: &ObjectId) -> (distance:
    Option<(usize, usize)>) {
    let local = git2::Oid::from_bytes(&local.bytes).ok()?;
    let upstream = git2::Oid::from_bytes(&upstream.bytes).ok()?;
    repository.graph_ahead_behind(local, upstream).ok()
}

/// `Repository::reflog` of the reference `name`, which is the one that
/// holds the stashes, and `Reflog::len`: the number of entries in its log,
/// one for every stash; none where there is no such log. No entry is read,
/// so that no message has to be valid text.
#[verifier::external_body]
fn log_entries(repository: &git2::Repository, name: &str) -> (entries: Option<usize>)
    requires
        name@ == "refs/stash"@,
{
    Some(repository.reflog(name).ok()?.len())
}

/// `dirs::home_dir`: the components of the path of the home directory, each
/// as text, if the user has a home directory.
#[verifier::external_body]
pub(crate) fn home_dir() -> (home: Option<Vec<String>>) {
    let home = dirs::home_dir()?;
    Some(home.iter().map(|part| part.to_string_lossy().into_owned()).collect())
}

/// What is known of each branch in `listed`.
fn branch_infos(listed: &Vec<Option<git2::Branch<'_>>>) -> (infos: Vec<Option<BranchInfo>>)
    ensures
        infos.len() == listed.len(),
{
    let mut infos: Vec<Option<BranchInfo>> = Vec::new();
    let mut i: usize = 0;
    while i < listed.len()
        invariant
            i <= listed.len(),
            infos.len() == i,
        decreases listed.len() - i,
    {
        let info = match &listed[i] {
            Some(branch) => Some(
                BranchInfo {
                    is_head: branch_is_head(branch),
                    target: branch_target(branch),
                    upstream: branch_upstream_target(branch),
                    name: branch_name(branch),
                },
            ),
            None => None,
        };
        infos.push(info);
        i += 1;
    }
    infos
}

/// The state of each path, from its flags.
fn file_statuses(flags: &Vec<git2::Status>) -> (statuses: Vec<FileStatus>)
    ensures
        statuses.len() == flags.len(),
{
    let mut statuses: Vec<FileStatus> = Vec::new();
    let mut i: usize = 0;
    while i < flags.len()
        invariant
            i <= flags.len(),
            statuses.len() == i,
        decreases flags.len() - i,
    {
        statuses.push(file_status(flags[i]));
        i += 1;
    }
    statuses
}

/// The reply to `request` where there is no repository to read.
pub open spec fn missing(request: GitRequest) -> GitReplyView {
    match request {
        GitRequest::Discover => GitReplyView::Discovered(false),
        GitRequest::Branches => GitReplyView::Branches(None),
        GitRequest::Head => GitReplyView::Head(None),
        GitRequest::Statuses => GitReplyView::Statuses(None),
        GitRequest::Distance { .. } => GitReplyView::Distance(None),
        GitRequest::Stashes => GitReplyView::Stashes(0),
        GitRequest::Done => GitReplyView::Start,
    }
}

/// Reads what `request` asks for. The repository is looked for in the
/// working directory and above it; the branches are the local ones; the
/// state of the paths covers index and working tree, untracked paths and
/// renames, both between head and index and among rewritten files; the
/// stashes are the entries in the log of the stash reference. The functions
/// that read take nothing else. Without a repository, whatever is asked for
/// is missing.
pub fn perform(repository: &mut Option<git2::Repository>, request: GitRequest) -> (reply: GitReply)
    ensures
        request is Done ==> reply.deep_view() is Start,
        !(request is Done) ==> reply.deep_view().answers(request),
        request is Discover ==> reply.deep_view() == GitReplyView::Discovered(
            *final(repository) is Some,
        ),
        *old(repository) is None && !(request is Discover) ==> *final(repository) is None
            && reply.deep_view() == missing(request),
{
    match request {
        GitRequest::Discover => {
            *repository = discover(".");
            GitReply::Discovered(repository.is_some())
        },
        GitRequest::Branches => GitReply::Branches(
            match repository {
                Some(repository) => match branches(repository, BranchKind::Local) {
                    Some(listed) => Some(branch_infos(&listed)),
                    None => None,
                },
                None => None,
            },
        ),
        GitRequest::Head => GitReply::Head(
            match repository {
                Some(repository) => head_short_id(repository),
                None => None,
            },
        ),
        GitRequest::Statuses => GitReply::Statuses(
            match repository {
                Some(repository) => match statuses(
                    repository,
                    Scope::IndexAndWorkdir,
                    true,
                    true,
                    true,
                ) {
                    Some(flags) => Some(file_statuses(&flags)),
                    None => None,
                },
                None => None,
            },
        ),
        GitRequest::Distance { local, upstream } => GitReply::Distance(
            match repository {
                Some(repository) => graph_distance(repository, &local, &upstream),
                None => None,
            },
        ),
        GitRequest::Stashes => GitReply::Stashes(
            match repository {
                Some(repository) => match log_entries(repository, "refs/stash") {
                    Some(entries) => entries,
                    None => 0,
                },
                None => 0,
            },
        ),
        GitRequest::Done => GitReply::Start,
    }
}

} // verus!
