//! The version-control segments. A producer goes step by step: each step
//! takes what was last read from the repository and answers with what is
//! to be read next, until the segments are added or there are none to add.
//! Whatever is read is kept, so that nothing is read twice.

use crate::segments::repository::perform;
use crate::segments::{Segment, SegmentView};
use crate::text::{decimal, push_decimal};
use crate::theme::Theme;
use crate::{Powerline, PowerlineView};
use vstd::prelude::*;
use vstd::string::StringExecFns;

verus! {

/// The glyph that stands before the name of a branch.
pub const BRANCH: char = '\u{e0a0}';

/// The name of an object in the repository.
#[derive(Clone, Copy, Debug, PartialEq, Eq)]
pub struct ObjectId {
    pub bytes: [u8; 20],
}

/// Something that is looked up at most once.
#[derive(Debug)]
pub enum Cached<T> {
    /// Not looked up yet.
    Untried,
    /// Looked up, and not there.
    Missing,
    /// Looked up, and there.
    Found(T),
}

impl<T: DeepView> DeepView for Cached<T> {
    type V = Cached<T::V>;

    open spec fn deep_view(&self) -> Cached<T::V> {
        match self {
            Cached::Untried => Cached::Untried,
            Cached::Missing => Cached::Missing,
            Cached::Found(value) => Cached::Found(value.deep_view()),
        }
    }
}

/// The state of one path in the index and in the working tree.
#[derive(Clone, Copy, Debug, PartialEq, Eq, Structural)]
pub struct FileStatus {
    pub index_new: bool,
    pub index_modified: bool,
    pub index_deleted: bool,
    pub index_renamed: bool,
    pub index_typechange: bool,
    pub wt_new: bool,
    pub wt_modified: bool,
    pub wt_deleted: bool,
    pub wt_typechange: bool,
    pub conflicted: bool,
}

impl DeepView for FileStatus {
    type V = FileStatus;

    open spec fn deep_view(&self) -> FileStatus {
        *self
    }
}

/// The four ways in which a path can count. A path can count in several.
#[derive(Clone, Copy, Debug, PartialEq, Eq, Structural)]
pub enum Category {
    /// A change recorded in the index.
    Staged,
    /// A change to a tracked file that the index does not hold.
    Changed,
    /// A file that is not tracked.
    Untracked,
    /// A conflict.
    Conflicted,
}

impl FileStatus {
    /// Whether the path counts towards `category`.
    pub open spec fn belongs(self, category: Category) -> bool {
        match category {
            Category::Staged => self.index_new || self.index_modified || self.index_typechange
                || self.index_renamed || self.index_deleted,
            Category::Changed => self.wt_modified || self.wt_typechange || self.wt_deleted,
            Category::Untracked => self.wt_new,
            Category::Conflicted => self.conflicted,
        }
    }

    /// Whether the path counts towards `category`.
    pub fn counts_as(&self, category: Category) -> (b: bool)
        ensures
            b == self.belongs(category),
    {
        match category {
            Category::Staged => self.index_new || self.index_modified || self.index_typechange
                || self.index_renamed || self.index_deleted,
            Category::Changed => self.wt_modified || self.wt_typechange || self.wt_deleted,
            Category::Untracked => self.wt_new,
            Category::Conflicted => self.conflicted,
        }
    }
}

/// How many of `statuses` count towards `category`.
pub open spec fn count(statuses: Seq<FileStatus>, category: Category) -> nat
    decreases statuses.len(),
{
    if statuses.len() == 0 {
        0
    } else {
        count(statuses.drop_last(), category) + if statuses.last().belongs(category) {
            1nat
        } else {
            0nat
        }
    }
}

/// No more paths count than there are.
pub proof fn lemma_count_bound(statuses: Seq<FileStatus>, category: Category)
    ensures
        count(statuses, category) <= statuses.len(),
    decreases statuses.len(),
{
    if statuses.len() > 0 {
        lemma_count_bound(statuses.drop_last(), category);
    }
}

/// How many paths count in each way.
#[derive(Clone, Copy, Debug, PartialEq, Eq, Structural)]
pub struct StatusCounts {
    pub staged: usize,
    pub changed: usize,
    pub untracked: usize,
    pub conflicted: usize,
}

/// Counts the paths of each category.
pub fn classify(statuses: &Vec<FileStatus>) -> (counts: StatusCounts)
    ensures
        counts.staged == count(statuses@, Category::Staged),
        counts.changed == count(statuses@, Category::Changed),
        counts.untracked == count(statuses@, Category::Untracked),
        counts.conflicted == count(statuses@, Category::Conflicted),
{
    let mut counts = StatusCounts { staged: 0, changed: 0, untracked: 0, conflicted: 0 };
    let mut i: usize = 0;
    assert(statuses@.take(0) =~= Seq::<FileStatus>::empty());
    while i < statuses.len()
        invariant
            i <= statuses.len(),
            counts.staged == count(statuses@.take(i as int), Category::Staged),
            counts.changed == count(statuses@.take(i as int), Category::Changed),
            counts.untracked == count(statuses@.take(i as int), Category::Untracked),
            counts.conflicted == count(statuses@.take(i as int), Category::Conflicted),
        decreases statuses.len() - i,
    {
        let status = &statuses[i];
        proof {
            let seen = statuses@.take(i as int);
            assert(statuses@.take(i + 1).drop_last() =~= seen);
            assert(statuses@.take(i + 1).last() == statuses@[i as int]);
            lemma_count_bound(seen, Category::Staged);
            lemma_count_bound(seen, Category::Changed);
            lemma_count_bound(seen, Category::Untracked);
            lemma_count_bound(seen, Category::Conflicted);
        }
        if status.counts_as(Category::Staged) {
            counts.staged += 1;
        }
        if status.counts_as(Category::Changed) {
            counts.changed += 1;
        }
        if status.counts_as(Category::Untracked) {
            counts.untracked += 1;
        }
        if status.counts_as(Category::Conflicted) {
            counts.conflicted += 1;
        }
        i += 1;
    }
    assert(statuses@.take(statuses.len() as int) =~= statuses@);
    counts
}

/// What is known of one local branch.
#[derive(Debug)]
pub struct BranchInfo {
    /// Whether the branch is the one checked out.
    pub is_head: bool,
    /// The revision the branch points to.
    pub target: Option<ObjectId>,
    /// The revision its upstream points to, if it has an upstream.
    pub upstream: Option<ObjectId>,
    /// Its name, if the name is valid text.
    pub name: Option<String>,
}

/// What is known of one local branch.
pub struct BranchView {
    pub is_head: bool,
    pub target: Option<ObjectId>,
    pub upstream: Option<ObjectId>,
    pub name: Option<Seq<char>>,
}

impl DeepView for BranchInfo {
    type V = BranchView;

    open spec fn deep_view(&self) -> BranchView {
        BranchView {
            is_head: self.is_head,
            target: self.target,
            upstream: self.upstream,
            name: self.name.deep_view(),
        }
    }
}

/// What the prompt shows the checked-out revision as.
#[derive(Debug)]
pub enum Identity {
    /// The branches were not listed yet.
    Untried,
    /// The branches could not be listed.
    Missing,
    /// No branch with a name is checked out; the head itself has not
    /// been asked yet.
    Detached { local: Option<ObjectId>, upstream: Option<ObjectId> },
    /// There is nothing to name: a repository without a commit.
    Unborn,
    /// The name of the branch, or the short name of the revision.
    Named { name: String, local: Option<ObjectId>, upstream: Option<ObjectId> },
}

/// What the prompt shows the checked-out revision as.
pub enum IdentityView {
    Untried,
    Missing,
    Detached { local: Option<ObjectId>, upstream: Option<ObjectId> },
    Unborn,
    Named { name: Seq<char>, local: Option<ObjectId>, upstream: Option<ObjectId> },
}

impl DeepView for Identity {
    type V = IdentityView;

    open spec fn deep_view(&self) -> IdentityView {
        match self {
            Identity::Untried => IdentityView::Untried,
            Identity::Missing => IdentityView::Missing,
            Identity::Detached { local, upstream } => IdentityView::Detached {
                local: *local,
                upstream: *upstream,
            },
            Identity::Unborn => IdentityView::Unborn,
            Identity::Named { name, local, upstream } => IdentityView::Named {
                name: name@,
                local: *local,
                upstream: *upstream,
            },
        }
    }
}

/// What a producer needs to learn next.
#[derive(Clone, Copy, Debug, PartialEq, Eq)]
pub enum GitRequest {
    /// Whether the working directory lies in a repository.
    Discover,
    /// The local branches.
    Branches,
    /// The short name of the revision that is checked out.
    Head,
    /// The state of every path, in the index and in the working tree.
    Statuses,
    /// How many commits each of the two revisions has that the other lacks.
    Distance { local: ObjectId, upstream: ObjectId },
    /// How many stashes there are.
    Stashes,
    /// Nothing: the producer is done.
    Done,
}

/// What was learnt of the repository.
#[derive(Debug)]
pub enum GitReply {
    /// Nothing yet.
    Start,
    /// Whether a repository was found.
    Discovered(bool),
    /// The local branches, each `None` where it could not be read; `None`
    /// where they could not be listed.
    Branches(Option<Vec<Option<BranchInfo>>>),
    /// The short name of the revision that is checked out; `None` where
    /// there is none to name.
    Head(Option<String>),
    /// The state of every path; `None` where it could not be read.
    Statuses(Option<Vec<FileStatus>>),
    /// The commits ahead and the commits behind; `None` where they could
    /// not be counted.
    Distance(Option<(usize, usize)>),
    /// The number of stashes.
    Stashes(usize),
}

/// What was learnt of the repository.
pub enum GitReplyView {
    Start,
    Discovered(bool),
    Branches(Option<Seq<Option<BranchView>>>),
    Head(Option<Seq<char>>),
    Statuses(Option<Seq<FileStatus>>),
    Distance(Option<(usize, usize)>),
    Stashes(usize),
}

impl DeepView for GitReply {
    type V = GitReplyView;

    open spec fn deep_view(&self) -> GitReplyView {
        match self {
            GitReply::Start => GitReplyView::Start,
            GitReply::Discovered(found) => GitReplyView::Discovered(*found),
            GitReply::Branches(branches) => GitReplyView::Branches(branches.deep_view()),
            GitReply::Head(name) => GitReplyView::Head(name.deep_view()),
            GitReply::Statuses(statuses) => GitReplyView::Statuses(statuses.deep_view()),
            GitReply::Distance(distance) => GitReplyView::Distance(*distance),
            GitReply::Stashes(stashes) => GitReplyView::Stashes(*stashes),
        }
    }
}

impl GitReplyView {
    /// Whether this is what `request` asked for.
    pub open spec fn answers(self, request: GitRequest) -> bool {
        match self {
            GitReplyView::Start => false,
            GitReplyView::Discovered(_) => request is Discover,
            GitReplyView::Branches(_) => request is Branches,
            GitReplyView::Head(_) => request is Head,
            GitReplyView::Statuses(_) => request is Statuses,
            GitReplyView::Distance(_) => request is Distance,
            GitReplyView::Stashes(_) => request is Stashes,
        }
    }
}

/// Everything that was learnt of the repository so far.
#[derive(Debug)]
pub struct GitCache {
    /// Whether the working directory lies in a repository.
    pub repository: Cached<()>,
    /// The name to show.
    pub identity: Identity,
    /// The state of every path.
    pub statuses: Cached<Vec<FileStatus>>,
    /// The commits ahead of the upstream and the commits behind it.
    pub distance: Cached<(usize, usize)>,
    /// The number of stashes.
    pub stashes: Cached<usize>,
}

/// Everything that was learnt of the repository so far.
pub struct GitCacheView {
    pub repository: Cached<()>,
    pub identity: IdentityView,
    pub statuses: Cached<Seq<FileStatus>>,
    pub distance: Cached<(usize, usize)>,
    pub stashes: Cached<usize>,
}

impl DeepView for GitCache {
    type V = GitCacheView;

    open spec fn deep_view(&self) -> GitCacheView {
        GitCacheView {
            repository: self.repository,
            identity: self.identity.deep_view(),
            statuses: self.statuses.deep_view(),
            distance: self.distance,
            stashes: self.stashes,
        }
    }
}

/// The branch that is checked out, as the list of branches shows it: the
/// first branch that is the head and has a name gives the name and both
/// revisions. Where there is none, the last branch that is the head gives
/// the revisions, and the name is still to be found.
pub open spec fn current_branch_spec(branches: Seq<Option<BranchView>>) -> IdentityView
    decreases branches.len(),
{
    if branches.len() == 0 {
        IdentityView::Detached { local: None, upstream: None }
    } else {
        let before = current_branch_spec(branches.drop_last());
        match (before, branches.last()) {
            (IdentityView::Named { .. }, _) => before,
            (_, Some(branch)) => if branch.is_head {
                match branch.name {
                    Some(name) => IdentityView::Named {
                        name,
                        local: branch.target,
                        upstream: branch.upstream,
                    },
                    None => IdentityView::Detached {
                        local: branch.target,
                        upstream: branch.upstream,
                    },
                }
            } else {
                before
            },
            (_, None) => before,
        }
    }
}

/// The text of the segment that names the branch.
pub open spec fn branch_label(name: Seq<char>) -> Seq<char> {
    seq![BRANCH, ' '] + name
}

/// The text of a segment that shows a number: a glyph, a space, the number.
pub open spec fn count_label(glyph: char, n: nat) -> Seq<char> {
    seq![glyph, ' '] + decimal(n)
}

/// The segment for a number, which is shown only where it is positive.
pub open spec fn counted(bg: u8, fg: u8, glyph: char, n: nat) -> Seq<SegmentView> {
    if n > 0 {
        seq![SegmentView::plain(bg, fg, count_label(glyph, n))]
    } else {
        Seq::empty()
    }
}

impl GitCacheView {
    /// Nothing is known.
    pub open spec fn untried() -> GitCacheView {
        GitCacheView {
            repository: Cached::Untried,
            identity: IdentityView::Untried,
            statuses: Cached::Untried,
            distance: Cached::Untried,
            stashes: Cached::Untried,
        }
    }

    /// What the branch segments need next: the repository, then the name
    /// to show, then the state of the paths, then, where the branch and its
    /// upstream are both known, the distance between them. Anything that is
    /// missing ends the search, and so does a repository without a commit.
    pub open spec fn branch_request(self) -> GitRequest {
        match self.repository {
            Cached::Untried => GitRequest::Discover,
            Cached::Missing => GitRequest::Done,
            Cached::Found(_) => match self.identity {
                IdentityView::Untried => GitRequest::Branches,
                IdentityView::Missing => GitRequest::Done,
                IdentityView::Detached { .. } => GitRequest::Head,
                IdentityView::Unborn => GitRequest::Done,
                IdentityView::Named { name, local, upstream } => match self.statuses {
                    Cached::Untried => GitRequest::Statuses,
                    Cached::Missing => GitRequest::Done,
                    Cached::Found(_) => match (local, upstream, self.distance) {
                        (Some(local), Some(upstream), Cached::Untried) => GitRequest::Distance {
                            local,
                            upstream,
                        },
                        _ => GitRequest::Done,
                    },
                },
            },
        }
    }

    /// What the staging segments need next: the repository, then the state
    /// of the paths, then the number of stashes.
    pub open spec fn stage_request(self) -> GitRequest {
        match self.repository {
            Cached::Untried => GitRequest::Discover,
            Cached::Missing => GitRequest::Done,
            Cached::Found(_) => match self.statuses {
                Cached::Untried => GitRequest::Statuses,
                Cached::Missing => GitRequest::Done,
                Cached::Found(_) => match self.stashes {
                    Cached::Untried => GitRequest::Stashes,
                    _ => GitRequest::Done,
                },
            },
        }
    }

    /// Whether one of the producers would ask for `reply` now.
    pub open spec fn wants(self, reply: GitReplyView) -> bool {
        reply.answers(self.branch_request()) || reply.answers(self.stage_request())
    }

    /// What is known once `reply` has come in. A reply that nothing asked
    /// for changes nothing, so that what was learnt once stays as it is.
    pub open spec fn record(self, reply: GitReplyView) -> GitCacheView {
        if !self.wants(reply) {
            self
        } else {
            match reply {
                GitReplyView::Start => self,
                GitReplyView::Discovered(found) => GitCacheView {
                    repository: if found {
                        Cached::Found(())
                    } else {
                        Cached::Missing
                    },
                    ..self
                },
                GitReplyView::Branches(branches) => GitCacheView {
                    identity: match branches {
                        Some(branches) => current_branch_spec(branches),
                        None => IdentityView::Missing,
                    },
                    ..self
                },
                GitReplyView::Head(short) => GitCacheView {
                    identity: match (short, self.identity) {
                        (Some(name), IdentityView::Detached { local, upstream }) => {
                            IdentityView::Named { name, local, upstream }
                        },
                        _ => IdentityView::Unborn,
                    },
                    ..self
                },
                GitReplyView::Statuses(statuses) => GitCacheView {
                    statuses: match statuses {
                        Some(statuses) => Cached::Found(statuses),
                        None => Cached::Missing,
                    },
                    ..self
                },
                GitReplyView::Distance(distance) => GitCacheView {
                    distance: match distance {
                        Some(distance) => Cached::Found(distance),
                        None => Cached::Missing,
                    },
                    ..self
                },
                GitReplyView::Stashes(stashes) => GitCacheView {
                    stashes: Cached::Found(stashes),
                    ..self
                },
            }
        }
    }

    /// The segments for the commits ahead of the upstream and behind it.
    pub open spec fn distance_segments(self, theme: Theme) -> Seq<SegmentView> {
        match (self.identity, self.distance) {
            (
                IdentityView::Named { name, local: Some(_), upstream: Some(_) },
                Cached::Found((ahead, behind)),
            ) => counted(theme.git_ahead_bg, theme.git_ahead_fg, theme.git_ahead_char, ahead as nat)
                + counted(
                theme.git_behind_bg,
                theme.git_behind_fg,
                theme.git_behind_char,
                behind as nat,
            ),
            _ => Seq::empty(),
        }
    }

    /// The segments that name the branch, once nothing more is to be
    /// asked: none outside a repository or where something is missing; a
    /// placeholder for a repository without a commit; else the name, in the
    /// clean colours if no path has a state and in the dirty ones otherwise,
    /// and after it the distance to the upstream.
    pub open spec fn branch_segments(self, theme: Theme) -> Seq<SegmentView> {
        match (self.repository, self.identity, self.statuses) {
            (Cached::Found(_), IdentityView::Unborn, _) => seq![
                SegmentView::plain(theme.git_dirty_bg, theme.git_dirty_fg, "Big Bang"@),
            ],
            (Cached::Found(_), IdentityView::Named { name, .. }, Cached::Found(statuses)) => seq![
                if statuses.len() == 0 {
                    SegmentView::plain(theme.git_clean_bg, theme.git_clean_fg, branch_label(name))
                } else {
                    SegmentView::plain(theme.git_dirty_bg, theme.git_dirty_fg, branch_label(name))
                },
            ] + self.distance_segments(theme),
            _ => Seq::empty(),
        }
    }

    /// The segments that count the paths and the stashes, once nothing
    /// more is to be asked: one for each number that is positive.
    pub open spec fn stage_segments(self, theme: Theme) -> Seq<SegmentView> {
        match (self.repository, self.statuses, self.stashes) {
            (Cached::Found(_), Cached::Found(statuses), Cached::Found(stashes)) => counted(
                theme.git_staged_bg,
                theme.git_staged_fg,
                theme.git_staged_char,
                count(statuses, Category::Staged),
            ) + counted(
                theme.git_changed_bg,
                theme.git_changed_fg,
                theme.git_changed_char,
                count(statuses, Category::Changed),
            ) + counted(
                theme.git_untracked_bg,
                theme.git_untracked_fg,
                theme.git_untracked_char,
                count(statuses, Category::Untracked),
            ) + counted(
                theme.git_conflicted_bg,
                theme.git_conflicted_fg,
                theme.git_conflicted_char,
                count(statuses, Category::Conflicted),
            ) + counted(
                theme.git_stashed_bg,
                theme.git_stashed_fg,
                theme.git_stashed_char,
                stashes as nat,
            ),
            _ => Seq::empty(),
        }
    }
}

impl GitCacheView {
    /// How much is still to be learnt, counted so that every reply that a
    /// producer asked for makes it less.
    pub open spec fn unknowns(self) -> nat {
        (if self.repository is Untried {
            1nat
        } else {
            0nat
        }) + (match self.identity {
            IdentityView::Untried => 2nat,
            IdentityView::Detached { .. } => 1nat,
            _ => 0nat,
        }) + (if self.statuses is Untried {
            1nat
        } else {
            0nat
        }) + (if self.distance is Untried {
            1nat
        } else {
            0nat
        }) + (if self.stashes is Untried {
            1nat
        } else {
            0nat
        })
    }
}

/// A producer asks only for what is not known yet.
pub proof fn lemma_asks_for_unknown(cache: GitCacheView)
    ensures
        cache.branch_request() is Discover || cache.stage_request() is Discover
            ==> cache.repository is Untried,
        cache.branch_request() is Branches ==> cache.identity is Untried,
        cache.branch_request() is Head ==> cache.identity is Detached,
        cache.branch_request() is Statuses || cache.stage_request() is Statuses
            ==> cache.statuses is Untried,
        cache.branch_request() matches GitRequest::Distance { local, upstream }
            ==> cache.distance is Untried && (cache.identity matches IdentityView::Named {
            local: l,
            upstream: u,
            ..
        } && l == Some(local) && u == Some(upstream)),
        cache.stage_request() is Stashes ==> cache.stashes is Untried,
        !(cache.branch_request() is Stashes),
        !(cache.stage_request() is Branches || cache.stage_request() is Head
            || cache.stage_request() is Distance),
{
}

/// What was learnt once stays as it is, whatever comes in later.
pub proof fn lemma_learnt_once(cache: GitCacheView, reply: GitReplyView)
    ensures
        !(cache.repository is Untried) ==> cache.record(reply).repository == cache.repository,
        !(cache.identity is Untried || cache.identity is Detached) ==> cache.record(
            reply,
        ).identity == cache.identity,
        !(cache.statuses is Untried) ==> cache.record(reply).statuses == cache.statuses,
        !(cache.distance is Untried) ==> cache.record(reply).distance == cache.distance,
        !(cache.stashes is Untried) ==> cache.record(reply).stashes == cache.stashes,
{
}

/// A reply that was asked for leaves less to learn, and any other reply
/// changes nothing. So a producer that is called again with the reply to each
/// of its requests is done after at most six requests.
pub proof fn lemma_reply_makes_progress(cache: GitCacheView, reply: GitReplyView)
    ensures
        cache.unknowns() <= 6,
        cache.wants(reply) ==> cache.record(reply).unknowns() < cache.unknowns(),
        !cache.wants(reply) ==> cache.record(reply) == cache,
        cache.unknowns() == 0 ==> cache.branch_request() is Done && cache.stage_request() is Done,
{
    if cache.wants(reply) {
        if let GitReplyView::Branches(Some(branches)) = reply {
            lemma_current_branch_kind(branches);
        }
    }
}

/// The list of branches gives a name, or the revisions of a head without one.
pub proof fn lemma_current_branch_kind(branches: Seq<Option<BranchView>>)
    ensures
        current_branch_spec(branches) is Named || current_branch_spec(branches) is Detached,
    decreases branches.len(),
{
    if branches.len() > 0 {
        lemma_current_branch_kind(branches.drop_last());
    }
}

/// Whether the branch at `i` is checked out and has a name.
pub open spec fn is_named_head(branches: Seq<Option<BranchView>>, i: int) -> bool {
    0 <= i < branches.len() && (branches[i] matches Some(branch) && branch.is_head
        && branch.name is Some)
}

/// Whether the branch at `i` is checked out.
pub open spec fn is_head(branches: Seq<Option<BranchView>>, i: int) -> bool {
    0 <= i < branches.len() && (branches[i] matches Some(branch) && branch.is_head)
}

/// The first branch that is checked out and has a name is the one shown,
/// with its own revision and that of its upstream.
pub proof fn lemma_current_branch_named(branches: Seq<Option<BranchView>>, k: int)
    requires
        is_named_head(branches, k),
        forall|j: int| 0 <= j < k ==> !is_named_head(branches, j),
    ensures
        current_branch_spec(branches) == (IdentityView::Named {
            name: branches[k]->0.name->0,
            local: branches[k]->0.target,
            upstream: branches[k]->0.upstream,
        }),
    decreases branches.len(),
{
    let before = branches.drop_last();
    lemma_current_branch_kind(before);
    if k < branches.len() - 1 {
        assert(is_named_head(before, k));
        assert forall|j: int| 0 <= j < k implies !is_named_head(before, j) by {
            assert(!is_named_head(branches, j));
        }
        lemma_current_branch_named(before, k);
    } else {
        assert forall|j: int| 0 <= j < before.len() implies !is_named_head(before, j) by {
            assert(!is_named_head(branches, j));
        }
        lemma_current_branch_unnamed(before);
    }
}

/// Where no branch is checked out under a name, no name is found, and the
/// revisions are those of the last branch that is checked out, if there is one.
pub proof fn lemma_current_branch_unnamed(branches: Seq<Option<BranchView>>)
    requires
        forall|j: int| 0 <= j < branches.len() ==> !is_named_head(branches, j),
    ensures
        current_branch_spec(branches) is Detached,
        forall|k: int|
            is_head(branches, k) && (forall|j: int| k < j < branches.len() ==> !is_head(branches, j))
                ==> current_branch_spec(branches) == (IdentityView::Detached {
                local: branches[k]->0.target,
                upstream: branches[k]->0.upstream,
            }),
        (forall|j: int| 0 <= j < branches.len() ==> !is_head(branches, j)) ==> current_branch_spec(
            branches,
        ) == (IdentityView::Detached { local: None, upstream: None }),
    decreases branches.len(),
{
    if branches.len() > 0 {
        let before = branches.drop_last();
        let last = branches.len() - 1;
        assert forall|j: int| 0 <= j < before.len() implies !is_named_head(before, j) by {
            assert(!is_named_head(branches, j));
        }
        lemma_current_branch_unnamed(before);
        assert(!is_named_head(branches, last));
        assert forall|k: int|
            is_head(branches, k) && (forall|j: int|
                k < j < branches.len() ==> !is_head(branches, j)) implies current_branch_spec(
            branches,
        ) == (IdentityView::Detached {
            local: branches[k]->0.target,
            upstream: branches[k]->0.upstream,
        }) by {
            if k < last {
                assert(!is_head(branches, last));
                assert(is_head(before, k));
                assert forall|j: int| k < j < before.len() implies !is_head(before, j) by {
                    assert(!is_head(branches, j));
                }
            }
        }
        if forall|j: int| 0 <= j < branches.len() ==> !is_head(branches, j) {
            assert(!is_head(branches, last));
            assert forall|j: int| 0 <= j < before.len() implies !is_head(before, j) by {
                assert(!is_head(branches, j));
            }
        }
    }
}

/// Finds the branch that is checked out among the local branches.
pub fn current_branch(branches: &Vec<Option<BranchInfo>>) -> (identity: Identity)
    ensures
        identity.deep_view() == current_branch_spec(branches.deep_view()),
{
    let ghost all = branches.deep_view();
    let mut identity = Identity::Detached { local: None, upstream: None };
    let mut i: usize = 0;
    assert(all.take(0) =~= Seq::<Option<BranchView>>::empty());
    while i < branches.len()
        invariant
            i <= branches.len(),
            all == branches.deep_view(),
            identity.deep_view() == current_branch_spec(all.take(i as int)),
        decreases branches.len() - i,
    {
        proof {
            assert(all.take(i + 1).drop_last() =~= all.take(i as int));
            assert(all.take(i + 1).last() == branches@[i as int].deep_view());
        }
        let named = match &identity {
            Identity::Named { .. } => true,
            _ => false,
        };
        if !named {
            match &branches[i] {
                Some(branch) => {
                    if branch.is_head {
                        identity = match &branch.name {
                            Some(name) => Identity::Named {
                                name: name.clone(),
                                local: branch.target,
                                upstream: branch.upstream,
                            },
                            None => Identity::Detached {
                                local: branch.target,
                                upstream: branch.upstream,
                            },
                        };
                    }
                },
                None => {},
            }
        }
        i += 1;
    }
    assert(all.take(branches.len() as int) =~= all);
    identity
}

impl GitCache {
    /// Nothing is known.
    pub fn new() -> (cache: GitCache)
        ensures
            cache.deep_view() == GitCacheView::untried(),
    {
        GitCache {
            repository: Cached::Untried,
            identity: Identity::Untried,
            statuses: Cached::Untried,
            distance: Cached::Untried,
            stashes: Cached::Untried,
        }
    }

    /// What the branch segments need next.
    pub fn branch_request(&self) -> (request: GitRequest)
        ensures
            request == self.deep_view().branch_request(),
    {
        match &self.repository {
            Cached::Untried => GitRequest::Discover,
            Cached::Missing => GitRequest::Done,
            Cached::Found(_) => match &self.identity {
                Identity::Untried => GitRequest::Branches,
                Identity::Missing => GitRequest::Done,
                Identity::Detached { .. } => GitRequest::Head,
                Identity::Unborn => GitRequest::Done,
                Identity::Named { name, local, upstream } => match &self.statuses {
                    Cached::Untried => GitRequest::Statuses,
                    Cached::Missing => GitRequest::Done,
                    Cached::Found(_) => match (local, upstream, &self.distance) {
                        (Some(local), Some(upstream), Cached::Untried) => GitRequest::Distance {
                            local: *local,
                            upstream: *upstream,
                        },
                        _ => GitRequest::Done,
                    },
                },
            },
        }
    }

    /// What the staging segments need next.
    pub fn stage_request(&self) -> (request: GitRequest)
        ensures
            request == self.deep_view().stage_request(),
    {
        match &self.repository {
            Cached::Untried => GitRequest::Discover,
            Cached::Missing => GitRequest::Done,
            Cached::Found(_) => match &self.statuses {
                Cached::Untried => GitRequest::Statuses,
                Cached::Missing => GitRequest::Done,
                Cached::Found(_) => match &self.stashes {
                    Cached::Untried => GitRequest::Stashes,
                    _ => GitRequest::Done,
                },
            },
        }
    }

    /// Whether `reply` is what `request` asked for.
    fn answers(reply: &GitReply, request: &GitRequest) -> (b: bool)
        ensures
            b == reply.deep_view().answers(*request),
    {
        match (reply, request) {
            (GitReply::Discovered(_), GitRequest::Discover) => true,
            (GitReply::Branches(_), GitRequest::Branches) => true,
            (GitReply::Head(_), GitRequest::Head) => true,
            (GitReply::Statuses(_), GitRequest::Statuses) => true,
            (GitReply::Distance(_), GitRequest::Distance { .. }) => true,
            (GitReply::Stashes(_), GitRequest::Stashes) => true,
            _ => false,
        }
    }

    /// Keeps what `reply` tells, if a producer asked for it.
    pub fn record(&mut self, reply: GitReply)
        ensures
            final(self).deep_view() == old(self).deep_view().record(reply.deep_view()),
    {
        let for_branch = self.branch_request();
        let for_stage = self.stage_request();
        if !(GitCache::answers(&reply, &for_branch) || GitCache::answers(&reply, &for_stage)) {
            return ;
        }
        match reply {
            GitReply::Start => {},
            GitReply::Discovered(found) => {
                self.repository = if found {
                    Cached::Found(())
                } else {
                    Cached::Missing
                };
            },
            GitReply::Branches(branches) => {
                self.identity = match branches {
                    Some(branches) => current_branch(&branches),
                    None => Identity::Missing,
                };
            },
            GitReply::Head(short) => {
                let revisions = match &self.identity {
                    Identity::Detached { local, upstream } => Some((*local, *upstream)),
                    _ => None,
                };
                self.identity = match (short, revisions) {
                    (Some(name), Some((local, upstream))) => Identity::Named {
                        name,
                        local,
                        upstream,
                    },
                    _ => Identity::Unborn,
                };
            },
            GitReply::Statuses(statuses) => {
                self.statuses = match statuses {
                    Some(statuses) => Cached::Found(statuses),
                    None => Cached::Missing,
                };
            },
            GitReply::Distance(distance) => {
                self.distance = match distance {
                    Some(distance) => Cached::Found(distance),
                    None => Cached::Missing,
                };
            },
            GitReply::Stashes(stashes) => {
                self.stashes = Cached::Found(stashes);
            },
        }
    }
}

/// Adds a segment with nothing but its colours and its text.
fn add_plain(p: &mut Powerline, bg: u8, fg: u8, text: String)
    ensures
        final(p)@ == (PowerlineView {
            segments: old(p)@.segments.push(SegmentView::plain(bg, fg, text@)),
            ..old(p)@
        }),
        final(p).repository == old(p).repository,
{
    p.push(Segment::new(bg, fg, text));
}

/// Adds the segment for a number, if the number is positive.
fn add_counted(p: &mut Powerline, bg: u8, fg: u8, glyph: char, n: usize)
    ensures
        final(p)@ == (PowerlineView {
            segments: old(p)@.segments + counted(bg, fg, glyph, n as nat),
            ..old(p)@
        }),
        final(p).repository == old(p).repository,
{
    if n > 0 {
        let mut text = String::new();
        text.push(glyph);
        text.push(' ');
        push_decimal(&mut text, n);
        assert(text@ =~= count_label(glyph, n as nat));
        add_plain(p, bg, fg, text);
        assert(old(p)@.segments.push(SegmentView::plain(bg, fg, text@)) =~= old(p)@.segments
            + counted(bg, fg, glyph, n as nat));
    } else {
        assert(old(p)@.segments =~= old(p)@.segments + counted(bg, fg, glyph, n as nat));
    }
}

/// Adds the segments for the commits ahead of the upstream and behind it.
fn add_distance(p: &mut Powerline)
    ensures
        final(p)@ == (PowerlineView {
            segments: old(p)@.segments + old(p)@.git.distance_segments(old(p)@.theme),
            ..old(p)@
        }),
        final(p).repository == old(p).repository,
{
    let known = match &p.git.identity {
        Identity::Named { name, local: Some(_), upstream: Some(_) } => true,
        _ => false,
    };
    let distance = match &p.git.distance {
        Cached::Found((ahead, behind)) => Some((*ahead, *behind)),
        _ => None,
    };
    let theme = p.theme;
    match distance {
        Some((ahead, behind)) => {
            if known {
                add_counted(p, theme.git_ahead_bg, theme.git_ahead_fg, theme.git_ahead_char, ahead);
                add_counted(
                    p,
                    theme.git_behind_bg,
                    theme.git_behind_fg,
                    theme.git_behind_char,
                    behind,
                );
                assert(p@.segments =~= old(p)@.segments + old(p)@.git.distance_segments(theme));
                return ;
            }
        },
        None => {},
    }
    assert(p@.segments =~= old(p)@.segments + old(p)@.git.distance_segments(theme));
}

/// One step towards the segment that names the branch and the distance to
/// its upstream. Called with what was last read from the repository, it
/// answers with what it needs next; once it answers `Done`, it has added
/// the segments.
pub fn branch_step(p: &mut Powerline, reply: GitReply) -> (request: GitRequest)
    ensures
        request == final(p)@.git.branch_request(),
        final(p)@ == (PowerlineView {
            git: old(p)@.git.record(reply.deep_view()),
            segments: old(p)@.segments + if request is Done {
                old(p)@.git.record(reply.deep_view()).branch_segments(old(p)@.theme)
            } else {
                Seq::empty()
            },
            ..old(p)@
        }),
        final(p).repository == old(p).repository,
{
    p.git.record(reply);
    let ghost before = p@;
    let request = p.git.branch_request();
    let theme = p.theme;
    assert(before.segments =~= before.segments + Seq::<SegmentView>::empty());
    match request {
        GitRequest::Done => {},
        _ => {
            return request;
        },
    }
    match &p.git.repository {
        Cached::Found(_) => {},
        _ => {
            return request;
        },
    }
    let dirty = match &p.git.statuses {
        Cached::Found(statuses) => Some(statuses.len() > 0),
        _ => None,
    };
    let label = match &p.git.identity {
        Identity::Unborn => {
            let mut text = String::new();
            text.append("Big Bang");
            assert(text@ =~= "Big Bang"@);
            add_plain(p, theme.git_dirty_bg, theme.git_dirty_fg, text);
            assert(p@.segments =~= before.segments + before.git.branch_segments(theme));
            return request;
        },
        Identity::Named { name, .. } => {
            let mut text = String::new();
            text.push(BRANCH);
            text.push(' ');
            text.append(name.as_str());
            assert(text@ =~= branch_label(name@));
            text
        },
        _ => {
            return request;
        },
    };
    match dirty {
        Some(true) => add_plain(p, theme.git_dirty_bg, theme.git_dirty_fg, label),
        Some(false) => add_plain(p, theme.git_clean_bg, theme.git_clean_fg, label),
        None => {
            return request;
        },
    }
    add_distance(p);
    assert(p@.segments =~= before.segments + before.git.branch_segments(theme));
    request
}

/// One step towards the segments that count the staged, changed,
/// untracked and conflicted paths and the stashes. Called with what was
/// last read from the repository, it answers with what it needs next; once
/// it answers `Done`, it has added the segments.
pub fn stage_step(p: &mut Powerline, reply: GitReply) -> (request: GitRequest)
    ensures
        request == final(p)@.git.stage_request(),
        final(p)@ == (PowerlineView {
            git: old(p)@.git.record(reply.deep_view()),
            segments: old(p)@.segments + if request is Done {
                old(p)@.git.record(reply.deep_view()).stage_segments(old(p)@.theme)
            } else {
                Seq::empty()
            },
            ..old(p)@
        }),
        final(p).repository == old(p).repository,
{
    p.git.record(reply);
    let ghost before = p@;
    let request = p.git.stage_request();
    let theme = p.theme;
    assert(before.segments =~= before.segments + Seq::<SegmentView>::empty());
    match request {
        GitRequest::Done => {},
        _ => {
            return request;
        },
    }
    match &p.git.repository {
        Cached::Found(_) => {},
        _ => {
            return request;
        },
    }
    let stashes = match &p.git.stashes {
        Cached::Found(stashes) => *stashes,
        _ => {
            return request;
        },
    };
    let counts = match &p.git.statuses {
        Cached::Found(statuses) => {
            assert(statuses.deep_view() =~= statuses@);
            classify(statuses)
        },
        _ => {
            return request;
        },
    };
    let ghost listed = before.git.statuses->Found_0;
    let ghost c1 = counted(
        theme.git_staged_bg,
        theme.git_staged_fg,
        theme.git_staged_char,
        count(listed, Category::Staged),
    );
    let ghost c2 = counted(
        theme.git_changed_bg,
        theme.git_changed_fg,
        theme.git_changed_char,
        count(listed, Category::Changed),
    );
    let ghost c3 = counted(
        theme.git_untracked_bg,
        theme.git_untracked_fg,
        theme.git_untracked_char,
        count(listed, Category::Untracked),
    );
    let ghost c4 = counted(
        theme.git_conflicted_bg,
        theme.git_conflicted_fg,
        theme.git_conflicted_char,
        count(listed, Category::Conflicted),
    );
    let ghost c5 = counted(
        theme.git_stashed_bg,
        theme.git_stashed_fg,
        theme.git_stashed_char,
        stashes as nat,
    );
    add_counted(p, theme.git_staged_bg, theme.git_staged_fg, theme.git_staged_char, counts.staged);
    add_counted(
        p,
        theme.git_changed_bg,
        theme.git_changed_fg,
        theme.git_changed_char,
        counts.changed,
    );
    add_counted(
        p,
        theme.git_untracked_bg,
        theme.git_untracked_fg,
        theme.git_untracked_char,
        counts.untracked,
    );
    add_counted(
        p,
        theme.git_conflicted_bg,
        theme.git_conflicted_fg,
        theme.git_conflicted_char,
        counts.conflicted,
    );
    add_counted(p, theme.git_stashed_bg, theme.git_stashed_fg, theme.git_stashed_char, stashes);
    assert(before.git.stage_segments(theme) == c1 + c2 + c3 + c4 + c5);
    assert(p@.segments == before.segments + c1 + c2 + c3 + c4 + c5);
    assert(p@.segments =~= before.segments + (c1 + c2 + c3 + c4 + c5));
    request
}

impl GitCacheView {
    /// Whether everything that `earlier` knows is known here as well, and
    /// is the same.
    pub open spec fn extends(self, earlier: GitCacheView) -> bool {
        &&& !(earlier.repository is Untried) ==> self.repository == earlier.repository
        &&& !(earlier.identity is Untried || earlier.identity is Detached) ==> self.identity
            == earlier.identity
        &&& !(earlier.statuses is Untried) ==> self.statuses == earlier.statuses
        &&& !(earlier.distance is Untried) ==> self.distance == earlier.distance
        &&& !(earlier.stashes is Untried) ==> self.stashes == earlier.stashes
    }
}

/// Adds the segment that names the branch, and after it the distance to
/// the upstream of the branch. Whatever is needed and not known yet is read
/// from the repository, once; what came out decides the segments. Outside a
/// repository, and where something cannot be read, nothing is added.
pub fn segment_git(p: &mut Powerline)
    ensures
        final(p)@.git.branch_request() is Done,
        final(p)@.git.extends(old(p)@.git),
        old(p)@.git.branch_request() is Done ==> final(p)@.git == old(p)@.git && final(p).repository
            == old(p).repository,
        final(p)@ == (PowerlineView {
            git: final(p)@.git,
            segments: old(p)@.segments + final(p)@.git.branch_segments(old(p)@.theme),
            ..old(p)@
        }),
{
    let mut request = branch_step(p, GitReply::Start);
    loop
        invariant
            request == p@.git.branch_request(),
            p@.git.extends(old(p)@.git),
            old(p)@.git.branch_request() is Done ==> p@.git == old(p)@.git && p.repository
                == old(p).repository,
            p@.theme == old(p)@.theme,
            p@.shell == old(p)@.shell,
            p@.segments == old(p)@.segments + if request is Done {
                p@.git.branch_segments(old(p)@.theme)
            } else {
                Seq::empty()
            },
        decreases
                p@.git.unknowns() + if request is Done {
                    0nat
                } else {
                    1nat
                },
    {
        match request {
            GitRequest::Done => {
                return ;
            },
            _ => {},
        }
        let ghost known = p@.git;
        let reply = perform(&mut p.repository, request);
        proof {
            lemma_learnt_once(known, reply.deep_view());
            lemma_reply_makes_progress(known, reply.deep_view());
            assert(p@.segments =~= old(p)@.segments);
        }
        request = branch_step(p, reply);
    }
}

/// Adds the segments that count the staged, changed, untracked and
/// conflicted paths and the stashes, one for each number that is positive.
/// Whatever is needed and not known yet is read from the repository, once.
/// Outside a repository, and where the paths cannot be read, nothing is
/// added.
pub fn segment_gitstage(p: &mut Powerline)
    ensures
        final(p)@.git.stage_request() is Done,
        final(p)@.git.extends(old(p)@.git),
        old(p)@.git.stage_request() is Done ==> final(p)@.git == old(p)@.git && final(p).repository
            == old(p).repository,
        final(p)@ == (PowerlineView {
            git: final(p)@.git,
            segments: old(p)@.segments + final(p)@.git.stage_segments(old(p)@.theme),
            ..old(p)@
        }),
{
    let mut request = stage_step(p, GitReply::Start);
    loop
        invariant
            request == p@.git.stage_request(),
            p@.git.extends(old(p)@.git),
            old(p)@.git.stage_request() is Done ==> p@.git == old(p)@.git && p.repository
                == old(p).repository,
            p@.theme == old(p)@.theme,
            p@.shell == old(p)@.shell,
            p@.segments == old(p)@.segments + if request is Done {
                p@.git.stage_segments(old(p)@.theme)
            } else {
                Seq::empty()
            },
        decreases
                p@.git.unknowns() + if request is Done {
                    0nat
                } else {
                    1nat
                },
    {
        match request {
            GitRequest::Done => {
                return ;
            },
            _ => {},
        }
        let ghost known = p@.git;
        let reply = perform(&mut p.repository, request);
        proof {
            lemma_learnt_once(known, reply.deep_view());
            lemma_reply_makes_progress(known, reply.deep_view());
            assert(p@.segments =~= old(p)@.segments);
        }
        request = stage_step(p, reply);
    }
}

} // verus!
