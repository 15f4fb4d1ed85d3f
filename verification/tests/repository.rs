use powerline::segments::repository::perform;
use powerline::segments::segment_git::{Cached, GitReply, GitRequest, Identity, ObjectId, BRANCH};
use powerline::segments::{segment_git, segment_gitstage};
use powerline::theme::defaults;
use powerline::{Powerline, Shell};
use std::time::{SystemTime, UNIX_EPOCH};

fn scratch(name: &str) -> git2::Repository {
    let now = SystemTime::now().duration_since(UNIX_EPOCH).unwrap().as_nanos();
    let path = format!("/tmp/powerline-tests/{}-{}", name, now);
    git2::Repository::init(path).unwrap()
}

fn commit(repository: &git2::Repository, message: &str) -> git2::Oid {
    let signature = git2::Signature::now("Tester", "tester@example.com").unwrap();
    let tree = repository.find_tree(repository.index().unwrap().write_tree().unwrap()).unwrap();
    let parents: Vec<git2::Commit> = match repository.head() {
        Ok(head) => vec![head.peel_to_commit().unwrap()],
        Err(_) => Vec::new(),
    };
    let parents: Vec<&git2::Commit> = parents.iter().collect();
    repository.commit(Some("HEAD"), &signature, &signature, message, &tree, &parents).unwrap()
}

fn stage(repository: &git2::Repository, path: &str) {
    let entry = git2::IndexEntry {
        ctime: git2::IndexTime::new(0, 0),
        mtime: git2::IndexTime::new(0, 0),
        dev: 0,
        ino: 0,
        mode: 0o100644,
        uid: 0,
        gid: 0,
        file_size: 0,
        id: git2::Oid::zero(),
        flags: 0,
        flags_extended: 0,
        path: path.as_bytes().to_vec(),
    };
    let mut index = repository.index().unwrap();
    index.add_frombuffer(&entry, b"content").unwrap();
    index.write().unwrap();
}

fn track(repository: &git2::Repository, name: &str) {
    let mut branch = repository.find_branch(name, git2::BranchType::Local).unwrap();
    branch.set_upstream(Some(&format!("origin/{}", name))).unwrap();
}

fn inside(repository: git2::Repository) -> Powerline {
    let mut p = Powerline::new(defaults(), Shell::Bare);
    p.repository = Some(repository);
    p.git.repository = Cached::Found(());
    p
}

fn head_name(p: &Powerline) -> String {
    let head = p.repository.as_ref().unwrap().head().unwrap();
    head.shorthand().unwrap().to_string()
}

fn texts(p: &Powerline) -> Vec<String> {
    p.segments.iter().map(|s| s.text().to_string()).collect()
}

fn colours(p: &Powerline) -> Vec<(u8, u8)> {
    p.segments.iter().map(|s| (s.background(), s.foreground())).collect()
}

fn object_id(oid: git2::Oid) -> ObjectId {
    let mut bytes = [0u8; 20];
    bytes.copy_from_slice(oid.as_bytes());
    ObjectId { bytes }
}

#[test]
fn repository_without_commit_shows_placeholder() {
    let mut p = inside(scratch("unborn"));
    segment_git(&mut p);
    assert_eq!(texts(&p), vec!["Big Bang"]);
    assert!(matches!(p.git.identity, Identity::Unborn));
    assert!(matches!(p.git.statuses, Cached::Untried));
}

#[test]
fn repository_with_commit_shows_branch() {
    let repository = scratch("branch");
    let first = commit(&repository, "first");
    let mut p = inside(repository);
    segment_git(&mut p);
    assert_eq!(texts(&p), vec![format!("{} {}", BRANCH, head_name(&p))]);
    assert_eq!(colours(&p), vec![(236, 2)]);
    match &p.git.identity {
        Identity::Named { local, upstream, .. } => {
            assert_eq!(*local, Some(object_id(first)));
            assert_eq!(*upstream, None);
        }
        other => panic!("{:?}", other),
    }
    assert!(matches!(p.git.distance, Cached::Untried));
}

#[test]
fn repository_ahead_of_upstream() {
    let repository = scratch("ahead");
    let first = commit(&repository, "first");
    let name = repository.head().unwrap().shorthand().unwrap().to_string();
    repository.remote("origin", "/tmp/powerline-tests/nowhere").unwrap();
    repository
        .reference(&format!("refs/remotes/origin/{}", name), first, true, "tracking")
        .unwrap();
    track(&repository, &name);
    commit(&repository, "second");
    let third = commit(&repository, "third");
    let mut p = inside(repository);
    segment_git(&mut p);
    assert_eq!(texts(&p), vec![format!("{} {}", BRANCH, name), "\u{2b06} 2".to_string()]);
    assert!(matches!(p.git.distance, Cached::Found((2, 0))));
    match &p.git.identity {
        Identity::Named { local, upstream, .. } => {
            assert_eq!(*local, Some(object_id(third)));
            assert_eq!(*upstream, Some(object_id(first)));
        }
        other => panic!("{:?}", other),
    }
}

#[test]
fn repository_behind_upstream() {
    let repository = scratch("behind");
    let first = commit(&repository, "first");
    let name = repository.head().unwrap().shorthand().unwrap().to_string();
    let second = commit(&repository, "second");
    repository.remote("origin", "/tmp/powerline-tests/nowhere").unwrap();
    repository
        .reference(&format!("refs/remotes/origin/{}", name), second, true, "tracking")
        .unwrap();
    track(&repository, &name);
    repository
        .reference(&format!("refs/heads/{}", name), first, true, "back")
        .unwrap();
    let mut p = inside(repository);
    segment_git(&mut p);
    assert_eq!(texts(&p)[0], format!("{} {}", BRANCH, name));
    assert_eq!(texts(&p)[texts(&p).len() - 1], "\u{2b07} 1");
    assert!(matches!(p.git.distance, Cached::Found((0, 1))));
}

#[test]
fn repository_detached_head_shows_short_name() {
    let repository = scratch("detached");
    let first = commit(&repository, "first");
    repository.set_head_detached(first).unwrap();
    let mut p = inside(repository);
    segment_git(&mut p);
    let shown = texts(&p);
    assert_eq!(shown.len(), 1);
    let short = shown[0].strip_prefix(&format!("{} ", BRANCH)).unwrap().to_string();
    assert!(short.len() >= 4);
    assert!(first.to_string().starts_with(&short));
}

#[test]
fn repository_staged_path_is_counted() {
    let repository = scratch("staged");
    commit(&repository, "first");
    stage(&repository, "new.txt");
    let mut p = inside(repository);
    segment_gitstage(&mut p);
    match &p.git.statuses {
        Cached::Found(statuses) => {
            assert_eq!(statuses.len(), 1);
            assert!(statuses[0].index_new);
            assert!(!statuses[0].index_modified);
            assert!(!statuses[0].wt_new);
            assert!(statuses[0].wt_deleted);
            assert!(!statuses[0].conflicted);
        }
        other => panic!("{:?}", other),
    }
    assert!(matches!(p.git.stashes, Cached::Found(0)));
    assert_eq!(texts(&p), vec!["\u{25cf} 1", "\u{271a} 1"]);
    segment_git(&mut p);
    assert_eq!(colours(&p)[2], (236, 98));
}

#[test]
fn repository_clean_tree_counts_nothing() {
    let repository = scratch("clean");
    commit(&repository, "first");
    let mut p = inside(repository);
    segment_gitstage(&mut p);
    assert!(p.segments.is_empty());
    assert!(matches!(p.git.stashes, Cached::Found(0)));
    match &p.git.statuses {
        Cached::Found(statuses) => assert!(statuses.is_empty()),
        other => panic!("{:?}", other),
    }
}

#[test]
fn perform_reads_an_open_repository() {
    let repository = scratch("perform");
    let first = commit(&repository, "first");
    let name = repository.head().unwrap().shorthand().unwrap().to_string();
    repository.branch("other", &repository.find_commit(first).unwrap(), false).unwrap();
    let second = commit(&repository, "second");
    let mut repository = Some(repository);
    match perform(&mut repository, GitRequest::Branches) {
        GitReply::Branches(Some(branches)) => {
            assert_eq!(branches.len(), 2);
            for branch in branches {
                let branch = branch.unwrap();
                let branch_name = branch.name.clone().unwrap();
                assert_eq!(branch.is_head, branch_name == name);
                assert_eq!(branch.upstream, None);
                if branch.is_head {
                    assert_eq!(branch.target, Some(object_id(second)));
                } else {
                    assert_eq!(branch_name, "other");
                    assert_eq!(branch.target, Some(object_id(first)));
                }
            }
        }
        other => panic!("{:?}", other),
    }
    let far = GitRequest::Distance { local: object_id(second), upstream: object_id(first) };
    assert!(matches!(perform(&mut repository, far), GitReply::Distance(Some((1, 0)))));
    let back = GitRequest::Distance { local: object_id(first), upstream: object_id(second) };
    assert!(matches!(perform(&mut repository, back), GitReply::Distance(Some((0, 1)))));
    let lost = GitRequest::Distance { local: object_id(first), upstream: ObjectId { bytes: [9; 20] } };
    assert!(matches!(perform(&mut repository, lost), GitReply::Distance(None)));
    assert!(matches!(perform(&mut repository, GitRequest::Stashes), GitReply::Stashes(0)));
    match perform(&mut repository, GitRequest::Head) {
        GitReply::Head(Some(short)) => assert!(second.to_string().starts_with(&short)),
        other => panic!("{:?}", other),
    }
    assert!(repository.is_some());
}

#[test]
fn repository_stashes_are_counted() {
    let mut repository = scratch("stash");
    commit(&repository, "first");
    let signature = git2::Signature::now("Tester", "tester@example.com").unwrap();
    stage(&repository, "one.txt");
    repository.stash_save(&signature, "one", None).unwrap();
    stage(&repository, "two.txt");
    repository.stash_save(&signature, "two", None).unwrap();
    let mut repository = Some(repository);
    assert!(matches!(perform(&mut repository, GitRequest::Stashes), GitReply::Stashes(2)));
    let mut p = inside(repository.unwrap());
    segment_gitstage(&mut p);
    assert!(matches!(p.git.stashes, Cached::Found(2)));
    assert_eq!(texts(&p)[texts(&p).len() - 1], "\u{2691} 2");
    assert_eq!(colours(&p)[colours(&p).len() - 1], (236, 31));
}
