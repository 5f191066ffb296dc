use gitwalker::commit::CommitId;
use gitwalker::walker::{place_base_first, CommitRange, CommitVisitor, GitWalker, WalkError};
use std::path::PathBuf;
use tempfile::TempDir;

fn create_repo() -> (TempDir, PathBuf) {
    let dir = TempDir::new().unwrap();
    let path = dir.path().join("repo");
    git2::Repository::init(&path).unwrap();
    (dir, path)
}

fn commit_file(
    repo: &git2::Repository,
    reference: &str,
    content: &str,
    message: &str,
    when: i64,
    parents: &[&git2::Commit<'_>],
) -> git2::Oid {
    let blob = repo.blob(content.as_bytes()).unwrap();
    let parent_tree = match parents.first() {
        Some(parent) => Some(parent.tree().unwrap()),
        None => None,
    };
    let mut builder = repo.treebuilder(parent_tree.as_ref()).unwrap();
    builder.insert("test.txt", blob, 0o100644).unwrap();
    let tree = repo.find_tree(builder.write().unwrap()).unwrap();
    let signature =
        git2::Signature::new("tester", "tester@example.com", &git2::Time::new(when, 0)).unwrap();
    repo.commit(Some(reference), &signature, &signature, message, &tree, parents)
        .unwrap()
}

fn sync_worktree(repo: &git2::Repository) {
    let mut checkout = git2::build::CheckoutBuilder::new();
    checkout.force();
    repo.checkout_head(Some(&mut checkout)).unwrap();
}

/// Three commits on the default branch; returns their ids and the branch name.
fn linear_repo(path: &PathBuf) -> (git2::Oid, git2::Oid, git2::Oid, String) {
    let repo = git2::Repository::open(path).unwrap();
    let c1 = commit_file(&repo, "HEAD", "one", "first", 1_700_000_001, &[]);
    let p1 = repo.find_commit(c1).unwrap();
    let c2 = commit_file(&repo, "HEAD", "two", "second", 1_700_000_002, &[&p1]);
    let p2 = repo.find_commit(c2).unwrap();
    let c3 = commit_file(&repo, "HEAD", "three", "third", 1_700_000_003, &[&p2]);
    sync_worktree(&repo);
    let branch = repo.head().unwrap().shorthand().unwrap().to_string();
    (c1, c2, c3, branch)
}

fn range(start: git2::Oid, end: git2::Oid) -> CommitRange {
    CommitRange { start: start.to_string(), end: end.to_string() }
}

fn current_branch_of(path: &PathBuf) -> Option<String> {
    let repo = git2::Repository::open(path).unwrap();
    let head = repo.head().unwrap();
    if head.is_branch() {
        Some(head.shorthand().unwrap().to_string())
    } else {
        None
    }
}

struct RecordingVisitor {
    visited: Vec<Vec<u8>>,
    messages: Vec<Option<String>>,
    stop_after: Option<usize>,
    fail_after: Option<usize>,
    check_path: Option<PathBuf>,
}

impl RecordingVisitor {
    fn new() -> RecordingVisitor {
        RecordingVisitor {
            visited: Vec::new(),
            messages: Vec::new(),
            stop_after: None,
            fail_after: None,
            check_path: None,
        }
    }
}

impl CommitVisitor for RecordingVisitor {
    fn visit(&mut self, id: &CommitId, message: &Option<String>) -> Result<bool, String> {
        if let Some(path) = &self.check_path {
            let probe = git2::Repository::open(path).unwrap();
            assert!(probe.head_detached().unwrap());
            let head = probe.head().unwrap().peel_to_commit().unwrap().id();
            assert_eq!(head.as_bytes(), id.as_bytes());
            let mut options = git2::StatusOptions::new();
            options.include_untracked(false).include_ignored(false);
            assert!(probe.statuses(Some(&mut options)).unwrap().is_empty());
        }
        self.visited.push(id.as_bytes().to_vec());
        self.messages.push(message.clone());
        if let Some(n) = self.fail_after {
            if self.visited.len() >= n {
                return Err("validation command could not be spawned".to_string());
            }
        }
        if let Some(n) = self.stop_after {
            if self.visited.len() >= n {
                return Ok(false);
            }
        }
        Ok(true)
    }
}

fn tagged_id(tag: u8) -> CommitId {
    CommitId::new(vec![tag; 20])
}

#[test]
fn a_merge_base_the_traversal_yielded_stays_where_it_was() {
    let ids = vec![tagged_id(1), tagged_id(2), tagged_id(3)];
    let placed = place_base_first(ids, tagged_id(2));
    assert_eq!(placed.len(), 3);
    assert!(placed[0].equals(&tagged_id(1)));
    assert!(placed[1].equals(&tagged_id(2)));
    assert!(placed[2].equals(&tagged_id(3)));
}

#[test]
fn a_missing_merge_base_is_prepended_as_the_oldest_element() {
    let ids = vec![tagged_id(1), tagged_id(2)];
    let placed = place_base_first(ids, tagged_id(9));
    assert_eq!(placed.len(), 3);
    assert!(placed[0].equals(&tagged_id(9)));
    assert!(placed[1].equals(&tagged_id(1)));
    assert!(placed[2].equals(&tagged_id(2)));
}

#[test]
fn resolution_is_deterministic() {
    let (_dir, path) = create_repo();
    let (c1, _c2, c3, _branch) = linear_repo(&path);
    let walker = GitWalker::init(path.to_str().unwrap()).unwrap();
    let first = walker.resolve(&range(c1, c3)).unwrap();
    let second = walker.resolve(&range(c1, c3)).unwrap();
    assert_eq!(first.ids.len(), second.ids.len());
    for (a, b) in first.ids.iter().zip(second.ids.iter()) {
        assert!(a.equals(b));
    }
}

#[test]
fn resolution_is_oldest_first_and_excludes_start() {
    let (_dir, path) = create_repo();
    let (c1, c2, c3, _branch) = linear_repo(&path);
    let walker = GitWalker::init(path.to_str().unwrap()).unwrap();
    let resolved = walker.resolve(&range(c1, c3)).unwrap();
    assert_eq!(resolved.ids.len(), 2);
    assert_eq!(resolved.ids[0].as_bytes(), c2.as_bytes());
    assert_eq!(resolved.ids[1].as_bytes(), c3.as_bytes());
    assert_eq!(resolved.ids[0].to_hex(), c2.to_string());
    assert_eq!(resolved.ids[1].to_hex(), c3.to_string());
}

#[test]
fn equal_endpoints_resolve_to_an_empty_range_and_walk_is_a_no_op() {
    let (_dir, path) = create_repo();
    let (_c1, _c2, c3, branch) = linear_repo(&path);
    let mut walker = GitWalker::init(path.to_str().unwrap()).unwrap();
    let resolved = walker.resolve(&range(c3, c3)).unwrap();
    assert_eq!(resolved.ids.len(), 0);
    let mut visitor = RecordingVisitor::new();
    walker.walk(&resolved, &mut visitor).unwrap();
    assert_eq!(visitor.visited.len(), 0);
    assert_eq!(current_branch_of(&path), Some(branch));
}

#[test]
fn walk_checks_out_each_commit_and_restores_the_branch() {
    let (_dir, path) = create_repo();
    let (c1, c2, c3, branch) = linear_repo(&path);
    let mut walker = GitWalker::init(path.to_str().unwrap()).unwrap();
    let resolved = walker.resolve(&range(c1, c3)).unwrap();
    let mut visitor = RecordingVisitor::new();
    visitor.check_path = Some(path.clone());
    walker.walk(&resolved, &mut visitor).unwrap();
    assert_eq!(visitor.visited, vec![c2.as_bytes().to_vec(), c3.as_bytes().to_vec()]);
    assert_eq!(
        visitor.messages,
        vec![Some("second".to_string()), Some("third".to_string())]
    );
    assert_eq!(current_branch_of(&path), Some(branch));
    let probe = git2::Repository::open(&path).unwrap();
    assert_eq!(probe.head().unwrap().peel_to_commit().unwrap().id(), c3);
}

#[test]
fn short_circuit_stops_the_walk_but_still_restores_the_branch() {
    let (_dir, path) = create_repo();
    let (c1, c2, c3, branch) = linear_repo(&path);
    let mut walker = GitWalker::init(path.to_str().unwrap()).unwrap();
    let resolved = walker.resolve(&range(c1, c3)).unwrap();
    let mut visitor = RecordingVisitor::new();
    visitor.stop_after = Some(1);
    walker.walk(&resolved, &mut visitor).unwrap();
    assert_eq!(visitor.visited, vec![c2.as_bytes().to_vec()]);
    assert_eq!(current_branch_of(&path), Some(branch));
}

#[test]
fn visitor_error_aborts_the_walk_and_restores_the_branch() {
    let (_dir, path) = create_repo();
    let (c1, c2, c3, branch) = linear_repo(&path);
    let mut walker = GitWalker::init(path.to_str().unwrap()).unwrap();
    let resolved = walker.resolve(&range(c1, c3)).unwrap();
    let mut visitor = RecordingVisitor::new();
    visitor.fail_after = Some(1);
    let result = walker.walk(&resolved, &mut visitor);
    match result {
        Err(WalkError::Visit { message, teardown }) => {
            assert_eq!(message, "validation command could not be spawned");
            assert!(teardown.is_none());
        }
        other => panic!("expected a visit error, got {:?}", other.is_ok()),
    }
    assert_eq!(visitor.visited, vec![c2.as_bytes().to_vec()]);
    assert_eq!(current_branch_of(&path), Some(branch));
}

#[test]
fn two_walks_in_a_row_both_restore_the_branch() {
    let (_dir, path) = create_repo();
    let (c1, c2, c3, branch) = linear_repo(&path);
    let mut walker = GitWalker::init(path.to_str().unwrap()).unwrap();
    let resolved = walker.resolve(&range(c1, c3)).unwrap();
    let mut visitor = RecordingVisitor::new();
    walker.walk(&resolved, &mut visitor).unwrap();
    assert_eq!(current_branch_of(&path), Some(branch.clone()));
    walker.walk(&resolved, &mut visitor).unwrap();
    assert_eq!(
        visitor.visited,
        vec![
            c2.as_bytes().to_vec(),
            c3.as_bytes().to_vec(),
            c2.as_bytes().to_vec(),
            c3.as_bytes().to_vec()
        ]
    );
    assert_eq!(current_branch_of(&path), Some(branch));
}

#[test]
fn dirty_repository_fails_before_any_checkout() {
    let (_dir, path) = create_repo();
    let (c1, _c2, c3, branch) = linear_repo(&path);
    let repo = git2::Repository::open(&path).unwrap();
    let mut index = repo.index().unwrap();
    let entry = git2::IndexEntry {
        ctime: git2::IndexTime::new(0, 0),
        mtime: git2::IndexTime::new(0, 0),
        dev: 0,
        ino: 0,
        mode: 0o100644,
        uid: 0,
        gid: 0,
        file_size: 0,
        id: git2::Oid::zero(),
        flags: 0,
        flags_extended: 0,
        path: b"test.txt".to_vec(),
    };
    index.add_frombuffer(&entry, b"uncommitted change").unwrap();
    index.write().unwrap();
    let mut walker = GitWalker::init(path.to_str().unwrap()).unwrap();
    let resolved = walker.resolve(&range(c1, c3)).unwrap();
    let mut visitor = RecordingVisitor::new();
    let result = walker.walk(&resolved, &mut visitor);
    assert!(matches!(result, Err(WalkError::DirtyRepository)));
    assert_eq!(visitor.visited.len(), 0);
    assert_eq!(current_branch_of(&path), Some(branch));
    let probe = git2::Repository::open(&path).unwrap();
    let mut options = git2::StatusOptions::new();
    options.include_untracked(false).include_ignored(false);
    assert!(!probe.statuses(Some(&mut options)).unwrap().is_empty());
}

#[test]
fn merge_base_range_starts_with_the_merge_base() {
    let (_dir, path) = create_repo();
    let repo = git2::Repository::open(&path).unwrap();
    let base = commit_file(&repo, "HEAD", "one", "base", 1_700_000_001, &[]);
    let base_commit = repo.find_commit(base).unwrap();
    repo.branch("side", &base_commit, false).unwrap();
    let main_tip = commit_file(&repo, "HEAD", "two", "onward", 1_700_000_002, &[&base_commit]);
    let _side_tip = commit_file(
        &repo,
        "refs/heads/side",
        "side work",
        "sideways",
        1_700_000_003,
        &[&base_commit],
    );
    sync_worktree(&repo);
    let walker = GitWalker::init(path.to_str().unwrap()).unwrap();
    let bounds = CommitRange { start: "side.".to_string(), end: "HEAD".to_string() };
    let resolved = walker.resolve(&bounds).unwrap();
    assert_eq!(resolved.ids.len(), 2);
    assert_eq!(resolved.ids[0].as_bytes(), base.as_bytes());
    assert_eq!(resolved.ids[1].as_bytes(), main_tip.as_bytes());
}

#[test]
fn unknown_reference_is_a_resolution_error() {
    let (_dir, path) = create_repo();
    let (_c1, _c2, c3, _branch) = linear_repo(&path);
    let walker = GitWalker::init(path.to_str().unwrap()).unwrap();
    let bounds = CommitRange { start: "no-such-ref".to_string(), end: c3.to_string() };
    let result = walker.resolve(&bounds);
    assert!(matches!(result, Err(WalkError::Resolution { .. })));
}

#[test]
fn missing_repository_cannot_be_opened() {
    let dir = TempDir::new().unwrap();
    let path = dir.path().join("nothing-here");
    let result = GitWalker::init(path.to_str().unwrap());
    assert!(matches!(result, Err(WalkError::Repository { .. })));
}

#[test]
fn empty_walk_on_a_detached_head_leaves_it_where_it_was() {
    let (_dir, path) = create_repo();
    let (_c1, c2, _c3, _branch) = linear_repo(&path);
    let repo = git2::Repository::open(&path).unwrap();
    repo.set_head_detached(c2).unwrap();
    sync_worktree(&repo);
    let mut walker = GitWalker::init(path.to_str().unwrap()).unwrap();
    let resolved = walker.resolve(&range(c2, c2)).unwrap();
    let mut visitor = RecordingVisitor::new();
    walker.walk(&resolved, &mut visitor).unwrap();
    assert_eq!(visitor.visited.len(), 0);
    let probe = git2::Repository::open(&path).unwrap();
    assert!(probe.head_detached().unwrap());
    assert_eq!(probe.head().unwrap().peel_to_commit().unwrap().id(), c2);
}
