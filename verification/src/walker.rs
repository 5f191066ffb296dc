use crate::commit::CommitId;
use vstd::prelude::*;

verus! {

#[verifier::external_type_specification]
#[verifier::external_body]
pub struct ExRepository(git2::Repository);

/// An unresolved commit range: the two human-supplied reference strings
/// bounding the commits to visit.
pub struct CommitRange {
    pub start: String,
    pub end: String,
}

/// No id occurs twice.
pub open spec fn distinct_seqs(ids: Seq<Seq<u8>>) -> bool {
    forall|i: int, j: int| 0 <= i < j < ids.len() ==> ids[i] != ids[j]
}

/// The ordered, duplicate-free sequence of commits a walk will visit,
/// oldest first.
pub struct ResolvedRange {
    pub ids: Vec<CommitId>,
}

impl ResolvedRange {
    pub open spec fn wf(&self) -> bool {
        &&& distinct_seqs(self.ids.deep_view())
        &&& forall|i: int| 0 <= i < self.ids@.len() ==> (#[trigger] self.ids@[i]).wf()
    }
}

/// What is known of the repository's HEAD.  `Branch(b)` is claimed only when
/// HEAD is attached to the local branch named `b`; `Other` claims nothing
/// (detached, unborn, or simply not observed).
pub enum HeadRef {
    Branch(Seq<char>),
    Other,
}

/// How a walk or a resolution fails.  A nonzero exit of the validation
/// command is not an error anywhere in this crate: it is data.
#[derive(Debug)]
pub enum WalkError {
    /// The repository could not be opened or its status read.
    Repository { message: String },
    /// Uncommitted changes were present before the walk; nothing was touched.
    DirtyRepository,
    /// The commit range could not be resolved.
    Resolution { message: String },
    /// Detaching HEAD or materialising a commit's tree failed.  `teardown`
    /// carries the supplementary restore failure when the restore failed too.
    Checkout { message: String, teardown: Option<String> },
    /// The visitor failed (for instance, the validation command could not be
    /// spawned).  `teardown` as for `Checkout`.
    Visit { message: String, teardown: Option<String> },
    /// The walk body succeeded but the original branch was not restored.
    Teardown { message: String },
}

/// Whether the walk's outcome still carries the branch-restore guarantee:
/// only a failed restore forfeits it.
pub open spec fn branch_restored(r: Result<(), WalkError>) -> bool {
    match r {
        Ok(_) => true,
        Err(e) => match e {
            WalkError::Checkout { message, teardown } => teardown is None,
            WalkError::Visit { message, teardown } => teardown is None,
            WalkError::Teardown { message } => false,
            _ => true,
        },
    }
}

/// A walk's callback: receives each visited commit, after its tree has been
/// checked out, together with the commit's raw message when one could be
/// read.  `Ok(true)` continues the walk, `Ok(false)` stops it early, and
/// `Err` aborts it; teardown runs in every case.
pub trait CommitVisitor {
    fn visit(&mut self, id: &CommitId, message: &Option<String>) -> Result<bool, String>;
}

enum WalkBodyError {
    Checkout(String),
    Visit(String),
}

/// Walks ranges of commits in one repository, checking each commit out into
/// the single working tree.  The two ghost fields model what the trusted
/// repository operations did: which branch HEAD is known to be attached to,
/// and which commit trees have been force-checked-out, in order.  The model
/// rests on what the design demands of callers: the walker owns the
/// repository's checkout state, and nothing else moves HEAD while a
/// `GitWalker` holds the repository.
pub struct GitWalker {
    repo: git2::Repository,
    head: Ghost<HeadRef>,
    checked_out: Ghost<Seq<Seq<u8>>>,
}

/// Relies on `git2::Repository::open`: opens an existing repository.
#[verifier::external_body]
fn open_repository(path: &str) -> (r: Result<git2::Repository, String>) {
    git2::Repository::open(path).map_err(|e| format!("failed to open repository due to {e}"))
}

/// Places the merge base first in a traversal's yield: when the traversal
/// already produced it the sequence is unchanged, otherwise the base is
/// prepended as the oldest element.  Distinctness and well-formedness of
/// the ids carry over.
pub fn place_base_first(ids: Vec<CommitId>, base: CommitId) -> (r: Vec<CommitId>)
    ensures
        ids.deep_view().contains(base@) ==> r.deep_view() == ids.deep_view(),
        !ids.deep_view().contains(base@) ==> r.deep_view() == seq![base@] + ids.deep_view(),
        distinct_seqs(ids.deep_view()) ==> distinct_seqs(r.deep_view()),
        (forall|i: int| 0 <= i < ids@.len() ==> (#[trigger] ids@[i]).wf()) && base.wf() ==> (forall|
            i: int,
        | 0 <= i < r@.len() ==> (#[trigger] r@[i]).wf()),
{
    let ghost orig = ids@;
    let mut contains = false;
    let n = ids.len();
    let mut i: usize = 0;
    while i < n
        invariant
            i <= n,
            n == ids@.len(),
            contains ==> ids.deep_view().contains(base@),
            !contains ==> forall|j: int| 0 <= j < i ==> #[trigger] ids.deep_view()[j] != base@,
        decreases n - i,
    {
        proof {
            assert(ids.deep_view()[i as int] == ids@[i as int]@);
        }
        if ids[i].equals(&base) {
            contains = true;
            proof {
                assert(ids.deep_view().contains(base@));
            }
        }
        i += 1;
    }
    if contains {
        ids
    } else {
        proof {
            assert(!ids.deep_view().contains(base@)) by {
                if ids.deep_view().contains(base@) {
                    let k = choose|k: int|
                        0 <= k < ids.deep_view().len() && ids.deep_view()[k] == base@;
                }
            }
        }
        let ghost before = ids.deep_view();
        let mut out = ids;
        out.insert(0, base);
        proof {
            assert(out@ == orig.insert(0, base));
            assert(out@[0] == base);
            assert forall|q: int| 0 < q < out@.len() implies out@[q] == orig[q - 1] by {}
            assert(out.deep_view() =~= before.insert(0, base@));
            assert(before.insert(0, base@) =~= seq![base@] + before);
            if distinct_seqs(before) {
                assert forall|p: int, q: int|
                    0 <= p < q < out.deep_view().len() implies out.deep_view()[p]
                    != out.deep_view()[q] by {
                    if p == 0 {
                        assert(out.deep_view()[q] == before[q - 1]);
                    } else {
                        assert(out.deep_view()[p] == before[p - 1]);
                        assert(out.deep_view()[q] == before[q - 1]);
                    }
                }
            }
        }
        out
    }
}

impl GitWalker {
    /// Which branch HEAD is known to be attached to.
    pub closed spec fn head_state(&self) -> HeadRef {
        self.head@
    }

    /// The commits whose trees were force-checked-out, in order.
    pub closed spec fn checkouts(&self) -> Seq<Seq<u8>> {
        self.checked_out@
    }

    /// Opens the repository at `path`.  A path without an openable
    /// repository is reported as a `Repository` error.
    pub fn init(path: &str) -> (r: Result<GitWalker, WalkError>)
        ensures
            r matches Ok(w) ==> w.head_state() == HeadRef::Other && w.checkouts() == Seq::<
                Seq<u8>,
            >::empty(),
            r matches Err(e) ==> e matches WalkError::Repository { message },
    {
        match open_repository(path) {
            Ok(repo) => Ok(
                GitWalker {
                    repo,
                    head: Ghost(HeadRef::Other),
                    checked_out: Ghost(Seq::empty()),
                },
            ),
            Err(message) => Err(WalkError::Repository { message }),
        }
    }

    /// Relies on `git2::Repository::statuses`, with untracked and ignored
    /// files left out: reports whether any tracked file has uncommitted
    /// changes (in the working tree or staged in the index).
    #[verifier::external_body]
    fn has_uncommitted_changes(&self) -> (r: Result<bool, String>) {
        let mut options = git2::StatusOptions::new();
        options.include_untracked(false).include_ignored(false);
        match self.repo.statuses(Some(&mut options)) {
            Ok(statuses) => Ok(!statuses.is_empty()),
            Err(e) => Err(format!("failed to read repository status due to {e}")),
        }
    }

    /// Relies on `git2::Repository::head`, `Reference::is_branch` and
    /// `Reference::shorthand`: names the local branch HEAD is attached to,
    /// or `None` when HEAD is detached or unreadable.  Reading HEAD does not
    /// move it, so when HEAD is known to be on a branch, that branch is what
    /// this reports.
    #[verifier::external_body]
    fn current_branch(&mut self) -> (r: Option<String>)
        ensures
            final(self).checkouts() == old(self).checkouts(),
            r matches Some(name) ==> final(self).head_state() == HeadRef::Branch(name@),
            r is None ==> final(self).head_state() == HeadRef::Other,
            old(self).head_state() matches HeadRef::Branch(b) ==> (r matches Some(name) && name@
                == b),
    {
        match self.repo.head() {
            Ok(head) if head.is_branch() => match head.shorthand() {
                Ok(name) => Some(name.to_string()),
                Err(_) => None,
            },
            _ => None,
        }
    }

    /// Relies on `git2::Repository::set_head_detached`: points HEAD directly
    /// at the given commit, detaching it; on failure HEAD is unaltered.
    #[verifier::external_body]
    fn detach_head(&mut self, id: &CommitId) -> (r: Result<(), String>)
        ensures
            final(self).checkouts() == old(self).checkouts(),
            r is Ok ==> final(self).head_state() == HeadRef::Other,
            r is Err ==> final(self).head_state() == old(self).head_state(),
    {
        let oid = match git2::Oid::from_bytes(id.as_bytes()) {
            Ok(oid) => oid,
            Err(e) => return Err(format!("invalid commit id due to {e}")),
        };
        self.repo.set_head_detached(oid).map_err(|e| format!("failed to detach head due to {e}"))
    }

    /// Relies on `git2::Repository::find_commit`, `checkout_tree` and `reset`
    /// with a hard reset: overwrites the working tree and index so that they
    /// exactly match the commit's recorded tree (untracked-but-ignored files
    /// aside).  None of these calls changes which branch HEAD is attached to.
    #[verifier::external_body]
    fn force_checkout(&mut self, id: &CommitId) -> (r: Result<(), String>)
        ensures
            final(self).head_state() == old(self).head_state(),
            r is Ok ==> final(self).checkouts() == old(self).checkouts().push(id@),
            r is Err ==> final(self).checkouts() == old(self).checkouts(),
    {
        let oid = match git2::Oid::from_bytes(id.as_bytes()) {
            Ok(oid) => oid,
            Err(e) => return Err(format!("invalid commit id due to {e}")),
        };
        let commit = self.repo.find_commit(oid).map_err(
            |e| format!("failed to find commit due to {e}"),
        )?;
        let tree = commit.tree().map_err(|e| format!("failed to get tree due to {e}"))?;
        self.repo.checkout_tree(tree.as_object(), None).map_err(
            |e| format!("failed to checkout commit due to {e}"),
        )?;
        self.repo.reset(commit.as_object(), git2::ResetType::Hard, None).map_err(
            |e| format!("failed to reset to commit due to {e}"),
        )
    }

    /// Relies on `git2::Repository::find_commit` and `Commit::message`: the
    /// commit's message, when the commit exists and the message is valid
    /// UTF-8.
    #[verifier::external_body]
    fn commit_message_raw(&self, id: &CommitId) -> (r: Option<String>) {
        let oid = git2::Oid::from_bytes(id.as_bytes()).ok()?;
        let commit = self.repo.find_commit(oid).ok()?;
        let message = commit.message().ok()?;
        Some(message.to_string())
    }

    /// Relies on `git2::Repository::revparse_single`, `checkout_tree` and
    /// `set_head`: checks the named local branch's tip out and reattaches
    /// HEAD to that branch.
    #[verifier::external_body]
    fn checkout_branch(&mut self, branch: &str) -> (r: Result<(), String>)
        ensures
            final(self).checkouts() == old(self).checkouts(),
            r is Ok ==> final(self).head_state() == HeadRef::Branch(branch@),
            r is Err ==> final(self).head_state() == HeadRef::Other,
    {
        let reference = format!("refs/heads/{}", branch);
        let object = self.repo.revparse_single(&reference).map_err(
            |e| format!("failed to find the branch due to {e}"),
        )?;
        self.repo.checkout_tree(&object, None).map_err(
            |e| format!("failed to checkout branch {branch} due to {e}"),
        )?;
        self.repo.set_head(&reference).map_err(
            |e| format!("failed to set head to {branch} due to {e}"),
        )
    }

    /// Relies on `git2::Repository::revparse` applied to `start..end`: the
    /// resolved endpoints of the range and whether merge-base (three-dot)
    /// semantics were requested.  Both endpoints of a textually identical
    /// pair resolve, within one call, to the same commit.
    #[verifier::external_body]
    fn revparse_range(&self, start: &str, end: &str) -> (r: Result<(CommitId, CommitId, bool), String>)
        ensures
            r matches Ok(p) ==> p.0.wf() && p.1.wf(),
            start@ == end@ ==> (r matches Ok(p) ==> p.0@ == p.1@),
    {
        let text = format!("{}..{}", start, end);
        let parsed = self.repo.revparse(&text).map_err(
            |e| format!("failed to parse range due to {e}"),
        )?;
        let from = parsed.from().ok_or_else(|| String::from("range has no start point"))?.id();
        let to = parsed.to().ok_or_else(|| String::from("range has no end point"))?.id();
        let merge_base = parsed.mode().is_merge_base();
        Ok((CommitId::new(from.as_bytes().to_vec()), CommitId::new(to.as_bytes().to_vec()), merge_base))
    }

    /// Relies on `git2::Repository::merge_base`: a best common ancestor of
    /// the two commits; the merge base of a commit with itself is that
    /// commit.
    #[verifier::external_body]
    fn merge_base_id(&self, a: &CommitId, b: &CommitId) -> (r: Result<CommitId, String>)
        ensures
            r matches Ok(m) ==> m.wf(),
            a@ == b@ ==> (r matches Ok(m) ==> m@ == a@),
    {
        let one = match git2::Oid::from_bytes(a.as_bytes()) {
            Ok(oid) => oid,
            Err(e) => return Err(format!("invalid commit id due to {e}")),
        };
        let two = match git2::Oid::from_bytes(b.as_bytes()) {
            Ok(oid) => oid,
            Err(e) => return Err(format!("invalid commit id due to {e}")),
        };
        let base = self.repo.merge_base(one, two).map_err(
            |e| format!("failed to find merge base due to {e}"),
        )?;
        Ok(CommitId::new(base.as_bytes().to_vec()))
    }

    /// Relies on `git2::Repository::revwalk` with `push_range` and
    /// topological-plus-reverse sorting: the commits reachable from `tip`
    /// but not from `excluded` or its ancestors, oldest first.  A revwalk
    /// yields each commit at most once; one whose only tip is also excluded
    /// yields nothing; and for a fixed repository state the yielded order is
    /// deterministic.
    #[verifier::external_body]
    fn collect_range(&self, tip: &CommitId, excluded: &CommitId) -> (r: Result<
        Vec<CommitId>,
        String,
    >)
        ensures
            r matches Ok(ids) ==> distinct_seqs(ids.deep_view()),
            r matches Ok(ids) ==> forall|i: int|
                0 <= i < ids@.len() ==> (#[trigger] ids@[i]).wf(),
            tip@ == excluded@ ==> (r matches Ok(ids) ==> ids@.len() == 0),
    {
        let oid = |id: &CommitId| git2::Oid::from_bytes(id.as_bytes()).map_err(|e| format!("invalid commit id due to {e}"));
        let mut walk = self.repo.revwalk().map_err(|e| format!("failed to create a revwalk due to {e}"))?;
        walk.set_sorting(git2::Sort::TOPOLOGICAL | git2::Sort::REVERSE).map_err(|e| format!("failed to order the revwalk due to {e}"))?;
        let bounds = format!("{}..{}", oid(excluded)?, oid(tip)?);
        walk.push_range(&bounds).map_err(|e| format!("failed to bound the revwalk due to {e}"))?;
        let ids = walk.collect::<Result<Vec<git2::Oid>, git2::Error>>().map_err(|e| format!("failed to collect commit ids due to {e}"))?;
        Ok(ids.iter().map(|o| CommitId::new(o.as_bytes().to_vec())).collect())
    }

    /// Resolves a reference pair into the ordered sequence of commits to
    /// visit: those reachable from `end` but not from `start`, oldest first,
    /// with the merge base prepended when three-dot semantics were requested
    /// and the traversal did not yield it.  A range whose endpoints resolve
    /// to the same commit is empty, not an error.
    pub fn resolve(&self, range: &CommitRange) -> (r: Result<ResolvedRange, WalkError>)
        ensures
            r matches Ok(rr) ==> rr.wf(),
            range.start@ == range.end@ ==> (r matches Ok(rr) ==> rr.ids@.len() == 0),
            r matches Err(e) ==> e matches WalkError::Resolution { message },
    {
        let (from, to, merge_base_mode) = match self.revparse_range(
            range.start.as_str(),
            range.end.as_str(),
        ) {
            Ok(p) => p,
            Err(message) => return Err(WalkError::Resolution { message }),
        };
        if merge_base_mode {
            let base = match self.merge_base_id(&from, &to) {
                Ok(b) => b,
                Err(message) => return Err(WalkError::Resolution { message }),
            };
            let ids = match self.collect_range(&to, &from) {
                Ok(ids) => ids,
                Err(message) => return Err(WalkError::Resolution { message }),
            };
            if ids.len() == 0 {
                return Ok(ResolvedRange { ids });
            }
            let placed = place_base_first(ids, base);
            Ok(ResolvedRange { ids: placed })
        } else {
            match self.collect_range(&to, &from) {
                Ok(ids) => Ok(ResolvedRange { ids }),
                Err(message) => Err(WalkError::Resolution { message }),
            }
        }
    }

    fn walk_inner<V: CommitVisitor>(&mut self, range: &ResolvedRange, visitor: &mut V) -> (r:
        Result<(), WalkBodyError>)
        ensures
            exists|k: int|
                0 <= k <= range.ids@.len() && final(self).checkouts() == old(self).checkouts()
                    + range.ids.deep_view().take(k),
            range.ids@.len() == 0 ==> r is Ok && final(self).head_state()
                == old(self).head_state() && final(self).checkouts() == old(self).checkouts(),
            r is Ok && range.ids@.len() > 0 ==> final(self).checkouts().len()
                > old(self).checkouts().len(),
            r matches Err(WalkBodyError::Visit(m)) ==> final(self).checkouts().len()
                > old(self).checkouts().len(),
    {
        let n = range.ids.len();
        let mut i: usize = 0;
        proof {
            assert(self.checkouts() =~= old(self).checkouts() + range.ids.deep_view().take(0));
        }
        while i < n
            invariant
                i <= n,
                n == range.ids@.len(),
                self.checkouts() == old(self).checkouts() + range.ids.deep_view().take(i as int),
                i == 0 ==> self.head_state() == old(self).head_state(),
            decreases n - i,
        {
            let id = &range.ids[i];
            match self.detach_head(id) {
                Ok(_) => {},
                Err(m) => {
                    return Err(WalkBodyError::Checkout(m));
                },
            }
            match self.force_checkout(id) {
                Ok(_) => {
                    proof {
                        assert(self.checkouts() =~= old(self).checkouts()
                            + range.ids.deep_view().take(i + 1));
                    }
                },
                Err(m) => {
                    return Err(WalkBodyError::Checkout(m));
                },
            }
            let message = self.commit_message_raw(id);
            match visitor.visit(id, &message) {
                Ok(true) => {},
                Ok(false) => {
                    return Ok(());
                },
                Err(m) => {
                    return Err(WalkBodyError::Visit(m));
                },
            }
            i += 1;
        }
        proof {
            if n == 0 {
                assert(self.checkouts() =~= old(self).checkouts());
            }
        }
        Ok(())
    }

    /// Visits every commit of the resolved range in order: HEAD is detached
    /// onto the commit, the working tree is overwritten to match its
    /// recorded tree, and the visitor is called.  The visitor's answer may
    /// stop the walk early; any failure aborts it.  Whatever happens after
    /// the preliminary cleanliness check, the branch that was checked out
    /// beforehand is checked out again, and only a failure of that restore
    /// (reported as `Teardown`, or attached to the walk's own error)
    /// forfeits it.  A dirty repository fails the walk before anything is
    /// touched.  On a non-empty range, an outcome that reached the walk body
    /// — success, a teardown failure, or a visitor failure — checked out at
    /// least one commit of the range.
    pub fn walk<V: CommitVisitor>(&mut self, range: &ResolvedRange, visitor: &mut V) -> (r: Result<
        (),
        WalkError,
    >)
        ensures
            old(self).head_state() matches HeadRef::Branch(b) ==> (branch_restored(r)
                ==> final(self).head_state() == HeadRef::Branch(b)),
            (r matches Err(e) && (e is DirtyRepository || e matches WalkError::Repository {
                message,
            })) ==> final(self).head_state() == old(self).head_state() && final(self).checkouts()
                == old(self).checkouts(),
            exists|k: int|
                0 <= k <= range.ids@.len() && final(self).checkouts() == old(self).checkouts()
                    + range.ids.deep_view().take(k),
            range.ids@.len() == 0 ==> final(self).checkouts() == old(self).checkouts() && !(
            r matches Err(e) && (e matches WalkError::Checkout { message, teardown }
                || e matches WalkError::Visit { message, teardown })),
            !(r matches Err(e) && e matches WalkError::Resolution { message }),
            range.ids@.len() > 0 && r is Ok ==> final(self).checkouts().len()
                > old(self).checkouts().len(),
            range.ids@.len() > 0 ==> ((r matches Err(WalkError::Teardown { message }))
                ==> final(self).checkouts().len() > old(self).checkouts().len()),
            r matches Err(WalkError::Visit { message, teardown }) ==> final(self).checkouts().len()
                > old(self).checkouts().len(),
    {
        match self.has_uncommitted_changes() {
            Ok(true) => {
                proof {
                    assert(self.checkouts() =~= old(self).checkouts()
                        + range.ids.deep_view().take(0));
                }
                return Err(WalkError::DirtyRepository);
            },
            Ok(false) => {},
            Err(message) => {
                proof {
                    assert(self.checkouts() =~= old(self).checkouts()
                        + range.ids.deep_view().take(0));
                }
                return Err(WalkError::Repository { message });
            },
        }
        let snapshot = self.current_branch();
        let body = self.walk_inner(range, visitor);
        let restore: Option<String> = match snapshot {
            Some(branch) => match self.checkout_branch(branch.as_str()) {
                Ok(_) => None,
                Err(m) => Some(m),
            },
            None => None,
        };
        match body {
            Ok(_) => match restore {
                None => Ok(()),
                Some(message) => Err(WalkError::Teardown { message }),
            },
            Err(WalkBodyError::Checkout(message)) => Err(
                WalkError::Checkout { message, teardown: restore },
            ),
            Err(WalkBodyError::Visit(message)) => Err(
                WalkError::Visit { message, teardown: restore },
            ),
        }
    }
}

} // verus!
