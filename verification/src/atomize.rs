use crate::commit::CommitId;
use vstd::prelude::*;

verus! {

/// How a visited commit fared under validation.
pub enum CommitState {
    Working,
    Failing,
}

/// One visited commit together with whether it passed validation.
#[derive(Debug)]
pub struct ValidationOutcome {
    pub commit: CommitId,
    pub passed: bool,
}

impl DeepView for ValidationOutcome {
    type V = (bool, Seq<u8>);

    open spec fn deep_view(&self) -> (bool, Seq<u8>) {
        (self.passed, self.commit@)
    }
}

/// A candidate regression window: `target_commit` was the last commit seen to
/// pass, and `failing_commits` are the commits, in visitation order, that
/// failed immediately after it.
#[derive(Debug)]
pub struct Candidate {
    pub target_commit: CommitId,
    pub failing_commits: Vec<CommitId>,
}

/// Mathematical image of a `Candidate`.
pub struct CandidateModel {
    pub target: Seq<u8>,
    pub failing: Seq<Seq<u8>>,
}

impl DeepView for Candidate {
    type V = CandidateModel;

    open spec fn deep_view(&self) -> CandidateModel {
        CandidateModel { target: self.target_commit@, failing: self.failing_commits.deep_view() }
    }
}

/// Mathematical image of the accumulator: the candidates emitted so far, and
/// the last passing commit with the failures seen since it (if a passing
/// commit has been seen at all).
pub struct AtomizationModel {
    pub candidates: Seq<CandidateModel>,
    pub last_good: Option<(Seq<u8>, Seq<Seq<u8>>)>,
}

/// The accumulator before any outcome has been consumed.
pub open spec fn atomization_initial() -> AtomizationModel {
    AtomizationModel { candidates: Seq::empty(), last_good: None }
}

/// One step of the aggregation state machine.
///
/// A passing commit closes the current window — emitting a candidate when at
/// least one failure had accumulated — and becomes the new baseline.  A
/// failing commit is appended to the current window, or dropped when no
/// baseline has been seen yet.
pub open spec fn atomization_step(m: AtomizationModel, passed: bool, id: Seq<u8>) -> AtomizationModel {
    if passed {
        AtomizationModel {
            candidates: match m.last_good {
                Some((target, failing)) => if failing.len() > 0 {
                    m.candidates.push(CandidateModel { target, failing })
                } else {
                    m.candidates
                },
                None => m.candidates,
            },
            last_good: Some((id, Seq::empty())),
        }
    } else {
        match m.last_good {
            Some((target, failing)) => AtomizationModel {
                candidates: m.candidates,
                last_good: Some((target, failing.push(id))),
            },
            None => m,
        }
    }
}

/// The accumulator after consuming a whole outcome stream, oldest first.
pub open spec fn atomization_run(outcomes: Seq<(bool, Seq<u8>)>) -> AtomizationModel
    decreases outcomes.len(),
{
    if outcomes.len() == 0 {
        atomization_initial()
    } else {
        atomization_step(
            atomization_run(outcomes.drop_last()),
            outcomes.last().0,
            outcomes.last().1,
        )
    }
}

/// The open trailing window of an accumulator: the failures seen after the
/// last passing commit, when there are any.  They have no later baseline to
/// bound them, so they are reported apart from the closed candidates.
pub open spec fn open_candidate(m: AtomizationModel) -> Option<CandidateModel> {
    match m.last_good {
        Some((target, failing)) => if failing.len() > 0 {
            Some(CandidateModel { target, failing })
        } else {
            None
        },
        None => None,
    }
}

/// Collapses a stream of per-commit pass/fail outcomes into candidate
/// regression windows.  Feed it outcomes in visitation order with
/// `append_commit`, then read the windows out with `finish`.
#[derive(Debug)]
pub struct AtomizationContext {
    candidates: Vec<Candidate>,
    last_good: Option<(CommitId, Vec<CommitId>)>,
}

impl View for AtomizationContext {
    type V = AtomizationModel;

    closed spec fn view(&self) -> AtomizationModel {
        AtomizationModel {
            candidates: self.candidates.deep_view(),
            last_good: match self.last_good {
                Some((target, failing)) => Some((target@, failing.deep_view())),
                None => None,
            },
        }
    }
}

impl AtomizationContext {
    pub fn new() -> (r: AtomizationContext)
        ensures
            r@ == atomization_initial(),
    {
        let r = AtomizationContext { candidates: Vec::new(), last_good: None };
        proof {
            assert(r@.candidates =~= atomization_initial().candidates);
        }
        r
    }

    /// Consumes the outcome of the next visited commit.
    pub fn append_commit(&mut self, state: CommitState, id: CommitId)
        ensures
            final(self)@ == atomization_step(old(self)@, state is Working, id@),
    {
        match state {
            CommitState::Working => {
                match &self.last_good {
                    Some(pair) => {
                        if pair.1.len() > 0 {
                            let candidate = Candidate {
                                target_commit: pair.0.clone(),
                                failing_commits: pair.1.clone(),
                            };
                            proof {
                                assert(candidate.deep_view().failing =~= pair.1.deep_view());
                            }
                            let ghost before = self.candidates.deep_view();
                            self.candidates.push(candidate);
                            proof {
                                assert(self.candidates.deep_view() =~= before.push(
                                    candidate.deep_view(),
                                ));
                            }
                        }
                    },
                    None => {},
                }
                self.last_good = Some((id, Vec::new()));
                proof {
                    assert(self@.last_good matches Some(p) && p.1 =~= Seq::<Seq<u8>>::empty());
                    assert(self@ == atomization_step(old(self)@, true, id@));
                }
            },
            CommitState::Failing => {
                match &mut self.last_good {
                    Some(pair) => {
                        let ghost before = pair.1.deep_view();
                        pair.1.push(id);
                        proof {
                            assert(pair.1.deep_view() =~= before.push(id@));
                        }
                    },
                    None => {},
                }
            },
        }
    }

    /// Reads the result out: the emitted candidates, and the open trailing
    /// window when failures were still accumulating at the end of the stream.
    pub fn finish(self) -> (r: (Vec<Candidate>, Option<Candidate>))
        ensures
            r.0.deep_view() == self@.candidates,
            match open_candidate(self@) {
                Some(open) => r.1 matches Some(c) && c.deep_view() == open,
                None => r.1 is None,
            },
    {
        let AtomizationContext { candidates, last_good } = self;
        let open = match last_good {
            Some((target, failing)) => {
                if failing.len() > 0 {
                    Some(Candidate { target_commit: target, failing_commits: failing })
                } else {
                    None
                }
            },
            None => None,
        };
        (candidates, open)
    }
}

/// Runs the whole aggregation over an already-collected outcome stream,
/// given oldest first, and returns the closed candidates and the open
/// trailing window.
pub fn atomize_outcomes(outcomes: &Vec<ValidationOutcome>) -> (r: (
    Vec<Candidate>,
    Option<Candidate>,
))
    ensures
        r.0.deep_view() == atomization_run(outcomes.deep_view()).candidates,
        match open_candidate(atomization_run(outcomes.deep_view())) {
            Some(open) => r.1 matches Some(c) && c.deep_view() == open,
            None => r.1 is None,
        },
{
    let mut context = AtomizationContext::new();
    let mut i: usize = 0;
    proof {
        assert(outcomes.deep_view().take(0) =~= Seq::<(bool, Seq<u8>)>::empty());
    }
    while i < outcomes.len()
        invariant
            i <= outcomes.len(),
            context@ == atomization_run(outcomes.deep_view().take(i as int)),
        decreases outcomes.len() - i,
    {
        let outcome = &outcomes[i];
        let state = if outcome.passed {
            CommitState::Working
        } else {
            CommitState::Failing
        };
        context.append_commit(state, outcome.commit.clone());
        proof {
            let pre = outcomes.deep_view().take(i as int);
            let post = outcomes.deep_view().take(i + 1);
            assert(post.drop_last() =~= pre);
            assert(post.last() == outcomes.deep_view()[i as int]);
        }
        i += 1;
    }
    proof {
        assert(outcomes.deep_view().take(outcomes@.len() as int) =~= outcomes.deep_view());
    }
    context.finish()
}

/// An all-passing stream yields no candidate and no open trailing window:
/// every passing commit merely moves the baseline forward.
pub proof fn lemma_all_passing_yields_nothing(outcomes: Seq<(bool, Seq<u8>)>)
    requires
        forall|i: int| 0 <= i < outcomes.len() ==> outcomes[i].0,
    ensures
        atomization_run(outcomes).candidates =~= Seq::<CandidateModel>::empty(),
        open_candidate(atomization_run(outcomes)) is None,
    decreases outcomes.len(),
{
    if outcomes.len() > 0 {
        lemma_all_passing_yields_nothing(outcomes.drop_last());
    }
}

/// Failures seen before any passing commit are dropped: they have no
/// baseline to be attributed to, so an all-failing stream yields nothing
/// and leaves the accumulator without a baseline.
pub proof fn lemma_no_baseline_drops_failures(outcomes: Seq<(bool, Seq<u8>)>)
    requires
        forall|i: int| 0 <= i < outcomes.len() ==> !outcomes[i].0,
    ensures
        atomization_run(outcomes) == atomization_initial(),
    decreases outcomes.len(),
{
    if outcomes.len() > 0 {
        lemma_no_baseline_drops_failures(outcomes.drop_last());
    }
}

/// A run of failures at the very front of the stream leaves no trace at
/// all: the stream aggregates exactly as it would without that run.
pub proof fn lemma_leading_failures_are_dropped(
    prefix: Seq<(bool, Seq<u8>)>,
    rest: Seq<(bool, Seq<u8>)>,
)
    requires
        forall|i: int| 0 <= i < prefix.len() ==> !prefix[i].0,
    ensures
        atomization_run(prefix + rest) == atomization_run(rest),
    decreases rest.len(),
{
    if rest.len() == 0 {
        assert(prefix + rest =~= prefix);
        lemma_no_baseline_drops_failures(prefix);
    } else {
        lemma_leading_failures_are_dropped(prefix, rest.drop_last());
        assert((prefix + rest).drop_last() =~= prefix + rest.drop_last());
        assert((prefix + rest).last() == rest.last());
    }
}

} // verus!
