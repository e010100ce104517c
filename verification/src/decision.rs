//! The decision loop: what one polling cycle does with a captured screen.
//!
//! A cycle runs through the phases idle, capturing, matching, acting and
//! waiting, and then starts over. Matching tries the candidates in order of
//! priority and stops at the first confident match. Acting taps the matched
//! area at points chosen at random. How long the cycle then waits depends on
//! the action that fired.

use crate::assets::AssetTemplate;
use crate::bitmap::RgbBitmap;
use crate::matcher::{
    covers_best, locate, scores_in_mask, some_score_passes, surface_outcome, MatchError,
};
use crate::score::{min_score, Score, MIN_SCORE_BITS};
use crate::ui::{UIMask, UIPoint, UISurface};
use vstd::prelude::*;

verus! {

/// Seconds to wait after gems were claimed.
pub const CLAIM_WAIT_SECS: u64 = 630;

/// Seconds to wait after a run was restarted.
pub const RETRY_WAIT_SECS: u64 = 30;

/// Seconds to wait when nothing matched.
pub const IDLE_WAIT_SECS: u64 = 60;

/// Milliseconds between two taps of one action.
pub const TAP_PAUSE_MILLIS: u64 = 500;

/// Where a cycle stands.
#[derive(Debug, Clone, Copy, PartialEq, Eq, Structural)]
pub enum Phase {
    Idle,
    Capturing,
    Matching,
    Acting,
    Waiting,
}

impl Phase {
    /// The phase that follows.
    pub open spec fn spec_next(self) -> Phase {
        match self {
            Phase::Idle => Phase::Capturing,
            Phase::Capturing => Phase::Matching,
            Phase::Matching => Phase::Acting,
            Phase::Acting => Phase::Waiting,
            Phase::Waiting => Phase::Idle,
        }
    }

    /// The phase that follows.
    #[verifier::when_used_as_spec(spec_next)]
    pub fn next(self) -> (p: Phase)
        ensures
            p == self.next(),
    {
        match self {
            Phase::Idle => Phase::Capturing,
            Phase::Capturing => Phase::Matching,
            Phase::Matching => Phase::Acting,
            Phase::Acting => Phase::Waiting,
            Phase::Waiting => Phase::Idle,
        }
    }

    /// No phase is final, and five steps lead back to where they began.
    pub proof fn lemma_phases_cycle(self)
        ensures
            self.next() != self,
            self.next().next().next().next().next() == self,
    {
    }
}

/// What a match leads to.
#[derive(Debug, Clone, Copy, PartialEq, Eq, Structural)]
pub enum Action {
    /// Claim the gems that are on offer.
    ClaimGems,
    /// Restart the run after the battle has ended.
    RetryRun,
}

impl Action {
    /// How many taps the action takes.
    pub open spec fn spec_tap_count(self) -> usize {
        match self {
            Action::ClaimGems => 2,
            Action::RetryRun => 1,
        }
    }

    /// How many taps the action takes.
    #[verifier::when_used_as_spec(spec_tap_count)]
    pub fn tap_count(self) -> (n: usize)
        ensures
            n == self.tap_count(),
    {
        match self {
            Action::ClaimGems => 2,
            Action::RetryRun => 1,
        }
    }
}

/// The seconds to wait after a cycle in which `action` fired, or none did.
pub open spec fn spec_wait_after(action: Option<Action>) -> u64 {
    match action {
        Some(Action::ClaimGems) => CLAIM_WAIT_SECS,
        Some(Action::RetryRun) => RETRY_WAIT_SECS,
        None => IDLE_WAIT_SECS,
    }
}

/// The seconds to wait after a cycle in which `action` fired, or none did.
#[verifier::when_used_as_spec(spec_wait_after)]
pub fn wait_after(action: Option<Action>) -> (secs: u64)
    ensures
        secs == wait_after(action),
{
    match action {
        Some(Action::ClaimGems) => CLAIM_WAIT_SECS,
        Some(Action::RetryRun) => RETRY_WAIT_SECS,
        None => IDLE_WAIT_SECS,
    }
}

/// The wait after a claim is strictly longer than the wait after a cycle in
/// which nothing matched.
pub proof fn lemma_claim_waits_longer()
    ensures
        wait_after(Some(Action::ClaimGems)) > wait_after(None),
{
}

/// A landmark to look for: the template, the region to search, the score a
/// match needs, and what a match leads to.
#[derive(Debug, Clone)]
pub struct Candidate {
    pub template: AssetTemplate,
    pub mask: UIMask,
    pub threshold: Score,
    pub action: Action,
}

impl Candidate {
    /// The template and the mask are sound.
    pub open spec fn wf(&self) -> bool {
        self.template.wf() && self.mask.wf()
    }

    /// A candidate with the default threshold of 0.75.
    pub fn new(template: AssetTemplate, mask: UIMask, action: Action) -> (c: Self)
        ensures
            c.template == template,
            c.mask == mask,
            c.action == action,
            c.threshold.bits == MIN_SCORE_BITS,
    {
        Self { template, mask, threshold: min_score(), action }
    }

    /// What looking for this candidate on the screen gives.
    pub open spec fn outcome(&self, screen: &RgbBitmap) -> Result<Option<UISurface>, MatchError> {
        surface_outcome(screen, &self.template, self.mask, self.threshold)
    }

    /// Some position of the candidate's template in its region of the screen
    /// scores at least the candidate's threshold.
    pub open spec fn passes(&self, screen: &RgbBitmap) -> bool {
        some_score_passes(scores_in_mask(screen, &self.template, self.mask), self.threshold)
    }
}

/// What trying the candidates from position `from` on gives, in order: the
/// position and screen area of the first confident match, nothing if no
/// candidate matches, or the error of a candidate that could not be tried.
/// Candidates behind the first match, or behind the first error, play no
/// part.
pub open spec fn scan(screen: &RgbBitmap, candidates: Seq<Candidate>, from: int) -> Result<
    Option<(int, UISurface)>,
    MatchError,
>
    decreases candidates.len() - from,
{
    if from < 0 || from >= candidates.len() {
        Ok(None)
    } else {
        match candidates[from].outcome(screen) {
            Err(e) => Err(e),
            Ok(Some(surface)) => Ok(Some((from, surface))),
            Ok(None) => scan(screen, candidates, from + 1),
        }
    }
}

/// A scan that reports a match reports the first candidate that matches:
/// every candidate before it was tried and did not match.
pub proof fn lemma_scan_finds_first(
    screen: &RgbBitmap,
    candidates: Seq<Candidate>,
    from: int,
    i: int,
    surface: UISurface,
)
    requires
        0 <= from,
        scan(screen, candidates, from) matches Ok(Some(found)) && found == (i, surface),
    ensures
        from <= i < candidates.len(),
        candidates[i].outcome(screen) matches Ok(Some(s)) && s == surface,
        forall|j: int| from <= j < i ==> (#[trigger] candidates[j]).outcome(screen) matches Ok(None),
    decreases candidates.len() - from,
{
    if from < candidates.len() {
        if candidates[from].outcome(screen) matches Ok(None) {
            lemma_scan_finds_first(screen, candidates, from + 1, i, surface);
        }
    }
}

/// Once a candidate matches, the candidates of lower priority do not count:
/// two lists that agree up to and including the first match give the same
/// result, whatever follows in either.
pub proof fn lemma_match_shadows_rest(
    screen: &RgbBitmap,
    a: Seq<Candidate>,
    b: Seq<Candidate>,
    from: int,
    i: int,
    surface: UISurface,
)
    requires
        0 <= from,
        scan(screen, a, from) matches Ok(Some(found)) && found == (i, surface),
        i < b.len(),
        forall|j: int| from <= j <= i ==> a[j] == b[j],
    ensures
        scan(screen, b, from) == scan(screen, a, from),
    decreases a.len() - from,
{
    lemma_scan_finds_first(screen, a, from, i, surface);
    if from < i {
        assert(a[from].outcome(screen) matches Ok(None));
        lemma_match_shadows_rest(screen, a, b, from + 1, i, surface);
    }
}

/// Tries the candidates in order of priority against the screen and stops at
/// the first confident match, of which it gives the position in the list and
/// the screen area. A candidate that cannot be tried ends the scan with its
/// error.
pub fn first_match(screen: &RgbBitmap, candidates: &Vec<Candidate>) -> (r: Result<
    Option<(usize, UISurface)>,
    MatchError,
>)
    requires
        screen.wf(),
        forall|i: int| 0 <= i < candidates.len() ==> (#[trigger] candidates[i]).wf(),
    ensures
        match r {
            Ok(Some((i, surface))) => {
                &&& scan(screen, candidates@, 0) matches Ok(Some(found))
                &&& found == (i as int, surface)
                &&& i < candidates.len()
                &&& surface.wf()
                &&& covers_best(surface, screen, &candidates[i as int].template, candidates[i as int].mask)
                &&& candidates[i as int].passes(screen)
                &&& forall|k: int| 0 <= k < i ==> !(#[trigger] candidates[k]).passes(screen)
            },
            Ok(None) => {
                &&& scan(screen, candidates@, 0) matches Ok(None)
                &&& forall|k: int|
                    0 <= k < candidates.len() ==> !(#[trigger] candidates[k]).passes(screen)
            },
            Err(e) => scan(screen, candidates@, 0) matches Err(f) && f == e,
        },
{
    let mut i: usize = 0;
    while i < candidates.len()
        invariant
            i <= candidates.len(),
            screen.wf(),
            forall|k: int| 0 <= k < candidates.len() ==> (#[trigger] candidates[k]).wf(),
            scan(screen, candidates@, 0) == scan(screen, candidates@, i as int),
            forall|k: int| 0 <= k < i ==> !(#[trigger] candidates[k]).passes(screen),
        decreases candidates.len() - i,
    {
        let candidate = &candidates[i];
        match locate(screen, &candidate.template, candidate.mask, candidate.threshold) {
            Err(e) => {
                return Err(e);
            },
            Ok(Some(surface)) => {
                return Ok(Some((i, surface)));
            },
            Ok(None) => {},
        }
        i += 1;
    }
    Ok(None)
}

/// What a cycle decided: the position of the candidate that matched, if any,
/// its action, the area it applies to, where to tap, how long to pause
/// between taps and how long to wait afterwards.
#[derive(Debug, Clone, PartialEq, Eq)]
pub struct Decision {
    pub candidate: Option<usize>,
    pub action: Option<Action>,
    pub surface: Option<UISurface>,
    pub taps: Vec<UIPoint>,
    pub pause_millis: u64,
    pub wait_secs: u64,
}

/// One thing for the driver of the device to do.
#[derive(Debug, Clone, Copy, PartialEq, Eq, Structural)]
pub enum Step {
    /// Tap the screen at the point.
    Tap(UIPoint),
    /// Pause between two taps.
    Pause { millis: u64 },
    /// Wait until the next cycle.
    Wait { secs: u64 },
}

/// The steps that carry out a decision: the taps in order with a pause
/// between each two, and the wait at the end.
pub open spec fn steps_of(taps: Seq<UIPoint>, pause_millis: u64, wait_secs: u64) -> Seq<Step> {
    let len = if taps.len() == 0 {
        1
    } else {
        2 * taps.len()
    };
    Seq::new(
        len as nat,
        |i: int|
            if i == len - 1 {
                Step::Wait { secs: wait_secs }
            } else if i % 2 == 0 {
                Step::Tap(taps[i / 2])
            } else {
                Step::Pause { millis: pause_millis }
            },
    )
}

impl Decision {
    /// What the driver has to do, step by step: the taps with the pause
    /// between them, then the wait.
    pub fn steps(&self) -> (steps: Vec<Step>)
        ensures
            steps@ == steps_of(self.taps@, self.pause_millis, self.wait_secs),
    {
        let mut steps: Vec<Step> = Vec::new();
        let mut k: usize = 0;
        while k < self.taps.len()
            invariant
                k <= self.taps.len(),
                steps.len() == if k == 0 {
                    0
                } else {
                    2 * k - 1
                },
                forall|i: int|
                    0 <= i < steps.len() ==> steps[i] == if i % 2 == 0 {
                        Step::Tap(self.taps[i / 2])
                    } else {
                        Step::Pause { millis: self.pause_millis }
                    },
            decreases self.taps.len() - k,
        {
            if k > 0 {
                steps.push(Step::Pause { millis: self.pause_millis });
            }
            steps.push(Step::Tap(self.taps[k]));
            k += 1;
        }
        steps.push(Step::Wait { secs: self.wait_secs });
        assert(steps@ =~= steps_of(self.taps@, self.pause_millis, self.wait_secs));
        steps
    }

    /// The decision answers what is on the screen: the candidate it names is
    /// the first of which some position scores at least its threshold, and
    /// the area is the one that its template covers at its best position. If
    /// it names none, no candidate has such a position.
    pub open spec fn answers(&self, screen: &RgbBitmap, candidates: Seq<Candidate>) -> bool {
        match self.candidate {
            Some(i) => {
                &&& i < candidates.len()
                &&& candidates[i as int].passes(screen)
                &&& forall|k: int| 0 <= k < i ==> !(#[trigger] candidates[k]).passes(screen)
                &&& self.surface matches Some(surface)
                &&& surface.wf()
                &&& covers_best(
                    surface,
                    screen,
                    &candidates[i as int].template,
                    candidates[i as int].mask,
                )
            },
            None => forall|k: int|
                0 <= k < candidates.len() ==> !(#[trigger] candidates[k]).passes(screen),
        }
    }

    /// The decision is the one that a scan with the given result calls for:
    /// the action of the matched candidate with its area and its number of
    /// taps, all within the area, or no action and no taps; and the wait that
    /// goes with the action.
    pub open spec fn follows(
        &self,
        candidates: Seq<Candidate>,
        found: Option<(int, UISurface)>,
    ) -> bool {
        &&& match found {
            Some((i, surface)) => {
                &&& self.candidate == Some(i as usize)
                &&& self.action == Some(candidates[i].action)
                &&& self.surface == Some(surface)
                &&& self.taps@.len() == candidates[i].action.tap_count()
                &&& forall|k: int| 0 <= k < self.taps@.len() ==> surface.contains(self.taps@[k])
            },
            None => {
                &&& self.candidate is None
                &&& self.action is None
                &&& self.surface is None
                &&& self.taps@.len() == 0
            },
        }
        &&& self.pause_millis == TAP_PAUSE_MILLIS
        &&& self.wait_secs == wait_after(self.action)
    }
}

/// Plans the action for a scan's result: one point of the matched area,
/// chosen at random, for each tap of the action, and the wait that goes with
/// it.
pub fn plan(candidates: &Vec<Candidate>, found: Option<(usize, UISurface)>) -> (d: Decision)
    requires
        found matches Some((i, surface)) ==> i < candidates.len() && surface.wf(),
    ensures
        d.follows(
            candidates@,
            match found {
                Some((i, surface)) => Some((i as int, surface)),
                None => None,
            },
        ),
{
    match found {
        None => Decision {
            candidate: None,
            action: None,
            surface: None,
            taps: Vec::new(),
            pause_millis: TAP_PAUSE_MILLIS,
            wait_secs: wait_after(None),
        },
        Some((i, surface)) => {
            let action = candidates[i].action;
            let mut taps: Vec<UIPoint> = Vec::new();
            while taps.len() < action.tap_count()
                invariant
                    surface.wf(),
                    taps.len() <= action.tap_count(),
                    forall|k: int| 0 <= k < taps@.len() ==> surface.contains(taps@[k]),
                decreases action.tap_count() - taps.len(),
            {
                taps.push(surface.random_point());
            }
            Decision {
                candidate: Some(i),
                action: Some(action),
                surface: Some(surface),
                taps,
                pause_millis: TAP_PAUSE_MILLIS,
                wait_secs: wait_after(Some(action)),
            }
        },
    }
}

/// Decides one cycle: tries the candidates in order of priority against the
/// screen, and plans the action of the first that matches, or the idle wait if
/// none does. Fails with the error of a candidate that could not be tried.
pub fn decide(screen: &RgbBitmap, candidates: &Vec<Candidate>) -> (r: Result<Decision, MatchError>)
    requires
        screen.wf(),
        forall|i: int| 0 <= i < candidates.len() ==> (#[trigger] candidates[i]).wf(),
    ensures
        match r {
            Ok(d) => {
                &&& scan(screen, candidates@, 0) matches Ok(found) && d.follows(candidates@, found)
                &&& d.answers(screen, candidates@)
            },
            Err(e) => scan(screen, candidates@, 0) matches Err(f) && f == e,
        },
{
    match first_match(screen, candidates) {
        Ok(found) => Ok(plan(candidates, found)),
        Err(e) => Err(e),
    }
}

} // verus!
