use vstd::prelude::*;
use crate::error::TtsError;
use crate::providers::{lemma_names_distinct, str_eq, Provider, TtsProvider};
use vstd::string::StringExecFns;

verus! {

/// The order in which providers are tried after the requested one fails:
/// local engines first, the cloud API last.
pub open spec fn fallback_order() -> Seq<Provider> {
    seq![Provider::Espeak, Provider::Festival, Provider::Say, Provider::Gcloud]
}

/// Some entry of the catalog names `p` and reports it usable.
pub open spec fn is_available(providers: Seq<TtsProvider>, p: Provider) -> bool {
    exists|i: int|
        0 <= i < providers.len() && (#[trigger] providers[i]).name@ == p.spec_name()
            && providers[i].available
}

/// `p` is tried as a fallback: it is not the requested provider and it is usable.
pub open spec fn is_candidate(preferred: Seq<char>, providers: Seq<TtsProvider>, p: Provider) -> bool {
    p.spec_name() != preferred && is_available(providers, p)
}

/// `name` is the identifier of some fallback candidate.
pub open spec fn names_candidate(preferred: Seq<char>, providers: Seq<TtsProvider>, name: Seq<char>) -> bool {
    exists|p: Provider| #[trigger] p.spec_name() == name && is_candidate(preferred, providers, p)
}

/// The fallback candidates among the first `n` entries of the fallback order.
pub open spec fn candidates_upto(preferred: Seq<char>, providers: Seq<TtsProvider>, n: nat) -> Seq<
    Seq<char>,
>
    decreases n,
{
    if n == 0 {
        seq![]
    } else {
        let prev = candidates_upto(preferred, providers, (n - 1) as nat);
        let p = fallback_order()[n - 1];
        if is_candidate(preferred, providers, p) {
            prev.push(p.spec_name())
        } else {
            prev
        }
    }
}

/// Every provider name that is tried, in order: the requested one, then the
/// candidates of the fallback order.
pub open spec fn attempt_plan(preferred: Seq<char>, providers: Seq<TtsProvider>) -> Seq<Seq<char>> {
    seq![preferred] + candidates_upto(preferred, providers, 4)
}

/// The first attempt from index `i` on whose result is audio, with the
/// provider that produced it.
pub open spec fn first_success(
    plan: Seq<Seq<char>>,
    result: spec_fn(Seq<char>) -> Option<Seq<u8>>,
    i: nat,
) -> Option<(Seq<char>, Seq<u8>)>
    decreases plan.len() - i,
{
    if i >= plan.len() {
        None
    } else {
        match result(plan[i as int]) {
            Some(audio) => Some((plan[i as int], audio)),
            None => first_success(plan, result, i + 1),
        }
    }
}

fn available_in(providers: &Vec<TtsProvider>, p: Provider) -> (r: bool)
    ensures
        r == is_available(providers@, p),
{
    let name = p.name();
    let mut i: usize = 0;
    while i < providers.len()
        invariant
            i <= providers@.len(),
            name@ == p.spec_name(),
            forall|j: int|
                0 <= j < i ==> !((#[trigger] providers@[j]).name@ == p.spec_name()
                    && providers@[j].available),
        decreases providers@.len() - i,
    {
        if providers[i].available && str_eq(providers[i].name.as_str(), name) {
            return true;
        }
        i = i + 1;
    }
    false
}

/// The names to try for a request, in order.
pub fn plan_attempts(preferred: &str, providers: &Vec<TtsProvider>) -> (r: Vec<String>)
    ensures
        r@.map_values(|s: String| s@) == attempt_plan(preferred@, providers@),
{
    let mut plan: Vec<String> = Vec::new();
    plan.push(String::from_str(preferred));
    let order = [Provider::Espeak, Provider::Festival, Provider::Say, Provider::Gcloud];
    let mut i: usize = 0;
    while i < 4
        invariant
            i <= 4,
            order@ == fallback_order(),
            plan@.map_values(|s: String| s@) == seq![preferred@] + candidates_upto(
                preferred@,
                providers@,
                i as nat,
            ),
        decreases 4 - i,
    {
        let p = order[i];
        let before = Ghost(plan@.map_values(|s: String| s@));
        if !str_eq(p.name(), preferred) && available_in(providers, p) {
            plan.push(String::from_str(p.name()));
            proof {
                assert(plan@.map_values(|s: String| s@) == before@.push(p.spec_name()));
            }
        }
        i = i + 1;
    }
    plan
}

/// What the caller does next on behalf of the orchestrator.
#[derive(Debug)]
pub enum Action {
    /// Synthesize with the named provider and report the outcome.
    Attempt(String),
    /// Synthesis succeeded: this audio came from this provider.
    Deliver { provider: String, audio: Vec<u8> },
    /// Nothing is left to try.
    GiveUp(TtsError),
}

/// A resolution in progress: the plan of attempts and how far it has got.
pub struct Fallback {
    pub plan: Vec<String>,
    pub next: usize,
    pub finished: bool,
}

impl Fallback {
    pub open spec fn plan_view(&self) -> Seq<Seq<char>> {
        self.plan@.map_values(|s: String| s@)
    }

    pub open spec fn wf(&self) -> bool {
        &&& 1 <= self.plan@.len() <= 5
        &&& self.next < self.plan@.len()
    }

    /// Starts resolving a request for `preferred` against the catalog.
    pub fn new(preferred: &str, providers: &Vec<TtsProvider>) -> (r: Fallback)
        ensures
            r.wf(),
            r.plan_view() == attempt_plan(preferred@, providers@),
            r.next == 0,
            !r.finished,
    {
        let plan = plan_attempts(preferred, providers);
        proof {
            lemma_candidates_len(preferred@, providers@, 4);
            assert(plan@.len() == plan@.map_values(|s: String| s@).len());
        }
        Fallback { plan, next: 0, finished: false }
    }

    /// The provider to try now.
    pub fn current(&self) -> (r: String)
        requires
            self.wf(),
        ensures
            r@ == self.plan_view()[self.next as int],
    {
        self.plan[self.next].clone()
    }

    /// Takes the outcome of the current attempt and says what to do next:
    /// deliver the audio, try the next name of the plan, or give up.
    pub fn step(&mut self, outcome: Result<Vec<u8>, TtsError>) -> (r: Action)
        requires
            old(self).wf(),
            !old(self).finished,
        ensures
            final(self).wf(),
            final(self).plan == old(self).plan,
            match outcome {
                Ok(audio) => {
                    &&& final(self).finished
                    &&& final(self).next == old(self).next
                    &&& match r {
                        Action::Deliver { provider, audio: a } => {
                            &&& provider@ == old(self).plan_view()[old(self).next as int]
                            &&& a == audio
                        },
                        _ => false,
                    }
                },
                Err(_) => if old(self).next + 1 < old(self).plan@.len() {
                    &&& !final(self).finished
                    &&& final(self).next == old(self).next + 1
                    &&& match r {
                        Action::Attempt(name) => {
                            name@ == old(self).plan_view()[old(self).next + 1]
                        },
                        _ => false,
                    }
                } else {
                    &&& final(self).finished
                    &&& final(self).next == old(self).next
                    &&& r matches Action::GiveUp(TtsError::AllProvidersFailed)
                },
            },
    {
        match outcome {
            Ok(audio) => {
                self.finished = true;
                Action::Deliver { provider: self.plan[self.next].clone(), audio }
            },
            Err(_) => {
                if self.next + 1 < self.plan.len() {
                    self.next = self.next + 1;
                    Action::Attempt(self.plan[self.next].clone())
                } else {
                    self.finished = true;
                    Action::GiveUp(TtsError::AllProvidersFailed)
                }
            },
        }
    }
}

proof fn lemma_candidates_len(preferred: Seq<char>, providers: Seq<TtsProvider>, n: nat)
    ensures
        candidates_upto(preferred, providers, n).len() <= n,
    decreases n,
{
    if n > 0 {
        lemma_candidates_len(preferred, providers, (n - 1) as nat);
    }
}


proof fn lemma_candidates_members(preferred: Seq<char>, providers: Seq<TtsProvider>, n: nat)
    requires
        n <= 4,
    ensures
        forall|j: int|
            0 <= j < candidates_upto(preferred, providers, n).len() ==> names_candidate(
                preferred,
                providers,
                #[trigger] candidates_upto(preferred, providers, n)[j],
            ),
    decreases n,
{
    if n > 0 {
        lemma_candidates_members(preferred, providers, (n - 1) as nat);
        let prev = candidates_upto(preferred, providers, (n - 1) as nat);
        let cur = candidates_upto(preferred, providers, n);
        let p = fallback_order()[n - 1];
        assert forall|j: int| 0 <= j < cur.len() implies names_candidate(
            preferred,
            providers,
            #[trigger] cur[j],
        ) by {
            if j < prev.len() {
                assert(cur[j] == prev[j]);
                assert(names_candidate(preferred, providers, prev[j]));
            } else {
                assert(cur[j] == p.spec_name());
                assert(is_candidate(preferred, providers, p));
            }
        }
    }
}

proof fn lemma_candidate_included(
    preferred: Seq<char>,
    providers: Seq<TtsProvider>,
    n: nat,
    k: int,
)
    requires
        0 <= k < n <= 4,
        is_candidate(preferred, providers, fallback_order()[k]),
    ensures
        candidates_upto(preferred, providers, n).contains(fallback_order()[k].spec_name()),
    decreases n,
{
    let cur = candidates_upto(preferred, providers, n);
    let prev = candidates_upto(preferred, providers, (n - 1) as nat);
    if k == n - 1 {
        assert(cur[cur.len() - 1] == fallback_order()[k].spec_name());
    } else {
        lemma_candidate_included(preferred, providers, (n - 1) as nat, k);
        let j = choose|j: int| 0 <= j < prev.len() && prev[j] == fallback_order()[k].spec_name();
        assert(cur[j] == prev[j]);
    }
}

proof fn lemma_first_success_unique(
    plan: Seq<Seq<char>>,
    result: spec_fn(Seq<char>) -> Option<Seq<u8>>,
    i: nat,
    j0: int,
    audio: Seq<u8>,
)
    requires
        i <= j0 < plan.len(),
        result(plan[j0]) == Some(audio),
        forall|j: int| i <= j < plan.len() && plan[j] != plan[j0] ==> result(#[trigger] plan[j]) is None,
    ensures
        first_success(plan, result, i) == Some((plan[j0], audio)),
    decreases plan.len() - i,
{
    if plan[i as int] != plan[j0] {
        lemma_first_success_unique(plan, result, i + 1, j0, audio);
    }
}

proof fn lemma_first_success_none(
    plan: Seq<Seq<char>>,
    result: spec_fn(Seq<char>) -> Option<Seq<u8>>,
    i: nat,
)
    requires
        forall|j: int| i <= j < plan.len() ==> result(#[trigger] plan[j]) is None,
    ensures
        first_success(plan, result, i) is None,
    decreases plan.len() - i,
{
    if i < plan.len() {
        lemma_first_success_none(plan, result, i + 1);
    }
}

/// After the requested provider, no name of the plan is the requested one,
/// and every such name is a usable provider of the fallback order.
pub proof fn lemma_plan_never_repeats_preferred(preferred: Seq<char>, providers: Seq<TtsProvider>)
    ensures
        attempt_plan(preferred, providers)[0] == preferred,
        forall|i: int|
            1 <= i < attempt_plan(preferred, providers).len() ==> names_candidate(
                preferred,
                providers,
                #[trigger] attempt_plan(preferred, providers)[i],
            ),
        forall|i: int|
            1 <= i < attempt_plan(preferred, providers).len() ==> #[trigger] attempt_plan(
                preferred,
                providers,
            )[i] != preferred,
{
    let plan = attempt_plan(preferred, providers);
    let c = candidates_upto(preferred, providers, 4);
    lemma_candidates_members(preferred, providers, 4);
    assert forall|i: int| 1 <= i < plan.len() implies names_candidate(
        preferred,
        providers,
        #[trigger] plan[i],
    ) by {
        assert(plan[i] == c[i - 1]);
        assert(names_candidate(preferred, providers, c[i - 1]));
    }
    assert forall|i: int| 1 <= i < plan.len() implies #[trigger] plan[i] != preferred by {
        assert(names_candidate(preferred, providers, plan[i]));
    }
}

spec fn fallback_index(q: Provider) -> int {
    match q {
        Provider::Espeak => 0,
        Provider::Festival => 1,
        Provider::Say => 2,
        Provider::Gcloud => 3,
    }
}

/// When the requested provider fails and exactly one usable fallback
/// succeeds, resolution yields that fallback's audio, and the requested
/// provider is tried only once.
pub proof fn lemma_single_fallback_serves(
    preferred: Seq<char>,
    providers: Seq<TtsProvider>,
    result: spec_fn(Seq<char>) -> Option<Seq<u8>>,
    q: Provider,
    audio: Seq<u8>,
)
    requires
        result(preferred) is None,
        is_candidate(preferred, providers, q),
        result(q.spec_name()) == Some(audio),
        forall|p: Provider|
            p != q && is_candidate(preferred, providers, p) ==> result(#[trigger] p.spec_name()) is None,
    ensures
        first_success(attempt_plan(preferred, providers), result, 0) == Some(
            (q.spec_name(), audio),
        ),
        forall|i: int|
            1 <= i < attempt_plan(preferred, providers).len() ==> #[trigger] attempt_plan(
                preferred,
                providers,
            )[i] != preferred,
{
    let plan = attempt_plan(preferred, providers);
    let c = candidates_upto(preferred, providers, 4);
    lemma_plan_never_repeats_preferred(preferred, providers);
    let k = fallback_index(q);
    assert(fallback_order()[k] == q);
    lemma_candidate_included(preferred, providers, 4, k);
    let jc = choose|j: int| 0 <= j < c.len() && c[j] == q.spec_name();
    assert(plan[jc + 1] == q.spec_name());
    assert forall|j: int| 0 <= j < plan.len() && plan[j] != plan[jc + 1] implies result(
        #[trigger] plan[j],
    ) is None by {
        if j > 0 {
            assert(names_candidate(preferred, providers, plan[j]));
            let p = choose|p: Provider| p.spec_name() == plan[j] && is_candidate(preferred, providers, p);
            if p == q {
            } else {
                lemma_names_distinct(p, q);
            }
        }
    }
    lemma_first_success_unique(plan, result, 0, jc + 1, audio);
}

/// When the requested provider and every usable fallback fail (or none is
/// usable), resolution yields nothing.
pub proof fn lemma_all_failing_gives_up(
    preferred: Seq<char>,
    providers: Seq<TtsProvider>,
    result: spec_fn(Seq<char>) -> Option<Seq<u8>>,
)
    requires
        result(preferred) is None,
        forall|p: Provider| is_candidate(preferred, providers, p) ==> result(#[trigger] p.spec_name()) is None,
    ensures
        first_success(attempt_plan(preferred, providers), result, 0) is None,
{
    let plan = attempt_plan(preferred, providers);
    lemma_plan_never_repeats_preferred(preferred, providers);
    assert forall|j: int| 0 <= j < plan.len() implies result(#[trigger] plan[j]) is None by {
        if j > 0 {
            assert(names_candidate(preferred, providers, plan[j]));
            let p = choose|p: Provider| p.spec_name() == plan[j] && is_candidate(preferred, providers, p);
            assert(result(p.spec_name()) is None);
        }
    }
    lemma_first_success_none(plan, result, 0);
}

/// Attempts that failed before index `k` do not change which success comes
/// first: a session that has reached `k` stands where one from the start
/// does. So the audio it delivers at `k` is the first success of the plan,
/// and giving up after the last name means the plan has none.
pub proof fn lemma_failures_skipped(
    plan: Seq<Seq<char>>,
    result: spec_fn(Seq<char>) -> Option<Seq<u8>>,
    k: nat,
)
    requires
        forall|j: int| 0 <= j < k && j < plan.len() ==> result(#[trigger] plan[j]) is None,
    ensures
        first_success(plan, result, 0) == first_success(plan, result, k),
        k < plan.len() && result(plan[k as int]) is Some ==> first_success(plan, result, 0) == Some(
            (plan[k as int], result(plan[k as int]).unwrap()),
        ),
        k >= plan.len() ==> first_success(plan, result, 0) is None,
    decreases k,
{
    if k > 0 {
        lemma_failures_skipped(plan, result, (k - 1) as nat);
        if k - 1 < plan.len() {
            assert(result(plan[k - 1]) is None);
        }
    }
}

} // verus!
