use vstd::prelude::*;

use crate::config::RetryConfig;
use crate::datetime::DateTime;
use crate::utils::SimpleError;

verus! {

use vstd::string::StringExecFns;

/// The Authorization header value the remote service expects for a
/// given api key.
pub fn authorization_header_value(api_key: &str) -> (r: String)
    ensures
        r@ == "ResyAPI api_key=\""@ + api_key@ + "\""@,
{
    let mut r = String::from_str("ResyAPI api_key=\"");
    r.append(api_key);
    r.append("\"");
    r
}

/// A capacity bound of one slot.
#[derive(Clone, Copy, PartialEq, Eq, Structural, Debug)]
pub struct SlotSize {
    pub max: i32,
}

/// The start instant of one slot.
#[derive(Clone, Copy, PartialEq, Eq, Structural, Debug)]
pub struct SlotDates {
    pub start: DateTime,
}

/// A single discovered availability unit: a capacity bound and a start
/// instant. Produced only by a successful probe; immutable afterwards.
#[derive(Clone, Copy, PartialEq, Eq, Structural, Debug)]
pub struct Slot {
    pub size: SlotSize,
    pub date: SlotDates,
}

/// The terminal result of one probe attempt.
///
/// `Success` carries the slots the probe found (never empty when the
/// outcome came from a well-behaved probe). `DomainFailure` means the
/// probe ran but the remote service yielded nothing usable.
/// `InfrastructureFailure` means the attempt's own execution could not
/// complete, so no domain-level result exists.
pub enum AttemptOutcome {
    Success(Vec<Slot>),
    DomainFailure(String),
    InfrastructureFailure(String),
}

/// A well-behaved probe never reports success with an empty slot list.
pub open spec fn outcome_wf(o: AttemptOutcome) -> bool {
    o matches AttemptOutcome::Success(slots) ==> slots@.len() > 0
}

/// The slots a success carries; the empty sequence on the failure variants.
pub open spec fn success_slots(o: AttemptOutcome) -> Seq<Slot> {
    match o {
        AttemptOutcome::Success(v) => v@,
        _ => Seq::empty(),
    }
}

/// The message a failure carries; the empty sequence on a success.
pub open spec fn failure_message(o: AttemptOutcome) -> Seq<char> {
    match o {
        AttemptOutcome::Success(_) => Seq::empty(),
        AttemptOutcome::DomainFailure(m) => m@,
        AttemptOutcome::InfrastructureFailure(m) => m@,
    }
}

pub open spec fn has_success(s: Seq<AttemptOutcome>) -> bool {
    exists|i: int| 0 <= i < s.len() && s[i] is Success
}

/// The position of the earliest-launched success; `s.len()` when none exists.
pub open spec fn first_success_index(s: Seq<AttemptOutcome>) -> int
    decreases s.len(),
{
    if s.len() == 0 {
        0
    } else if s[0] is Success {
        0
    } else {
        1 + first_success_index(s.skip(1))
    }
}

/// What the Race Resolver returns: the slots of the earliest-launched
/// success, or nothing when no attempt succeeded.
pub open spec fn resolve_spec(s: Seq<AttemptOutcome>) -> Option<Seq<Slot>>
    decreases s.len(),
{
    if s.len() == 0 {
        None
    } else {
        match s[0] {
            AttemptOutcome::Success(v) => Some(v@),
            _ => resolve_spec(s.skip(1)),
        }
    }
}

/// The Race Resolver finds a winner exactly when some outcome is a success.
pub proof fn lemma_resolve_some_iff_success(s: Seq<AttemptOutcome>)
    ensures
        resolve_spec(s) is Some <==> has_success(s),
    decreases s.len(),
{
    if s.len() == 0 {
    } else if s[0] is Success {
        assert(has_success(s));
    } else {
        lemma_resolve_some_iff_success(s.skip(1));
        if has_success(s.skip(1)) {
            let i = choose|i: int| 0 <= i < s.skip(1).len() && s.skip(1)[i] is Success;
            assert(s[i + 1] is Success);
            assert(has_success(s));
        }
        if has_success(s) {
            let i = choose|i: int| 0 <= i < s.len() && s[i] is Success;
            assert(s.skip(1)[i - 1] == s[i]);
            assert(has_success(s.skip(1)));
        }
    }
}

/// The winner the Race Resolver picks is the earliest-launched success:
/// no attempt before it succeeded, and its slot sequence is what is
/// returned; it is non-empty whenever the outcomes came from
/// well-behaved probes.
pub proof fn lemma_race_picks_first_success(s: Seq<AttemptOutcome>)
    requires
        has_success(s),
    ensures
        0 <= first_success_index(s) < s.len(),
        s[first_success_index(s)] is Success,
        forall|j: int| 0 <= j < first_success_index(s) ==> !(s[j] is Success),
        resolve_spec(s) == Some(success_slots(s[first_success_index(s)])),
        (forall|i: int| 0 <= i < s.len() ==> outcome_wf(s[i])) ==> success_slots(
            s[first_success_index(s)],
        ).len() > 0,
    decreases s.len(),
{
    if s[0] is Success {
    } else {
        let i = choose|i: int| 0 <= i < s.len() && s[i] is Success;
        assert(s.skip(1)[i - 1] == s[i]);
        assert(has_success(s.skip(1)));
        lemma_race_picks_first_success(s.skip(1));
        let k = first_success_index(s.skip(1));
        assert(s[k + 1] == s.skip(1)[k]);
        assert(forall|j: int| 1 <= j < k + 1 ==> #[trigger] s[j] == s.skip(1)[j - 1]);
        if forall|i: int| 0 <= i < s.len() ==> outcome_wf(s[i]) {
            assert(forall|i: int| 0 <= i < s.skip(1).len() ==> outcome_wf(s.skip(1)[i])) by {
                assert(forall|i: int| 0 <= i < s.skip(1).len() ==> s.skip(1)[i] == s[i + 1]);
            }
        }
    }
}

/// Copies a slot vector element by element.
fn copy_slots(v: &Vec<Slot>) -> (r: Vec<Slot>)
    ensures
        r@ == v@,
{
    let mut r: Vec<Slot> = Vec::new();
    let mut j: usize = 0;
    while j < v.len()
        invariant
            j <= v@.len(),
            r@ =~= v@.subrange(0, j as int),
        decreases v@.len() - j,
    {
        r.push(v[j]);
        j = j + 1;
    }
    assert(r@ =~= v@);
    r
}

/// The Race Resolver: scans the outcomes in launch order and returns
/// the slot sequence of the first success, or nothing when no attempt
/// succeeded. Pure: the input is not changed.
pub fn resolve(outcomes: &Vec<AttemptOutcome>) -> (r: Option<Vec<Slot>>)
    ensures
        match r {
            Some(v) => resolve_spec(outcomes@) == Some(v@),
            None => resolve_spec(outcomes@) is None,
        },
{
    let s = Ghost(outcomes@);
    assert(s@.skip(0) =~= s@);
    let mut i: usize = 0;
    while i < outcomes.len()
        invariant
            s@ == outcomes@,
            i <= s@.len(),
            resolve_spec(s@) == resolve_spec(s@.skip(i as int)),
        decreases s@.len() - i,
    {
        match &outcomes[i] {
            AttemptOutcome::Success(v) => {
                assert(s@.skip(i as int)[0] == s@[i as int]);
                let won = copy_slots(v);
                return Some(won);
            },
            _ => {
                assert(s@.skip(i as int)[0] == s@[i as int]);
                assert(s@.skip(i as int).skip(1) =~= s@.skip(i as int + 1));
            },
        }
        i = i + 1;
    }
    assert(s@.skip(i as int) =~= Seq::<AttemptOutcome>::empty());
    None
}

/// How many outcomes are infrastructure failures.
pub open spec fn count_infra(s: Seq<AttemptOutcome>) -> nat
    decreases s.len(),
{
    if s.len() == 0 {
        0
    } else {
        count_infra(s.drop_last()) + if s.last() is InfrastructureFailure {
            1nat
        } else {
            0nat
        }
    }
}

/// How many outcomes are domain failures.
pub open spec fn count_domain(s: Seq<AttemptOutcome>) -> nat
    decreases s.len(),
{
    if s.len() == 0 {
        0
    } else {
        count_domain(s.drop_last()) + if s.last() is DomainFailure {
            1nat
        } else {
            0nat
        }
    }
}

/// The message of the earliest infrastructure failure, if any.
pub open spec fn first_infra_msg(s: Seq<AttemptOutcome>) -> Option<Seq<char>>
    decreases s.len(),
{
    if s.len() == 0 {
        None
    } else if s[0] is InfrastructureFailure {
        Some(failure_message(s[0]))
    } else {
        first_infra_msg(s.skip(1))
    }
}

/// The message of the earliest domain failure, if any.
pub open spec fn first_domain_msg(s: Seq<AttemptOutcome>) -> Option<Seq<char>>
    decreases s.len(),
{
    if s.len() == 0 {
        None
    } else if s[0] is DomainFailure {
        Some(failure_message(s[0]))
    } else {
        first_domain_msg(s.skip(1))
    }
}

proof fn lemma_count_infra_le_len(s: Seq<AttemptOutcome>)
    ensures
        count_infra(s) <= s.len(),
    decreases s.len(),
{
    if s.len() > 0 {
        lemma_count_infra_le_len(s.drop_last());
    }
}

proof fn lemma_count_domain_le_len(s: Seq<AttemptOutcome>)
    ensures
        count_domain(s) <= s.len(),
    decreases s.len(),
{
    if s.len() > 0 {
        lemma_count_domain_le_len(s.drop_last());
    }
}

proof fn lemma_first_infra_msg_push(s: Seq<AttemptOutcome>, x: AttemptOutcome)
    ensures
        first_infra_msg(s.push(x)) == (if first_infra_msg(s) is Some {
            first_infra_msg(s)
        } else if x is InfrastructureFailure {
            Some(failure_message(x))
        } else {
            None
        }),
    decreases s.len(),
{
    if s.len() == 0 {
        assert(s.push(x)[0] == x);
        assert(s.push(x).skip(1) =~= Seq::<AttemptOutcome>::empty());
        if x is InfrastructureFailure {
            assert(first_infra_msg(s.push(x)) == Some(failure_message(x)));
        } else {
            assert(first_infra_msg(s.push(x)) == first_infra_msg(Seq::<AttemptOutcome>::empty()));
        }
    } else {
        assert(s.push(x)[0] == s[0]);
        assert(s.push(x).skip(1) =~= s.skip(1).push(x));
        lemma_first_infra_msg_push(s.skip(1), x);
        if s[0] is InfrastructureFailure {
            assert(first_infra_msg(s.push(x)) == Some(failure_message(s[0])));
            assert(first_infra_msg(s) == Some(failure_message(s[0])));
        } else {
            assert(first_infra_msg(s.push(x)) == first_infra_msg(s.skip(1).push(x)));
            assert(first_infra_msg(s) == first_infra_msg(s.skip(1)));
        }
    }
}

proof fn lemma_first_domain_msg_push(s: Seq<AttemptOutcome>, x: AttemptOutcome)
    ensures
        first_domain_msg(s.push(x)) == (if first_domain_msg(s) is Some {
            first_domain_msg(s)
        } else if x is DomainFailure {
            Some(failure_message(x))
        } else {
            None
        }),
    decreases s.len(),
{
    if s.len() == 0 {
        assert(s.push(x)[0] == x);
        assert(s.push(x).skip(1) =~= Seq::<AttemptOutcome>::empty());
        if x is DomainFailure {
            assert(first_domain_msg(s.push(x)) == Some(failure_message(x)));
        } else {
            assert(first_domain_msg(s.push(x)) == first_domain_msg(Seq::<AttemptOutcome>::empty()));
        }
    } else {
        assert(s.push(x)[0] == s[0]);
        assert(s.push(x).skip(1) =~= s.skip(1).push(x));
        lemma_first_domain_msg_push(s.skip(1), x);
        if s[0] is DomainFailure {
            assert(first_domain_msg(s.push(x)) == Some(failure_message(s[0])));
            assert(first_domain_msg(s) == Some(failure_message(s[0])));
        } else {
            assert(first_domain_msg(s.push(x)) == first_domain_msg(s.skip(1).push(x)));
            assert(first_domain_msg(s) == first_domain_msg(s.skip(1)));
        }
    }
}

/// The diagnostic aggregate built when no attempt succeeded: a count
/// and one representative example message per failure class. "Async
/// errors" are the infrastructure failures, "request errors" the
/// domain failures.
pub struct Report {
    pub num_async_errs: usize,
    pub example_async_err: Option<String>,
    pub num_req_errs: usize,
    pub example_req_err: Option<String>,
}

pub open spec fn opt_msg_view(o: Option<String>) -> Option<Seq<char>> {
    match o {
        Some(m) => Some(m@),
        None => None,
    }
}

/// What a report of an outcome sequence holds: the exact count of each
/// failure class, and the message of the earliest member of each class
/// as its example, absent exactly when the class is empty.
pub open spec fn report_matches(r: Report, s: Seq<AttemptOutcome>) -> bool {
    &&& r.num_async_errs == count_infra(s)
    &&& r.num_req_errs == count_domain(s)
    &&& opt_msg_view(r.example_async_err) == first_infra_msg(s)
    &&& opt_msg_view(r.example_req_err) == first_domain_msg(s)
}

impl Report {
    /// The Failure Reporter: aggregates the failures of a completed
    /// outcome sequence. Pure and deterministic: the result is a
    /// function of the outcome sequence alone.
    pub fn new(outcomes: &Vec<AttemptOutcome>) -> (r: Report)
        ensures
            report_matches(r, outcomes@),
    {
        let s = Ghost(outcomes@);
        let mut num_async_errs: usize = 0;
        let mut example_async_err: Option<String> = None;
        let mut num_req_errs: usize = 0;
        let mut example_req_err: Option<String> = None;

        assert(s@.subrange(0, 0) =~= Seq::<AttemptOutcome>::empty());
        let mut i: usize = 0;
        while i < outcomes.len()
            invariant
                s@ == outcomes@,
                i <= s@.len(),
                num_async_errs == count_infra(s@.subrange(0, i as int)),
                num_req_errs == count_domain(s@.subrange(0, i as int)),
                opt_msg_view(example_async_err) == first_infra_msg(s@.subrange(0, i as int)),
                opt_msg_view(example_req_err) == first_domain_msg(s@.subrange(0, i as int)),
            decreases s@.len() - i,
        {
            let ghost pre = s@.subrange(0, i as int);
            let ghost post = s@.subrange(0, i as int + 1);
            proof {
                assert(post.drop_last() =~= pre);
                assert(post.last() == s@[i as int]);
                assert(post =~= pre.push(s@[i as int]));
                lemma_count_infra_le_len(pre);
                lemma_count_domain_le_len(pre);
                lemma_first_infra_msg_push(pre, s@[i as int]);
                lemma_first_domain_msg_push(pre, s@[i as int]);
            }
            match &outcomes[i] {
                AttemptOutcome::Success(_) => {},
                AttemptOutcome::DomainFailure(m) => {
                    num_req_errs = num_req_errs + 1;
                    if example_req_err.is_none() {
                        example_req_err = Some(m.clone());
                    }
                },
                AttemptOutcome::InfrastructureFailure(m) => {
                    num_async_errs = num_async_errs + 1;
                    if example_async_err.is_none() {
                        example_async_err = Some(m.clone());
                    }
                },
            }
            i = i + 1;
        }
        assert(s@.subrange(0, i as int) =~= s@);
        Report { num_async_errs, example_async_err, num_req_errs, example_req_err }
    }
}

/// When no outcome is a success, every outcome is one of the two
/// failure classes, so the two counts of the report partition the
/// outcome sequence: they add up to its length.
pub proof fn lemma_report_partitions_failures(s: Seq<AttemptOutcome>)
    requires
        forall|i: int| 0 <= i < s.len() ==> !(s[i] is Success),
    ensures
        count_infra(s) + count_domain(s) == s.len(),
    decreases s.len(),
{
    if s.len() > 0 {
        lemma_report_partitions_failures(s.drop_last());
    }
}

proof fn lemma_count_infra_zero(s: Seq<AttemptOutcome>)
    ensures
        (count_infra(s) == 0) <==> (forall|i: int|
            0 <= i < s.len() ==> !(s[i] is InfrastructureFailure)),
    decreases s.len(),
{
    if s.len() > 0 {
        lemma_count_infra_zero(s.drop_last());
        assert(forall|i: int| 0 <= i < s.drop_last().len() ==> s.drop_last()[i] == s[i]);
        assert(s.last() == s[s.len() - 1]);
    }
}

proof fn lemma_count_domain_zero(s: Seq<AttemptOutcome>)
    ensures
        (count_domain(s) == 0) <==> (forall|i: int| 0 <= i < s.len() ==> !(s[i] is DomainFailure)),
    decreases s.len(),
{
    if s.len() > 0 {
        lemma_count_domain_zero(s.drop_last());
        assert(forall|i: int| 0 <= i < s.drop_last().len() ==> s.drop_last()[i] == s[i]);
        assert(s.last() == s[s.len() - 1]);
    }
}

proof fn lemma_first_infra_none(s: Seq<AttemptOutcome>)
    ensures
        (first_infra_msg(s) is None) <==> (forall|i: int|
            0 <= i < s.len() ==> !(s[i] is InfrastructureFailure)),
    decreases s.len(),
{
    if s.len() == 0 {
    } else if s[0] is InfrastructureFailure {
    } else {
        lemma_first_infra_none(s.skip(1));
        assert(forall|i: int| 0 <= i < s.skip(1).len() ==> s.skip(1)[i] == s[i + 1]);
        assert(forall|i: int| 1 <= i < s.len() ==> #[trigger] s[i] == s.skip(1)[i - 1]);
    }
}

proof fn lemma_first_domain_none(s: Seq<AttemptOutcome>)
    ensures
        (first_domain_msg(s) is None) <==> (forall|i: int|
            0 <= i < s.len() ==> !(s[i] is DomainFailure)),
    decreases s.len(),
{
    if s.len() == 0 {
    } else if s[0] is DomainFailure {
    } else {
        lemma_first_domain_none(s.skip(1));
        assert(forall|i: int| 0 <= i < s.skip(1).len() ==> s.skip(1)[i] == s[i + 1]);
        assert(forall|i: int| 1 <= i < s.len() ==> #[trigger] s[i] == s.skip(1)[i - 1]);
    }
}

/// A report's example message for a failure class is absent exactly
/// when that class has no members.
pub proof fn lemma_example_absent_iff_class_empty(s: Seq<AttemptOutcome>)
    ensures
        (first_infra_msg(s) is None) <==> (count_infra(s) == 0),
        (first_domain_msg(s) is None) <==> (count_domain(s) == 0),
{
    lemma_count_infra_zero(s);
    lemma_first_infra_none(s);
    lemma_count_domain_zero(s);
    lemma_first_domain_none(s);
}

/// The Attempt Scheduler's bookkeeping: how many attempts one run may
/// launch, and the terminal outcome of each attempt launched so far, in
/// launch order. The caller drives the concurrent attempts and records
/// exactly one outcome per attempt; a completed run holds exactly
/// `max_num_attempts` outcomes.
pub struct Scheduler {
    max_attempts: usize,
    outcomes: Vec<AttemptOutcome>,
}

impl Scheduler {
    /// How many attempts this run launches in all.
    pub closed spec fn attempt_bound(&self) -> nat {
        self.max_attempts as nat
    }

    /// The outcomes recorded so far, in launch order.
    pub closed spec fn recorded(&self) -> Seq<AttemptOutcome> {
        self.outcomes@
    }

    pub open spec fn wf(&self) -> bool {
        self.recorded().len() <= self.attempt_bound()
    }

    /// A fresh run: nothing launched yet, the bound taken from the policy.
    pub fn new(retry: &RetryConfig) -> (s: Scheduler)
        ensures
            s.wf(),
            s.attempt_bound() == retry.max_num_attempts,
            s.recorded() == Seq::<AttemptOutcome>::empty(),
    {
        Scheduler { max_attempts: retry.max_num_attempts, outcomes: Vec::new() }
    }

    /// How many attempts still have no recorded outcome.
    pub fn remaining(&self) -> (n: usize)
        requires
            self.wf(),
        ensures
            n == self.attempt_bound() - self.recorded().len(),
    {
        self.max_attempts - self.outcomes.len()
    }

    /// Records the terminal outcome of one launched attempt.
    pub fn record(&mut self, outcome: AttemptOutcome)
        requires
            old(self).wf(),
            old(self).recorded().len() < old(self).attempt_bound(),
        ensures
            final(self).wf(),
            final(self).attempt_bound() == old(self).attempt_bound(),
            final(self).recorded() == old(self).recorded().push(outcome),
    {
        self.outcomes.push(outcome);
    }

    /// Hands the full outcome sequence out once every launched attempt
    /// has reached a terminal state: exactly `attempt_bound` outcomes,
    /// the empty sequence when the bound is zero.
    pub fn finish(self) -> (v: Vec<AttemptOutcome>)
        requires
            self.wf(),
            self.recorded().len() == self.attempt_bound(),
        ensures
            v@ == self.recorded(),
            v@.len() == self.attempt_bound(),
    {
        self.outcomes
    }
}

/// Classifies what came back from joining one attempt task: a probe
/// result becomes a success or a domain failure, a failed join an
/// infrastructure failure.
pub fn outcome_of_join(join: Result<Result<Vec<Slot>, SimpleError>, String>) -> (o:
    AttemptOutcome)
    ensures
        match join {
            Ok(Ok(slots)) => o matches AttemptOutcome::Success(v) && v@ == slots@,
            Ok(Err(e)) => o matches AttemptOutcome::DomainFailure(m) && m@ == e@,
            Err(msg) => o matches AttemptOutcome::InfrastructureFailure(m) && m@ == msg@,
        },
{
    match join {
        Ok(Ok(slots)) => AttemptOutcome::Success(slots),
        Ok(Err(e)) => AttemptOutcome::DomainFailure(e.into_message()),
        Err(msg) => AttemptOutcome::InfrastructureFailure(msg),
    }
}

/// The domain decision of one probe: a structurally valid but empty
/// slot list is a domain failure, never an empty success.
pub fn classify_slots(slots: Vec<Slot>) -> (r: Result<Vec<Slot>, SimpleError>)
    ensures
        match r {
            Ok(v) => slots@.len() > 0 && v@ == slots@,
            Err(e) => slots@.len() == 0 && e@ == "empty slots when finding slots"@,
        },
{
    if slots.len() == 0 {
        Err(SimpleError::new("empty slots when finding slots"))
    } else {
        Ok(slots)
    }
}

/// The domain decision of one probe over the parsed response: takes the
/// slot list of each venue the response named, in response order, and
/// answers from the last venue; no venue at all, or an empty slot list
/// there, is a domain failure.
pub fn classify_find_response(venues: Vec<Vec<Slot>>) -> (r: Result<Vec<Slot>, SimpleError>)
    ensures
        match r {
            Ok(v) => venues@.len() > 0 && v@ == venues@.last()@ && v@.len() > 0,
            Err(e) => {
                &&& (venues@.len() == 0 ==> e@ == "empty venues when finding slots"@)
                &&& (venues@.len() > 0 ==> venues@.last()@.len() == 0 && e@
                    == "empty slots when finding slots"@)
            },
        },
{
    let mut venues = venues;
    match venues.pop() {
        None => Err(SimpleError::new("empty venues when finding slots")),
        Some(slots) => classify_slots(slots),
    }
}

/// The end of one orchestration run over a completed outcome sequence:
/// the earliest-launched success's slots when any attempt succeeded,
/// else the failure report.
pub fn conclude(outcomes: &Vec<AttemptOutcome>) -> (r: Result<Vec<Slot>, Report>)
    ensures
        match r {
            Ok(v) => resolve_spec(outcomes@) == Some(v@),
            Err(rep) => resolve_spec(outcomes@) is None && report_matches(rep, outcomes@),
        },
{
    match resolve(outcomes) {
        Some(v) => Ok(v),
        None => Err(Report::new(outcomes)),
    }
}

/// The Race Resolver is pure: any two results its contract allows on
/// one and the same outcome sequence are equal.
pub proof fn lemma_resolver_idempotent(
    outcomes: Seq<AttemptOutcome>,
    r1: Option<Seq<Slot>>,
    r2: Option<Seq<Slot>>,
)
    requires
        r1 == resolve_spec(outcomes),
        r2 == resolve_spec(outcomes),
    ensures
        r1 == r2,
{
}

/// The Failure Reporter is pure: any two reports its contract allows
/// on one and the same outcome sequence agree on every field.
pub proof fn lemma_reporter_idempotent(outcomes: Seq<AttemptOutcome>, r1: Report, r2: Report)
    requires
        report_matches(r1, outcomes),
        report_matches(r2, outcomes),
    ensures
        r1.num_async_errs == r2.num_async_errs,
        r1.num_req_errs == r2.num_req_errs,
        opt_msg_view(r1.example_async_err) == opt_msg_view(r2.example_async_err),
        opt_msg_view(r1.example_req_err) == opt_msg_view(r2.example_req_err),
{
}

} // verus!
