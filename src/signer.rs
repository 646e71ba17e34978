use vstd::prelude::*;
use vstd::string::*;
use crate::activity::SignKind;

verus! {

/// The platform's reply when the account has already checked in.
pub const ALREADY_SIGNED: &'static str = "您已签到过了";

/// The result of a branch that tried every candidate location in vain.
pub const ALL_LOCATIONS_UNAVAILABLE: &'static str = "all locations unavailable";

/// The result of an attempt whose reply was empty.
pub const EMPTY_RESPONSE: &'static str = "the platform sent an empty reply";

/// The body the platform sends when a check-in succeeds.
pub const SUCCESS_BODY: &'static str = "success";

/// The outcome of a check-in attempt.
#[derive(Debug, Clone)]
pub enum SignResult {
    Success,
    Fail(String),
}

/// The model of a `SignResult`.
pub enum Outcome {
    Success,
    Fail(Seq<char>),
}

impl View for SignResult {
    type V = Outcome;

    open spec fn view(&self) -> Outcome {
        match self {
            SignResult::Success => Outcome::Success,
            SignResult::Fail(m) => Outcome::Fail(m@),
        }
    }
}

impl PartialEq for SignResult {
    fn eq(&self, o: &SignResult) -> (r: bool) {
        match (self, o) {
            (SignResult::Success, SignResult::Success) => true,
            (SignResult::Fail(a), SignResult::Fail(b)) => *a == *b,
            _ => false,
        }
    }
}

impl vstd::std_specs::cmp::PartialEqSpecImpl for SignResult {
    open spec fn obeys_eq_spec() -> bool {
        true
    }

    open spec fn eq_spec(&self, o: &SignResult) -> bool {
        self@ == o@
    }
}

impl SignResult {
    pub fn is_success(&self) -> (r: bool)
        ensures
            r == (self@ is Success),
    {
        match self {
            SignResult::Success => true,
            SignResult::Fail(_) => false,
        }
    }
}

/// Whether a failure message says the account has already checked in.
pub open spec fn is_already_msg(m: Seq<char>) -> bool {
    m == ALREADY_SIGNED@
}

/// Whether a reply ends a branch as a success: a success, or the
/// "already checked in" failure.
pub open spec fn settles(o: Outcome) -> bool {
    match o {
        Outcome::Success => true,
        Outcome::Fail(m) => is_already_msg(m),
    }
}

/// Whether a failure message says the account has already checked in.
pub fn is_already_signed(msg: &String) -> (r: bool)
    ensures
        r == is_already_msg(msg@),
{
    *msg == ALREADY_SIGNED.to_owned()
}

/// Reads the body of the platform's reply to a check-in request.
pub fn classify_response(body: &str) -> (r: SignResult)
    ensures
        body@ == SUCCESS_BODY@ ==> r@ == Outcome::Success,
        body@.len() == 0 ==> r@ == Outcome::Fail(EMPTY_RESPONSE@),
        body@ != SUCCESS_BODY@ && body@.len() != 0 ==> r@ == Outcome::Fail(body@),
{
    proof {
        reveal_strlit("success");
    }
    let b = body.to_owned();
    if b == SUCCESS_BODY.to_owned() {
        SignResult::Success
    } else if body.is_empty() {
        SignResult::Fail(EMPTY_RESPONSE.to_owned())
    } else {
        SignResult::Fail(b)
    }
}

/// What a check-in request must carry besides the account.
#[derive(Clone, Copy, Debug, PartialEq, Eq, Structural)]
pub enum Requirement {
    Nothing,
    Place,
    Photo,
    Token,
    Code,
    Unsupported,
}

pub open spec fn requirement_of(kind: SignKind) -> Requirement {
    match kind {
        SignKind::Common => Requirement::Nothing,
        SignKind::Location => Requirement::Place,
        SignKind::Photo => Requirement::Photo,
        SignKind::QrCode(_) => Requirement::Token,
        SignKind::Gesture => Requirement::Code,
        SignKind::SignCode => Requirement::Code,
        SignKind::Unknown => Requirement::Unsupported,
    }
}

/// Whether attempts of this mechanism carry a candidate location.
pub open spec fn located(kind: SignKind) -> bool {
    kind is Location || kind is QrCode
}

/// The payload a check-in of mechanism `kind` needs; an unknown mechanism is
/// never sent.
pub fn requirement(kind: SignKind) -> (r: Requirement)
    ensures
        r == requirement_of(kind),
{
    match kind {
        SignKind::Common => Requirement::Nothing,
        SignKind::Location => Requirement::Place,
        SignKind::Photo => Requirement::Photo,
        SignKind::QrCode(_) => Requirement::Token,
        SignKind::Gesture => Requirement::Code,
        SignKind::SignCode => Requirement::Code,
        SignKind::Unknown => Requirement::Unsupported,
    }
}

/// Whether attempts of mechanism `kind` go through the candidate locations.
pub fn uses_locations(kind: SignKind) -> (r: bool)
    ensures
        r == located(kind),
{
    match kind {
        SignKind::Location => true,
        SignKind::QrCode(_) => true,
        _ => false,
    }
}

impl SignResult {
    pub fn copied(&self) -> (r: SignResult)
        ensures
            r@ == self@,
    {
        match self {
            SignResult::Success => SignResult::Success,
            SignResult::Fail(m) => SignResult::Fail(m.clone()),
        }
    }
}

/// What an account's branch does next.
#[derive(Debug, Clone)]
pub enum Step {
    /// Attempt the check-in with the candidate at this position.
    Try(usize),
    /// Stop with this result.
    Done(SignResult),
}

/// The model of a `Step`.
pub enum StepModel {
    Try(nat),
    Done(Outcome),
}

impl View for Step {
    type V = StepModel;

    open spec fn view(&self) -> StepModel {
        match self {
            Step::Try(i) => StepModel::Try(*i as nat),
            Step::Done(r) => StepModel::Done(r@),
        }
    }
}

pub open spec fn exhausted() -> Outcome {
    Outcome::Fail(ALL_LOCATIONS_UNAVAILABLE@)
}

/// The first step of a branch with `n` candidates, after the pre-check
/// replied `pre`: done when the account has already succeeded, done in vain
/// when a located mechanism has no candidate, else the first candidate.
pub open spec fn first_step(pre: Outcome, n: nat, located: bool) -> StepModel {
    if pre is Success {
        StepModel::Done(Outcome::Success)
    } else if located && n == 0 {
        StepModel::Done(exhausted())
    } else {
        StepModel::Try(0)
    }
}

/// The step after candidate `i` of `n` got `reply`. A mechanism without
/// locations makes one attempt and reports its reply as it is; a located one
/// stops on a reply that settles it, else moves to the next candidate, and
/// fails when none is left.
pub open spec fn next_step(i: nat, n: nat, reply: Outcome, located: bool) -> StepModel {
    if !located {
        StepModel::Done(reply)
    } else if settles(reply) {
        StepModel::Done(Outcome::Success)
    } else if i + 1 < n {
        StepModel::Try(i + 1)
    } else {
        StepModel::Done(exhausted())
    }
}

/// Where a branch that reached candidate `i` ends when candidate `j` would
/// get `replies[j]`: the number of attempts made in all, and the result.
pub open spec fn run_from(i: nat, replies: Seq<Outcome>, located: bool) -> (nat, Outcome)
    decreases replies.len() - i,
{
    if i >= replies.len() {
        (i, exhausted())
    } else {
        match next_step(i, replies.len(), replies[i as int], located) {
            StepModel::Try(_) => run_from(i + 1, replies, located),
            StepModel::Done(o) => (i + 1, o),
        }
    }
}

/// Where a whole branch ends: the number of attempts made, and the result.
pub open spec fn branch_end(pre: Outcome, replies: Seq<Outcome>, located: bool) -> (nat, Outcome) {
    match first_step(pre, replies.len(), located) {
        StepModel::Try(_) => run_from(0, replies, located),
        StepModel::Done(o) => (0, o),
    }
}

/// The first step of a branch with `n` candidates, given the pre-check's reply.
pub fn after_pre_sign(pre: &SignResult, n: usize, located: bool) -> (s: Step)
    ensures
        s@ == first_step(pre@, n as nat, located),
{
    if pre.is_success() {
        Step::Done(SignResult::Success)
    } else if located && n == 0 {
        Step::Done(SignResult::Fail(ALL_LOCATIONS_UNAVAILABLE.to_owned()))
    } else {
        Step::Try(0)
    }
}

/// The step after candidate `i` of `n` got `reply`.
pub fn after_attempt(i: usize, n: usize, reply: SignResult, located: bool) -> (s: Step)
    requires
        i < n,
    ensures
        s@ == next_step(i as nat, n as nat, reply@, located),
{
    if !located {
        return Step::Done(reply);
    }
    let settled = match &reply {
        SignResult::Success => true,
        SignResult::Fail(m) => is_already_signed(m),
    };
    if settled {
        Step::Done(SignResult::Success)
    } else if i + 1 < n {
        Step::Try(i + 1)
    } else {
        Step::Done(SignResult::Fail(ALL_LOCATIONS_UNAVAILABLE.to_owned()))
    }
}

/// The step after an attempt failed in transport: the branch stops with that
/// failure; other branches go on.
pub fn after_transport_error(msg: String) -> (s: Step)
    ensures
        s@ == StepModel::Done(Outcome::Fail(msg@)),
{
    Step::Done(SignResult::Fail(msg))
}

proof fn lemma_run_to_settling(i: nat, replies: Seq<Outcome>, k: int)
    requires
        i <= k < replies.len(),
        settles(replies[k]),
        forall|j: int| 0 <= j < k ==> !settles(#[trigger] replies[j]),
    ensures
        run_from(i, replies, true) == ((k + 1) as nat, Outcome::Success),
    decreases k - i,
{
    if i < k {
        lemma_run_to_settling(i + 1, replies, k);
    }
}

/// A located branch that got past its pre-check stops at the first candidate
/// whose reply settles it, and ends in success; it makes no later attempt, so
/// dropping the candidates after that one changes nothing.
pub proof fn lemma_first_settling_ends_branch(pre: Outcome, replies: Seq<Outcome>, k: int)
    requires
        pre is Fail,
        0 <= k < replies.len(),
        settles(replies[k]),
        forall|j: int| 0 <= j < k ==> !settles(#[trigger] replies[j]),
    ensures
        branch_end(pre, replies, true) == ((k + 1) as nat, Outcome::Success),
        forall|m: int| k < m <= replies.len() ==> #[trigger] branch_end(pre, replies.take(m), true) == branch_end(
            pre,
            replies,
            true,
        ),
{
    lemma_run_to_settling(0, replies, k);
    assert forall|m: int| k < m <= replies.len() implies #[trigger] branch_end(pre, replies.take(m), true)
        == branch_end(pre, replies, true) by {
        let t = replies.take(m);
        assert forall|j: int| 0 <= j < k implies !settles(#[trigger] t[j]) by {
            assert(t[j] == replies[j]);
        }
        lemma_run_to_settling(0, t, k);
    }
}

proof fn lemma_run_exhausts(i: nat, replies: Seq<Outcome>)
    requires
        i < replies.len(),
        forall|j: int| 0 <= j < replies.len() ==> !settles(#[trigger] replies[j]),
    ensures
        run_from(i, replies, true) == (replies.len(), exhausted()),
    decreases replies.len() - i,
{
    if i + 1 < replies.len() {
        lemma_run_exhausts(i + 1, replies);
    }
}

/// A located branch whose candidates are all rejected tries each of them once
/// and fails with "all locations unavailable".
pub proof fn lemma_all_rejected_exhausts(pre: Outcome, replies: Seq<Outcome>)
    requires
        pre is Fail,
        forall|j: int| 0 <= j < replies.len() ==> !settles(#[trigger] replies[j]),
    ensures
        branch_end(pre, replies, true) == (replies.len(), exhausted()),
{
    if replies.len() > 0 {
        lemma_run_exhausts(0, replies);
    }
}

/// How a branch ended: its result, or the transport failure that stopped it.
pub open spec fn end_outcome(e: Result<SignResult, String>) -> Outcome {
    match e {
        Ok(r) => r@,
        Err(m) => Outcome::Fail(m@),
    }
}

/// The results of a check-in keyed by account: `ends[i]` is how the branch of
/// `accounts[i]` ended, and each entry depends on its own branch alone.
pub fn merge_outcomes(accounts: &Vec<String>, ends: &Vec<Result<SignResult, String>>) -> (r: Vec<(String, SignResult)>)
    requires
        accounts.len() == ends.len(),
    ensures
        r.len() == accounts.len(),
        forall|i: int| 0 <= i < r.len() ==> (#[trigger] r[i]).0@ == accounts[i]@ && r[i].1@ == end_outcome(ends[i]),
{
    let mut out: Vec<(String, SignResult)> = Vec::new();
    let mut i: usize = 0;
    while i < accounts.len()
        invariant
            i <= accounts.len(),
            accounts.len() == ends.len(),
            out.len() == i,
            forall|j: int| 0 <= j < i ==> (#[trigger] out[j]).0@ == accounts[j]@ && out[j].1@ == end_outcome(ends[j]),
        decreases accounts.len() - i,
    {
        let r = match &ends[i] {
            Ok(r) => r.copied(),
            Err(m) => SignResult::Fail(m.clone()),
        };
        out.push((accounts[i].clone(), r));
        i = i + 1;
    }
    out
}

/// The report line of one account's result for check-in `task`.
pub open spec fn report_of(task: Seq<char>, account: Seq<char>, o: Outcome) -> Seq<char> {
    match o {
        Outcome::Success => "account ["@ + account + "] signed in to ["@ + task + "]"@,
        Outcome::Fail(m) => "account ["@ + account + "] failed in ["@ + task + "]: "@ + m,
    }
}

/// The report line of one account's result for check-in `task`; a failure
/// carries its message.
pub fn report_line(task: &str, account: &str, r: &SignResult) -> (s: String)
    ensures
        s@ == report_of(task@, account@, r@),
{
    let mut s = "account [".to_owned();
    s.append(account);
    match r {
        SignResult::Success => {
            s.append("] signed in to [");
            s.append(task);
            s.append("]");
        },
        SignResult::Fail(m) => {
            s.append("] failed in [");
            s.append(task);
            s.append("]: ");
            s.append(m.as_str());
        },
    }
    s
}

} // verus!
