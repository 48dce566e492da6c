//! The guarantees of the refresh coordinator, stated over its model.
//!
//! Each law speaks about [`spec_validate`], [`spec_finish`] and
//! [`spec_resolve`], the specifications that the executable coordinator is
//! proved to implement, so what is shown here holds of every run of
//! [`crate::validator::DomainValidator`].
use vstd::prelude::*;
use crate::validator::ValidatorModel;
use crate::validator::ValidationStep;
use crate::validator::ValidationError;
use crate::validator::RefreshOutcome;
use crate::validator::RefreshPhase;
use crate::validator::spec_validate;
use crate::validator::spec_finish;
use crate::validator::spec_resolve;
use crate::validator::spec_member;
use crate::validator::local_seq;
use crate::snapshot::spec_parse_tlds;

verus! {

/// A TLD the live snapshot lists is accepted on the spot: the request
/// settles as `Accept` and the coordinator is left exactly as it was, so no
/// network fetch is started and no waiter is queued.
pub proof fn lemma_member_accepts_locally(m: ValidatorModel, tld: Seq<char>)
    requires
        spec_member(m.tlds, tld),
    ensures
        spec_validate(m, tld) == (m, ValidationStep::Accept),
{
}

/// Single flight: a request becomes the owner of a fetch exactly when its
/// TLD misses while the coordinator is idle and unrefreshed, and ownership
/// moves the coordinator to `Refreshing`; while a fetch is in flight no
/// further request can start one — a concurrent miss only joins the waiter
/// queue. So any number of overlapping requests on an unknown TLD trigger
/// exactly one fetch.
pub proof fn lemma_single_flight(m: ValidatorModel, tld: Seq<char>)
    ensures
        spec_validate(m, tld).1 == ValidationStep::StartRefresh <==> (!spec_member(m.tlds, tld)
            && m.phase is Seeded),
        spec_validate(m, tld).1 == ValidationStep::StartRefresh ==> spec_validate(
            m,
            tld,
        ).0.phase is Refreshing && spec_validate(m, tld).0.tlds == m.tlds,
        m.phase is Refreshing ==> spec_validate(m, tld).1 != ValidationStep::StartRefresh,
        m.phase is Refreshing && !spec_member(m.tlds, tld) ==> spec_validate(m, tld)
            == (
        ValidatorModel { tlds: m.tlds, phase: m.phase, waiters: m.waiters + 1 },
        ValidationStep::AwaitRefresh,
        ),
{
}

/// The state after a sequence of validation requests, applied in order with
/// no intervening refresh completion.
pub open spec fn run_validates(m: ValidatorModel, reqs: Seq<Seq<char>>) -> ValidatorModel
    decreases reqs.len(),
{
    if reqs.len() == 0 {
        m
    } else {
        run_validates(spec_validate(m, reqs.first()).0, reqs.drop_first())
    }
}

/// How many of those requests start a fetch.
pub open spec fn starts_in(m: ValidatorModel, reqs: Seq<Seq<char>>) -> int
    decreases reqs.len(),
{
    if reqs.len() == 0 {
        0
    } else {
        (if spec_validate(m, reqs.first()).1 == ValidationStep::StartRefresh {
            1int
        } else {
            0int
        }) + starts_in(spec_validate(m, reqs.first()).0, reqs.drop_first())
    }
}

/// Exactly one fetch per flight, over whole runs: whatever requests arrive in
/// whatever order, as long as no refresh completes in between, at most one of
/// them starts a fetch — and none at all while one is already in flight or
/// after one has succeeded.
pub proof fn lemma_at_most_one_fetch(m: ValidatorModel, reqs: Seq<Seq<char>>)
    ensures
        starts_in(m, reqs) <= 1,
        !(m.phase is Seeded) ==> starts_in(m, reqs) == 0,
    decreases reqs.len(),
{
    if reqs.len() > 0 {
        lemma_at_most_one_fetch(spec_validate(m, reqs.first()).0, reqs.drop_first());
    }
}

/// The state after the same TLD is validated `k` times in a row.
pub open spec fn run_same(m: ValidatorModel, tld: Seq<char>, k: nat) -> ValidatorModel
    decreases k,
{
    if k == 0 {
        m
    } else {
        run_same(spec_validate(m, tld).0, tld, (k - 1) as nat)
    }
}

/// Any number of requests sharing one unknown TLD from the idle, unrefreshed
/// state: the first becomes the owner of the one fetch and each of the other
/// `k - 1` joins the waiter queue, so the count that
/// [`spec_finish`] later drains covers every one of them.
pub proof fn lemma_shared_miss_queues_waiters(m: ValidatorModel, tld: Seq<char>, k: nat)
    requires
        m.phase is Seeded,
        !spec_member(m.tlds, tld),
        k >= 1,
    ensures
        spec_validate(m, tld).1 == ValidationStep::StartRefresh,
        run_same(m, tld, k).phase is Refreshing,
        run_same(m, tld, k).tlds == m.tlds,
        run_same(m, tld, k).waiters == m.waiters + k - 1,
{
    let m1 = spec_validate(m, tld).0;
    lemma_awaiting_joins(m1, tld, (k - 1) as nat);
}

/// While the fetch is in flight, `k` further requests on a missing TLD each
/// return `AwaitRefresh` and together grow the waiter queue by `k`.
pub proof fn lemma_awaiting_joins(m: ValidatorModel, tld: Seq<char>, k: nat)
    requires
        m.phase is Refreshing,
        !spec_member(m.tlds, tld),
    ensures
        k >= 1 ==> spec_validate(m, tld).1 == ValidationStep::AwaitRefresh,
        run_same(m, tld, k).phase is Refreshing,
        run_same(m, tld, k).tlds == m.tlds,
        run_same(m, tld, k).waiters == m.waiters + k,
    decreases k,
{
    if k > 0 {
        lemma_awaiting_joins(spec_validate(m, tld).0, tld, (k - 1) as nat);
    }
}

/// Fan-out consistency: the one outcome of the fetch settles the owner and
/// every waiter alike — on a fetched body each request is accepted exactly
/// when the new snapshot (or the reserved `local`) covers its TLD, and on a
/// failed fetch every request receives `RefreshFailed`.
pub proof fn lemma_fanout_consistent(m: ValidatorModel, fetched: Option<Seq<char>>, tld: Seq<char>)
    requires
        m.phase is Refreshing,
    ensures
        spec_resolve(spec_finish(m, fetched).0.tlds, tld, spec_finish(m, fetched).1) == (match fetched {
            Some(body) => if spec_member(spec_parse_tlds(body), tld) {
                Ok::<(), ValidationError>(())
            } else {
                Err::<(), ValidationError>(ValidationError::InvalidTld)
            },
            None => Err::<(), ValidationError>(ValidationError::RefreshFailed),
        }),
{
}

/// A failed fetch strands nobody: the snapshot and the unrefreshed state are
/// kept, the waiter queue is drained with `RefreshFailed` for each entry, and
/// the coordinator returns to idle — so the next request on an unknown TLD
/// can attempt a fresh refresh instead of hanging.
pub proof fn lemma_failed_refresh_recovers(m: ValidatorModel, tld: Seq<char>)
    requires
        m.phase is Refreshing,
    ensures
        spec_finish(m, None).1 == RefreshOutcome::Failure,
        spec_finish(m, None).0 == (ValidatorModel {
            tlds: m.tlds,
            phase: RefreshPhase::Seeded,
            waiters: 0,
        }),
        spec_resolve(spec_finish(m, None).0.tlds, tld, RefreshOutcome::Failure) == Err::<
            (),
            ValidationError,
        >(ValidationError::RefreshFailed),
        !spec_member(m.tlds, tld) ==> spec_validate(spec_finish(m, None).0, tld).1
            == ValidationStep::StartRefresh,
{
}

/// At most one successful refresh per process lifetime: a fetched body moves
/// the coordinator to `Refreshed`, and from there every request settles
/// locally — a listed TLD is accepted, a miss is rejected as `InvalidTld` for
/// good, and no request ever starts or joins a refresh again.
pub proof fn lemma_refreshed_miss_is_final(m: ValidatorModel, body: Seq<char>, tld: Seq<char>)
    requires
        m.phase is Refreshing,
    ensures
        spec_finish(m, Some(body)).1 == RefreshOutcome::Success,
        spec_finish(m, Some(body)).0 == (ValidatorModel {
            tlds: spec_parse_tlds(body),
            phase: RefreshPhase::Refreshed,
            waiters: 0,
        }),
        !spec_member(spec_parse_tlds(body), tld) ==> spec_validate(spec_finish(m, Some(body)).0, tld)
            == (spec_finish(m, Some(body)).0, ValidationStep::Reject(ValidationError::InvalidTld)),
{
}

/// From the refreshed state the coordinator never changes again: every
/// request settles at once, as `Accept` or `Reject(InvalidTld)`.
pub proof fn lemma_refreshed_settles_locally(m: ValidatorModel, tld: Seq<char>)
    requires
        m.phase is Refreshed,
    ensures
        spec_validate(m, tld).0 == m,
        spec_member(m.tlds, tld) ==> spec_validate(m, tld).1 == ValidationStep::Accept,
        !spec_member(m.tlds, tld) ==> spec_validate(m, tld).1 == ValidationStep::Reject(
            ValidationError::InvalidTld,
        ),
{
}

/// The reserved TLD `local` is accepted whatever the snapshot holds and
/// whatever the refresh state is.
pub proof fn lemma_local_always_accepted(m: ValidatorModel)
    ensures
        spec_validate(m, local_seq()) == (m, ValidationStep::Accept),
{
}

} // verus!
