//! The refresh coordinator: the sole authority on TLD validity.
//!
//! One [`DomainValidator`] is constructed at process start from a seed
//! snapshot and shared by every caller. A validation request is one call of
//! [`DomainValidator::validate`], which decides locally whenever it can: a
//! TLD listed in the live snapshot (or the reserved `local`) is accepted, and
//! a miss after a completed refresh is rejected for good. A miss before any
//! successful refresh either starts the one in-flight refresh (the caller
//! becomes its owner and must call [`DomainValidator::finish_refresh`] on
//! every path) or joins it as a waiter. The owner's
//! [`DomainValidator::finish_refresh`] installs the fetched snapshot only on
//! success, always leaves the in-flight state, and hands back the one
//! [`RefreshOutcome`] that is broadcast to every waiter; each waiter then
//! settles through [`DomainValidator::resolve_after_refresh`].
use vstd::prelude::*;
use crate::snapshot::TldSnapshot;
use crate::snapshot::spec_parse_tlds;
use crate::domain::Domain;
use crate::domain::spec_tld;
use crate::text::str_eq;

verus! {

/// The reserved TLD accepted regardless of snapshot contents.
pub open spec fn local_seq() -> Seq<char> {
    seq!['l', 'o', 'c', 'a', 'l']
}

/// A TLD is acceptable when the snapshot lists it or it is the reserved
/// `local`.
pub open spec fn spec_member(tlds: Set<Seq<char>>, tld: Seq<char>) -> bool {
    tlds.contains(tld) || tld == local_seq()
}

/// The refresh lifecycle of the coordinator. `Seeded` holds the build-time
/// seed (or the state after a failed refresh); `Refreshing` marks the one
/// in-flight fetch; `Refreshed` is reached only by a successful refresh and
/// is never left.
#[derive(Debug, Clone, Copy, PartialEq, Eq, Structural)]
pub enum RefreshPhase {
    Seeded,
    Refreshing,
    Refreshed,
}

/// Why a validation request fails.
#[derive(Debug, Clone, Copy, PartialEq, Eq, Structural)]
pub enum ValidationError {
    /// The domain has no TLD; defensive only, unreachable for a well-formed
    /// [`Domain`].
    NoTld,
    /// The TLD is absent from the snapshot after a completed refresh.
    InvalidTld,
    /// The fetch of the authority list failed.
    RefreshFailed,
}

/// What one validation request must do next.
#[derive(Debug, Clone, Copy, PartialEq, Eq, Structural)]
pub enum ValidationStep {
    /// The TLD is acceptable; the request is settled.
    Accept,
    /// The request is settled with an error.
    Reject(ValidationError),
    /// This caller owns the refresh: it must fetch the authority list and
    /// call [`DomainValidator::finish_refresh`] with what it got.
    StartRefresh,
    /// A refresh is already in flight: this caller is registered as a waiter
    /// and must settle with the broadcast outcome through
    /// [`DomainValidator::resolve_after_refresh`].
    AwaitRefresh,
}

/// The one result of a refresh, delivered identically to the owner and to
/// every waiter.
#[derive(Debug, Clone, Copy, PartialEq, Eq, Structural)]
pub enum RefreshOutcome {
    Success,
    Failure,
}

/// The mathematical state of the coordinator: the set of known TLDs, the
/// refresh phase, and how many waiters are queued on the in-flight refresh.
pub ghost struct ValidatorModel {
    pub tlds: Set<Seq<char>>,
    pub phase: RefreshPhase,
    pub waiters: nat,
}

/// One validation step on the model: accept a member TLD, reject a miss for
/// good after a completed refresh, otherwise start the refresh (from idle) or
/// join it as one more waiter.
pub open spec fn spec_validate(m: ValidatorModel, tld: Seq<char>) -> (ValidatorModel, ValidationStep) {
    if spec_member(m.tlds, tld) {
        (m, ValidationStep::Accept)
    } else if m.phase is Refreshed {
        (m, ValidationStep::Reject(ValidationError::InvalidTld))
    } else if m.phase is Seeded {
        (
            ValidatorModel { tlds: m.tlds, phase: RefreshPhase::Refreshing, waiters: m.waiters },
            ValidationStep::StartRefresh,
        )
    } else {
        (
            ValidatorModel { tlds: m.tlds, phase: m.phase, waiters: m.waiters + 1 },
            ValidationStep::AwaitRefresh,
        )
    }
}

/// Completion of the in-flight refresh on the model: a fetched listing
/// replaces the snapshot wholesale and settles the phase for good; a failed
/// fetch leaves the snapshot untouched and returns the phase to idle. Either
/// way the waiter queue is drained.
pub open spec fn spec_finish(m: ValidatorModel, fetched: Option<Seq<char>>) -> (
    ValidatorModel,
    RefreshOutcome,
) {
    match fetched {
        Some(body) => (
            ValidatorModel {
                tlds: spec_parse_tlds(body),
                phase: RefreshPhase::Refreshed,
                waiters: 0,
            },
            RefreshOutcome::Success,
        ),
        None => (
            ValidatorModel { tlds: m.tlds, phase: RefreshPhase::Seeded, waiters: 0 },
            RefreshOutcome::Failure,
        ),
    }
}

/// How a waiter (or the owner) settles once the outcome is known: a failure
/// is reported as such, a success re-checks membership in the new snapshot.
pub open spec fn spec_resolve(
    tlds: Set<Seq<char>>,
    tld: Seq<char>,
    outcome: RefreshOutcome,
) -> Result<(), ValidationError> {
    match outcome {
        RefreshOutcome::Failure => Err(ValidationError::RefreshFailed),
        RefreshOutcome::Success => if spec_member(tlds, tld) {
            Ok(())
        } else {
            Err(ValidationError::InvalidTld)
        },
    }
}

/// Whether `tld` is the reserved name `local`.
fn is_local(tld: &str) -> (r: bool)
    ensures
        r == (tld@ == local_seq()),
{
    let r = str_eq(tld, "local");
    proof {
        reveal_strlit("local");
        assert("local"@ =~= local_seq());
    }
    r
}

/// The refresh coordinator. It owns the live snapshot and the refresh state;
/// all mutation goes through [`DomainValidator::validate`] and
/// [`DomainValidator::finish_refresh`].
#[derive(Debug)]
pub struct DomainValidator {
    snapshot: TldSnapshot,
    phase: RefreshPhase,
    waiters: usize,
}

impl View for DomainValidator {
    type V = ValidatorModel;

    closed spec fn view(&self) -> ValidatorModel {
        ValidatorModel {
            tlds: self.snapshot@,
            phase: self.phase,
            waiters: self.waiters as nat,
        }
    }
}

impl DomainValidator {
    /// Every TLD the coordinator knows is lowercase.
    pub closed spec fn wf(&self) -> bool {
        self.snapshot.wf()
    }

    /// A fresh coordinator holding the seed snapshot: idle, no refresh ever
    /// completed, no waiters.
    pub fn new(seed: TldSnapshot) -> (r: DomainValidator)
        requires
            seed.wf(),
        ensures
            r@ == (ValidatorModel {
                tlds: seed@,
                phase: RefreshPhase::Seeded,
                waiters: 0,
            }),
            r.wf(),
    {
        DomainValidator { snapshot: seed, phase: RefreshPhase::Seeded, waiters: 0 }
    }

    /// Whether `tld` is acceptable against the live snapshot: listed, or the
    /// reserved `local`.
    pub fn is_valid_tld(&self, tld: &str) -> (r: bool)
        ensures
            r == spec_member(self@.tlds, tld@),
    {
        self.snapshot.contains_tld(tld) || is_local(tld)
    }

    /// Whether a refresh is in flight.
    pub fn is_refreshing(&self) -> (r: bool)
        ensures
            r == (self@.phase is Refreshing),
    {
        matches!(self.phase, RefreshPhase::Refreshing)
    }

    /// Whether a refresh has ever completed successfully. Once true, a TLD
    /// miss is authoritative and no refresh is attempted again.
    pub fn has_refreshed(&self) -> (r: bool)
        ensures
            r == (self@.phase is Refreshed),
    {
        matches!(self.phase, RefreshPhase::Refreshed)
    }

    /// One validation request: the step decision of [`spec_validate`] on the
    /// domain's TLD. Only the `StartRefresh` and `AwaitRefresh` outcomes
    /// change the coordinator: the first makes this caller the owner of the
    /// one in-flight refresh, the second queues it as a waiter.
    pub fn validate(&mut self, domain: &Domain) -> (step: ValidationStep)
        requires
            domain.wf(),
            old(self)@.waiters < usize::MAX,
        ensures
            (final(self)@, step) == spec_validate(old(self)@, spec_tld(domain@)),
            old(self).wf() ==> final(self).wf(),
    {
        match domain.tld() {
            None => ValidationStep::Reject(ValidationError::NoTld),
            Some(t) => {
                if self.is_valid_tld(t) {
                    ValidationStep::Accept
                } else if self.has_refreshed() {
                    ValidationStep::Reject(ValidationError::InvalidTld)
                } else if self.is_refreshing() {
                    self.waiters = self.waiters + 1;
                    ValidationStep::AwaitRefresh
                } else {
                    self.phase = RefreshPhase::Refreshing;
                    ValidationStep::StartRefresh
                }
            },
        }
    }

    /// Completion of the refresh this caller owns, on every exit path of the
    /// fetch: `Some` body installs the parsed snapshot and settles the phase,
    /// `None` (a failed fetch) leaves the snapshot as it was and returns the
    /// phase to idle. The waiter queue is drained either way; the returned
    /// count says how many waiters the broadcast outcome must reach.
    pub fn finish_refresh(&mut self, fetched: Option<&str>) -> (r: (RefreshOutcome, usize))
        requires
            old(self)@.phase is Refreshing,
        ensures
            fetched matches Some(body) ==> (final(self)@, r.0) == spec_finish(
                old(self)@,
                Some(body@),
            ),
            fetched is None ==> (final(self)@, r.0) == spec_finish(old(self)@, None),
            r.1 == old(self)@.waiters,
            old(self).wf() ==> final(self).wf(),
            fetched is Some ==> final(self).wf(),
    {
        let drained = self.waiters;
        self.waiters = 0;
        match fetched {
            Some(body) => {
                self.snapshot = TldSnapshot::parse(body);
                self.phase = RefreshPhase::Refreshed;
                (RefreshOutcome::Success, drained)
            },
            None => {
                self.phase = RefreshPhase::Seeded;
                (RefreshOutcome::Failure, drained)
            },
        }
    }

    /// How a waiter, or the owner itself, settles once the broadcast outcome
    /// is known: a failed refresh is reported to every one of them, a
    /// successful one re-checks the TLD against the installed snapshot.
    pub fn resolve_after_refresh(&self, domain: &Domain, outcome: RefreshOutcome) -> (r: Result<
        (),
        ValidationError,
    >)
        requires
            domain.wf(),
        ensures
            r == spec_resolve(self@.tlds, spec_tld(domain@), outcome),
    {
        match outcome {
            RefreshOutcome::Failure => Err(ValidationError::RefreshFailed),
            RefreshOutcome::Success => match domain.tld() {
                None => Err(ValidationError::NoTld),
                Some(t) => {
                    if self.is_valid_tld(t) {
                        Ok(())
                    } else {
                        Err(ValidationError::InvalidTld)
                    }
                },
            },
        }
    }
}

} // verus!
