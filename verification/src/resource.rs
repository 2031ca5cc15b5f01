//! Native resource ownership. Resource ids are small table-local integers,
//! so the owner travels with the resource itself: a package may use and
//! hand on only the resources it owns, and after a handoff the previous
//! owner is a stranger to the resource.
use vstd::prelude::*;
use vstd::string::*;

use crate::capsec::{
    capsec_denial, err_view, none, one, oden_capsec_readiness_gate, readiness_refusal, record, record_spec,
    records_view, AuditRecord, CapsecState, RecordView,
};
use crate::perms::{ErrorView, PermissionDeniedError, PermissionState};
use crate::policy::{Decision, Mode, Principal, PrincipalView};
use crate::text::{concat, decimal, decimal_u32, str_eq, to_owned};

verus! {

/// The owner stamp a resource carries: the label of the package that
/// opened it, or none for ambient and unarmed resources.
pub struct OdenResourceOwner {
    pub owner: Option<String>,
}

pub open spec fn opt_label(o: Option<String>) -> Option<Seq<char>> {
    match o {
        Some(s) => Some(s@),
        None => None,
    }
}

/// The mode's answer to a use it cannot vouch for.
pub open spec fn unvouched(mode: Mode) -> Decision {
    match mode {
        Mode::Enforce => Decision::Deny,
        Mode::Audit => Decision::AllowRecord,
        Mode::Permissive => Decision::Allow,
    }
}

/// A use of a resource by `caller`: its owner may use it; an untracked or
/// foreign resource is left to the mode, since small ids are guessable.
pub open spec fn use_decision_spec(caller: Seq<char>, owner: Option<Seq<char>>, mode: Mode) -> Decision {
    match owner {
        Some(o) if o == caller => Decision::Allow,
        _ => unvouched(mode),
    }
}

pub fn oden_resource_use_decision(caller: &str, owner: Option<&str>, mode: Mode) -> (r: Decision)
    ensures
        r == use_decision_spec(caller@, opt_ref(owner), mode),
{
    match owner {
        Some(o) if str_eq(o, caller) => Decision::Allow,
        _ => match mode {
            Mode::Enforce => Decision::Deny,
            Mode::Audit => Decision::AllowRecord,
            Mode::Permissive => Decision::Allow,
        },
    }
}

pub open spec fn opt_ref(o: Option<&str>) -> Option<Seq<char>> {
    match o {
        Some(s) => Some(s@),
        None => None,
    }
}

/// A use that no mode may loosen, such as cleanup: ambient principals may
/// touch unowned resources, attributable principals their own; missing
/// and quarantined attribution never.
pub open spec fn deny_only_decision_spec(p: PrincipalView, owner: Option<Seq<char>>) -> Decision {
    let attributable = !(p is NoUser || p is Quarantine);
    if (p.is_ambient() && owner is None) || (attributable && owner == Some(p.label_spec())) {
        Decision::Allow
    } else {
        Decision::Deny
    }
}

pub fn oden_deny_only_resource_use_decision(principal: &Principal, owner: Option<&str>, mode: Mode) -> (r: Decision)
    ensures
        r == deny_only_decision_spec(principal@, opt_ref(owner)),
{
    let label = principal.label();
    let same_owner = match owner {
        Some(o) => str_eq(o, label.as_str()),
        None => false,
    };
    let attributable = match principal {
        Principal::NoUser | Principal::Quarantine => false,
        _ => true,
    };
    if (principal.is_ambient() && owner.is_none()) || (attributable && same_owner) {
        Decision::Allow
    } else {
        Decision::Deny
    }
}

/// The refusal of a cross-principal resource use.
pub open spec fn owner_error_spec(label: Seq<char>, owner_label: Seq<char>, rid: int, family: Seq<char>) -> ErrorView {
    ErrorView {
        access: "use of "@ + family + " resource "@ + decimal(rid),
        name: "capsec"@,
        custom_message: Some(
            "oden capsec: principal \""@ + label + "\" may not use "@ + family + " resource "@ + decimal(rid)
                + " owned by \""@ + owner_label + "\" (cross-principal rid)"@,
        ),
        state: PermissionState::Denied,
    }
}

fn owner_error(label: &str, owner_label: &str, rid: u32, family: &str) -> (r: PermissionDeniedError)
    ensures
        r@ == owner_error_spec(label@, owner_label@, rid as int, family@),
{
    let n = decimal_u32(rid);
    let a = concat("use of ", family);
    let b = concat(a.as_str(), " resource ");
    let access = concat(b.as_str(), n.as_str());
    let m1 = concat("oden capsec: principal \"", label);
    let m2 = concat(m1.as_str(), "\" may not use ");
    let m3 = concat(m2.as_str(), family);
    let m4 = concat(m3.as_str(), " resource ");
    let m5 = concat(m4.as_str(), n.as_str());
    let m6 = concat(m5.as_str(), " owned by \"");
    let m7 = concat(m6.as_str(), owner_label);
    let msg = concat(m7.as_str(), "\" (cross-principal rid)");
    capsec_denial(access, msg)
}

/// How an untracked owner is named in messages.
pub open spec fn owner_name(owner: Option<Seq<char>>) -> Seq<char> {
    match owner {
        Some(o) => o,
        None => "(untracked)"@,
    }
}

fn owner_name_of(owner: &Option<String>) -> (r: String)
    ensures
        r@ == owner_name(opt_label(*owner)),
{
    match owner {
        Some(o) => o.clone(),
        None => to_owned("(untracked)"),
    }
}

/// The owner a resource opened now is stamped with.
pub open spec fn captured_owner(state: CapsecState) -> Option<Seq<char>> {
    let p = state.principal@;
    if state.armed && !p.is_ambient() && !(p is NoUser) {
        Some(p.label_spec())
    } else {
        None
    }
}

/// What checking a use of the resource answers and records.
pub open spec fn check_spec(owner: Option<Seq<char>>, state: CapsecState, mode: Mode, rid: int, family: Seq<char>) -> (
    Option<ErrorView>,
    Seq<RecordView>,
) {
    let p = state.principal@;
    let label = p.label_spec();
    let d = use_decision_spec(label, owner, mode);
    if !state.armed || p.is_ambient() || d == Decision::Allow {
        (None, Seq::empty())
    } else {
        let verdict = if d == Decision::Deny {
            "DENY(cross-principal rid)"@
        } else {
            "audit(record)"@
        };
        (
            if d == Decision::Deny {
                Some(owner_error_spec(label, owner_name(owner), rid, family))
            } else {
                None
            },
            seq![record_spec(label, family, "use"@, decimal(rid), verdict, None)],
        )
    }
}

/// What checking a cleanup of the resource answers and records.
pub open spec fn cleanup_spec(owner: Option<Seq<char>>, state: CapsecState, rid: int, family: Seq<char>) -> (
    Option<ErrorView>,
    Seq<RecordView>,
) {
    let p = state.principal@;
    let label = p.label_spec();
    if !state.armed {
        (None, Seq::empty())
    } else if readiness_refusal(state.readiness) is Some {
        (readiness_refusal(state.readiness), Seq::empty())
    } else if deny_only_decision_spec(p, owner) == Decision::Allow {
        (None, Seq::empty())
    } else {
        (
            Some(owner_error_spec(label, owner_name(owner), rid, family)),
            seq![record_spec(label, family, "cleanup"@, decimal(rid), "DENY(cleanup owner mismatch)"@, None)],
        )
    }
}

impl OdenResourceOwner {
    /// Stamps a resource about to be opened with the acting package.
    pub fn capture(state: &CapsecState) -> (r: OdenResourceOwner)
        ensures
            opt_label(r.owner) == captured_owner(*state),
    {
        let owner = if state.armed && !state.principal.is_ambient() && !matches!(state.principal, Principal::NoUser) {
            Some(state.principal.label())
        } else {
            None
        };
        OdenResourceOwner { owner }
    }

    /// Records the owner stamp once the resource has its id.
    pub fn record_open(&self, state: &CapsecState, rid: u32, family: &str) -> (r: Vec<AuditRecord>)
        ensures
            records_view(r@) == if state.armed && self.owner is Some {
                seq![record_spec(self.owner->0@, family@, "own"@, decimal(rid as int), "allow(owner)"@, None)]
            } else {
                Seq::empty()
            },
    {
        if !state.armed {
            return none();
        }
        match &self.owner {
            None => none(),
            Some(label) => {
                let n = decimal_u32(rid);
                one(record(label.as_str(), family, "own", n.as_str(), "allow(owner)", None))
            },
        }
    }

    /// Checks a use of the resource by the acting principal.
    pub fn check(&self, state: &CapsecState, mode: Mode, rid: u32, family: &str) -> (r: (
        Result<(), PermissionDeniedError>,
        Vec<AuditRecord>,
    ))
        ensures
            (err_view(r.0), records_view(r.1@)) == check_spec(opt_label(self.owner), *state, mode, rid as int, family@),
    {
        if !state.armed || state.principal.is_ambient() {
            return (Ok(()), none());
        }
        let label = state.principal.label();
        let owner = match &self.owner {
            Some(o) => Some(o.as_str()),
            None => None,
        };
        let decision = oden_resource_use_decision(label.as_str(), owner, mode);
        if decision == Decision::Allow {
            return (Ok(()), none());
        }
        let n = decimal_u32(rid);
        let deny = decision == Decision::Deny;
        let verdict = if deny {
            "DENY(cross-principal rid)"
        } else {
            "audit(record)"
        };
        let recs = one(record(label.as_str(), family, "use", n.as_str(), verdict, None));
        if deny {
            let name = owner_name_of(&self.owner);
            return (Err(owner_error(label.as_str(), name.as_str(), rid, family)), recs);
        }
        (Ok(()), recs)
    }

    /// Checks a cleanup of the resource, which no mode loosens.
    pub fn check_deny_only(&self, state: &CapsecState, mode: Mode, rid: u32, family: &str) -> (r: (
        Result<(), PermissionDeniedError>,
        Vec<AuditRecord>,
    ))
        ensures
            (err_view(r.0), records_view(r.1@)) == cleanup_spec(opt_label(self.owner), *state, rid as int, family@),
    {
        if !state.armed {
            return (Ok(()), none());
        }
        match oden_capsec_readiness_gate(&state.readiness) {
            Err(e) => return (Err(e), none()),
            Ok(()) => {},
        }
        let owner = match &self.owner {
            Some(o) => Some(o.as_str()),
            None => None,
        };
        if oden_deny_only_resource_use_decision(&state.principal, owner, mode) == Decision::Allow {
            return (Ok(()), none());
        }
        let label = state.principal.label();
        let n = decimal_u32(rid);
        let recs = one(record(label.as_str(), family, "cleanup", n.as_str(), "DENY(cleanup owner mismatch)", None));
        let name = owner_name_of(&self.owner);
        (Err(owner_error(label.as_str(), name.as_str(), rid, family)), recs)
    }

    /// Re-owns the resource to `to_selector` unless `caller` may not use
    /// it; answers the decision and the previous owner.
    pub fn transfer_for(&mut self, caller: &str, to_selector: &str, mode: Mode) -> (r: (Decision, Option<String>))
        ensures
            r.0 == use_decision_spec(caller@, opt_label(old(self).owner), mode),
            opt_label(r.1) == opt_label(old(self).owner),
            opt_label(final(self).owner) == if r.0 == Decision::Deny {
                opt_label(old(self).owner)
            } else {
                Some(to_selector@)
            },
    {
        let owner = match &self.owner {
            Some(o) => Some(o.as_str()),
            None => None,
        };
        let decision = oden_resource_use_decision(caller, owner, mode);
        let from = match &self.owner {
            Some(o) => Some(o.clone()),
            None => None,
        };
        if decision != Decision::Deny {
            self.owner = Some(to_owned(to_selector));
        }
        (decision, from)
    }
}

/// The decision on a handoff: ambient principals may re-own anything; a
/// package is held to its use decision.
pub open spec fn transfer_decision(state: CapsecState, prior: Option<Seq<char>>, mode: Mode) -> Decision {
    let p = state.principal@;
    if p.is_ambient() {
        Decision::Allow
    } else {
        use_decision_spec(p.label_spec(), prior, mode)
    }
}

/// What a handoff answers and records.
pub open spec fn transfer_spec(
    prior: Option<Seq<char>>,
    state: CapsecState,
    mode: Mode,
    rid: int,
    family: Seq<char>,
    to_selector: Seq<char>,
) -> (Option<ErrorView>, Seq<RecordView>) {
    if !state.armed {
        (None, Seq::empty())
    } else if transfer_decision(state, prior, mode) == Decision::Deny {
        (Some(owner_error_spec(state.principal@.label_spec(), owner_name(prior), rid, family)), Seq::empty())
    } else {
        (
            None,
            seq![
                record_spec(
                    to_selector,
                    family,
                    "transfer"@,
                    decimal(rid),
                    "allow(transfer from "@ + owner_name(prior) + ")"@,
                    None,
                ),
            ],
        )
    }
}

/// The owner after a handoff.
pub open spec fn owner_after_transfer(prior: Option<Seq<char>>, state: CapsecState, mode: Mode, to_selector: Seq<char>) -> Option<
    Seq<char>,
> {
    if !state.armed || transfer_decision(state, prior, mode) == Decision::Deny {
        prior
    } else {
        Some(to_selector)
    }
}

/// Re-owns the resource to `to_selector` for a sanctioned cross-package
/// handoff.
pub fn oden_capsec_transfer_resource(
    owner: &mut OdenResourceOwner,
    state: &CapsecState,
    mode: Mode,
    rid: u32,
    family: &str,
    to_selector: &str,
) -> (r: (Result<(), PermissionDeniedError>, Vec<AuditRecord>))
    ensures
        (err_view(r.0), records_view(r.1@)) == transfer_spec(
            opt_label(old(owner).owner),
            *state,
            mode,
            rid as int,
            family@,
            to_selector@,
        ),
        opt_label(final(owner).owner) == owner_after_transfer(opt_label(old(owner).owner), *state, mode, to_selector@),
{
    if !state.armed {
        return (Ok(()), none());
    }
    let caller = state.principal.label();
    let (decision, from) = if state.principal.is_ambient() {
        let from = match &owner.owner {
            Some(o) => Some(o.clone()),
            None => None,
        };
        owner.owner = Some(to_owned(to_selector));
        (Decision::Allow, from)
    } else {
        owner.transfer_for(caller.as_str(), to_selector, mode)
    };
    let from_label = owner_name_of(&from);
    if decision == Decision::Deny {
        return (Err(owner_error(caller.as_str(), from_label.as_str(), rid, family)), none());
    }
    let n = decimal_u32(rid);
    let a = concat("allow(transfer from ", from_label.as_str());
    let verdict = concat(a.as_str(), ")");
    (Ok(()), one(record(to_selector, family, "transfer", n.as_str(), verdict.as_str(), None)))
}

/// Under enforce a package may hand on only a resource it owns.
pub proof fn lemma_only_the_owner_hands_on(
    prior: Option<Seq<char>>,
    state: CapsecState,
    rid: int,
    family: Seq<char>,
    to_selector: Seq<char>,
)
    requires
        state.armed,
        !state.principal@.is_ambient(),
        prior != Some(state.principal@.label_spec()),
    ensures
        transfer_spec(prior, state, Mode::Enforce, rid, family, to_selector).0 is Some,
        owner_after_transfer(prior, state, Mode::Enforce, to_selector) == prior,
{
}

/// After a handoff to another principal, the previous owner may no longer
/// use the resource under enforce.
pub proof fn lemma_handoff_leaves_previous_owner(
    prior: Option<Seq<char>>,
    giver: CapsecState,
    mode: Mode,
    to_selector: Seq<char>,
    user: CapsecState,
    rid: int,
    family: Seq<char>,
)
    requires
        giver.armed,
        transfer_spec(prior, giver, mode, rid, family, to_selector).0 is None,
        user.armed,
        !user.principal@.is_ambient(),
        user.principal@.label_spec() != to_selector,
    ensures
        check_spec(owner_after_transfer(prior, giver, mode, to_selector), user, Mode::Enforce, rid, family).0 is Some,
{
}

} // verus!
