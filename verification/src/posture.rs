//! The hardening postures an armed process runs under: intrinsic lockdown
//! and compartment globals, decided from the operator's switches and the
//! policy mode, and the package refusals they imply for workers and
//! generated code.
use vstd::prelude::*;
use vstd::string::*;

use crate::capsec::{
    ascii_lowercase, capsec_denial, capsec_error, err_view, none, one, oden_capsec_readiness_gate, readiness_refusal,
    record, record_spec, records_view, to_ascii_lowercase, AuditRecord, CapsecState, RecordView,
};
use crate::perms::{ErrorView, PermissionDeniedError};
use crate::policy::Mode;
use crate::text::{concat, str_eq, to_owned};

verus! {

/// Where the lockdown decision came from.
#[derive(Clone, Copy, Debug, PartialEq, Eq, Structural)]
pub enum OdenLockdownPosture {
    /// Enforce mode, no override: on by default.
    DefaultOnEnforce,
    /// Explicitly enabled by the operator.
    ExplicitOn,
    /// Audit or permissive, no opt-in: off by default.
    DefaultOffOptIn,
    /// Explicitly disabled by the operator; under enforce this is the named
    /// degraded state.
    ExplicitOff,
}

impl OdenLockdownPosture {
    pub open spec fn spec_is_on(self) -> bool {
        self == OdenLockdownPosture::DefaultOnEnforce || self == OdenLockdownPosture::ExplicitOn
    }

    pub fn is_on(self) -> (r: bool)
        ensures
            r == self.spec_is_on(),
    {
        match self {
            OdenLockdownPosture::DefaultOnEnforce | OdenLockdownPosture::ExplicitOn => true,
            _ => false,
        }
    }
}

/// A switch value that spells "off": `0`, `false` or `off`, in any ASCII
/// case.
pub open spec fn spells_off(v: Seq<char>) -> bool {
    let l = ascii_lowercase(v);
    l == "0"@ || l == "false"@ || l == "off"@
}

fn is_off_spelling(v: &str) -> (r: bool)
    ensures
        r == spells_off(v@),
{
    let l = to_ascii_lowercase(v);
    str_eq(l.as_str(), "0") || str_eq(l.as_str(), "false") || str_eq(l.as_str(), "off")
}

/// The lockdown posture from the operator's switch (`None` or empty when
/// unset) and the policy mode: enforce implies lockdown unless switched off;
/// other modes opt in.
pub open spec fn lockdown_posture_spec(switch: Option<Seq<char>>, mode: Mode) -> OdenLockdownPosture {
    match switch {
        Some(v) if v.len() > 0 => if spells_off(v) {
            OdenLockdownPosture::ExplicitOff
        } else {
            OdenLockdownPosture::ExplicitOn
        },
        _ => if mode == Mode::Enforce {
            OdenLockdownPosture::DefaultOnEnforce
        } else {
            OdenLockdownPosture::DefaultOffOptIn
        },
    }
}

pub open spec fn opt_text(o: Option<&str>) -> Option<Seq<char>> {
    match o {
        Some(s) => Some(s@),
        None => None,
    }
}

pub fn oden_capsec_lockdown_posture(switch: Option<&str>, mode: Mode) -> (r: OdenLockdownPosture)
    ensures
        r == lockdown_posture_spec(opt_text(switch), mode),
{
    match switch {
        Some(v) if v.unicode_len() > 0 => if is_off_spelling(v) {
            OdenLockdownPosture::ExplicitOff
        } else {
            OdenLockdownPosture::ExplicitOn
        },
        _ => if mode == Mode::Enforce {
            OdenLockdownPosture::DefaultOnEnforce
        } else {
            OdenLockdownPosture::DefaultOffOptIn
        },
    }
}

/// Lockdown is active only while the process is armed.
pub fn oden_capsec_lockdown_on(armed: bool, posture: OdenLockdownPosture) -> (r: bool)
    ensures
        r == (armed && posture.spec_is_on()),
{
    armed && posture.is_on()
}

/// The operator asked for compartment globals: the switch is set, non-empty
/// and not an off spelling.
pub open spec fn globals_requested_spec(switch: Option<Seq<char>>) -> bool {
    match switch {
        Some(v) => v.len() > 0 && !spells_off(v),
        None => false,
    }
}

pub fn oden_capsec_compartment_globals_requested(switch: Option<&str>) -> (r: bool)
    ensures
        r == globals_requested_spec(opt_text(switch)),
{
    match switch {
        Some(v) => v.unicode_len() > 0 && !is_off_spelling(v),
        None => false,
    }
}

/// Compartment globals run only when requested, under enforce, in an armed
/// process with lockdown active.
pub fn oden_capsec_compartment_globals_on(armed: bool, requested: bool, mode: Mode, lockdown_on: bool) -> (r: bool)
    ensures
        r == (armed && requested && mode == Mode::Enforce && lockdown_on),
{
    armed && requested && mode == Mode::Enforce && lockdown_on
}

/// A package may not create a worker under enforce; under other modes the
/// creation is recorded. Ambient principals pass.
pub open spec fn worker_create_spec(state: CapsecState, mode: Mode) -> (Option<ErrorView>, Seq<RecordView>) {
    let label = state.principal@.label_spec();
    if !state.armed {
        (None, Seq::empty())
    } else if readiness_refusal(state.readiness) is Some {
        (readiness_refusal(state.readiness), Seq::empty())
    } else if state.principal@.is_ambient() {
        (None, Seq::empty())
    } else if mode == Mode::Enforce {
        (
            Some(
                capsec_error(
                    "worker creation"@,
                    "oden capsec: principal \""@ + label
                        + "\" cannot create a Worker under enforce (worker principal inheritance is not yet designed; default-denied)"@,
                ),
            ),
            seq![record_spec(label, "worker"@, "create"@, Seq::empty(), "DENY(worker default-denied under enforce)"@, None)],
        )
    } else {
        (None, seq![record_spec(label, "worker"@, "create"@, Seq::empty(), "audit(record)"@, None)])
    }
}

pub fn oden_capsec_check_worker_create(state: &CapsecState, mode: Mode) -> (r: (
    Result<(), PermissionDeniedError>,
    Vec<AuditRecord>,
))
    ensures
        (err_view(r.0), records_view(r.1@)) == worker_create_spec(*state, mode),
{
    if !state.armed {
        return (Ok(()), none());
    }
    match oden_capsec_readiness_gate(&state.readiness) {
        Err(e) => return (Err(e), none()),
        Ok(()) => {},
    }
    if state.principal.is_ambient() {
        return (Ok(()), none());
    }
    let label = state.principal.label();
    let nothing = String::new();
    if mode == Mode::Enforce {
        let rec = record(
            label.as_str(),
            "worker",
            "create",
            nothing.as_str(),
            "DENY(worker default-denied under enforce)",
            None,
        );
        let a = concat("oden capsec: principal \"", label.as_str());
        let msg = concat(
            a.as_str(),
            "\" cannot create a Worker under enforce (worker principal inheritance is not yet designed; default-denied)",
        );
        return (Err(capsec_denial(to_owned("worker creation"), msg)), one(rec));
    }
    let rec = record(label.as_str(), "worker", "create", nothing.as_str(), "audit(record)", None);
    (Ok(()), one(rec))
}

/// While compartment globals are on, a package may not generate code
/// through `node:vm`; ambient principals may.
pub open spec fn vm_code_generation_spec(state: CapsecState, globals_on: bool) -> (Option<ErrorView>, Seq<RecordView>) {
    let label = state.principal@.label_spec();
    if !globals_on {
        (None, Seq::empty())
    } else if readiness_refusal(state.readiness) is Some {
        (readiness_refusal(state.readiness), Seq::empty())
    } else if state.principal@.is_ambient() {
        (None, Seq::empty())
    } else {
        (
            Some(
                capsec_error(
                    "node:vm code generation"@,
                    "oden capsec: principal \""@ + label
                        + "\" cannot generate code through node:vm while compartment globals is active (vm scripts remain quarantine-by-design)"@,
                ),
            ),
            seq![
                record_spec(
                    label,
                    "vm"@,
                    "code-generation"@,
                    Seq::empty(),
                    "DENY(node:vm quarantine under compartment globals)"@,
                    None,
                ),
            ],
        )
    }
}

pub fn oden_capsec_check_vm_code_generation(state: &CapsecState, compartment_globals_on: bool) -> (r: (
    Result<(), PermissionDeniedError>,
    Vec<AuditRecord>,
))
    ensures
        (err_view(r.0), records_view(r.1@)) == vm_code_generation_spec(*state, compartment_globals_on),
{
    if !compartment_globals_on {
        return (Ok(()), none());
    }
    match oden_capsec_readiness_gate(&state.readiness) {
        Err(e) => return (Err(e), none()),
        Ok(()) => {},
    }
    if state.principal.is_ambient() {
        return (Ok(()), none());
    }
    let label = state.principal.label();
    let nothing = String::new();
    let rec = record(
        label.as_str(),
        "vm",
        "code-generation",
        nothing.as_str(),
        "DENY(node:vm quarantine under compartment globals)",
        None,
    );
    let a = concat("oden capsec: principal \"", label.as_str());
    let msg = concat(
        a.as_str(),
        "\" cannot generate code through node:vm while compartment globals is active (vm scripts remain quarantine-by-design)",
    );
    (Err(capsec_denial(to_owned("node:vm code generation"), msg)), one(rec))
}

} // verus!
