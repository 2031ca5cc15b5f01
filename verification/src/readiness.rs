//! The readiness report: "the mode name is the guarantee". Under audit and
//! enforce the runtime states its exact posture, names every degraded
//! configuration, and lists the load-bearing prerequisites whose absence
//! makes enforce refuse to run.
use vstd::prelude::*;
use vstd::string::*;

use crate::capsec::strings_view;
use crate::policy::Mode;
use crate::posture::OdenLockdownPosture;
use crate::text::to_owned;

verus! {

/// The facts a readiness report is made of.
pub struct OdenReadiness {
    pub mode: Mode,
    /// Operations are attributed to principals.
    pub attribution_armed: bool,
    /// The core and its continuation data are sealed.
    pub seal_applied: bool,
    pub lockdown_on: bool,
    pub lockdown_posture: OdenLockdownPosture,
    pub compartment_globals_requested: bool,
    pub compartment_globals_on: bool,
    /// No lockfile binds package locators to their integrity.
    pub integrity_absent: bool,
    /// A lockfile is present but cannot be read.
    pub integrity_unreadable: bool,
    /// How the report names the integrity binding.
    pub integrity_label: String,
    /// Where the policy artifact came from, if any.
    pub policy_source: Option<String>,
    pub project_root: String,
    /// The policy artifact was rejected.
    pub policy_unreadable: bool,
    /// Why it was rejected, when a reason was recorded.
    pub policy_unreadable_reason: Option<String>,
}

pub open spec fn when(b: bool, s: Seq<char>) -> Seq<Seq<char>> {
    if b {
        seq![s]
    } else {
        Seq::empty()
    }
}

/// The prerequisites of a sound enforce decision that are missing.
pub open spec fn missing_spec(r: OdenReadiness) -> Seq<Seq<char>> {
    when(!r.attribution_armed, "attribution capture (op-dispatch frame capture)"@) + when(
        !r.seal_applied,
        "Deno.core / CPED seal"@,
    ) + when(r.policy_unreadable, "valid capsec policy artifact"@)
}

/// The degraded configurations the report names.
pub open spec fn degraded_spec(r: OdenReadiness) -> Seq<Seq<char>> {
    when(
        r.mode == Mode::Enforce && !r.lockdown_on,
        "enforce without lockdown (explicit override) — intrinsics unfrozen (integrity gap)"@,
    ) + when(
        r.compartment_globals_requested && !r.compartment_globals_on && r.mode != Mode::Enforce,
        "compartment globals requested outside enforce — disabled (enforce-gated)"@,
    ) + when(
        r.compartment_globals_requested && !r.compartment_globals_on && r.mode == Mode::Enforce && !r.lockdown_on,
        "compartment globals requested without lockdown — disabled (dynamic channels remain porous)"@,
    ) + match r.policy_unreadable_reason {
        Some(reason) => seq!["policy artifact rejected — fail-closed enforce with zero grants: "@ + reason@],
        None => Seq::empty(),
    } + when(
        r.mode == Mode::Enforce && r.integrity_absent,
        "no deno.lock — package locators are path-derived, not integrity-bound"@,
    ) + when(
        r.integrity_unreadable,
        "deno.lock present but unreadable — package principals fail closed to quarantine"@,
    )
}

pub open spec fn mode_word(m: Mode) -> Seq<char> {
    match m {
        Mode::Permissive => "permissive"@,
        Mode::Audit => "audit"@,
        Mode::Enforce => "enforce"@,
    }
}

/// How the report states the lockdown bit and where it came from.
pub open spec fn lockdown_words(on: bool, posture: OdenLockdownPosture) -> Seq<char> {
    if on {
        if posture == OdenLockdownPosture::DefaultOnEnforce {
            "on (default under enforce)"@
        } else {
            "on (explicit opt-in)"@
        }
    } else if posture == OdenLockdownPosture::ExplicitOff {
        "off (explicit override)"@
    } else {
        "off (opt-in outside enforce; default-on measured NO-GO by the compat corpus)"@
    }
}

/// One `DEGRADED` line per degraded configuration.
pub open spec fn degraded_lines(ds: Seq<Seq<char>>) -> Seq<char>
    decreases ds.len(),
{
    if ds.len() == 0 {
        Seq::empty()
    } else {
        degraded_lines(ds.drop_last()) + "  DEGRADED: "@ + ds.last() + "\n"@
    }
}

/// The rendered report.
pub open spec fn render_spec(r: OdenReadiness) -> Seq<char> {
    "[oden-capsec] readiness report\n"@ + "  mode: "@ + mode_word(r.mode) + "\n"@ + "  attribution: "@ + (if r.attribution_armed {
        "armed"@
    } else {
        "OFF"@
    }) + "\n"@ + "  cped-seal: "@ + (if r.seal_applied {
        "applied"@
    } else {
        "NOT applied"@
    }) + "\n"@ + "  lockdown: "@ + lockdown_words(r.lockdown_on, r.lockdown_posture) + "\n"@ + "  compartment-globals: "@ + (
    if r.compartment_globals_on {
        "on (explicit opt-in; enforce + lockdown gated)"@
    } else {
        "off (opt-in only; default-on blocked by the compat-corpus gate)"@
    }) + "\n"@ + "  integrity: "@ + r.integrity_label@ + "\n"@ + "  policy-source: "@ + (match r.policy_source {
        Some(s) => s@,
        None => "(none)"@,
    }) + "\n"@ + "  root: "@ + r.project_root@ + "\n"@ + degraded_lines(degraded_spec(r))
}

fn push_when(v: &mut Vec<String>, b: bool, s: &str)
    ensures
        strings_view(final(v)@) == strings_view(old(v)@) + when(b, s@),
{
    let ghost before = strings_view(v@);
    if b {
        v.push(to_owned(s));
        assert(strings_view(v@) =~= before + when(b, s@));
    } else {
        assert(strings_view(v@) =~= before + when(b, s@));
    }
}

impl OdenReadiness {
    /// The load-bearing prerequisites that are missing; enforce refuses to
    /// run while any is, unless the operator accepts the degraded state.
    pub fn missing_required(&self) -> (r: Vec<String>)
        ensures
            strings_view(r@) == missing_spec(*self),
    {
        let mut v: Vec<String> = Vec::new();
        assert(strings_view(v@) =~= Seq::<Seq<char>>::empty());
        push_when(&mut v, !self.attribution_armed, "attribution capture (op-dispatch frame capture)");
        push_when(&mut v, !self.seal_applied, "Deno.core / CPED seal");
        push_when(&mut v, self.policy_unreadable, "valid capsec policy artifact");
        assert(strings_view(v@) =~= missing_spec(*self));
        v
    }

    /// Every degraded configuration, named.
    pub fn degraded_states(&self) -> (r: Vec<String>)
        ensures
            strings_view(r@) == degraded_spec(*self),
    {
        let mut v: Vec<String> = Vec::new();
        assert(strings_view(v@) =~= Seq::<Seq<char>>::empty());
        let enforce = self.mode == Mode::Enforce;
        push_when(
            &mut v,
            enforce && !self.lockdown_on,
            "enforce without lockdown (explicit override) — intrinsics unfrozen (integrity gap)",
        );
        let requested_off = self.compartment_globals_requested && !self.compartment_globals_on;
        push_when(
            &mut v,
            requested_off && !enforce,
            "compartment globals requested outside enforce — disabled (enforce-gated)",
        );
        push_when(
            &mut v,
            requested_off && enforce && !self.lockdown_on,
            "compartment globals requested without lockdown — disabled (dynamic channels remain porous)",
        );
        let ghost before = strings_view(v@);
        match &self.policy_unreadable_reason {
            Some(reason) => {
                let mut line = to_owned("policy artifact rejected — fail-closed enforce with zero grants: ");
                line.append(reason.as_str());
                v.push(line);
                assert(strings_view(v@) =~= before + seq![
                    "policy artifact rejected — fail-closed enforce with zero grants: "@ + reason@,
                ]);
            },
            None => {
                assert(strings_view(v@) =~= before + Seq::<Seq<char>>::empty());
            },
        }
        push_when(
            &mut v,
            enforce && self.integrity_absent,
            "no deno.lock — package locators are path-derived, not integrity-bound",
        );
        push_when(
            &mut v,
            self.integrity_unreadable,
            "deno.lock present but unreadable — package principals fail closed to quarantine",
        );
        assert(strings_view(v@) =~= degraded_spec(*self));
        v
    }

    /// The report as the runtime prints it.
    pub fn render(&self) -> (r: String)
        ensures
            r@ == render_spec(*self),
    {
        let mut out = to_owned("[oden-capsec] readiness report\n");
        out.append("  mode: ");
        out.append(
            match self.mode {
                Mode::Permissive => "permissive",
                Mode::Audit => "audit",
                Mode::Enforce => "enforce",
            },
        );
        out.append("\n");
        out.append("  attribution: ");
        out.append(
            if self.attribution_armed {
                "armed"
            } else {
                "OFF"
            },
        );
        out.append("\n");
        out.append("  cped-seal: ");
        out.append(
            if self.seal_applied {
                "applied"
            } else {
                "NOT applied"
            },
        );
        out.append("\n");
        out.append("  lockdown: ");
        out.append(
            if self.lockdown_on {
                if self.lockdown_posture == OdenLockdownPosture::DefaultOnEnforce {
                    "on (default under enforce)"
                } else {
                    "on (explicit opt-in)"
                }
            } else if self.lockdown_posture == OdenLockdownPosture::ExplicitOff {
                "off (explicit override)"
            } else {
                "off (opt-in outside enforce; default-on measured NO-GO by the compat corpus)"
            },
        );
        out.append("\n");
        out.append("  compartment-globals: ");
        out.append(
            if self.compartment_globals_on {
                "on (explicit opt-in; enforce + lockdown gated)"
            } else {
                "off (opt-in only; default-on blocked by the compat-corpus gate)"
            },
        );
        out.append("\n");
        out.append("  integrity: ");
        out.append(self.integrity_label.as_str());
        out.append("\n");
        out.append("  policy-source: ");
        match &self.policy_source {
            Some(s) => out.append(s.as_str()),
            None => out.append("(none)"),
        }
        out.append("\n");
        out.append("  root: ");
        out.append(self.project_root.as_str());
        out.append("\n");
        let ghost head = out@;
        let ds = self.degraded_states();
        let ghost dv = strings_view(ds@);
        let mut i: usize = 0;
        while i < ds.len()
            invariant
                dv == strings_view(ds@),
                i <= ds@.len(),
                out@ == head + degraded_lines(dv.take(i as int)),
            decreases ds@.len() - i,
        {
            assert(dv.take(i + 1).drop_last() =~= dv.take(i as int));
            assert(dv.take(i + 1).last() == ds@[i as int]@);
            out.append("  DEGRADED: ");
            out.append(ds[i].as_str());
            out.append("\n");
            i = i + 1;
        }
        assert(dv.take(ds@.len() as int) =~= dv);
        out
    }
}

} // verus!
