use deno_permissions::policy::Mode;
use deno_permissions::posture::OdenLockdownPosture;
use deno_permissions::readiness::OdenReadiness;

fn report(mode: Mode) -> OdenReadiness {
  OdenReadiness {
    mode,
    attribution_armed: true,
    seal_applied: true,
    lockdown_on: true,
    lockdown_posture: OdenLockdownPosture::DefaultOnEnforce,
    compartment_globals_requested: false,
    compartment_globals_on: false,
    integrity_absent: false,
    integrity_unreadable: false,
    integrity_label: "bound".into(),
    policy_source: Some("/p/.oden/policy.json".into()),
    project_root: "/p".into(),
    policy_unreadable: false,
    policy_unreadable_reason: None,
  }
}

#[test]
fn a_sound_enforce_run_misses_nothing() {
  let r = report(Mode::Enforce);
  assert!(r.missing_required().is_empty());
  assert!(r.degraded_states().is_empty());
  assert_eq!(
    r.render(),
    "[oden-capsec] readiness report\n  mode: enforce\n  attribution: armed\n  cped-seal: applied\n  lockdown: on (default under enforce)\n  compartment-globals: off (opt-in only; default-on blocked by the compat-corpus gate)\n  integrity: bound\n  policy-source: /p/.oden/policy.json\n  root: /p\n"
  );
}

#[test]
fn missing_prerequisites_are_listed_in_order() {
  let mut r = report(Mode::Enforce);
  r.attribution_armed = false;
  r.seal_applied = false;
  r.policy_unreadable = true;
  assert_eq!(
    r.missing_required(),
    vec![
      "attribution capture (op-dispatch frame capture)".to_string(),
      "Deno.core / CPED seal".to_string(),
      "valid capsec policy artifact".to_string(),
    ]
  );
}

#[test]
fn every_degraded_configuration_is_named() {
  let mut r = report(Mode::Enforce);
  r.lockdown_on = false;
  r.lockdown_posture = OdenLockdownPosture::ExplicitOff;
  r.compartment_globals_requested = true;
  r.integrity_absent = true;
  r.integrity_unreadable = true;
  r.policy_unreadable_reason = Some("bad json".into());
  let d = r.degraded_states();
  assert_eq!(d.len(), 5);
  assert!(d[0].starts_with("enforce without lockdown"));
  assert!(d[1].starts_with("compartment globals requested without lockdown"));
  assert_eq!(d[2], "policy artifact rejected — fail-closed enforce with zero grants: bad json");
  assert!(d[3].starts_with("no deno.lock"));
  assert!(d[4].starts_with("deno.lock present but unreadable"));
  let text = r.render();
  assert!(text.contains("  lockdown: off (explicit override)\n"));
  assert!(text.ends_with("  DEGRADED: deno.lock present but unreadable — package principals fail closed to quarantine\n"));
  let mut audit = report(Mode::Audit);
  audit.compartment_globals_requested = true;
  audit.lockdown_on = false;
  audit.lockdown_posture = OdenLockdownPosture::DefaultOffOptIn;
  audit.policy_source = None;
  assert_eq!(
    audit.degraded_states(),
    vec!["compartment globals requested outside enforce — disabled (enforce-gated)".to_string()]
  );
  assert!(audit.render().contains("  policy-source: (none)\n"));
}
