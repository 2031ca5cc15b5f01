use deno_permissions::capsec::CapsecState;
use deno_permissions::capsec::Readiness;
use deno_permissions::policy::Decision;
use deno_permissions::policy::Mode;
use deno_permissions::policy::Principal;
use deno_permissions::resource::oden_capsec_transfer_resource;
use deno_permissions::resource::oden_deny_only_resource_use_decision;
use deno_permissions::resource::oden_resource_use_decision;
use deno_permissions::resource::OdenResourceOwner;

fn dep(name: &str) -> Principal {
  Principal::Package {
    name: name.into(),
    version: None,
  }
}

fn acting(principal: Principal) -> CapsecState {
  CapsecState {
    armed: true,
    readiness: Readiness {
      policy_invalid: false,
      mode: Mode::Enforce,
      missing: vec![],
      advisory: false,
      policy_reason: None,
    },
    principal,
    principal_set: vec![],
    deputy_classes: vec![],
    control_root: false,
  }
}

#[test]
fn use_decisions_follow_owner_then_mode() {
  assert_eq!(oden_resource_use_decision("a", Some("a"), Mode::Enforce), Decision::Allow);
  assert_eq!(oden_resource_use_decision("a", Some("b"), Mode::Enforce), Decision::Deny);
  assert_eq!(oden_resource_use_decision("a", None, Mode::Audit), Decision::AllowRecord);
  assert_eq!(oden_resource_use_decision("a", Some("b"), Mode::Permissive), Decision::Allow);
  assert_eq!(oden_deny_only_resource_use_decision(&Principal::Root, None, Mode::Permissive), Decision::Allow);
  assert_eq!(oden_deny_only_resource_use_decision(&Principal::Root, Some("a"), Mode::Permissive), Decision::Deny);
  assert_eq!(oden_deny_only_resource_use_decision(&dep("a"), Some("a"), Mode::Audit), Decision::Allow);
  assert_eq!(oden_deny_only_resource_use_decision(&Principal::Quarantine, Some("quarantine"), Mode::Audit), Decision::Deny);
}

#[test]
fn a_resource_is_stamped_with_its_opener() {
  let owner = OdenResourceOwner::capture(&acting(dep("a")));
  assert_eq!(owner.owner.as_deref(), Some("a"));
  let recs = owner.record_open(&acting(dep("a")), 3, "tcp");
  assert_eq!(recs.len(), 1);
  assert_eq!(recs[0].action, "own");
  assert_eq!(recs[0].target, "3");
  assert_eq!(recs[0].verdict, "allow(owner)");
  assert!(OdenResourceOwner::capture(&acting(Principal::Root)).owner.is_none());
  assert!(OdenResourceOwner::capture(&acting(Principal::NoUser)).owner.is_none());
}

#[test]
fn a_foreign_resource_is_refused_under_enforce() {
  let owner = OdenResourceOwner { owner: Some("a".into()) };
  let (r, recs) = owner.check(&acting(dep("b")), Mode::Enforce, 7, "file");
  let err = r.unwrap_err();
  assert_eq!(err.access, "use of file resource 7");
  assert_eq!(
    err.custom_message.as_deref(),
    Some("oden capsec: principal \"b\" may not use file resource 7 owned by \"a\" (cross-principal rid)")
  );
  assert_eq!(recs[0].verdict, "DENY(cross-principal rid)");
  let (r, recs) = owner.check(&acting(dep("b")), Mode::Audit, 7, "file");
  assert!(r.is_ok());
  assert_eq!(recs[0].verdict, "audit(record)");
  let (r, recs) = owner.check(&acting(dep("a")), Mode::Enforce, 7, "file");
  assert!(r.is_ok());
  assert!(recs.is_empty());
}

#[test]
fn cleanup_is_held_to_the_owner_in_every_mode() {
  let owner = OdenResourceOwner { owner: None };
  let (r, recs) = owner.check_deny_only(&acting(dep("b")), Mode::Permissive, 2, "child");
  let err = r.unwrap_err();
  assert_eq!(
    err.custom_message.as_deref(),
    Some("oden capsec: principal \"b\" may not use child resource 2 owned by \"(untracked)\" (cross-principal rid)")
  );
  assert_eq!(recs[0].action, "cleanup");
  assert!(owner.check_deny_only(&acting(Principal::Root), Mode::Enforce, 2, "child").0.is_ok());
}

#[test]
fn after_a_handoff_the_previous_owner_is_a_stranger() {
  let mut owner = OdenResourceOwner { owner: Some("a".into()) };
  let (r, recs) = oden_capsec_transfer_resource(&mut owner, &acting(dep("a")), Mode::Enforce, 5, "tcp", "b");
  assert!(r.is_ok());
  assert_eq!(recs[0].principal, "b");
  assert_eq!(recs[0].verdict, "allow(transfer from a)");
  assert_eq!(owner.owner.as_deref(), Some("b"));
  assert!(owner.check(&acting(dep("a")), Mode::Enforce, 5, "tcp").0.is_err());
  assert!(owner.check(&acting(dep("b")), Mode::Enforce, 5, "tcp").0.is_ok());
}

#[test]
fn only_the_owner_may_hand_a_resource_on() {
  let mut owner = OdenResourceOwner { owner: Some("a".into()) };
  let (r, recs) = oden_capsec_transfer_resource(&mut owner, &acting(dep("c")), Mode::Enforce, 5, "tcp", "c");
  assert!(r.is_err());
  assert!(recs.is_empty());
  assert_eq!(owner.owner.as_deref(), Some("a"));
  let mut unowned = OdenResourceOwner { owner: None };
  let (r, recs) = oden_capsec_transfer_resource(&mut unowned, &acting(Principal::Root), Mode::Enforce, 1, "tcp", "d");
  assert!(r.is_ok());
  assert_eq!(recs[0].verdict, "allow(transfer from (untracked))");
  assert_eq!(unowned.owner.as_deref(), Some("d"));
}

#[test]
fn resource_use_decision_owner_semantics() {
  assert_eq!(
    oden_resource_use_decision("dep-a", None, Mode::Enforce),
    Decision::Deny
  );
  assert_eq!(
    oden_resource_use_decision("dep-a", Some("dep-a"), Mode::Enforce),
    Decision::Allow
  );
  assert_eq!(
    oden_resource_use_decision("dep-b", Some("dep-a"), Mode::Enforce),
    Decision::Deny
  );
  assert_eq!(
    oden_resource_use_decision("dep-b", Some("dep-a"), Mode::Audit),
    Decision::AllowRecord
  );
  assert_eq!(
    oden_resource_use_decision("dep-b", Some("dep-a"), Mode::Permissive),
    Decision::Allow
  );
}

#[test]
fn deny_only_resource_owner_is_mode_independent() {
  let dep_a = Principal::Package {
    name: "dep-a".to_string(),
    version: Some("1.0.0".to_string()),
  };
  let dep_b = Principal::Package {
    name: "dep-b".to_string(),
    version: Some("1.0.0".to_string()),
  };
  for mode in [Mode::Enforce, Mode::Audit, Mode::Permissive] {
    assert_eq!(
      oden_deny_only_resource_use_decision(&dep_a, Some("dep-a"), mode),
      Decision::Allow
    );
    assert_eq!(
      oden_deny_only_resource_use_decision(&dep_b, Some("dep-a"), mode),
      Decision::Deny
    );
    assert_eq!(
      oden_deny_only_resource_use_decision(&dep_a, None, mode),
      Decision::Deny
    );
    assert_eq!(
      oden_deny_only_resource_use_decision(&Principal::Root, None, mode),
      Decision::Allow
    );
    assert_eq!(
      oden_deny_only_resource_use_decision(
        &Principal::Root,
        Some("dep-a"),
        mode
      ),
      Decision::Deny
    );
    assert_eq!(
      oden_deny_only_resource_use_decision(
        &Principal::Quarantine,
        Some("quarantine"),
        mode
      ),
      Decision::Deny
    );
    assert_eq!(
      oden_deny_only_resource_use_decision(&Principal::NoUser, None, mode),
      Decision::Deny
    );
  }
}

fn owned_by(label: Option<&str>) -> OdenResourceOwner {
  OdenResourceOwner {
    owner: label.map(str::to_string),
  }
}

#[test]
fn resource_owner_tokens_do_not_alias_worker_local_rids() {
  let worker_a = owned_by(Some("dep-a"));
  let worker_b = owned_by(Some("dep-b"));
  assert_eq!(
    oden_resource_use_decision(
      "dep-a",
      worker_a.owner.as_deref(),
      Mode::Enforce
    ),
    Decision::Allow
  );
  assert_eq!(
    oden_resource_use_decision(
      "dep-b",
      worker_b.owner.as_deref(),
      Mode::Enforce
    ),
    Decision::Allow
  );
  assert_eq!(
    oden_resource_use_decision(
      "dep-b",
      worker_a.owner.as_deref(),
      Mode::Enforce
    ),
    Decision::Deny
  );
  drop(worker_a);
  assert_eq!(worker_b.owner.as_deref(), Some("dep-b"));
}

#[test]
fn transfer_primitive_reowns_only_the_concrete_owner_token() {
  let mut owner = owned_by(Some("dep-a"));
  let unrelated_same_rid = owned_by(Some("dep-c"));
  assert_eq!(
    owner.transfer_for("dep-b", "dep-b", Mode::Enforce).0,
    Decision::Deny
  );
  assert_eq!(owner.owner.as_deref(), Some("dep-a"));
  assert_eq!(
    owner.transfer_for("dep-a", "dep-b", Mode::Enforce).0,
    Decision::Allow
  );
  assert_eq!(owner.owner.as_deref(), Some("dep-b"));
  assert_eq!(unrelated_same_rid.owner.as_deref(), Some("dep-c"));
}
