use deno_permissions::dynamic::DynamicDecider;
use deno_permissions::dynamic::DynamicPermissionState;
use deno_permissions::dynamic::DynamicQueryState;
use deno_permissions::dynamic::DynamicRequestCode;
use deno_permissions::dynamic::DynamicRequestEvaluation;
use deno_permissions::dynamic::DynamicRequestResult;
use deno_permissions::dynamic::OnRequest;
use deno_permissions::dynamic::Policy;
use deno_permissions::dynamic::PolicyValidationIssue;
use deno_permissions::overlay::MAX_MEMO_ENTRIES_PER_PRINCIPAL;
use deno_permissions::overlay::MAX_MEMO_ENTRIES_PER_PROCESS;
use deno_permissions::overlay::MAX_OVERLAY_ENTRIES_PER_PRINCIPAL;
use deno_permissions::overlay::MAX_OVERLAY_ENTRIES_PER_PROCESS;
use deno_permissions::overlay::MAX_SESSION_PRINCIPALS;
use deno_permissions::policy::Decision;
use deno_permissions::policy::Family;
use deno_permissions::policy::Mode;
use deno_permissions::policy::Principal;
use deno_permissions::policy::Request;

fn dep(name: &str) -> Principal {
  Principal::Package {
    name: name.into(),
    version: None,
  }
}

fn env(name: &str) -> Request {
  Request {
    family: Family::Env,
    action: "read".into(),
    target: name.into(),
  }
}

#[test]
fn every_state_machine_row_is_bounded_and_memoized() {
  let mut p = Policy::new(Mode::Enforce);
  p.grant("dep", "env:read:FLOOR").unwrap();
  p.ceiling(
    "dep",
    "env:read:FLOOR,env:read:OK,env:read:NEVER",
    OnRequest::Prompt,
  );
  p.deny_ceiling("env:read:NEVER");
  assert!(p.validate_envelopes().iter().any(|issue| matches!(
    issue,
    PolicyValidationIssue::CeilingConflicted { .. }
  )));
  assert_eq!(
    p.query_dynamic(&dep("dep"), Some(&env("FLOOR"))),
    DynamicQueryState::Granted
  );
  assert_eq!(
    p.query_dynamic(&dep("dep"), Some(&env("OK"))),
    DynamicQueryState::Prompt
  );
  assert_eq!(
    p.query_dynamic(&dep("dep"), Some(&env("OTHER"))),
    DynamicQueryState::Denied
  );
  assert!(matches!(
    p.evaluate_dynamic_request(&dep("dep"), Some(&env("NEVER"))),
    DynamicRequestEvaluation::Terminal(DynamicRequestResult {
      code: DynamicRequestCode::DenyCeiling,
      ..
    })
  ));
  assert!(matches!(
    p.evaluate_dynamic_request(&dep("dep"), Some(&env("OTHER"))),
    DynamicRequestEvaluation::Terminal(DynamicRequestResult {
      code: DynamicRequestCode::AboveCeiling,
      ..
    })
  ));
  assert!(matches!(
    p.evaluate_dynamic_request(&Principal::Quarantine, Some(&env("OK"))),
    DynamicRequestEvaluation::Terminal(DynamicRequestResult {
      code: DynamicRequestCode::Unattributed,
      ..
    })
  ));
  assert!(matches!(
    p.evaluate_dynamic_request(&dep("dep"), None),
    DynamicRequestEvaluation::Terminal(DynamicRequestResult {
      code: DynamicRequestCode::Ambiguous,
      ..
    })
  ));
  let DynamicRequestEvaluation::NeedsDecision { ceiling } =
    p.evaluate_dynamic_request(&dep("dep"), Some(&env("OK")))
  else {
    panic!("needs decider")
  };
  let first = p.unanswered_dynamic_request(&dep("dep"), &env("OK"), ceiling);
  assert_eq!(first.code, DynamicRequestCode::Unanswered);
  assert!(matches!(
    p.evaluate_dynamic_request(&dep("dep"), Some(&env("OK"))),
    DynamicRequestEvaluation::Terminal(DynamicRequestResult {
      code: DynamicRequestCode::Unanswered,
      memoized: true,
      ..
    })
  ));

  let mut broad = Policy::new(Mode::Enforce);
  broad.ceiling("dep", "env:*:*", OnRequest::Auto);
  broad.deny_ceiling("env:read:NEVER");
  let all_env = Request {
    family: Family::Env,
    action: "*".into(),
    target: "*".into(),
  };
  assert_eq!(
    broad.query_dynamic(&dep("dep"), Some(&all_env)),
    DynamicQueryState::Denied,
    "a broad descriptor intersects a narrow deny-ceiling entry"
  );
  assert!(matches!(
    broad.evaluate_dynamic_request(&dep("dep"), Some(&all_env)),
    DynamicRequestEvaluation::Terminal(DynamicRequestResult {
      code: DynamicRequestCode::DenyCeiling,
      ..
    })
  ));
}

#[test]
fn auto_is_exact_and_does_not_transfer() {
  let mut p = Policy::new(Mode::Enforce);
  p.ceiling("dep", "env:read:*", OnRequest::Auto);
  assert!(matches!(
    p.evaluate_dynamic_request(&dep("dep"), Some(&env("ONE"))),
    DynamicRequestEvaluation::Terminal(DynamicRequestResult {
      state: DynamicPermissionState::Granted,
      decider: Some(DynamicDecider::Policy),
      ..
    })
  ));
  assert!(p.grants(&dep("dep"), &env("ONE")));
  assert!(!p.grants(&dep("dep"), &env("TWO")));
  assert!(!p.grants(&dep("other"), &env("ONE")));
  assert_eq!(
    p.decide_set(&[dep("dep"), dep("other")], &env("ONE")),
    Decision::Deny,
    "a session grant cannot be laundered through a second principal"
  );
  assert_eq!(
    p.revoke_dynamic(&dep("dep"), &env("ONE")),
    DynamicQueryState::Denied
  );
  assert!(!p.grants(&dep("dep"), &env("ONE")));
}

#[test]
fn ambient_existing_deny_disposition_and_refusal_rows_are_terminal() {
  let mut p = Policy::new(Mode::Enforce);
  p.grant("dep", "env:read:FLOOR").unwrap();
  p.ceiling("dep", "env:read:FLOOR,env:read:PROMPT", OnRequest::Prompt);
  assert_eq!(
    p.evaluate_dynamic_request(&Principal::Root, Some(&env("PROMPT"))),
    DynamicRequestEvaluation::Ambient
  );
  assert!(matches!(
    p.evaluate_dynamic_request(&dep("dep"), Some(&env("FLOOR"))),
    DynamicRequestEvaluation::Terminal(DynamicRequestResult {
      state: DynamicPermissionState::Granted,
      decider: Some(DynamicDecider::Existing),
      session_grant: None,
      ..
    })
  ));
  let DynamicRequestEvaluation::NeedsDecision { ceiling } =
    p.evaluate_dynamic_request(&dep("dep"), Some(&env("PROMPT")))
  else {
    panic!("within-ceiling prompt request should need a decider")
  };
  let refused = p.complete_dynamic_request(
    &dep("dep"),
    &env("PROMPT"),
    ceiling,
    DynamicDecider::Interactive,
    false,
  );
  assert_eq!(refused.code, DynamicRequestCode::Refused);
  assert!(matches!(
    p.evaluate_dynamic_request(&dep("dep"), Some(&env("PROMPT"))),
    DynamicRequestEvaluation::Terminal(DynamicRequestResult {
      code: DynamicRequestCode::Refused,
      memoized: true,
      ..
    })
  ));

  let mut deny = Policy::new(Mode::Enforce);
  deny.ceiling("dep", "env:read:DOCUMENTED", OnRequest::Deny);
  assert!(matches!(
    deny.evaluate_dynamic_request(&dep("dep"), Some(&env("DOCUMENTED"))),
    DynamicRequestEvaluation::Terminal(DynamicRequestResult {
      code: DynamicRequestCode::AboveCeiling,
      ..
    })
  ));
}

#[test]
fn exact_outcomes_compact_and_covering_scans_have_a_constant_ceiling() {
  let mut p = Policy::new(Mode::Enforce);
  p.ceiling("dep", "env:read:*", OnRequest::Auto);

  for _ in 0..10_000 {
    assert!(matches!(
      p.evaluate_dynamic_request(&dep("dep"), Some(&env("SAME"))),
      DynamicRequestEvaluation::Terminal(DynamicRequestResult {
        state: DynamicPermissionState::Granted,
        ..
      })
    ));
    p.revoke_dynamic(&dep("dep"), &env("SAME"));
  }
  assert_eq!(
    p.session.entry_count, 1,
    "last writer replaces one descriptor"
  );

  for index in 0..10_000 {
    let request = env(&format!("UNIQUE_{index}"));
    assert!(matches!(
      p.evaluate_dynamic_request(&dep("dep"), Some(&request)),
      DynamicRequestEvaluation::Terminal(DynamicRequestResult {
        state: DynamicPermissionState::Granted,
        ..
      })
    ));
  }
  let principal = p.session.principal("dep").unwrap();
  assert_eq!(principal.entries.len(), MAX_OVERLAY_ENTRIES_PER_PRINCIPAL);
  assert!(p.session.entry_count <= MAX_OVERLAY_ENTRIES_PER_PROCESS);
  let (_, scanned) =
    p.session
      .effective_with_scan_count("dep", &env("MISSING"), false);
  assert!(
    scanned <= MAX_OVERLAY_ENTRIES_PER_PRINCIPAL,
    "hot-path work is independent of the 10,000 adversarial mutations"
  );
  assert_eq!(
    p.query_dynamic(&dep("dep"), Some(&env("UNIQUE_0"))),
    DynamicQueryState::Prompt,
    "evicting an allow narrows authority and returns to requestable state"
  );
}

#[test]
fn denial_overflow_collapses_to_a_fail_closed_request_circuit_breaker() {
  let mut p = Policy::new(Mode::Enforce);
  p.ceiling("dep", "env:read:*", OnRequest::Prompt);
  for index in 0..=MAX_MEMO_ENTRIES_PER_PRINCIPAL {
    let request = env(&format!("DENIED_{index}"));
    let DynamicRequestEvaluation::NeedsDecision { ceiling } =
      p.evaluate_dynamic_request(&dep("dep"), Some(&request))
    else {
      panic!(
        "request should remain promptable until the memo quota is crossed"
      )
    };
    assert_eq!(
      p.unanswered_dynamic_request(&dep("dep"), &request, ceiling)
        .state,
      DynamicPermissionState::Denied
    );
  }
  let principal = p.session.principal("dep").unwrap();
  assert!(principal.requests_blocked);
  assert!(principal.memo.len() <= MAX_MEMO_ENTRIES_PER_PRINCIPAL);
  assert!(p.session.memo_count <= MAX_MEMO_ENTRIES_PER_PROCESS);
  assert!(matches!(
    p.evaluate_dynamic_request(&dep("dep"), Some(&env("AFTER_OVERFLOW"))),
    DynamicRequestEvaluation::Terminal(DynamicRequestResult {
      code: DynamicRequestCode::Capacity,
      ..
    })
  ));
}

#[test]
fn revoke_overflow_never_restores_static_floor_authority() {
  let mut p = Policy::new(Mode::Enforce);
  p.grant("dep", "env:read:*").unwrap();
  for index in 0..=MAX_OVERLAY_ENTRIES_PER_PRINCIPAL {
    p.revoke_dynamic(&dep("dep"), &env(&format!("REVOKED_{index}")));
  }
  assert!(p.session.principal("dep").unwrap().deny_all_effective);
  assert!(p.session.entry_count <= MAX_OVERLAY_ENTRIES_PER_PROCESS);
  assert!(
    !p.grants(&dep("dep"), &env("FLOOR_TARGET")),
    "negative-state compaction must narrow, never restore the static floor"
  );
}

#[test]
fn process_principal_quota_blocks_new_dynamic_authority() {
  let mut p = Policy::new(Mode::Enforce);
  for index in 0..=MAX_SESSION_PRINCIPALS {
    let selector = format!("principal-{index}");
    p.ceiling(&selector, "env:read:*", OnRequest::Auto);
    let result =
      p.evaluate_dynamic_request(&dep(&selector), Some(&env("FIRST")));
    if index < MAX_SESSION_PRINCIPALS {
      assert!(matches!(
        result,
        DynamicRequestEvaluation::Terminal(DynamicRequestResult {
          state: DynamicPermissionState::Granted,
          ..
        })
      ));
    } else {
      assert!(matches!(
        result,
        DynamicRequestEvaluation::Terminal(DynamicRequestResult {
          code: DynamicRequestCode::Capacity,
          ..
        })
      ));
    }
  }
  assert_eq!(p.session.principal_count(), MAX_SESSION_PRINCIPALS);
  assert!(p.session.process_requests_blocked);
  assert!(p.grants(&dep("principal-0"), &env("FIRST")));
  assert!(matches!(
    p.evaluate_dynamic_request(&dep("principal-0"), Some(&env("SECOND"))),
    DynamicRequestEvaluation::Terminal(DynamicRequestResult {
      code: DynamicRequestCode::Capacity,
      ..
    })
  ));
}

#[test]
fn request_codes_and_deciders_have_stable_names() {
  assert_eq!(DynamicRequestCode::Refused.as_str(), "OD-CAP-REQ-REFUSED");
  assert_eq!(DynamicRequestCode::Capacity.as_str(), "OD-CAP-REQ-CAPACITY");
  assert_eq!(DynamicDecider::Broker.as_str(), "broker");
  assert_eq!(OnRequest::parse("auto"), Some(OnRequest::Auto));
  assert_eq!(OnRequest::parse("never"), None);
}

#[test]
fn permissive_mode_grants_every_dynamic_request() {
  let mut p = Policy::new(Mode::Permissive);
  assert_eq!(
    p.query_dynamic(&dep("dep"), Some(&env("X"))),
    DynamicQueryState::Granted
  );
  assert!(matches!(
    p.evaluate_dynamic_request(&dep("dep"), Some(&env("X"))),
    DynamicRequestEvaluation::Terminal(DynamicRequestResult {
      decider: Some(DynamicDecider::Existing),
      ..
    })
  ));
  assert_eq!(
    p.revoke_dynamic(&dep("dep"), &env("X")),
    DynamicQueryState::Granted
  );
}

#[test]
fn an_allowed_completion_grants_exactly_the_request() {
  let mut p = Policy::new(Mode::Enforce);
  p.ceiling("dep", "env:read:*", OnRequest::Prompt);
  let DynamicRequestEvaluation::NeedsDecision { ceiling } =
    p.evaluate_dynamic_request(&dep("dep"), Some(&env("A")))
  else {
    panic!("needs decider")
  };
  let done = p.complete_dynamic_request(
    &dep("dep"),
    &env("A"),
    ceiling,
    DynamicDecider::Broker,
    true,
  );
  assert_eq!(done.state, DynamicPermissionState::Granted);
  assert_eq!(done.decider, Some(DynamicDecider::Broker));
  assert!(p.grants(&dep("dep"), &env("A")));
  assert!(!p.grants(&dep("dep"), &env("B")));
}

#[test]
fn floor_outside_the_ceiling_is_reported() {
  let mut p = Policy::new(Mode::Enforce);
  p.grant("dep", "env:read:HOME").unwrap();
  p.ceiling("dep", "env:read:PATH", OnRequest::Prompt);
  let issues = p.validate_envelopes();
  assert_eq!(issues.len(), 1);
  assert!(matches!(
    &issues[0],
    PolicyValidationIssue::FloorAboveCeiling { selector, grant }
      if selector == "dep" && grant == "env:read:HOME"
  ));
}
