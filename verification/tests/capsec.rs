use deno_permissions::capsec::oden_capsec_check_runtime_local_inspector_session;
use deno_permissions::capsec::oden_capsec_classify_url_scheme;
use deno_permissions::capsec::oden_capsec_decide_inner;
use deno_permissions::capsec::oden_capsec_gate_url_scheme;
use deno_permissions::capsec::oden_capsec_guard_deny_only_surface;
use deno_permissions::capsec::oden_capsec_guard_surface;
use deno_permissions::capsec::oden_capsec_handle_enter;
use deno_permissions::capsec::oden_capsec_handle_exit;
use deno_permissions::capsec::oden_capsec_handle_mint;
use deno_permissions::capsec::oden_capsec_handle_revoke;
use deno_permissions::capsec::oden_capsec_handle_scoped;
use deno_permissions::capsec::oden_capsec_is_control_env_name;
use deno_permissions::capsec::oden_capsec_is_dynamic_control_request;
use deno_permissions::capsec::oden_capsec_normalize_url_scheme;
use deno_permissions::capsec::oden_capsec_query_dynamic_permission;
use deno_permissions::capsec::oden_capsec_readiness_gate;
use deno_permissions::capsec::oden_capsec_reject_forward_proxy;
use deno_permissions::capsec::oden_capsec_request_dynamic_permission;
use deno_permissions::capsec::oden_capsec_require_network_url_scheme;
use deno_permissions::capsec::oden_capsec_revoke_dynamic_permission;
use deno_permissions::capsec::oden_dynamic_request;
use deno_permissions::capsec::oden_host_of;
use deno_permissions::capsec::oden_suggested_grant_token;
use deno_permissions::capsec::CapsecState;
use deno_permissions::capsec::DynamicDeciders;
use deno_permissions::capsec::DynamicQuestion;
use deno_permissions::capsec::DeciderProgress;
use deno_permissions::capsec::DynamicRequestStep;
use deno_permissions::capsec::oden_capsec_dynamic_request_step;
use deno_permissions::capsec::oden_capsec_answer_dynamic_request;
use deno_permissions::capsec::dynamic_question;
use deno_permissions::capsec::OdenDynamicPermissionDescriptor;
use deno_permissions::capsec::OdenUrlSchemeClass;
use deno_permissions::capsec::Readiness;
use deno_permissions::attribution::oden_capsec_apply_unattributed_fallback;
use deno_permissions::attribution::oden_capsec_principal_set;
use deno_permissions::attribution::oden_capsec_principal_with_locator;
use deno_permissions::attribution::oden_capsec_scheduling_principal;
use deno_permissions::attribution::AttributionFrame;
use deno_permissions::dynamic::OnRequest;
use deno_permissions::dynamic::Policy;
use deno_permissions::handle::ActiveHandles;
use deno_permissions::handle::HandleTable;
use deno_permissions::perms::BrokerResponse;
use deno_permissions::perms::PermissionState;
use deno_permissions::perms::PromptResponse;
use deno_permissions::policy::Family;
use deno_permissions::policy::Mode;
use deno_permissions::policy::Principal;

fn dep(name: &str) -> Principal {
  Principal::Package {
    name: name.into(),
    version: None,
  }
}

fn ready(mode: Mode) -> Readiness {
  Readiness {
    policy_invalid: false,
    mode,
    missing: vec![],
    advisory: false,
    policy_reason: None,
  }
}

fn state(principal: Principal, mode: Mode) -> CapsecState {
  CapsecState {
    armed: true,
    readiness: ready(mode),
    principal,
    principal_set: vec![],
    deputy_classes: vec![],
    control_root: false,
  }
}

struct Answers {
  broker: Option<BrokerResponse>,
  prompt: Option<PromptResponse>,
  asked: Vec<String>,
}

fn answers(broker: Option<BrokerResponse>, prompt: Option<PromptResponse>) -> Answers {
  Answers {
    broker,
    prompt,
    asked: vec![],
  }
}

impl DynamicDeciders for Answers {
  fn broker(&mut self, question: &DynamicQuestion) -> Option<BrokerResponse> {
    self.asked.push(format!(
      "broker {} {} {} {} {}",
      question.name, question.target, question.principal, question.capability, question.ceiling
    ));
    self.broker.take()
  }

  fn prompt_available(&mut self) -> bool {
    self.asked.push("available".to_string());
    self.prompt.is_some()
  }

  fn prompt(
    &mut self,
    message: &str,
    name: &str,
    api_name: Option<&str>,
    is_unary: bool,
  ) -> PromptResponse {
    self.asked.push(format!(
      "prompt {message} {name} {} {is_unary}",
      api_name.unwrap_or("-")
    ));
    self.prompt.take().unwrap()
  }
}

#[test]
fn url_schemes_are_classified_after_one_colon_is_stripped() {
  assert_eq!(
    oden_capsec_classify_url_scheme("HTTPS:"),
    OdenUrlSchemeClass::Network
  );
  assert_eq!(
    oden_capsec_classify_url_scheme("blob"),
    OdenUrlSchemeClass::ClosedBlob
  );
  assert_eq!(
    oden_capsec_classify_url_scheme("http::"),
    OdenUrlSchemeClass::ClosedUnknown
  );
  assert_eq!(
    oden_capsec_classify_url_scheme("npm:"),
    OdenUrlSchemeClass::RuntimeInternal
  );
  assert_eq!(oden_capsec_normalize_url_scheme("FiLe:"), "file");
}

#[test]
fn closed_schemes_are_refused_when_armed() {
  let s = state(dep("dep"), Mode::Enforce);
  let (r, recs) = oden_capsec_gate_url_scheme(&s, "blob:", "fetch");
  let err = r.unwrap_err();
  assert_eq!(err.access, "fetch URL scheme \"blob\"");
  assert_eq!(
    err.custom_message.as_deref(),
    Some("oden capsec: fetch cannot use blob: (blob ownership and cross-principal delegation are not modeled)")
  );
  assert_eq!(recs.len(), 1);
  assert_eq!(
    recs[0].verdict,
    "DENY(closed scheme: blob ownership and cross-principal delegation are not modeled)"
  );
  let (r, recs) = oden_capsec_gate_url_scheme(&s, "https", "fetch");
  assert_eq!(r.unwrap(), OdenUrlSchemeClass::Network);
  assert!(recs.is_empty());
  let (r, recs) = oden_capsec_require_network_url_scheme(&s, "file:", "http");
  assert!(r.is_err());
  assert_eq!(
    recs[0].verdict,
    "DENY(non-network scheme at network surface)"
  );
  let mut off = state(dep("dep"), Mode::Enforce);
  off.armed = false;
  assert!(oden_capsec_gate_url_scheme(&off, "blob", "fetch").0.is_ok());
}

#[test]
fn hosts_collapse_for_grant_suggestions() {
  assert_eq!(oden_host_of("https://example.com:443/x"), "example.com");
  assert_eq!(oden_host_of("[::1]:8000"), "[::1]");
  assert_eq!(oden_host_of("unix:/tmp/s"), "unix:/tmp/s");
  assert_eq!(oden_host_of("a:b:c"), "a:b:c");
  assert_eq!(
    oden_suggested_grant_token(
      &dep("dep"),
      Family::Network,
      "fetch",
      "http://x.org/y"
    ),
    Some("network:fetch:x.org".to_string())
  );
  assert_eq!(
    oden_suggested_grant_token(&Principal::Root, Family::Env, "read", "X"),
    None
  );
}

#[test]
fn control_plane_variables_are_recognized() {
  assert!(oden_capsec_is_control_env_name("ODEN_CAPSEC_POLICY"));
  assert!(!oden_capsec_is_control_env_name("HOME"));
}

#[test]
fn decisions_allow_grants_and_explain_denials() {
  let mut policy = Policy::new(Mode::Enforce);
  policy.grant("dep", "env:read:HOME").unwrap();
  let s = state(dep("dep"), Mode::Enforce);
  let window = ActiveHandles::new();
  let (r, recs) = oden_capsec_decide_inner(
    &s, &policy, &window, Family::Env, "read", "HOME", "HOME", false, None,
    false, None,
  );
  assert!(r.is_ok());
  assert_eq!(recs[0].verdict, "allow(granted)");
  let (r, recs) = oden_capsec_decide_inner(
    &s, &policy, &window, Family::Env, "read", "OTHER", "OTHER", false,
    None, false, None,
  );
  let err = r.unwrap_err();
  assert_eq!(err.access, "env access to \"OTHER\"");
  assert_eq!(
    err.custom_message.as_deref(),
    Some("oden capsec: principal \"dep\" is not granted env:read:OTHER — to allow: grant \"dep\" `env:read:OTHER`")
  );
  assert_eq!(recs[0].verdict, "DENY(no grant)");
  assert_eq!(recs[0].suggestion.as_deref(), Some("env:read:OTHER"));
}

#[test]
fn the_control_plane_is_never_package_authority() {
  let mut policy = Policy::new(Mode::Enforce);
  policy.grant("dep", "env:read:*").unwrap();
  let s = state(dep("dep"), Mode::Enforce);
  let (r, recs) = oden_capsec_decide_inner(
    &s,
    &policy,
    &ActiveHandles::new(),
    Family::Env,
    "read",
    "ODEN_CAPSEC_POLICY",
    "ODEN_CAPSEC_POLICY",
    false,
    None,
    false,
    None,
  );
  assert!(r.is_err());
  assert_eq!(recs[0].verdict, "DENY(control plane)");
}

#[test]
fn an_active_handle_rescues_a_denial_within_its_scope() {
  let policy = Policy::new(Mode::Enforce);
  let s = state(dep("dep"), Mode::Enforce);
  let mut table = HandleTable::new();
  let mut window = ActiveHandles::new();
  let root = state(Principal::Root, Mode::Enforce);
  let (id, _) =
    oden_capsec_handle_mint(&root, &policy, &mut table, "fs:read:/s", "fs:read:/s");
  let id = id.unwrap();
  assert_eq!(id.len(), 32);
  let (entered, recs) =
    oden_capsec_handle_enter(&s, &mut table, &mut window, &id);
  assert!(entered.is_ok());
  assert_eq!(recs[0].verdict, "allow(transfer root->dep)");
  let (r, recs) = oden_capsec_decide_inner(
    &s, &policy, &window, Family::Fs, "read", "/s/a", "/s/a", false, None,
    false, None,
  );
  assert!(r.is_ok());
  assert_eq!(recs[0].verdict, "allow(handle)");
  oden_capsec_handle_exit(&s, &mut window);
  let (r, _) = oden_capsec_decide_inner(
    &s, &policy, &window, Family::Fs, "read", "/s/a", "/s/a", false, None,
    false, None,
  );
  assert!(r.is_err());
}

#[test]
fn handles_only_narrow_and_revocation_cascades() {
  let policy = Policy::new(Mode::Enforce);
  let root = state(Principal::Root, Mode::Enforce);
  let mut table = HandleTable::new();
  let (parent, _) =
    oden_capsec_handle_mint(&root, &policy, &mut table, "fs:read:/s", "fs:read:/s");
  let parent = parent.unwrap();
  let (wider, recs) = oden_capsec_handle_scoped(
    &root, &mut table, &parent, "fs:read:/", "fs:read:/",
  );
  assert!(wider.is_err());
  assert_eq!(recs[0].verdict, "DENY(scoped wider than parent)");
  let (child, _) = oden_capsec_handle_scoped(
    &root, &mut table, &parent, "fs:read:/s/x", "fs:read:/s/x",
  );
  let child = child.unwrap();
  let recs = oden_capsec_handle_revoke(&root, &mut table, &parent);
  assert_eq!(recs.len(), 2);
  assert_eq!(recs[0].verdict, "allow(revoke)");
  assert_eq!(recs[1].verdict, "allow(revoke cascade)");
  let mut window = ActiveHandles::new();
  let (used, recs) =
    oden_capsec_handle_enter(&root, &mut table, &mut window, &child);
  assert!(used.is_err());
  assert_eq!(recs[0].verdict, "DENY(handle revoked)");
}

#[test]
fn a_package_cannot_mint_beyond_what_it_holds() {
  let mut policy = Policy::new(Mode::Enforce);
  policy.grant("dep", "fs:read:/a").unwrap();
  let s = state(dep("dep"), Mode::Enforce);
  let mut table = HandleTable::new();
  let (r, recs) =
    oden_capsec_handle_mint(&s, &policy, &mut table, "fs:read:/", "fs:read:/");
  assert!(r.is_err());
  assert_eq!(recs[0].verdict, "DENY(mint exceeds holding)");
  let (r, _) = oden_capsec_handle_mint(
    &s, &policy, &mut table, "fs:read:/a/b", "fs:read:/a/b",
  );
  assert!(r.is_ok());
}

#[test]
fn default_closed_surfaces_deny_packages_under_enforce() {
  let s = state(dep("dep"), Mode::Enforce);
  let (r, recs) = oden_capsec_guard_surface(&s, "wasi", "open", "x", "WASI");
  let err = r.unwrap_err();
  assert_eq!(
    err.custom_message.as_deref(),
    Some("oden capsec: principal \"dep\" may not use default-closed wasi:open:x")
  );
  assert_eq!(recs[0].verdict, "DENY(default-closed surface)");
  let audit = state(dep("dep"), Mode::Audit);
  let (r, recs) = oden_capsec_guard_surface(&audit, "wasi", "open", "x", "WASI");
  assert!(r.is_ok());
  assert_eq!(recs[0].verdict, "audit(record)");
  let root = state(Principal::Root, Mode::Enforce);
  assert!(oden_capsec_guard_surface(&root, "wasi", "open", "x", "WASI").0.is_ok());
}

#[test]
fn proxies_and_deny_only_surfaces_are_closed() {
  let mut s = state(dep("dep"), Mode::Enforce);
  let (r, recs) = oden_capsec_reject_forward_proxy(&s, "fetch");
  assert_eq!(r.unwrap_err().access, "fetch forward-proxy access");
  assert_eq!(recs[0].verdict, "DENY(unattested final peer)");
  assert!(oden_capsec_guard_deny_only_surface(&s, "sys", "kill", "1", "kill")
    .0
    .is_ok());
  s.principal_set = vec![dep("a"), Principal::Root, dep("b"), dep("a")];
  let (r, recs) =
    oden_capsec_guard_deny_only_surface(&s, "sys", "kill", "1", "kill");
  assert_eq!(
    r.unwrap_err().custom_message.as_deref(),
    Some("oden capsec: principal set [a,b] may not use deny-only sys:kill:1")
  );
  assert_eq!(recs.len(), 2);
  let (r, recs) = oden_capsec_check_runtime_local_inspector_session(&s, "repl");
  assert!(r.is_ok());
  assert_eq!(recs.len(), 2);
}

#[test]
fn enforce_refuses_to_run_with_missing_prerequisites() {
  let mut r = ready(Mode::Enforce);
  r.missing = vec!["seal".to_string(), "lockdown".to_string()];
  r.policy_reason = Some("bad json".to_string());
  let err = oden_capsec_readiness_gate(&r).unwrap_err();
  assert_eq!(
    err.custom_message.as_deref(),
    Some("oden capsec: enforce refuses to run — missing seal, lockdown. Pass ODEN_CAPSEC_ALLOW_ADVISORY to accept the named degraded state. Policy error: bad json.")
  );
  r.advisory = true;
  assert!(oden_capsec_readiness_gate(&r).is_ok());
}

fn env_desc(variable: &str) -> OdenDynamicPermissionDescriptor {
  OdenDynamicPermissionDescriptor {
    name: "env".to_string(),
    path: None,
    host: None,
    variable: Some(variable.to_string()),
    kind: None,
    command: None,
  }
}

#[test]
fn dynamic_descriptors_map_to_capability_requests() {
  let req = oden_dynamic_request(&env_desc("HOME"), "*").unwrap();
  assert_eq!(req.family, Family::Env);
  assert_eq!(req.action, "*");
  assert_eq!(req.target, "HOME");
  let import = OdenDynamicPermissionDescriptor {
    name: "import".to_string(),
    path: None,
    host: None,
    variable: None,
    kind: None,
    command: None,
  };
  assert!(oden_dynamic_request(&import, "*").is_none());
}

#[test]
fn dynamic_requests_are_decided_by_broker_then_prompt() {
  let mut policy = Policy::new(Mode::Enforce);
  policy.ceiling("dep", "env:*:*", OnRequest::Prompt);
  let s = state(dep("dep"), Mode::Enforce);
  let (q, rec) =
    oden_capsec_query_dynamic_permission(&s, &policy, &env_desc("A"), "*", false);
  assert_eq!(q, Some(PermissionState::Prompt));
  assert_eq!(rec.unwrap().code, "OD-CAP-REQ-QUERY");
  let mut broker = answers(Some(BrokerResponse::Allow), None);
  let (r, rec) = oden_capsec_request_dynamic_permission(
    &s, &mut policy, &env_desc("A"), "*", false, &mut broker,
  );
  assert_eq!(r, Some(PermissionState::Granted));
  let rec = rec.unwrap();
  assert_eq!(rec.decider.as_deref(), Some("broker"));
  assert_eq!(rec.session_grant.as_deref(), Some("env:*:A"));
  let mut user = answers(None, Some(PromptResponse::Deny));
  let (r, rec) = oden_capsec_request_dynamic_permission(
    &s, &mut policy, &env_desc("B"), "*", false, &mut user,
  );
  assert_eq!(r, Some(PermissionState::Denied));
  assert_eq!(rec.unwrap().code, "OD-CAP-REQ-REFUSED");
  let mut nobody = answers(None, None);
  let (r, rec) = oden_capsec_request_dynamic_permission(
    &s, &mut policy, &env_desc("C"), "*", false, &mut nobody,
  );
  assert_eq!(r, Some(PermissionState::Denied));
  assert_eq!(rec.unwrap().code, "OD-CAP-REQ-UNANSWERED");
  let (r, rec) = oden_capsec_request_dynamic_permission(
    &s, &mut policy, &env_desc("ODEN_CAPSEC_*"), "*", false, &mut nobody,
  );
  assert_eq!(r, Some(PermissionState::Denied));
  assert_eq!(rec.unwrap().code, "OD-CAP-REQ-DENY-CEILING");
  let (r, rec) = oden_capsec_revoke_dynamic_permission(
    &s, &mut policy, &env_desc("A"), "*", false,
  );
  assert_eq!(r, Some(PermissionState::Denied));
  assert_eq!(rec.unwrap().code, "OD-CAP-REQ-REVOKED");
}

#[test]
fn oden_url_scheme_classification_is_closed_and_action_independent() {

  assert_eq!(oden_capsec_classify_url_scheme("http"), OdenUrlSchemeClass::Network);
  assert_eq!(oden_capsec_classify_url_scheme("HTTPS:"), OdenUrlSchemeClass::Network);
  assert_eq!(oden_capsec_classify_url_scheme("file:"), OdenUrlSchemeClass::File);
  assert_eq!(oden_capsec_classify_url_scheme("data"), OdenUrlSchemeClass::InlineData);
  assert_eq!(oden_capsec_classify_url_scheme("node:"), OdenUrlSchemeClass::RuntimeInternal);
  assert_eq!(oden_capsec_classify_url_scheme("ext:"), OdenUrlSchemeClass::RuntimeInternal);
  assert_eq!(oden_capsec_classify_url_scheme("deno:"), OdenUrlSchemeClass::RuntimeInternal);
  assert_eq!(oden_capsec_classify_url_scheme("blob:"), OdenUrlSchemeClass::ClosedBlob);
  assert_eq!(oden_capsec_classify_url_scheme("http::"), OdenUrlSchemeClass::ClosedUnknown);
  assert_eq!(
    oden_capsec_classify_url_scheme("future-transport:"),
    OdenUrlSchemeClass::ClosedUnknown
  );
}

fn env_descriptor(variable: &str) -> OdenDynamicPermissionDescriptor {
  OdenDynamicPermissionDescriptor {
    name: "env".to_string(),
    path: None,
    host: None,
    variable: Some(variable.to_string()),
    kind: None,
    command: None,
  }
}

#[test]
fn oden_dynamic_env_patterns_cannot_overlap_the_control_namespace() {
  for variable in [
    "ODEN_CAPSEC_AUDIT_KEY",
    "*",
    "ODEN*",
    "ODEN_CAPSEC*",
    "ODEN_CAPSEC_FUTURE*",
  ] {
    let desc = env_descriptor(variable);
    let req = oden_dynamic_request(&desc, "").unwrap();
    assert!(
      oden_capsec_is_dynamic_control_request(&desc, &req, false, false),
      "{variable} must overlap the reserved namespace"
    );
  }
  let unrelated = env_descriptor("UNRELATED_*");
  let req = oden_dynamic_request(&unrelated, "").unwrap();
  assert!(!oden_capsec_is_dynamic_control_request(
    &unrelated, &req, false, false
  ));
}

#[test]
fn oden_network_scope_normalization_preserves_special_endpoints() {
  assert_eq!(
    oden_host_of("https://example.test:8443/path"),
    "example.test"
  );
  assert_eq!(oden_host_of("[::1]:8443"), "[::1]");
  assert_eq!(oden_host_of("unix:/tmp/oden.sock"), "unix:/tmp/oden.sock");
  assert_eq!(oden_host_of("vsock:2:8000"), "vsock:2:8000");
}

#[test]
fn cped_principal_selection_skips_ambient_wrappers() {
  let package = Principal::Package {
    name: "network-probe".to_string(),
    version: Some("1.0.0".to_string()),
  };
  assert_eq!(
    oden_capsec_scheduling_principal(vec![
      (Principal::Runtime, "ext:deno_node/net.ts".to_string()),
      (Principal::Root, "file:///app/main.ts".to_string()),
      (
        package.clone(),
        "file:///app/node_modules/network-probe/index.js".to_string(),
      ),
    ]),
    Some((
      package,
      "file:///app/node_modules/network-probe/index.js".to_string(),
    ))
  );
  assert_eq!(
    oden_capsec_scheduling_principal(vec![
      (Principal::Root, "file:///app/main.ts".to_string()),
      (Principal::Quarantine, "eval:dynamic".to_string()),
    ]),
    Some((Principal::Quarantine, "eval:dynamic".to_string()))
  );
  assert_eq!(
    oden_capsec_scheduling_principal(vec![
      (Principal::Runtime, "ext:deno_node/net.ts".to_string()),
      (Principal::Root, "file:///app/main.ts".to_string()),
    ]),
    Some((Principal::Root, "file:///app/main.ts".to_string()))
  );
  assert_eq!(
    oden_capsec_scheduling_principal(vec![(
      Principal::Runtime,
      "ext:deno_node/net.ts".to_string(),
    )]),
    None
  );
}

#[test]
fn trusted_host_actor_is_fallback_only_and_declares_both_effects() {
  let s = state(Principal::Runtime, Mode::Enforce);
  let (r, recs) =
    oden_capsec_check_runtime_local_inspector_session(&s, "127.0.0.1:9229");
  assert!(r.is_ok());
  let effects: Vec<(&str, &str)> = recs
    .iter()
    .map(|rec| (rec.family.as_str(), rec.action.as_str()))
    .collect();
  assert_eq!(effects, [("runtime", "inspect"), ("inspector", "activate")]);

  let mut unattributed = Vec::new();
  oden_capsec_apply_unattributed_fallback(&mut unattributed, false);
  assert_eq!(unattributed, vec![Principal::NoUser]);
  assert_eq!(
    Policy::constrained_principals(&unattributed),
    vec![Principal::NoUser],
    "ordinary no-user attribution must remain fail-closed"
  );

  let mut trusted_host = Vec::new();
  oden_capsec_apply_unattributed_fallback(&mut trusted_host, true);
  assert_eq!(trusted_host, vec![Principal::Runtime]);
  assert!(Policy::constrained_principals(&trusted_host).is_empty());

  let mut package_actor = vec![Principal::Quarantine];
  oden_capsec_apply_unattributed_fallback(&mut package_actor, true);
  assert_eq!(
    package_actor,
    vec![Principal::Quarantine],
    "trusted host actor must not replace a live or scheduled constrained actor"
  );
}

#[test]
fn trusted_host_actor_never_overrides_live_or_scheduled_actor() {
  // A live frame of an unlocated script, named as a package file.
  let live = vec![AttributionFrame {
    located: None,
    display_name: Some("file:///untrusted-package.js".to_string()),
    has_script: true,
  }];
  assert_eq!(
    oden_capsec_principal_with_locator(&live, vec![], true).0,
    Principal::Quarantine
  );
  assert_eq!(
    oden_capsec_principal_set(&live, vec![], true),
    vec![Principal::Quarantine]
  );

  // No live frame; one scheduling locator the index could not bind to a
  // package, which it resolves to quarantine.
  let scheduled_locator = "data:oden-unknown-scheduled-package".to_string();
  assert_ne!(
    oden_capsec_principal_with_locator(
      &vec![],
      vec![(Principal::Quarantine, scheduled_locator)],
      true
    )
    .0,
    Principal::Runtime
  );
  assert_ne!(
    oden_capsec_principal_set(&vec![], vec![Principal::Quarantine], true),
    vec![Principal::Runtime]
  );

  assert_eq!(
    oden_capsec_principal_with_locator(&vec![], vec![], true).0,
    Principal::Runtime
  );
  assert_eq!(
    oden_capsec_principal_set(&vec![], vec![], true),
    vec![Principal::Runtime]
  );

  assert_eq!(
    oden_capsec_principal_with_locator(&vec![], vec![], false).0,
    Principal::NoUser
  );
  assert_eq!(
    oden_capsec_principal_set(&vec![], vec![], false),
    vec![Principal::NoUser]
  );
}

#[test]
fn control_plane_dynamic_requests_never_consult_the_deciders() {
  let mut policy = Policy::new(Mode::Enforce);
  policy.ceiling("dep", "env:*:*", OnRequest::Prompt);
  let s = state(dep("dep"), Mode::Enforce);
  for variable in ["ODEN*", "*", "ODEN_CAPSEC_AUDIT_KEY"] {
    let mut deciders = answers(
      Some(BrokerResponse::Allow),
      Some(PromptResponse::AllowAll),
    );
    let (r, rec) = oden_capsec_request_dynamic_permission(
      &s, &mut policy, &env_desc(variable), "*", false, &mut deciders,
    );
    assert_eq!(r, Some(PermissionState::Denied));
    assert_eq!(rec.unwrap().code, "OD-CAP-REQ-DENY-CEILING");
    assert!(deciders.asked.is_empty(), "{variable} consulted a decider");
  }
}

#[test]
fn broker_denial_is_a_refusal_and_the_user_is_not_asked() {
  let mut policy = Policy::new(Mode::Enforce);
  policy.ceiling("dep", "env:*:*", OnRequest::Prompt);
  let s = state(dep("dep"), Mode::Enforce);
  let mut deciders = answers(
    Some(BrokerResponse::Deny { message: None }),
    Some(PromptResponse::Allow),
  );
  let (r, rec) = oden_capsec_request_dynamic_permission(
    &s, &mut policy, &env_desc("HOME"), "*", false, &mut deciders,
  );
  assert_eq!(r, Some(PermissionState::Denied));
  let rec = rec.unwrap();
  assert_eq!(rec.code, "OD-CAP-REQ-REFUSED");
  assert_eq!(rec.decider, None);
  assert_eq!(
    deciders.asked,
    vec!["broker env HOME dep env:*:HOME env:*:*".to_string()]
  );
}

#[test]
fn the_user_is_asked_with_the_ceiling_sentence() {
  let mut policy = Policy::new(Mode::Enforce);
  policy.ceiling("dep", "env:*:*", OnRequest::Prompt);
  let s = state(dep("dep"), Mode::Enforce);
  let mut deciders = answers(None, Some(PromptResponse::AllowAll));
  let (r, rec) = oden_capsec_request_dynamic_permission(
    &s, &mut policy, &env_desc("HOME"), "*", false, &mut deciders,
  );
  assert_eq!(r, Some(PermissionState::Granted));
  assert_eq!(rec.unwrap().decider.as_deref(), Some("interactive"));
  assert_eq!(
    deciders.asked,
    vec![
      "broker env HOME dep env:*:HOME env:*:*".to_string(),
      "available".to_string(),
      "prompt package dep requests env:*:HOME within its declared escalation ceiling env:*:* for this run capsec Deno.permissions.request false".to_string(),
    ]
  );
}

#[test]
fn answered_requests_follow_the_broker_then_the_reply() {
  let q = oden_dynamic_request(&env_desc("HOME"), "*").unwrap();
  let ceiling = deno_permissions::policy::Grant::parse("env:*:*").unwrap();
  let question = dynamic_question("env", &dep("dep"), &q, &ceiling);
  assert_eq!(question.capability, "env:*:HOME");
  assert_eq!(question.ceiling, "env:*:*");
  let mut policy = Policy::new(Mode::Enforce);
  policy.ceiling("dep", "env:*:*", OnRequest::Prompt);
  let r = oden_capsec_answer_dynamic_request(
    &mut policy,
    &dep("dep"),
    &q,
    ceiling.clone(),
    Some(BrokerResponse::Deny { message: None }),
    Some(PromptResponse::Allow),
  );
  assert_eq!(r.code.as_str(), "OD-CAP-REQ-REFUSED");
  let q2 = oden_dynamic_request(&env_desc("PATH"), "*").unwrap();
  let r = oden_capsec_answer_dynamic_request(
    &mut policy,
    &dep("dep"),
    &q2,
    ceiling.clone(),
    None,
    Some(PromptResponse::AllowAll),
  );
  assert_eq!(r.code.as_str(), "OD-CAP-REQ-GRANTED");
  let q3 = oden_dynamic_request(&env_desc("USER"), "*").unwrap();
  let r = oden_capsec_answer_dynamic_request(&mut policy, &dep("dep"), &q3, ceiling, None, None);
  assert_eq!(r.code.as_str(), "OD-CAP-REQ-UNANSWERED");
}

#[test]
fn a_request_within_a_ceiling_asks_the_broker_then_the_user() {
  let mut policy = Policy::new(Mode::Enforce);
  policy.ceiling("dep", "env:*:*", OnRequest::Prompt);
  let s = state(dep("dep"), Mode::Enforce);
  let desc = env_desc("HOME");
  match oden_capsec_dynamic_request_step(&s, &mut policy, &desc, "*", false, DeciderProgress::Start) {
    DynamicRequestStep::AskBroker(q) => {
      assert_eq!(q.name, "env");
      assert_eq!(q.target, "HOME");
      assert_eq!(q.principal, "dep");
      assert_eq!(q.capability, "env:*:HOME");
      assert_eq!(q.ceiling, "env:*:*");
    }
    _ => panic!("the broker is asked first"),
  }
  match oden_capsec_dynamic_request_step(
    &s, &mut policy, &desc, "*", false, DeciderProgress::BrokerAnswered(None),
  ) {
    DynamicRequestStep::AskUser(q) => assert_eq!(
      q.message,
      "package dep requests env:*:HOME within its declared escalation ceiling env:*:* for this run"
    ),
    _ => panic!("the user is asked when the broker has no answer"),
  }
  match oden_capsec_dynamic_request_step(
    &s,
    &mut policy,
    &desc,
    "*",
    false,
    DeciderProgress::BrokerAnswered(Some(BrokerResponse::Allow)),
  ) {
    DynamicRequestStep::Done(r, rec) => {
      assert_eq!(r, Some(PermissionState::Granted));
      assert_eq!(rec.unwrap().decider.as_deref(), Some("broker"));
    }
    _ => panic!("a broker answer settles the request"),
  }
  match oden_capsec_dynamic_request_step(
    &s, &mut policy, &env_desc("ODEN*"), "*", false, DeciderProgress::Start,
  ) {
    DynamicRequestStep::Done(r, _) => assert_eq!(r, Some(PermissionState::Denied)),
    _ => panic!("the control plane is never put to a decider"),
  }
}
