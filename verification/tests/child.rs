use deno_permissions::child::ChildPermissionError;
use deno_permissions::child::ChildUnaryRequest;
use deno_permissions::descriptors::EnvDescriptor;
use deno_permissions::descriptors::EnvQueryDescriptor;
use deno_permissions::paths::NoPrompt;
use deno_permissions::perms::BrokerResponse;
use deno_permissions::perms::NoBroker;
use deno_permissions::perms::PermissionBroker;
use deno_permissions::perms::PermissionPrompter;
use deno_permissions::perms::PermissionState;
use deno_permissions::perms::PromptResponse;
use deno_permissions::unary::new_unary_with_ignore;
use deno_permissions::unary::UnaryPermission;

struct Scripted(Vec<PromptResponse>);

impl PermissionPrompter for Scripted {
  fn prompt(
    &mut self,
    _message: &str,
    _name: &str,
    _api_name: Option<&str>,
    _is_unary: bool,
  ) -> PromptResponse {
    self.0.remove(0)
  }
}

struct DenyingBroker;

impl PermissionBroker for DenyingBroker {
  fn answer(
    &mut self,
    _name: &str,
    _value: Option<&str>,
  ) -> Option<BrokerResponse> {
    Some(BrokerResponse::Deny { message: None })
  }
}

fn env_parent(allow: &[&str], deny: &[&str], prompt: bool) -> UnaryPermission<EnvDescriptor> {
  new_unary_with_ignore(
    Some(allow.iter().map(|s| EnvDescriptor::new(s)).collect()),
    if deny.is_empty() {
      None
    } else {
      Some(deny.iter().map(|s| EnvDescriptor::new(s)).collect())
    },
    None,
    prompt,
  )
}

fn listed(names: &[&str]) -> ChildUnaryRequest<EnvDescriptor> {
  ChildUnaryRequest::GrantedList(
    names.iter().map(|s| Ok(Some(EnvDescriptor::new(s)))).collect(),
  )
}

#[test]
fn a_child_gets_only_listed_grants_its_parent_holds() {
  let mut parent = env_parent(&["FOO", "BAR"], &[], false);
  let child = parent
    .create_child_permissions::<EnvQueryDescriptor, _, _>(
      listed(&["FOO"]),
      &mut NoBroker,
      &mut NoPrompt,
    )
    .ok()
    .unwrap();
  assert_eq!(child.query(Some("FOO")), PermissionState::Granted);
  assert_eq!(child.query(Some("BAR")), PermissionState::Prompt);
  assert!(!child.granted_global);
}

#[test]
fn a_child_asking_beyond_its_parent_is_an_escalation() {
  let mut parent = env_parent(&["FOO", "BAR"], &[], false);
  let r = parent.create_child_permissions::<EnvQueryDescriptor, _, _>(
    listed(&["FOO", "BAR", "BAZ"]),
    &mut NoBroker,
    &mut NoPrompt,
  );
  assert!(matches!(r, Err(ChildPermissionError::Escalation)));
  let r = parent.create_child_permissions::<EnvQueryDescriptor, _, _>(
    ChildUnaryRequest::Granted,
    &mut NoBroker,
    &mut NoPrompt,
  );
  let err = match r {
    Err(e) => e,
    Ok(_) => panic!("a global grant escalated"),
  };
  assert_eq!(err.message(), "Can't escalate parent thread permissions");
}

#[test]
fn a_parse_error_in_the_list_is_reported_in_order() {
  let mut parent = env_parent(&["FOO"], &[], false);
  let r = parent.create_child_permissions::<EnvQueryDescriptor, _, _>(
    ChildUnaryRequest::GrantedList(vec![
      Ok(None),
      Err("Empty env not allowed".to_string()),
      Ok(Some(EnvDescriptor::new("BAZ"))),
    ]),
    &mut NoBroker,
    &mut NoPrompt,
  );
  match r {
    Err(ChildPermissionError::DescriptorParse(m)) => {
      assert_eq!(m, "Empty env not allowed")
    }
    _ => panic!("expected the parse error"),
  }
}

#[test]
fn inherit_copies_and_global_grant_follows_a_global_parent() {
  let mut parent = env_parent(&[], &["SECRET"], false);
  let child = parent
    .create_child_permissions::<EnvQueryDescriptor, _, _>(
      ChildUnaryRequest::Inherit,
      &mut NoBroker,
      &mut NoPrompt,
    )
    .ok()
    .unwrap();
  assert_eq!(child.query(Some("OTHER")), PermissionState::Granted);
  assert_eq!(child.query(Some("SECRET")), PermissionState::Denied);
  let mut parent = env_parent(&[], &[], false);
  let child = parent
    .create_child_permissions::<EnvQueryDescriptor, _, _>(
      ChildUnaryRequest::Granted,
      &mut NoBroker,
      &mut NoPrompt,
    )
    .ok()
    .unwrap();
  assert!(child.granted_global);
  assert_eq!(child.query(None), PermissionState::Granted);
}

#[test]
fn a_child_keeps_its_parents_denials() {
  let mut parent = env_parent(&[], &["SECRET"], false);
  let child = parent
    .create_child_permissions::<EnvQueryDescriptor, _, _>(
      ChildUnaryRequest::NotGranted,
      &mut NoBroker,
      &mut NoPrompt,
    )
    .ok()
    .unwrap();
  assert!(!child.granted_global);
  assert_eq!(child.query(Some("SECRET")), PermissionState::Denied);
  assert_eq!(child.query(Some("OTHER")), PermissionState::Prompt);
  assert!(child.descriptors.has_flag_denied);
}

#[test]
fn a_prompted_grant_is_recorded_on_the_parent_too() {
  let mut parent: UnaryPermission<EnvDescriptor> =
    new_unary_with_ignore(None, None, None, true);
  let mut answers = Scripted(vec![PromptResponse::Allow]);
  let child = parent
    .create_child_permissions::<EnvQueryDescriptor, _, _>(
      listed(&["FOO"]),
      &mut NoBroker,
      &mut answers,
    )
    .ok()
    .unwrap();
  assert_eq!(child.query(Some("FOO")), PermissionState::Granted);
  assert_eq!(parent.query(Some("FOO")), PermissionState::Granted);
  assert!(child.prompt);
}

#[test]
fn the_broker_answers_a_childs_checks_first() {
  let mut parent = env_parent(&["FOO"], &[], false);
  let r = parent.create_child_permissions::<EnvQueryDescriptor, _, _>(
    listed(&["FOO"]),
    &mut DenyingBroker,
    &mut NoPrompt,
  );
  assert!(matches!(r, Err(ChildPermissionError::Escalation)));
}
