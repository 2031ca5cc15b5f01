use std::str::FromStr;

use deno_permissions::descriptors::EnvDescriptor;
use deno_permissions::descriptors::SysDescriptor;
use deno_permissions::network::Host;
use deno_permissions::network::ImportDescriptor;
use deno_permissions::network::IpAddress;
use deno_permissions::network::NetDescriptor;
use deno_permissions::network::NetDescriptorFromUrlParseError;
use deno_permissions::network::host_bracket_text;
use deno_permissions::network::host_ip_text;
use deno_permissions::network::import_descriptor_from_url;
use deno_permissions::network::net_descriptor_from_url;
use deno_permissions::network::url_parts;
use deno_permissions::paths::AllowRunDescriptor;
use deno_permissions::paths::AllowRunDescriptorParseResult;
use deno_permissions::paths::DenyRunDescriptor;
use deno_permissions::paths::FfiDescriptor;
use deno_permissions::paths::FfiQueryDescriptor;
use deno_permissions::paths::PathDescriptor;
use deno_permissions::paths::PathQueryDescriptor;
use deno_permissions::paths::ReadDescriptor;
use deno_permissions::paths::ReadQueryDescriptor;
use deno_permissions::paths::RunQueryDescriptor;
use deno_permissions::paths::SpecialFilePathQueryDescriptor;
use deno_permissions::paths::WriteDescriptor;
use deno_permissions::paths::WriteQueryDescriptor;
use deno_permissions::permissions::ParsedPermissionsOptions;
use deno_permissions::permissions::Permissions;
use deno_permissions::perms::PermissionPrompter;
use deno_permissions::perms::PermissionState;
use deno_permissions::perms::PromptResponse;

/// Answers prompts with whatever the switch is set to: allow when on.
struct Switch(bool);

impl PermissionPrompter for Switch {
  fn prompt(
    &mut self,
    _message: &str,
    _name: &str,
    _api_name: Option<&str>,
    _is_unary: bool,
  ) -> PromptResponse {
    if self.0 {
      PromptResponse::Allow
    } else {
      PromptResponse::Deny
    }
  }
}

fn options() -> ParsedPermissionsOptions {
  ParsedPermissionsOptions {
    allow_env: None,
    deny_env: None,
    ignore_env: None,
    allow_net: None,
    deny_net: None,
    allow_ffi: None,
    deny_ffi: None,
    allow_read: None,
    deny_read: None,
    ignore_read: None,
    allow_run: None,
    deny_run: None,
    allow_sys: None,
    deny_sys: None,
    allow_write: None,
    deny_write: None,
    allow_import: None,
    deny_import: None,
    prompt: false,
  }
}

fn path(p: &str) -> PathDescriptor {
  PathDescriptor::new_known_absolute(p)
}

fn reads(items: &[&str]) -> Option<Vec<ReadDescriptor>> {
  Some(items.iter().map(|p| ReadDescriptor(path(p))).collect())
}

fn writes(items: &[&str]) -> Option<Vec<WriteDescriptor>> {
  Some(items.iter().map(|p| WriteDescriptor(path(p))).collect())
}

fn ffis(items: &[&str]) -> Option<Vec<FfiDescriptor>> {
  Some(items.iter().map(|p| FfiDescriptor(path(p))).collect())
}

fn envs(items: &[&str]) -> Option<Vec<EnvDescriptor>> {
  Some(items.iter().map(|e| EnvDescriptor::new(e)).collect())
}

fn syss(items: &[&str]) -> Option<Vec<SysDescriptor>> {
  Some(items.iter().map(|s| sys(s)).collect())
}

fn sys(kind: &str) -> SysDescriptor {
  SysDescriptor::parse(kind.to_string()).unwrap()
}

fn runs(items: &[&str]) -> Option<Vec<AllowRunDescriptorParseResult>> {
  Some(
    items
      .iter()
      .map(|p| AllowRunDescriptorParseResult::Descriptor(AllowRunDescriptor(path(p))))
      .collect(),
  )
}

fn read_query(p: &str) -> ReadQueryDescriptor {
  PathQueryDescriptor::new_known_absolute(p).into_read()
}

fn write_query(p: &str) -> WriteQueryDescriptor {
  PathQueryDescriptor::new_known_absolute(p).into_write()
}

fn ffi_query(p: &str) -> FfiQueryDescriptor {
  PathQueryDescriptor::new_known_absolute(p).into_ffi()
}

fn run_query(p: &str, requested: &str) -> RunQueryDescriptor {
  RunQueryDescriptor::Path(
    PathQueryDescriptor::new_known_absolute(p).with_requested(requested.to_string()),
  )
}

fn ipv4(text: &str) -> u32 {
  let mut n: u32 = 0;
  for part in text.split('.') {
    n = (n << 8) | part.parse::<u8>().unwrap() as u32;
  }
  n
}

fn wire(name: &str) -> String {
  let fqdn = fqdn::FQDN::from_str(&name.to_ascii_lowercase()).unwrap();
  fqdn.as_bytes().iter().map(|&b| b as char).collect()
}

/// The descriptor of a host (an IPv4 address, a domain or a `*.` domain)
/// and an optional port.
fn net(host: &str, port: Option<u32>) -> NetDescriptor {
  let h = if host.split('.').count() == 4 && host.split('.').all(|p| p.parse::<u8>().is_ok()) {
    Host::Ip(IpAddress::V4(ipv4(host)))
  } else if let Some(suffix) = host.strip_prefix("*.") {
    Host::FqdnWithSubdomainWildcard(wire(suffix))
  } else {
    Host::Fqdn(wire(host))
  };
  let display = match port {
    Some(p) => format!("{host}:{p}"),
    None => host.to_string(),
  };
  NetDescriptor {
    host: h,
    port,
    display,
  }
}

/// A list or query value `host` or `host:port`.
fn net_text(text: &str) -> NetDescriptor {
  match text.rsplit_once(':') {
    Some((h, p)) => net(h, Some(p.parse().unwrap())),
    None => net(text, None),
  }
}

/// What IPv4 address parsing answers for `text`.
fn ipv4_answer(text: &str) -> Option<IpAddress> {
  let parts: Vec<&str> = text.split('.').collect();
  if parts.len() != 4 || !parts.iter().all(|p| p.parse::<u8>().is_ok()) {
    return None;
  }
  Some(IpAddress::V4(ipv4(text)))
}

/// The network descriptor of a URL, as the runtime makes it: the library's
/// parse of the URL and its host, with the address answers for the host.
fn url_descriptor(url: &str) -> NetDescriptor {
  let (host, port) = url_parts(url).unwrap();
  let host = host.unwrap();
  let ip = ipv4_answer(&host_ip_text(&host));
  assert!(host_bracket_text(&host).is_none());
  net_descriptor_from_url(url, Some(&host), port, None, ip).unwrap()
}

fn nets(items: &[&str]) -> Option<Vec<NetDescriptor>> {
  Some(items.iter().map(|t| net_text(t)).collect())
}

fn imports(items: &[&str]) -> Option<Vec<ImportDescriptor>> {
  Some(items.iter().map(|t| ImportDescriptor(net_text(t))).collect())
}

#[test]
fn test_query() {
  let perms1 = Permissions::allow_all();
  let perms2 = Permissions::from_options(ParsedPermissionsOptions {
    allow_read: reads(&["/foo"]),
    allow_write: writes(&["/foo"]),
    allow_ffi: ffis(&["/foo"]),
    allow_net: nets(&["127.0.0.1:8000"]),
    allow_env: envs(&["HOME"]),
    allow_sys: syss(&["hostname"]),
    allow_run: runs(&["/deno"]),
    ..options()
  });
  let perms3 = Permissions::from_options(ParsedPermissionsOptions {
    deny_read: reads(&["/foo"]),
    deny_write: writes(&["/foo"]),
    deny_ffi: ffis(&["/foo"]),
    deny_net: nets(&["127.0.0.1:8000"]),
    deny_env: envs(&["HOME"]),
    deny_sys: syss(&["hostname"]),
    deny_run: Some(vec![DenyRunDescriptor::Name("deno".to_string())]),
    deny_import: imports(&["example.com:443"]),
    ..options()
  });
  let perms4 = Permissions::from_options(ParsedPermissionsOptions {
    allow_read: Some(vec![]),
    deny_read: reads(&["/foo"]),
    allow_write: Some(vec![]),
    deny_write: writes(&["/foo"]),
    allow_ffi: Some(vec![]),
    deny_ffi: ffis(&["/foo"]),
    allow_net: Some(vec![]),
    deny_net: nets(&["127.0.0.1:8000"]),
    allow_env: Some(vec![]),
    deny_env: envs(&["HOME"]),
    allow_sys: Some(vec![]),
    deny_sys: syss(&["hostname"]),
    allow_run: Some(vec![]),
    deny_run: Some(vec![DenyRunDescriptor::Name("deno".to_string())]),
    allow_import: Some(vec![]),
    deny_import: imports(&["example.com:443"]),
    ..options()
  });
  assert_eq!(perms1.read.query(None), PermissionState::Granted);
  assert_eq!(perms1.read.query(Some(&read_query("/foo"))), PermissionState::Granted);
  assert_eq!(perms2.read.query(None), PermissionState::Prompt);
  assert_eq!(perms2.read.query(Some(&read_query("/foo"))), PermissionState::Granted);
  assert_eq!(perms2.read.query(Some(&read_query("/foo/bar"))), PermissionState::Granted);
  assert_eq!(perms3.read.query(None), PermissionState::Prompt);
  assert_eq!(perms3.read.query(Some(&read_query("/foo"))), PermissionState::Denied);
  assert_eq!(perms3.read.query(Some(&read_query("/foo/bar"))), PermissionState::Denied);
  assert_eq!(perms4.read.query(None), PermissionState::GrantedPartial);
  assert_eq!(perms4.read.query(Some(&read_query("/foo"))), PermissionState::Denied);
  assert_eq!(perms4.read.query(Some(&read_query("/foo/bar"))), PermissionState::Denied);
  assert_eq!(perms4.read.query(Some(&read_query("/bar"))), PermissionState::Granted);
  assert_eq!(perms1.write.query(None), PermissionState::Granted);
  assert_eq!(perms1.write.query(Some(&write_query("/foo"))), PermissionState::Granted);
  assert_eq!(perms2.write.query(None), PermissionState::Prompt);
  assert_eq!(perms2.write.query(Some(&write_query("/foo"))), PermissionState::Granted);
  assert_eq!(perms2.write.query(Some(&write_query("/foo/bar"))), PermissionState::Granted);
  assert_eq!(perms3.write.query(None), PermissionState::Prompt);
  assert_eq!(perms3.write.query(Some(&write_query("/foo"))), PermissionState::Denied);
  assert_eq!(perms3.write.query(Some(&write_query("/foo/bar"))), PermissionState::Denied);
  assert_eq!(perms4.write.query(None), PermissionState::GrantedPartial);
  assert_eq!(perms4.write.query(Some(&write_query("/foo"))), PermissionState::Denied);
  assert_eq!(perms4.write.query(Some(&write_query("/foo/bar"))), PermissionState::Denied);
  assert_eq!(perms4.write.query(Some(&write_query("/bar"))), PermissionState::Granted);
  assert_eq!(perms1.ffi.query(None), PermissionState::Granted);
  assert_eq!(perms1.ffi.query(Some(&ffi_query("/foo"))), PermissionState::Granted);
  assert_eq!(perms2.ffi.query(None), PermissionState::Prompt);
  assert_eq!(perms2.ffi.query(Some(&ffi_query("/foo"))), PermissionState::Granted);
  assert_eq!(perms2.ffi.query(Some(&ffi_query("/foo/bar"))), PermissionState::Granted);
  assert_eq!(perms3.ffi.query(None), PermissionState::Prompt);
  assert_eq!(perms3.ffi.query(Some(&ffi_query("/foo"))), PermissionState::Denied);
  assert_eq!(perms3.ffi.query(Some(&ffi_query("/foo/bar"))), PermissionState::Denied);
  assert_eq!(perms4.ffi.query(None), PermissionState::GrantedPartial);
  assert_eq!(perms4.ffi.query(Some(&ffi_query("/foo"))), PermissionState::Denied);
  assert_eq!(perms4.ffi.query(Some(&ffi_query("/foo/bar"))), PermissionState::Denied);
  assert_eq!(perms4.ffi.query(Some(&ffi_query("/bar"))), PermissionState::Granted);
  assert_eq!(perms1.net.query(None), PermissionState::Granted);
  assert_eq!(perms1.net.query(Some(&net("127.0.0.1", None))), PermissionState::Granted);
  assert_eq!(perms2.net.query(None), PermissionState::Prompt);
  assert_eq!(perms2.net.query(Some(&net("127.0.0.1", Some(8000)))), PermissionState::Granted);
  assert_eq!(perms3.net.query(None), PermissionState::Prompt);
  assert_eq!(perms3.net.query(Some(&net("127.0.0.1", Some(8000)))), PermissionState::Denied);
  assert_eq!(perms4.net.query(None), PermissionState::GrantedPartial);
  assert_eq!(perms4.net.query(Some(&net("127.0.0.1", Some(8000)))), PermissionState::Denied);
  assert_eq!(perms4.net.query(Some(&net("192.168.0.1", Some(8000)))), PermissionState::Granted);
  assert_eq!(perms1.env.query(None), PermissionState::Granted);
  assert_eq!(perms1.env.query(Some("HOME")), PermissionState::Granted);
  assert_eq!(perms2.env.query(None), PermissionState::Prompt);
  assert_eq!(perms2.env.query(Some("HOME")), PermissionState::Granted);
  assert_eq!(perms3.env.query(None), PermissionState::Prompt);
  assert_eq!(perms3.env.query(Some("HOME")), PermissionState::Denied);
  assert_eq!(perms4.env.query(None), PermissionState::GrantedPartial);
  assert_eq!(perms4.env.query(Some("HOME")), PermissionState::Denied);
  assert_eq!(perms4.env.query(Some("AWAY")), PermissionState::Granted);
  assert_eq!(perms1.sys.query(None), PermissionState::Granted);
  assert_eq!(perms1.sys.query(Some(&sys("osRelease"))), PermissionState::Granted);
  assert_eq!(perms2.sys.query(None), PermissionState::Prompt);
  assert_eq!(perms2.sys.query(Some(&sys("hostname"))), PermissionState::Granted);
  assert_eq!(perms3.sys.query(None), PermissionState::Prompt);
  assert_eq!(perms3.sys.query(Some(&sys("hostname"))), PermissionState::Denied);
  assert_eq!(perms4.sys.query(None), PermissionState::GrantedPartial);
  assert_eq!(perms4.sys.query(Some(&sys("hostname"))), PermissionState::Denied);
  assert_eq!(perms4.sys.query(Some(&sys("uid"))), PermissionState::Granted);
  assert_eq!(perms1.run.query(None), PermissionState::Granted);
  let deno_run_query = run_query("/deno", "deno");
  let node_run_query = run_query("/node", "node");
  assert_eq!(perms1.run.query(Some(&deno_run_query)), PermissionState::Granted);
  assert_eq!(perms1.write.query(Some(&write_query("/deno"))), PermissionState::Granted);
  assert_eq!(perms2.run.query(None), PermissionState::Prompt);
  assert_eq!(perms2.run.query(Some(&deno_run_query)), PermissionState::Granted);
  assert_eq!(perms2.write.query(Some(&write_query("/deno"))), PermissionState::Denied);
  assert_eq!(perms3.run.query(None), PermissionState::Prompt);
  assert_eq!(perms3.run.query(Some(&deno_run_query)), PermissionState::Denied);
  assert_eq!(perms4.run.query(None), PermissionState::GrantedPartial);
  assert_eq!(perms4.run.query(Some(&deno_run_query)), PermissionState::Denied);
  assert_eq!(perms4.run.query(Some(&node_run_query)), PermissionState::Granted);
  assert_eq!(perms3.import.query(None), PermissionState::Prompt);
  assert_eq!(
    perms3.import.query(Some(&ImportDescriptor(net("example.com", Some(443))))),
    PermissionState::Denied
  );
  assert_eq!(perms4.import.query(None), PermissionState::GrantedPartial);
  assert_eq!(
    perms4.import.query(Some(&ImportDescriptor(net("example.com", Some(443))))),
    PermissionState::Denied
  );
  assert_eq!(
    perms4.import.query(Some(&ImportDescriptor(net("deno.land", Some(443))))),
    PermissionState::Granted
  );

  let perms = Permissions::from_options(ParsedPermissionsOptions {
    allow_read: reads(&["/foo/specific"]),
    deny_read: reads(&["/foo"]),
    allow_write: writes(&["/foo/specific"]),
    deny_write: writes(&["/foo"]),
    allow_ffi: ffis(&["/foo/specific"]),
    deny_ffi: ffis(&["/foo"]),
    ..options()
  });
  assert_eq!(perms.read.query(Some(&read_query("/foo"))), PermissionState::Denied);
  assert_eq!(perms.read.query(Some(&read_query("/"))), PermissionState::Prompt);
  assert_eq!(perms.read.query(Some(&read_query("/foo/specific"))), PermissionState::Granted);
  assert_eq!(
    perms.read.query(Some(&read_query("/foo/specific/data.txt"))),
    PermissionState::Granted
  );
  assert_eq!(perms.write.query(Some(&write_query("/foo"))), PermissionState::Denied);
  assert_eq!(perms.write.query(Some(&write_query("/foo/specific"))), PermissionState::Granted);
  assert_eq!(perms.ffi.query(Some(&ffi_query("/foo"))), PermissionState::Denied);
  assert_eq!(perms.ffi.query(Some(&ffi_query("/foo/specific"))), PermissionState::Granted);

  let perms = Permissions::from_options(ParsedPermissionsOptions {
    allow_read: reads(&["/foo"]),
    deny_read: reads(&["/foo/specific"]),
    allow_write: writes(&["/foo"]),
    deny_write: writes(&["/foo/specific"]),
    allow_ffi: ffis(&["/foo"]),
    deny_ffi: ffis(&["/foo/specific"]),
    ..options()
  });
  assert_eq!(perms.read.query(Some(&read_query("/foo"))), PermissionState::GrantedPartial);
  assert_eq!(perms.read.query(Some(&read_query("/foo/bar"))), PermissionState::Granted);
  assert_eq!(perms.read.query(Some(&read_query("/"))), PermissionState::Prompt);
  assert_eq!(perms.read.query(Some(&read_query("/foo/specific"))), PermissionState::Denied);
  assert_eq!(
    perms.read.query(Some(&read_query("/foo/specific/data.txt"))),
    PermissionState::Denied
  );
  assert_eq!(perms.write.query(Some(&write_query("/foo"))), PermissionState::GrantedPartial);
  assert_eq!(perms.write.query(Some(&write_query("/foo/bar"))), PermissionState::Granted);
  assert_eq!(perms.write.query(Some(&write_query("/foo/specific"))), PermissionState::Denied);
  assert_eq!(perms.ffi.query(Some(&ffi_query("/foo"))), PermissionState::GrantedPartial);
  assert_eq!(perms.ffi.query(Some(&ffi_query("/foo/bar"))), PermissionState::Granted);
  assert_eq!(perms.ffi.query(Some(&ffi_query("/foo/specific"))), PermissionState::Denied);
}

#[test]
fn test_request() {
  let mut perms = Permissions::none_with_prompt();
  let mut perms_no_prompt = Permissions::none_without_prompt();
  let mut prompt = Switch(true);
  assert_eq!(perms.read.request(Some(&read_query("/foo")), &mut prompt), PermissionState::Granted);
  assert_eq!(perms.read.query(None), PermissionState::Prompt);
  prompt.0 = false;
  assert_eq!(perms.read.request(Some(&read_query("/foo/bar")), &mut prompt), PermissionState::Granted);
  prompt.0 = false;
  assert_eq!(perms.write.request(Some(&write_query("/foo")), &mut prompt), PermissionState::Denied);
  assert_eq!(perms.write.query(Some(&write_query("/foo/bar"))), PermissionState::Prompt);
  prompt.0 = true;
  assert_eq!(perms.write.request(None, &mut prompt), PermissionState::Denied);
  prompt.0 = false;
  assert_eq!(perms.ffi.request(Some(&ffi_query("/foo")), &mut prompt), PermissionState::Denied);
  assert_eq!(perms.ffi.query(Some(&ffi_query("/foo/bar"))), PermissionState::Prompt);
  prompt.0 = true;
  assert_eq!(perms.ffi.request(None, &mut prompt), PermissionState::Denied);
  prompt.0 = true;
  assert_eq!(perms.net.request(Some(&net("127.0.0.1", None)), &mut prompt), PermissionState::Granted);
  prompt.0 = false;
  assert_eq!(
    perms.net.request(Some(&net("127.0.0.1", Some(8000))), &mut prompt),
    PermissionState::Granted
  );
  prompt.0 = true;
  assert_eq!(perms.env.request(Some("HOME"), &mut prompt), PermissionState::Granted);
  assert_eq!(perms.env.query(None), PermissionState::Prompt);
  prompt.0 = false;
  assert_eq!(perms.env.request(Some("HOME"), &mut prompt), PermissionState::Granted);
  prompt.0 = true;
  assert_eq!(perms.sys.request(Some(&sys("hostname")), &mut prompt), PermissionState::Granted);
  assert_eq!(perms.sys.query(None), PermissionState::Prompt);
  prompt.0 = false;
  assert_eq!(perms.sys.request(Some(&sys("hostname")), &mut prompt), PermissionState::Granted);
  prompt.0 = true;
  let run = run_query("/deno", "deno");
  assert_eq!(perms.run.request(Some(&run), &mut prompt), PermissionState::Granted);
  assert_eq!(perms.run.query(None), PermissionState::Prompt);
  prompt.0 = false;
  assert_eq!(perms.run.request(Some(&run), &mut prompt), PermissionState::Granted);
  assert_eq!(
    perms_no_prompt.read.request(Some(&read_query("/foo")), &mut prompt),
    PermissionState::Denied
  );
}

#[test]
fn test_revoke() {
  let mut perms = Permissions::from_options(ParsedPermissionsOptions {
    allow_read: reads(&["/foo", "/foo/baz"]),
    allow_write: writes(&["/foo", "/foo/baz"]),
    allow_ffi: ffis(&["/foo", "/foo/baz"]),
    allow_net: nets(&["127.0.0.1", "127.0.0.1:8000"]),
    allow_env: envs(&["HOME"]),
    allow_sys: syss(&["hostname"]),
    allow_run: runs(&["/deno"]),
    ..options()
  });
  assert_eq!(perms.read.revoke(Some(&read_query("/foo/bar"))), PermissionState::Prompt);
  assert_eq!(perms.read.query(Some(&read_query("/foo"))), PermissionState::Prompt);
  assert_eq!(perms.read.query(Some(&read_query("/foo/baz"))), PermissionState::Granted);
  assert_eq!(perms.write.revoke(Some(&write_query("/foo/bar"))), PermissionState::Prompt);
  assert_eq!(perms.write.query(Some(&write_query("/foo"))), PermissionState::Prompt);
  assert_eq!(perms.write.query(Some(&write_query("/foo/baz"))), PermissionState::Granted);
  assert_eq!(perms.ffi.revoke(Some(&ffi_query("/foo/bar"))), PermissionState::Prompt);
  assert_eq!(perms.ffi.query(Some(&ffi_query("/foo"))), PermissionState::Prompt);
  assert_eq!(perms.ffi.query(Some(&ffi_query("/foo/baz"))), PermissionState::Granted);
  assert_eq!(perms.net.revoke(Some(&net("127.0.0.1", Some(9000)))), PermissionState::Prompt);
  assert_eq!(perms.net.query(Some(&net("127.0.0.1", None))), PermissionState::Prompt);
  assert_eq!(perms.net.query(Some(&net("127.0.0.1", Some(8000)))), PermissionState::Granted);
  assert_eq!(perms.env.revoke(Some("HOME")), PermissionState::Prompt);
  assert_eq!(perms.env.revoke(Some("hostname")), PermissionState::Prompt);
  let run = run_query("/deno", "deno");
  assert_eq!(perms.run.revoke(Some(&run)), PermissionState::Prompt);
}

#[test]
fn test_check() {
  let mut perms = Permissions::none_with_prompt();
  let mut prompt = Switch(true);
  assert!(perms.read.check(&read_query("/foo"), None, None, &mut prompt).is_ok());
  prompt.0 = false;
  assert!(perms.read.check(&read_query("/foo"), None, None, &mut prompt).is_ok());
  assert!(perms.read.check(&read_query("/bar"), None, None, &mut prompt).is_err());

  prompt.0 = true;
  assert!(perms.write.check(&write_query("/foo"), None, None, &mut prompt).is_ok());
  prompt.0 = false;
  assert!(perms.write.check(&write_query("/foo"), None, None, &mut prompt).is_ok());
  assert!(perms.write.check(&write_query("/bar"), None, None, &mut prompt).is_err());

  prompt.0 = true;
  assert!(perms.ffi.check(&ffi_query("/foo"), None, None, &mut prompt).is_ok());
  prompt.0 = false;
  assert!(perms.ffi.check(&ffi_query("/foo"), None, None, &mut prompt).is_ok());
  assert!(perms.ffi.check(&ffi_query("/bar"), None, None, &mut prompt).is_err());

  prompt.0 = true;
  assert!(perms.net.check(&net("127.0.0.1", Some(8000)), None, None, &mut prompt).is_ok());
  prompt.0 = false;
  assert!(perms.net.check(&net("127.0.0.1", Some(8000)), None, None, &mut prompt).is_ok());
  assert!(perms.net.check(&net("127.0.0.1", Some(8001)), None, None, &mut prompt).is_err());
  assert!(perms.net.check(&net("127.0.0.1", None), None, None, &mut prompt).is_err());
  assert!(perms.net.check(&net("deno.land", Some(8000)), None, None, &mut prompt).is_err());
  assert!(perms.net.check(&net("deno.land", None), None, None, &mut prompt).is_err());

  prompt.0 = true;
  assert!(perms.run.check(&run_query("/cwd/cat", "cat"), None, None, &mut prompt).is_ok());
  prompt.0 = false;
  assert!(perms.run.check(&run_query("/cwd/cat", "cat"), None, None, &mut prompt).is_ok());
  assert!(perms.run.check(&run_query("/cwd/ls", "ls"), None, None, &mut prompt).is_err());

  prompt.0 = true;
  assert!(perms.env.check("HOME", None, None, &mut prompt).is_ok());
  prompt.0 = false;
  assert!(perms.env.check("HOME", None, None, &mut prompt).is_ok());
  assert!(perms.env.check("PATH", None, None, &mut prompt).is_err());

  prompt.0 = true;
  assert!(perms.env.check("hostname", None, None, &mut prompt).is_ok());
  prompt.0 = false;
  assert!(perms.env.check("hostname", None, None, &mut prompt).is_ok());
  assert!(perms.env.check("osRelease", None, None, &mut prompt).is_err());
}

#[test]
fn test_check_fail() {
  let mut perms = Permissions::none_with_prompt();
  let mut prompt = Switch(false);
  assert!(perms.read.check(&read_query("/foo"), None, None, &mut prompt).is_err());
  prompt.0 = true;
  assert!(perms.read.check(&read_query("/foo"), None, None, &mut prompt).is_err());
  assert!(perms.read.check(&read_query("/bar"), None, None, &mut prompt).is_ok());
  prompt.0 = false;
  assert!(perms.read.check(&read_query("/bar"), None, None, &mut prompt).is_ok());

  prompt.0 = false;
  assert!(perms.write.check(&write_query("/foo"), None, None, &mut prompt).is_err());
  prompt.0 = true;
  assert!(perms.write.check(&write_query("/foo"), None, None, &mut prompt).is_err());
  assert!(perms.write.check(&write_query("/bar"), None, None, &mut prompt).is_ok());
  prompt.0 = false;
  assert!(perms.write.check(&write_query("/bar"), None, None, &mut prompt).is_ok());

  prompt.0 = false;
  assert!(perms.ffi.check(&ffi_query("/foo"), None, None, &mut prompt).is_err());
  prompt.0 = true;
  assert!(perms.ffi.check(&ffi_query("/foo"), None, None, &mut prompt).is_err());
  assert!(perms.ffi.check(&ffi_query("/bar"), None, None, &mut prompt).is_ok());
  prompt.0 = false;
  assert!(perms.ffi.check(&ffi_query("/bar"), None, None, &mut prompt).is_ok());

  prompt.0 = false;
  assert!(perms.net.check(&net("127.0.0.1", Some(8000)), None, None, &mut prompt).is_err());
  prompt.0 = true;
  assert!(perms.net.check(&net("127.0.0.1", Some(8000)), None, None, &mut prompt).is_err());
  assert!(perms.net.check(&net("127.0.0.1", Some(8001)), None, None, &mut prompt).is_ok());
  assert!(perms.net.check(&net("deno.land", Some(8000)), None, None, &mut prompt).is_ok());
  prompt.0 = false;
  assert!(perms.net.check(&net("127.0.0.1", Some(8001)), None, None, &mut prompt).is_ok());
  assert!(perms.net.check(&net("deno.land", Some(8000)), None, None, &mut prompt).is_ok());

  prompt.0 = false;
  assert!(perms.run.check(&run_query("/cwd/cat", "cat"), None, None, &mut prompt).is_err());
  prompt.0 = true;
  assert!(perms.run.check(&run_query("/cwd/cat", "cat"), None, None, &mut prompt).is_err());
  assert!(perms.run.check(&run_query("/cwd/ls", "ls"), None, None, &mut prompt).is_ok());
  prompt.0 = false;
  assert!(perms.run.check(&run_query("/cwd/ls", "ls"), None, None, &mut prompt).is_ok());

  prompt.0 = false;
  assert!(perms.env.check("HOME", None, None, &mut prompt).is_err());
  prompt.0 = true;
  assert!(perms.env.check("HOME", None, None, &mut prompt).is_err());
  assert!(perms.env.check("PATH", None, None, &mut prompt).is_ok());
  prompt.0 = false;
  assert!(perms.env.check("PATH", None, None, &mut prompt).is_ok());

  prompt.0 = false;
  assert!(perms.sys.check(&sys("hostname"), None, None, &mut prompt).is_err());
  prompt.0 = true;
  assert!(perms.sys.check(&sys("hostname"), None, None, &mut prompt).is_err());
  assert!(perms.sys.check(&sys("osRelease"), None, None, &mut prompt).is_ok());
  prompt.0 = false;
  assert!(perms.sys.check(&sys("osRelease"), None, None, &mut prompt).is_ok());
}

#[test]
fn a_request_without_prompts_answers_the_query() {
  let mut perms = Permissions::none_without_prompt();
  let mut prompt = Switch(true);
  assert_eq!(perms.read.query(Some(&read_query("/foo"))), PermissionState::Prompt);
  assert_eq!(perms.read.request(Some(&read_query("/foo")), &mut prompt), PermissionState::Denied);
  assert_eq!(perms.read.query(Some(&read_query("/foo"))), PermissionState::Prompt);
  let mut listed = Permissions::from_options(ParsedPermissionsOptions {
    allow_read: reads(&["/foo"]),
    ..options()
  });
  assert_eq!(listed.read.request(Some(&read_query("/foo/x")), &mut prompt), PermissionState::Granted);
}

#[test]
fn query_all_answers_whether_everything_is_granted() {
  let mut all = Permissions::allow_all();
  assert!(all.run.query_all(None, None));
  let mut listed = Permissions::from_options(ParsedPermissionsOptions {
    allow_run: runs(&["/deno"]),
    ..options()
  });
  assert!(!listed.run.query_all(None, None));
  let mut denied = Permissions::from_options(ParsedPermissionsOptions {
    allow_run: Some(vec![]),
    deny_run: Some(vec![DenyRunDescriptor::Name("deno".to_string())]),
    ..options()
  });
  assert!(!denied.run.query_all(None, None));
}

#[test]
fn check_paths() {
  let allowlist = ["/a/specific/dir/name", "/a/specific", "/b/c"];
  let mut perms = Permissions::from_options(ParsedPermissionsOptions {
    allow_read: reads(&allowlist),
    allow_write: writes(&allowlist),
    allow_ffi: ffis(&allowlist),
    ..options()
  });
  let cases = [
    ("/a/specific/dir/name", true),
    ("/a/specific/dir", true),
    ("/a/specific/dir/name/inner", true),
    ("/a/specific/other/dir", true),
    ("/b/c", true),
    ("/b/c/sub/path", true),
    ("/b/c/sub/path/../path/.", true),
    ("/b/e", false),
    ("/a/b", false),
  ];
  let mut no = Switch(false);
  for (path, is_ok) in cases {
    assert_eq!(
      perms.read.check(&read_query(path), Some("api"), None, &mut no).is_ok(),
      is_ok,
      "{path}"
    );
    assert_eq!(
      perms.write.check(&write_query(path), Some("api"), None, &mut no).is_ok(),
      is_ok,
      "{path}"
    );
    assert_eq!(
      perms.ffi.check(&ffi_query(path), None, None, &mut no).is_ok(),
      is_ok,
      "{path}"
    );
  }
}

fn net_allow_list() -> Permissions {
  Permissions::from_options(ParsedPermissionsOptions {
    allow_net: nets(&[
      "localhost",
      "deno.land",
      "github.com:3000",
      "127.0.0.1",
      "172.16.0.2:8000",
      "www.github.com:443",
      "80.example.com:80",
      "443.example.com:443",
      "*.discord.gg",
    ]),
    ..options()
  })
}

const DOMAIN_TESTS: [(&str, u32); 19] = [
  ("localhost", 1234),
  ("deno.land", 0),
  ("deno.land", 3000),
  ("deno.lands", 0),
  ("deno.lands", 3000),
  ("github.com", 3000),
  ("github.com", 0),
  ("github.com", 2000),
  ("github.net", 3000),
  ("127.0.0.1", 0),
  ("127.0.0.1", 3000),
  ("127.0.0.2", 0),
  ("127.0.0.2", 3000),
  ("172.16.0.2", 8000),
  ("172.16.0.2", 0),
  ("172.16.0.2", 6000),
  ("172.16.0.1", 8000),
  ("somedomain", 0),
  ("192.168.0.1", 0),
];

#[test]
fn test_check_net_with_values() {
  let mut perms = net_allow_list();
  let domain_tests = vec![
    ("localhost", 1234, true),
    ("deno.land", 0, true),
    ("deno.land", 3000, true),
    ("deno.lands", 0, false),
    ("deno.lands", 3000, false),
    ("github.com", 3000, true),
    ("github.com", 0, false),
    ("github.com", 2000, false),
    ("github.net", 3000, false),
    ("127.0.0.1", 0, true),
    ("127.0.0.1", 3000, true),
    ("127.0.0.2", 0, false),
    ("127.0.0.2", 3000, false),
    ("172.16.0.2", 8000, true),
    ("172.16.0.2", 0, false),
    ("172.16.0.2", 6000, false),
    ("172.16.0.1", 8000, false),
    ("443.example.com", 444, false),
    ("80.example.com", 81, false),
    ("80.example.com", 80, true),
    ("discord.gg", 0, true),
    ("foo.discord.gg", 0, true),
    ("somedomain", 0, false),
    ("192.168.0.1", 0, false),
  ];
  let mut no = Switch(false);
  for (host, port, is_ok) in domain_tests {
    let descriptor = net(host, Some(port));
    assert_eq!(
      is_ok,
      perms.net.check(&descriptor, None, None, &mut no).is_ok(),
      "{}",
      descriptor.display
    );
  }
}

#[test]
fn test_check_net_only_flag() {
  let mut perms = Permissions::from_options(ParsedPermissionsOptions {
    allow_net: Some(vec![]),
    ..options()
  });
  let mut no = Switch(false);
  for (host_str, port) in DOMAIN_TESTS {
    let descriptor = net(host_str, Some(port));
    assert!(
      perms.net.check(&descriptor, None, None, &mut no).is_ok(),
      "expected {host_str}:{port} to pass"
    );
  }
}

#[test]
fn test_check_net_no_flag() {
  let mut perms = Permissions::from_options(ParsedPermissionsOptions {
    allow_net: None,
    ..options()
  });
  let mut no = Switch(false);
  for (host_str, port) in DOMAIN_TESTS {
    let descriptor = net(host_str, Some(port));
    assert!(
      perms.net.check(&descriptor, None, None, &mut no).is_err(),
      "expected {host_str}:{port} to fail"
    );
  }
}

#[test]
fn test_check_net_url() {
  let mut perms = Permissions::from_options(ParsedPermissionsOptions {
    allow_net: nets(&[
      "localhost",
      "deno.land",
      "github.com:3000",
      "127.0.0.1",
      "172.16.0.2:8000",
      "www.github.com:443",
    ]),
    ..options()
  });
  let url_tests = vec![
    ("http://localhost", true),
    ("https://localhost", true),
    ("https://localhost:4443", true),
    ("tcp://localhost:5000", true),
    ("udp://localhost:6000", true),
    ("https://deno.land/std/example/welcome.ts", true),
    ("https://deno.land:3000/std/example/welcome.ts", true),
    ("https://deno.lands/std/example/welcome.ts", false),
    ("https://deno.lands:3000/std/example/welcome.ts", false),
    ("https://github.com:3000/denoland/deno", true),
    ("https://github.com/denoland/deno", false),
    ("https://github.com:2000/denoland/deno", false),
    ("https://github.net:3000/denoland/deno", false),
    ("tcp://127.0.0.1", true),
    ("https://127.0.0.1", true),
    ("tcp://127.0.0.1:3000", true),
    ("https://127.0.0.1:3000", true),
    ("tcp://127.0.0.2", false),
    ("https://127.0.0.2", false),
    ("tcp://127.0.0.2:3000", false),
    ("https://127.0.0.2:3000", false),
    ("tcp://172.16.0.2:8000", true),
    ("https://172.16.0.2:8000", true),
    ("tcp://172.16.0.2", false),
    ("https://172.16.0.2", false),
    ("tcp://172.16.0.2:6000", false),
    ("https://172.16.0.2:6000", false),
    ("tcp://172.16.0.1:8000", false),
    ("https://172.16.0.1:8000", false),
    // A well-known default port counts as the port the URL names.
    ("https://www.github.com:443/robots.txt", true),
  ];
  let mut no = Switch(false);
  for (url_str, is_ok) in url_tests {
    let descriptor = url_descriptor(url_str);
    assert_eq!(
      is_ok,
      perms.net.check(&descriptor, Some("api()"), None, &mut no).is_ok(),
      "{url_str}"
    );
  }
}

#[test]
fn test_check_write_strict_for_recursive_remove() {
  let mut perms = Permissions::from_options(ParsedPermissionsOptions {
    allow_write: Some(vec![]),
    deny_write: writes(&["/foo/bar"]),
    ..options()
  });
  let mut no = Switch(false);
  assert!(
    perms
      .write
      .check(&write_query("/foo"), Some("Deno.removeSync()"), None, &mut no)
      .is_err(),
    "recursive remove of an ancestor of a denied path must be blocked"
  );
  perms
    .write
    .check_partial(&write_query("/foo"), Some("Deno.removeSync()"), None, &mut no)
    .unwrap();
  assert!(perms
    .write
    .check(&write_query("/foo/bar"), Some("Deno.removeSync()"), None, &mut no)
    .is_err());
  assert!(perms
    .write
    .check_partial(&write_query("/foo/bar"), Some("Deno.removeSync()"), None, &mut no)
    .is_err());
}

#[test]
fn test_check_open_read_write() {
  let mut no = Switch(false);
  let mut perms = Permissions::from_options(ParsedPermissionsOptions {
    allow_read: reads(&["/data"]),
    allow_write: writes(&["/data"]),
    ..options()
  });
  let both = |perms: &mut Permissions, p: &str, no: &mut Switch| {
    perms.read.check(&read_query(p), Some("api"), None, no).is_ok()
      && perms.write.check(&write_query(p), Some("api"), None, no).is_ok()
  };
  assert!(both(&mut perms, "/data/file.txt", &mut no));
  let mut perms = Permissions::from_options(ParsedPermissionsOptions {
    allow_read: reads(&["/readonly"]),
    ..options()
  });
  assert!(!both(&mut perms, "/readonly/file.txt", &mut no));
  let mut perms = Permissions::from_options(ParsedPermissionsOptions {
    allow_write: writes(&["/writeonly"]),
    ..options()
  });
  assert!(!both(&mut perms, "/writeonly/file.txt", &mut no));
}

#[test]
fn static_imports_are_exempt_unless_a_denial_reaches_them() {
  let mut no = Switch(false);
  let mut perms = Permissions::from_options(ParsedPermissionsOptions {
    allow_read: reads(&["/a"]),
    allow_import: Some(vec![net("localhost", None)].into_iter().map(ImportDescriptor).collect()),
    ..options()
  });
  assert!(perms.read.check_static_import(&read_query("/b/mod.ts"), None, &mut no).is_ok());
  assert!(perms.read.check(&read_query("/a/mod.ts"), Some("import()"), None, &mut no).is_ok());
  assert!(perms.read.check(&read_query("/b/mod.ts"), Some("import()"), None, &mut no).is_err());
  assert!(perms
    .import
    .check(&ImportDescriptor(url_descriptor("http://localhost:4545/mod.ts")), Some("import()"), None, &mut no)
    .is_ok());
  assert!(perms
    .import
    .check(&ImportDescriptor(url_descriptor("http://deno.land/x/mod.ts")), Some("import()"), None, &mut no)
    .is_err());

  let mut denied = Permissions::from_options(ParsedPermissionsOptions {
    deny_read: reads(&["/private-control"]),
    ..options()
  });
  assert!(
    denied
      .read
      .check_static_import(&read_query("/private-control/policy.json"), None, &mut no)
      .is_err(),
    "an explicit deny-read must beat the static-import exemption"
  );
  assert!(
    denied
      .read
      .check_static_import(&read_query("/project/mod.ts"), None, &mut no)
      .is_ok(),
    "static imports remain allow-read exempt when no deny overlaps"
  );
}

/// Records what each prompt asked.
struct Recorder(Vec<String>);

impl PermissionPrompter for Recorder {
  fn prompt(
    &mut self,
    message: &str,
    name: &str,
    api_name: Option<&str>,
    is_unary: bool,
  ) -> PromptResponse {
    self.0.push(format!("{message}|{name}|{}|{is_unary}", api_name.unwrap_or("-")));
    PromptResponse::Deny
  }
}

#[test]
fn a_request_asks_the_user_about_the_descriptor() {
  let mut perms = Permissions::none_with_prompt();
  let mut rec = Recorder(vec![]);
  assert_eq!(perms.env.request(Some("HOME"), &mut rec), PermissionState::Denied);
  assert_eq!(perms.read.request(None, &mut rec), PermissionState::Denied);
  assert_eq!(
    rec.0,
    vec![
      "env access to \"HOME\"|env|Deno.permissions.request()|true".to_string(),
      "read access|read|Deno.permissions.request()|true".to_string(),
    ]
  );
}

#[test]
fn urls_name_their_host_and_default_port() {
  let d = url_descriptor("https://www.github.com/robots.txt");
  assert_eq!(d.port, Some(443));
  assert_eq!(d.display, "www.github.com:443");
  assert!(matches!(d.host, Host::Fqdn(ref w) if *w == wire("www.github.com")));
  let d = url_descriptor("tcp://127.0.0.1");
  assert_eq!(d.port, None);
  assert!(matches!(d.host, Host::Ip(IpAddress::V4(0x7f000001))));
  assert_eq!(url_parts("not a url"), None);
  let (host, port) = url_parts("data:text/plain,hi").unwrap();
  assert_eq!(host, None);
  assert_eq!(
    net_descriptor_from_url("data:text/plain,hi", host.as_deref(), port, None, None).unwrap_err(),
    NetDescriptorFromUrlParseError::MissingHost("data:text/plain,hi".to_string())
  );
  let import = import_descriptor_from_url("http://localhost:4545/mod.ts", Some("localhost"), Some(4545), None, None)
    .unwrap();
  assert_eq!(import.0.port, Some(4545));
  assert_eq!(import.0.display, "localhost:4545");
}

#[test]
fn special_files_under_proc_and_dev_keep_their_links_on_linux() {
  use_special_file_parse();
}

fn use_special_file_parse() {
  let proc = PathQueryDescriptor::new_known_absolute("/proc/self/environ");
  assert!(!SpecialFilePathQueryDescriptor::needs_canonicalization(&proc, true));
  assert!(SpecialFilePathQueryDescriptor::needs_canonicalization(&proc, false));
  let d = SpecialFilePathQueryDescriptor::parse(proc, true, None).unwrap();
  assert_eq!(d.path, "/proc/self/environ");
  assert!(!d.canonicalized);
  let link = PathQueryDescriptor::new_known_absolute("/data/link");
  assert!(SpecialFilePathQueryDescriptor::needs_canonicalization(&link, true));
  let d = SpecialFilePathQueryDescriptor::parse(link, true, Some(Ok("/real/file".to_string()))).unwrap();
  assert_eq!(d.path, "/real/file");
  assert_eq!(d.requested.as_deref(), Some("/data/link"));
  assert!(d.canonicalized);
  let broken = PathQueryDescriptor::new_known_absolute("/devices/x");
  assert!(SpecialFilePathQueryDescriptor::parse(broken, true, Some(Err("gone".to_string()))).is_err());
}
