use std::cmp::Ordering;
use std::str::FromStr;

use deno_permissions::network::Host;
use deno_permissions::network::ImportDescriptor;
use deno_permissions::network::IpAddress;
use deno_permissions::network::IpNetwork;
use deno_permissions::network::NetDescriptor;
use deno_permissions::network::NetParseError;
use deno_permissions::network::parse_net_descriptor_prefix;
use deno_permissions::network::host_bracket_text;
use deno_permissions::network::host_ip_text;
use deno_permissions::network::net_bracket_text;
use deno_permissions::network::net_host_part;
use deno_permissions::network::parse_host;
use deno_permissions::network::parse_net_descriptor_rest;
use deno_permissions::network::normalize_ip;
use deno_permissions::perms::SubdomainWildcards;
use deno_permissions::permissions::ParsedPermissionsOptions;
use deno_permissions::permissions::Permissions;
use deno_permissions::paths::NoPrompt;
use deno_permissions::perms::PermissionState;
use deno_permissions::unary::new_unary_with_ignore;
use deno_permissions::unary::AllowDescriptor;
use deno_permissions::unary::UnaryPermission;
use deno_permissions::unary::UnaryPermissionDesc;
use deno_permissions::Cmp;

fn as_ordering(c: Cmp) -> Ordering {
  match c {
    Cmp::Less => Ordering::Less,
    Cmp::Equal => Ordering::Equal,
    Cmp::Greater => Ordering::Greater,
  }
}

fn check_comparison<A: AllowDescriptor>(
  first: &UnaryPermissionDesc<A>,
  second: &UnaryPermissionDesc<A>,
  expected: Ordering,
) {
  assert_eq!(as_ordering(first.cmp(second)), expected);
  assert_eq!(
    as_ordering(second.cmp(first)),
    match expected {
      Ordering::Less => Ordering::Greater,
      Ordering::Greater => Ordering::Less,
      Ordering::Equal => Ordering::Equal,
    },
    "failed second to first"
  );
}

/// The wire form of a domain name, one character per byte.
fn wire(name: &str) -> String {
  let fqdn = fqdn::FQDN::from_str(&name.to_ascii_lowercase()).unwrap();
  fqdn.as_bytes().iter().map(|&b| b as char).collect()
}

fn ipv4(text: &str) -> Option<u32> {
  let parts: Vec<&str> = text.split('.').collect();
  if parts.len() != 4 {
    return None;
  }
  let mut n: u32 = 0;
  for p in parts {
    n = (n << 8) | p.parse::<u8>().ok()? as u32;
  }
  Some(n)
}

/// The IPv6 literals these tests name.
fn ipv6(text: &str) -> u128 {
  match text {
    "::1" => 1,
    "2001:db8::1" => 0x2001_0db8_0000_0000_0000_0000_0000_0001,
    _ => panic!("unknown IPv6 literal {text}"),
  }
}

/// The descriptor a list or query value names, for the forms used here.
fn net(text: &str) -> NetDescriptor {
  let display = text.to_string();
  if let Some(rest) = text.strip_prefix('[') {
    let (ip, after) = rest.split_once(']').unwrap();
    let port = after.strip_prefix(':').map(|p| p.parse().unwrap());
    return NetDescriptor {
      host: Host::Ip(IpAddress::V6(ipv6(ip))),
      port,
      display,
    };
  }
  if let Some((net, prefix)) = text.split_once('/') {
    return NetDescriptor {
      host: Host::IpSubnet(IpNetwork::V4(
        ipv4(net).unwrap(),
        prefix.parse().unwrap(),
      )),
      port: None,
      display,
    };
  }
  let (host, port) = match text.split_once(':') {
    Some((h, p)) => (h, Some(p.parse().unwrap())),
    None => (text, None),
  };
  let host = if let Some(ip) = ipv4(host) {
    Host::Ip(IpAddress::V4(ip))
  } else if let Some(suffix) = host.strip_prefix("*.") {
    Host::FqdnWithSubdomainWildcard(wire(suffix))
  } else {
    Host::Fqdn(wire(host))
  };
  NetDescriptor { host, port, display }
}

fn import(text: &str) -> ImportDescriptor {
  ImportDescriptor(net(text))
}

fn net_list(items: &[&str]) -> Option<Vec<NetDescriptor>> {
  Some(items.iter().map(|s| net(s)).collect())
}

#[test]
fn test_cmp_net_descriptors() {
  let parse_granted = |text: &str| UnaryPermissionDesc::Granted(net(text));
  let parse_flag_denied =
    |text: &str| UnaryPermissionDesc::<NetDescriptor>::FlagDenied(net(text));
  let parse_prompt_denied =
    |text: &str| UnaryPermissionDesc::<NetDescriptor>::PromptDenied(net(text));

  // Test host hierarchy: more specific < less specific for granted
  check_comparison(
    &parse_granted("example.com:8080"),
    &parse_granted("example.com"),
    Ordering::Less,
  );
  check_comparison(
    &parse_granted("sub.example.com"),
    &parse_granted("example.com"),
    Ordering::Less,
  );

  // Test host hierarchy: more specific < less specific for flag denied
  check_comparison(
    &parse_flag_denied("example.com:8080"),
    &parse_flag_denied("example.com"),
    Ordering::Less,
  );
  check_comparison(
    &parse_flag_denied("sub.example.com"),
    &parse_flag_denied("example.com"),
    Ordering::Less,
  );

  // Test host hierarchy: more specific < less specific for prompt denied
  check_comparison(
    &parse_prompt_denied("example.com:8080"),
    &parse_prompt_denied("example.com"),
    Ordering::Less,
  );
  check_comparison(
    &parse_prompt_denied("sub.example.com"),
    &parse_prompt_denied("example.com"),
    Ordering::Less,
  );

  // Test equal descriptors with same type
  check_comparison(
    &parse_granted("example.com:8080"),
    &parse_granted("example.com:8080"),
    Ordering::Equal,
  );
  check_comparison(
    &parse_flag_denied("example.com"),
    &parse_flag_denied("example.com"),
    Ordering::Equal,
  );
  check_comparison(
    &parse_prompt_denied("example.com:443"),
    &parse_prompt_denied("example.com:443"),
    Ordering::Equal,
  );

  // Test unrelated hosts (lexicographic ordering)
  check_comparison(
    &parse_granted("aaa.com"),
    &parse_granted("bbb.com"),
    Ordering::Less,
  );
  check_comparison(
    &parse_granted("xyz.org"),
    &parse_granted("abc.org"),
    Ordering::Greater,
  );
  check_comparison(
    &parse_flag_denied("aaa.com"),
    &parse_flag_denied("zzz.com"),
    Ordering::Less,
  );

  // Test different types with same descriptor
  // FlagDenied < PromptDenied < Granted (by kind_precedence)
  check_comparison(
    &parse_flag_denied("example.com"),
    &parse_granted("example.com"),
    Ordering::Less,
  );
  check_comparison(
    &parse_prompt_denied("example.com"),
    &parse_granted("example.com"),
    Ordering::Less,
  );
  check_comparison(
    &parse_flag_denied("example.com"),
    &parse_prompt_denied("example.com"),
    Ordering::Less,
  );

  // Test different types with hierarchy relationship
  check_comparison(
    &parse_granted("example.com:8080"),
    &parse_flag_denied("example.com"),
    Ordering::Less,
  );
  check_comparison(
    &parse_granted("example.com"),
    &parse_flag_denied("example.com:8080"),
    Ordering::Greater,
  );
  check_comparison(
    &parse_prompt_denied("example.com:8080"),
    &parse_granted("example.com"),
    Ordering::Less,
  );

  // Test port variations
  check_comparison(
    &parse_granted("example.com:80"),
    &parse_granted("example.com:443"),
    Ordering::Less,
  );
  check_comparison(
    &parse_granted("example.com:9000"),
    &parse_granted("example.com:8080"),
    Ordering::Greater,
  );

  // Test IP addresses
  check_comparison(
    &parse_granted("127.0.0.1:8080"),
    &parse_granted("127.0.0.1"),
    Ordering::Less,
  );
  check_comparison(
    &parse_granted("192.168.1.1"),
    &parse_granted("10.0.0.1"),
    Ordering::Greater,
  );

  // Test IPv6 addresses
  check_comparison(
    &parse_granted("[::1]:8080"),
    &parse_granted("[::1]"),
    Ordering::Less,
  );
  check_comparison(
    &parse_granted("[2001:db8::1]"),
    &parse_granted("[::1]"),
    Ordering::Greater,
  );

  // Test two deny types with different hosts
  check_comparison(
    &parse_flag_denied("aaa.com"),
    &parse_prompt_denied("bbb.com"),
    Ordering::Less,
  );
  check_comparison(
    &parse_prompt_denied("example.com:8080"),
    &parse_flag_denied("example.com:9000"),
    Ordering::Less,
  );

  // Test PromptDenied(specific) vs FlagDenied(general)
  check_comparison(
    &parse_prompt_denied("sub.example.com"),
    &parse_flag_denied("example.com"),
    Ordering::Less,
  );
}

#[test]
fn test_cmp_import_descriptors() {
  let parse_granted = |text: &str| UnaryPermissionDesc::Granted(import(text));
  let parse_flag_denied =
    |text: &str| UnaryPermissionDesc::<ImportDescriptor>::FlagDenied(import(text));
  let parse_prompt_denied =
    |text: &str| UnaryPermissionDesc::<ImportDescriptor>::PromptDenied(import(text));

  // Test host hierarchy: more specific < less specific for granted
  check_comparison(
    &parse_granted("example.com:8080"),
    &parse_granted("example.com"),
    Ordering::Less,
  );
  check_comparison(
    &parse_granted("sub.example.com"),
    &parse_granted("example.com"),
    Ordering::Less,
  );

  // Test host hierarchy: more specific < less specific for flag denied
  check_comparison(
    &parse_flag_denied("example.com:8080"),
    &parse_flag_denied("example.com"),
    Ordering::Less,
  );
  check_comparison(
    &parse_flag_denied("sub.example.com"),
    &parse_flag_denied("example.com"),
    Ordering::Less,
  );

  // Test host hierarchy: more specific < less specific for prompt denied
  check_comparison(
    &parse_prompt_denied("example.com:8080"),
    &parse_prompt_denied("example.com"),
    Ordering::Less,
  );
  check_comparison(
    &parse_prompt_denied("sub.example.com"),
    &parse_prompt_denied("example.com"),
    Ordering::Less,
  );

  // Test equal descriptors with same type
  check_comparison(
    &parse_granted("deno.land"),
    &parse_granted("deno.land"),
    Ordering::Equal,
  );
  check_comparison(
    &parse_flag_denied("deno.land"),
    &parse_flag_denied("deno.land"),
    Ordering::Equal,
  );
  check_comparison(
    &parse_prompt_denied("deno.land:443"),
    &parse_prompt_denied("deno.land:443"),
    Ordering::Equal,
  );

  // Test unrelated hosts (lexicographic ordering)
  check_comparison(
    &parse_granted("aaa.com"),
    &parse_granted("bbb.com"),
    Ordering::Less,
  );
  check_comparison(
    &parse_granted("xyz.org"),
    &parse_granted("abc.org"),
    Ordering::Greater,
  );
  check_comparison(
    &parse_flag_denied("aaa.com"),
    &parse_flag_denied("zzz.com"),
    Ordering::Less,
  );

  // Test different types with same descriptor
  // FlagDenied < PromptDenied < Granted (by kind_precedence)
  check_comparison(
    &parse_flag_denied("deno.land"),
    &parse_granted("deno.land"),
    Ordering::Less,
  );
  check_comparison(
    &parse_prompt_denied("deno.land"),
    &parse_granted("deno.land"),
    Ordering::Less,
  );
  check_comparison(
    &parse_flag_denied("deno.land"),
    &parse_prompt_denied("deno.land"),
    Ordering::Less,
  );

  // Test different types with hierarchy relationship
  check_comparison(
    &parse_granted("deno.land:8080"),
    &parse_flag_denied("deno.land"),
    Ordering::Less,
  );
  check_comparison(
    &parse_granted("deno.land"),
    &parse_flag_denied("deno.land:8080"),
    Ordering::Greater,
  );
  check_comparison(
    &parse_prompt_denied("deno.land:8080"),
    &parse_granted("deno.land"),
    Ordering::Less,
  );

  // Test port variations
  check_comparison(
    &parse_granted("deno.land:80"),
    &parse_granted("deno.land:443"),
    Ordering::Less,
  );
  check_comparison(
    &parse_granted("deno.land:9000"),
    &parse_granted("deno.land:8080"),
    Ordering::Greater,
  );

  // Test two deny types with different hosts
  check_comparison(
    &parse_flag_denied("aaa.land"),
    &parse_prompt_denied("zzz.land"),
    Ordering::Less,
  );
  check_comparison(
    &parse_prompt_denied("deno.land:8080"),
    &parse_flag_denied("deno.land:9000"),
    Ordering::Less,
  );

  // Test PromptDenied(specific) vs FlagDenied(general)
  check_comparison(
    &parse_prompt_denied("sub.deno.land"),
    &parse_flag_denied("deno.land"),
    Ordering::Less,
  );
}

#[test]
fn test_net_fully_qualified_domain_name() {
  let mut perm: UnaryPermission<NetDescriptor> = new_unary_with_ignore(
    net_list(&["allowed.domain", "1.1.1.1"]),
    net_list(&["denied.domain", "2.2.2.2"]),
    None,
    false,
  );
  let cases = [
    ("allowed.domain.", true),
    ("1.1.1.1", true),
    ("denied.domain.", false),
    ("2.2.2.2", false),
  ];
  for (host, is_ok) in cases {
    assert_eq!(
      perm.check(&net(host), Some("api"), None, &mut NoPrompt).is_ok(),
      is_ok
    );
  }
}

#[test]
fn test_net_ip_subnet() {
  let mut perm: UnaryPermission<NetDescriptor> = new_unary_with_ignore(
    net_list(&["10.0.0.0/24"]),
    net_list(&["192.168.1.0/24", "172.16.0.0/12"]),
    None,
    false,
  );
  let cases = [
    ("10.0.0.1", true),
    ("192.168.1.1", false),
    ("172.16.0.1", false),
  ];
  for (host, is_ok) in cases {
    assert_eq!(
      perm.check(&net(host), Some("api"), None, &mut NoPrompt).is_ok(),
      is_ok
    );
  }
}

#[test]
fn test_net_ordering_with_ports() {
  let perm: UnaryPermission<NetDescriptor> = new_unary_with_ignore(
    net_list(&["example.com:8080", "example.com:443"]),
    net_list(&["example.com"]),
    None,
    false,
  );
  assert_eq!(
    perm.query(Some(&net("example.com:8080"))),
    PermissionState::Granted
  );
  assert_eq!(
    perm.query(Some(&net("example.com:443"))),
    PermissionState::Granted
  );
  assert_eq!(
    perm.query(Some(&net("example.com:20"))),
    PermissionState::Denied
  );
  assert_eq!(
    perm.query(Some(&net("example.com"))),
    PermissionState::Denied
  );
}

#[test]
fn test_net_fqdn_with_subdomain_wildcard() {
  let mut perm: UnaryPermission<NetDescriptor> = new_unary_with_ignore(
    net_list(&["*.example.com"]),
    net_list(&["*.evil.com"]),
    None,
    false,
  );
  let mut ok = |host: &str| {
    perm.check(&net(host), Some("api"), None, &mut NoPrompt).is_ok()
  };
  assert!(ok("sub.example.com"));
  assert!(ok("deep.sub.example.com"));
  assert!(ok("example.com"));
  assert!(!ok("sub.evil.com"));
  assert!(!ok("evil.com"));
  assert!(!ok("other.com"));
}

#[test]
fn test_import_permission_check_and_deny() {
  let mut perm: UnaryPermission<ImportDescriptor> = new_unary_with_ignore(
    Some(vec![import("deno.land:443"), import("jsr.io:443")]),
    Some(vec![import("evil.com:443")]),
    None,
    false,
  );
  assert!(perm
    .check(&import("deno.land:443"), None, None, &mut NoPrompt)
    .is_ok());
  assert!(perm
    .check(&import("evil.com:443"), None, None, &mut NoPrompt)
    .is_err());
  assert!(perm
    .check(&import("unknown.com:443"), None, None, &mut NoPrompt)
    .is_err());

  let mut perm: UnaryPermission<ImportDescriptor> = new_unary_with_ignore(
    Some(vec![]),
    Some(vec![import("evil.com:443")]),
    None,
    false,
  );
  assert!(perm
    .check(&import("deno.land:443"), None, None, &mut NoPrompt)
    .is_ok());
  assert!(perm
    .check(&import("evil.com:443"), None, None, &mut NoPrompt)
    .is_err());
  assert!(perm.check_all(None, &mut NoPrompt).is_ok());

  let mut perm: UnaryPermission<ImportDescriptor> =
    new_unary_with_ignore(Some(vec![]), Some(vec![]), None, false);
  assert!(perm.check_all(None, &mut NoPrompt).is_err());
}

#[test]
fn a_resolved_address_is_held_to_the_flag_denials_only() {
  let mut perm: UnaryPermission<NetDescriptor> = new_unary_with_ignore(
    net_list(&["example.com"]),
    net_list(&["127.0.0.1", "10.0.0.0/8"]),
    None,
    false,
  );
  let err = perm
    .check_resolved_ip_deny(&net("127.0.0.1"), Some("api"))
    .unwrap_err();
  assert_eq!(err.access, "net access to \"127.0.0.1\"");
  assert_eq!(err.state, PermissionState::Denied);
  assert!(perm
    .check_resolved_ip_deny(&net("10.20.30.40"), None)
    .is_err());
  assert!(perm.check_resolved_ip_deny(&net("8.8.8.8"), None).is_ok());
  let mut everything_denied: UnaryPermission<NetDescriptor> =
    new_unary_with_ignore(None, Some(vec![]), None, false);
  assert!(everything_denied
    .check_resolved_ip_deny(&net("8.8.8.8"), None)
    .is_err());
}

#[test]
fn networks_hold_exactly_their_range() {
  let net8 = IpNetwork::V4(0x0a00_0000, 8);
  assert!(net8.contains(&IpAddress::V4(0x0a01_0203)));
  assert!(net8.contains(&IpAddress::V4(0x0aff_ffff)));
  assert!(!net8.contains(&IpAddress::V4(0x0b00_0000)));
  assert!(!net8.contains(&IpAddress::V6(0x0a01_0203)));
  let all = IpNetwork::V4(0, 0);
  assert!(all.contains(&IpAddress::V4(0xffff_ffff)));
  let one = IpNetwork::V4(0x7f00_0001, 32);
  assert!(one.contains(&IpAddress::V4(0x7f00_0001)));
  assert!(!one.contains(&IpAddress::V4(0x7f00_0002)));
  let v6 = IpNetwork::V6(0x2001_0db8 << 96, 32);
  assert!(v6.contains(&IpAddress::V6(ipv6("2001:db8::1"))));
  assert!(!v6.contains(&IpAddress::V6(1)));
}

#[test]
fn unix_socket_rules_are_normalized_when_parsed() {
  for input in ["unix:/var/run/docker.sock", "unix:/var/run/../run/./docker.sock"] {
    let d = parse_net_descriptor_prefix(input).unwrap().unwrap();
    assert!(matches!(&d.host, Host::UnixSocket(p) if p == "/var/run/docker.sock"));
    assert_eq!(d.port, None);
    assert_eq!(d.display, "unix:/var/run/docker.sock");
  }
  assert_eq!(
    parse_net_descriptor_prefix("unix:").unwrap().unwrap_err(),
    NetParseError::InvalidUnixSocket("unix:".to_string())
  );
  assert_eq!(
    parse_net_descriptor_prefix("unix:relative.sock").unwrap().unwrap_err(),
    NetParseError::InvalidUnixSocket("unix:relative.sock".to_string())
  );
}

#[test]
fn vsock_descriptors_name_a_cid_and_a_port() {
  let d = parse_net_descriptor_prefix("vsock:2:8000").unwrap().unwrap();
  assert!(matches!(d.host, Host::Vsock(2)));
  assert_eq!(d.port, Some(8000));
  assert_eq!(d.display, "vsock:2:8000");
  let any = parse_net_descriptor_prefix("vsock:-1:+80:extra").unwrap().unwrap();
  assert!(matches!(any.host, Host::Vsock(u32::MAX)));
  assert_eq!(any.port, Some(80));
  assert_eq!(any.display, "vsock:4294967295:80");
  for bad in ["vsock:", "vsock:2", "vsock:x:1", "vsock:2:", "vsock:4294967296:1", "vsock:-2:1"] {
    assert_eq!(
      parse_net_descriptor_prefix(bad).unwrap().unwrap_err(),
      NetParseError::InvalidVsock(bad.to_string()),
      "{bad}"
    );
  }
}

#[test]
fn urls_are_refused_and_hosts_are_left_to_the_address_parse() {
  for url in ["http://localhost", "https://deno.land:3000/std"] {
    assert_eq!(
      parse_net_descriptor_prefix(url).unwrap().unwrap_err(),
      NetParseError::Url(url.to_string())
    );
  }
  for host in ["deno.land", "127.0.0.1:8000", "[::1]", "tcp://localhost:5000"] {
    assert!(parse_net_descriptor_prefix(host).is_none(), "{host}");
  }
}

/// What IPv6 address parsing answers for the IPv6 literals these tests
/// name.
fn v6_answer(text: &str) -> Option<u128> {
  match text {
    "::" => Some(0),
    "::1" => Some(1),
    "fe80::1" => Some(0xfe80_0000_0000_0000_0000_0000_0000_0001),
    "::ffff:127.0.0.1" => Some(0xffff_7f00_0001),
    "::ffff:10.0.0.1" => Some(0xffff_0a00_0001),
    _ => None,
  }
}

/// What IP address parsing answers for the literals these tests name.
fn ip_answer(text: &str) -> Option<IpAddress> {
  match ipv4(text) {
    Some(n) => Some(IpAddress::V4(n)),
    None => v6_answer(text).map(IpAddress::V6),
  }
}

/// What socket address parsing answers for the literals these tests name:
/// `a.b.c.d:port`, or `[v6]:port` with an optional numeric zone.
fn socket_answer(text: &str) -> Option<(IpAddress, u16)> {
  if let Some(rest) = text.strip_prefix('[') {
    let (inner, port) = rest.split_once("]:")?;
    let addr = match inner.split_once('%') {
      Some((a, zone)) => {
        zone.parse::<u32>().ok()?;
        a
      }
      None => inner,
    };
    return Some((IpAddress::V6(v6_answer(addr)?), port.parse().ok()?));
  }
  let (host, port) = text.rsplit_once(':')?;
  Some((IpAddress::V4(ipv4(host)?), port.parse().ok()?))
}

/// Parses descriptor text as the runtime does: the library's parse, with
/// the address parses it asks for answered.
fn parse_desc(text: &str, w: SubdomainWildcards) -> Option<NetDescriptor> {
  if let Some(r) = parse_net_descriptor_prefix(text) {
    return r.ok();
  }
  let bracket = net_bracket_text(text).and_then(|t| v6_answer(&t));
  let host_ip = ip_answer(&host_ip_text(&net_host_part(text)));
  parse_net_descriptor_rest(text, w, socket_answer(text), bracket, host_ip)
    .ok()
    .map(|(host, port)| NetDescriptor {
      host,
      port,
      display: text.to_string(),
    })
}

fn parse_host_text(text: &str) -> Option<Host> {
  let bracket = host_bracket_text(text).and_then(|t| v6_answer(&t));
  let ip = ip_answer(&host_ip_text(text));
  parse_host(text, SubdomainWildcards::Disabled, bracket, ip).ok()
}

fn same_host(a: &Host, b: &Host) -> bool {
  match (a, b) {
    (Host::Fqdn(x), Host::Fqdn(y)) => x == y,
    (Host::FqdnWithSubdomainWildcard(x), Host::FqdnWithSubdomainWildcard(y)) => x == y,
    (Host::Ip(x), Host::Ip(y)) => x == y,
    (Host::Vsock(x), Host::Vsock(y)) => x == y,
    (Host::IpSubnet(x), Host::IpSubnet(y)) => x == y,
    (Host::UnixSocket(x), Host::UnixSocket(y)) => x == y,
    _ => false,
  }
}

const FE80_1: u128 = 0xfe80_0000_0000_0000_0000_0000_0000_0001;

fn query_cases() -> Vec<(&'static str, Option<(Host, Option<u32>)>)> {
  vec![
    ("deno.land", Some((Host::Fqdn(wire("deno.land")), None))),
    ("DENO.land", Some((Host::Fqdn(wire("deno.land")), None))),
    ("deno.land:8000", Some((Host::Fqdn(wire("deno.land")), Some(8000)))),
    ("deno.land:", None),
    ("deno.land:a", None),
    ("deno. land:a", None),
    ("deno.land.: a", None),
    ("1.1.1.1", Some((Host::Ip(IpAddress::V4(0x01010101)), None))),
    ("1.1.1.1.", None),
    ("1.1.1.1..", None),
    ("1.1.1.1:8000", Some((Host::Ip(IpAddress::V4(0x01010101)), Some(8000)))),
    ("::", None),
    (":::80", None),
    ("::80", None),
    ("[::]", Some((Host::Ip(IpAddress::V6(0)), None))),
    ("[::1", None),
    ("::1]", None),
    ("[::1]:", None),
    ("[::1]:a", None),
    ("[::1]:443", Some((Host::Ip(IpAddress::V6(1)), Some(443)))),
    ("", None),
    ("deno.land..", None),
    ("[fe80::1%18]:1234", Some((Host::Ip(IpAddress::V6(FE80_1)), Some(1234)))),
    ("[fe80::1%eth0]:8080", Some((Host::Ip(IpAddress::V6(FE80_1)), Some(8080)))),
  ]
}

fn check_cases(w: SubdomainWildcards, cases: Vec<(&'static str, Option<(Host, Option<u32>)>)>) {
  for (input, expected) in cases {
    let got = parse_desc(input, w);
    match (&got, &expected) {
      (None, None) => {}
      (Some(d), Some((h, p))) => {
        assert!(same_host(&d.host, h), "'{input}'");
        assert_eq!(d.port, *p, "'{input}'");
      }
      _ => panic!("'{input}': got {got:?}, expected {expected:?}"),
    }
  }
}

#[test]
fn test_net_descriptor_parse_for_query() {
  let mut cases = query_cases();
  cases.push(("*.deno.land", None));
  check_cases(SubdomainWildcards::Disabled, cases);
}

#[test]
fn test_net_descriptor_parse_for_list() {
  let mut cases = query_cases();
  cases.push((
    "*.deno.land",
    Some((Host::FqdnWithSubdomainWildcard(wire("deno.land")), None)),
  ));
  cases.push((
    "unix:/var/run/docker.sock",
    Some((Host::UnixSocket("/var/run/docker.sock".to_string()), None)),
  ));
  cases.push((
    "unix:/var/run/../run/./docker.sock",
    Some((Host::UnixSocket("/var/run/docker.sock".to_string()), None)),
  ));
  cases.push(("unix:", None));
  cases.push(("unix:relative.sock", None));
  check_cases(SubdomainWildcards::Enabled, cases);
}

#[test]
fn refused_descriptors_say_why() {
  let err = |text: &str| {
    let bracket = net_bracket_text(text).and_then(|t| v6_answer(&t));
    let host_ip = ip_answer(&host_ip_text(&net_host_part(text)));
    parse_net_descriptor_rest(text, SubdomainWildcards::Disabled, None, bracket, host_ip)
      .unwrap_err()
  };
  assert_eq!(err("deno.land:"), NetParseError::EmptyPort("deno.land:".to_string()));
  assert_eq!(
    err("deno.land:a"),
    NetParseError::InvalidPort {
      hostname: "deno.land:a".to_string(),
      port: "a".to_string()
    }
  );
  assert_eq!(
    err("fe80:0:1"),
    NetParseError::Ipv6MissingSquareBrackets("fe80:0:1".to_string())
  );
  assert!(matches!(
    err("::80"),
    NetParseError::Host(deno_permissions::network::HostParseError::InvalidEmptyHost(ref s)) if s.is_empty()
  ));
  assert_eq!(err("[::1"), NetParseError::InvalidHost("[::1".to_string()));
  assert_eq!(
    err("[zz]:1"),
    NetParseError::InvalidIpv6 {
      hostname: "[zz]:1".to_string(),
      ip: "zz".to_string()
    }
  );
  assert_eq!(err("[::1]x"), NetParseError::InvalidHost("[::1]x".to_string()));
  assert!(matches!(
    err("1.1.1.1."),
    NetParseError::Host(deno_permissions::network::HostParseError::InvalidHost(ref s)) if s == "1.1.1.1"
  ));
  assert!(matches!(
    err(""),
    NetParseError::Host(deno_permissions::network::HostParseError::InvalidEmptyHost(ref s)) if s.is_empty()
  ));
}

#[test]
fn mapped_addresses_are_their_ipv4_form() {
  let mapped: u128 = 0xffff_7f00_0001;
  assert_eq!(normalize_ip(IpAddress::V6(mapped)), IpAddress::V4(0x7f000001));
  assert_eq!(normalize_ip(IpAddress::V6(1)), IpAddress::V6(1));
  assert_eq!(normalize_ip(IpAddress::V4(7)), IpAddress::V4(7));
  let subnet = parse_host_text("10.0.0.0/8").unwrap();
  assert!(same_host(&subnet, &Host::IpSubnet(IpNetwork::V4(0x0a000000, 8))));
}

#[test]
fn test_net_ipv4_mapped_ipv6() {
  let query = |host: &str, port: Option<u32>| NetDescriptor {
    host: parse_host_text(host).unwrap(),
    port,
    display: host.to_string(),
  };
  let list = |text: &str| parse_desc(text, SubdomainWildcards::Enabled).unwrap();
  let mut perms = Permissions::from_options(ParsedPermissionsOptions {
    allow_net: Some(vec![]),
    deny_net: Some(vec![list("127.0.0.1")]),
    ..options()
  });
  let mut no = NoPrompt;
  assert!(perms.net.check(&query("127.0.0.1", None), Some("api"), None, &mut no).is_err());
  assert!(perms.net.check(&query("::ffff:127.0.0.1", None), Some("api"), None, &mut no).is_err());
  assert!(perms.net.check(&query("::1", None), Some("api"), None, &mut no).is_ok());
  assert!(perms.net.check(&query("192.168.1.1", None), Some("api"), None, &mut no).is_ok());

  let mut perms = Permissions::from_options(ParsedPermissionsOptions {
    allow_net: Some(vec![list("[::ffff:10.0.0.1]")]),
    ..options()
  });
  assert!(perms.net.check(&query("10.0.0.1", None), Some("api"), None, &mut no).is_ok());
  assert!(perms.net.check(&query("::ffff:10.0.0.1", None), Some("api"), None, &mut no).is_ok());

  let mut perms = Permissions::from_options(ParsedPermissionsOptions {
    allow_net: Some(vec![]),
    deny_net: Some(vec![list("127.0.0.1:8080")]),
    ..options()
  });
  assert!(perms.net.check(&query("127.0.0.1", Some(8080)), Some("api"), None, &mut no).is_err());
  assert!(perms.net.check(&query("::ffff:127.0.0.1", Some(8080)), Some("api"), None, &mut no).is_err());
  assert!(perms.net.check(&query("::ffff:127.0.0.1", Some(9090)), Some("api"), None, &mut no).is_ok());
}

fn options() -> ParsedPermissionsOptions {
  ParsedPermissionsOptions {
    allow_env: None,
    deny_env: None,
    ignore_env: None,
    allow_net: None,
    deny_net: None,
    allow_ffi: None,
    deny_ffi: None,
    allow_read: None,
    deny_read: None,
    ignore_read: None,
    allow_run: None,
    deny_run: None,
    allow_sys: None,
    deny_sys: None,
    allow_write: None,
    deny_write: None,
    allow_import: None,
    deny_import: None,
    prompt: false,
  }
}
