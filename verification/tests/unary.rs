use std::cmp::Ordering;

use deno_permissions::child::ChildUnaryRequest;
use deno_permissions::descriptors::EnvDescriptor;
use deno_permissions::descriptors::EnvQueryDescriptor;
use deno_permissions::descriptors::SysDescriptor;
use deno_permissions::paths::denies_run_name;
use deno_permissions::paths::FfiDescriptor;
use deno_permissions::paths::FfiQueryDescriptor;
use deno_permissions::paths::NoPrompt;
use deno_permissions::paths::PathDescriptor;
use deno_permissions::paths::PathQueryDescriptor;
use deno_permissions::paths::ReadDescriptor;
use deno_permissions::paths::ReadQueryDescriptor;
use deno_permissions::paths::WriteDescriptor;
use deno_permissions::paths::WriteQueryDescriptor;
use deno_permissions::perms::NoBroker;
use deno_permissions::perms::PermissionPrompter;
use deno_permissions::perms::PermissionState;
use deno_permissions::perms::PromptResponse;
use deno_permissions::unary::format_display_name;
use deno_permissions::unary::new_unary_with_ignore;
use deno_permissions::unary::AllowDescriptor;
use deno_permissions::unary::UnaryPermission;
use deno_permissions::unary::UnaryPermissionDesc;
use deno_permissions::Cmp;

/// Answers every prompt with the stub value: allow when true.
struct Stub(bool);

impl PermissionPrompter for Stub {
  fn prompt(
    &mut self,
    _message: &str,
    _name: &str,
    _api_name: Option<&str>,
    _is_unary: bool,
  ) -> PromptResponse {
    if self.0 {
      PromptResponse::Allow
    } else {
      PromptResponse::Deny
    }
  }
}

fn under_root(text: &str) -> String {
  if text.starts_with('/') {
    text.to_string()
  } else {
    format!("/{}", text)
  }
}

fn path_desc(text: &str) -> PathDescriptor {
  PathDescriptor::new_known_absolute(&under_root(text))
}

fn read_desc(text: &str) -> ReadDescriptor {
  ReadDescriptor(path_desc(text))
}

fn write_desc(text: &str) -> WriteDescriptor {
  WriteDescriptor(path_desc(text))
}

fn ffi_desc(text: &str) -> FfiDescriptor {
  FfiDescriptor(path_desc(text))
}

fn env_desc(text: &str) -> EnvDescriptor {
  EnvDescriptor::new(text)
}

fn sys_desc(text: &str) -> SysDescriptor {
  SysDescriptor::parse(text.to_string()).unwrap()
}

fn read_query(path: &str) -> ReadQueryDescriptor {
  PathQueryDescriptor::new_known_absolute(path).into_read()
}

fn write_query(path: &str) -> WriteQueryDescriptor {
  PathQueryDescriptor::new_known_absolute(path).into_write()
}

fn ffi_query(path: &str) -> FfiQueryDescriptor {
  PathQueryDescriptor::new_known_absolute(path).into_ffi()
}

fn list<T>(items: &[&str], make: fn(&str) -> T) -> Option<Vec<T>> {
  Some(items.iter().map(|s| make(s)).collect())
}

fn as_ordering(c: Cmp) -> Ordering {
  match c {
    Cmp::Less => Ordering::Less,
    Cmp::Equal => Ordering::Equal,
    Cmp::Greater => Ordering::Greater,
  }
}

fn check_comparison<A: AllowDescriptor>(
  first: &UnaryPermissionDesc<A>,
  second: &UnaryPermissionDesc<A>,
  expected: Ordering,
) {
  assert_eq!(as_ordering(first.cmp(second)), expected);
  assert_eq!(
    as_ordering(second.cmp(first)),
    match expected {
      Ordering::Less => Ordering::Greater,
      Ordering::Greater => Ordering::Less,
      Ordering::Equal => Ordering::Equal,
    },
    "failed second to first"
  );
}

#[test]
fn test_cmp_read_descriptors() {
  let parse_granted = |text: &str| UnaryPermissionDesc::Granted(read_desc(text));
  let parse_flag_denied =
    |text: &str| UnaryPermissionDesc::<ReadDescriptor>::FlagDenied(read_desc(text));
  let parse_prompt_denied =
    |text: &str| UnaryPermissionDesc::<ReadDescriptor>::PromptDenied(read_desc(text));

  // Test path hierarchy: child < parent for granted
  check_comparison(
    &parse_granted("/foo/bar"),
    &parse_granted("/foo"),
    Ordering::Less,
  );
  check_comparison(
    &parse_granted("/foo/bar/baz"),
    &parse_granted("/foo/bar"),
    Ordering::Less,
  );
  check_comparison(
    &parse_granted("/a/b/c/d"),
    &parse_granted("/a"),
    Ordering::Less,
  );

  // Test path hierarchy: child < parent for flag denied
  check_comparison(
    &parse_flag_denied("/foo/bar"),
    &parse_flag_denied("/foo"),
    Ordering::Less,
  );
  check_comparison(
    &parse_flag_denied("/foo/bar/baz"),
    &parse_flag_denied("/foo/bar"),
    Ordering::Less,
  );

  // Test path hierarchy: child < parent for prompt denied
  check_comparison(
    &parse_prompt_denied("/foo/bar"),
    &parse_prompt_denied("/foo"),
    Ordering::Less,
  );
  check_comparison(
    &parse_prompt_denied("/foo/bar/baz"),
    &parse_prompt_denied("/foo/bar"),
    Ordering::Less,
  );

  // Test equal paths with same type
  check_comparison(
    &parse_granted("/foo/bar"),
    &parse_granted("/foo/bar"),
    Ordering::Equal,
  );
  check_comparison(
    &parse_flag_denied("/foo/bar"),
    &parse_flag_denied("/foo/bar"),
    Ordering::Equal,
  );
  check_comparison(
    &parse_prompt_denied("/foo/bar"),
    &parse_prompt_denied("/foo/bar"),
    Ordering::Equal,
  );

  // Test unrelated paths (lexicographic ordering)
  check_comparison(
    &parse_granted("/aaa"),
    &parse_granted("/bbb"),
    Ordering::Less,
  );
  check_comparison(
    &parse_granted("/xyz"),
    &parse_granted("/abc"),
    Ordering::Greater,
  );
  check_comparison(
    &parse_flag_denied("/aaa"),
    &parse_flag_denied("/zzz"),
    Ordering::Less,
  );

  // Test different types with same path
  // FlagDenied < PromptDenied < Granted (by kind_precedence)
  check_comparison(
    &parse_flag_denied("/foo"),
    &parse_granted("/foo"),
    Ordering::Less,
  );
  check_comparison(
    &parse_prompt_denied("/foo"),
    &parse_granted("/foo"),
    Ordering::Less,
  );
  check_comparison(
    &parse_flag_denied("/foo"),
    &parse_prompt_denied("/foo"),
    Ordering::Less,
  );

  // Test different types with parent/child relationship
  check_comparison(
    &parse_granted("/foo/bar"),
    &parse_flag_denied("/foo"),
    Ordering::Less,
  );
  check_comparison(
    &parse_granted("/foo"),
    &parse_flag_denied("/foo/bar"),
    Ordering::Greater,
  );
  check_comparison(
    &parse_prompt_denied("/foo/bar"),
    &parse_granted("/foo"),
    Ordering::Less,
  );

  // Test root vs subdirectories
  check_comparison(
    &parse_granted("/"),
    &parse_granted("/foo"),
    Ordering::Greater,
  );
  check_comparison(
    &parse_flag_denied("/"),
    &parse_flag_denied("/foo"),
    Ordering::Greater,
  );

  // Test deeply nested paths
  check_comparison(
    &parse_granted("/a/b/c/d/e/f"),
    &parse_granted("/a/b/c"),
    Ordering::Less,
  );
  check_comparison(
    &parse_granted("/a/b/c"),
    &parse_granted("/a/b/d"),
    Ordering::Less,
  );

  // Test paths with similar prefixes but different branches
  check_comparison(
    &parse_granted("/foo/bar"),
    &parse_granted("/foo/baz"),
    Ordering::Less,
  );
  check_comparison(
    &parse_granted("/prefix123"),
    &parse_granted("/prefix456"),
    Ordering::Less,
  );

  // Test two deny types with different descriptors (non-equal paths)
  check_comparison(
    &parse_flag_denied("/aaa"),
    &parse_prompt_denied("/bbb"),
    Ordering::Less,
  );
  check_comparison(
    &parse_flag_denied("/xyz"),
    &parse_prompt_denied("/abc"),
    Ordering::Greater,
  );
  check_comparison(
    &parse_prompt_denied("/foo/bar"),
    &parse_flag_denied("/foo/baz"),
    Ordering::Less,
  );

  // Test transitivity: FlagDenied < PromptDenied < Granted with same path
  check_comparison(
    &parse_flag_denied("/test"),
    &parse_prompt_denied("/test"),
    Ordering::Less,
  );
  check_comparison(
    &parse_prompt_denied("/test"),
    &parse_granted("/test"),
    Ordering::Less,
  );
  // Transitive: FlagDenied < Granted
  check_comparison(
    &parse_flag_denied("/test"),
    &parse_granted("/test"),
    Ordering::Less,
  );

  // Test mixed types with sibling paths
  check_comparison(
    &parse_granted("/foo/bar"),
    &parse_prompt_denied("/foo/baz"),
    Ordering::Greater,
  );
  check_comparison(
    &parse_flag_denied("/foo/aaa"),
    &parse_granted("/foo/zzz"),
    Ordering::Less,
  );

  // Test PromptDenied(child) vs FlagDenied(parent)
  check_comparison(
    &parse_prompt_denied("/foo/bar/baz"),
    &parse_flag_denied("/foo"),
    Ordering::Less,
  );
  check_comparison(
    &parse_prompt_denied("/a/b/c"),
    &parse_flag_denied("/a/b"),
    Ordering::Less,
  );
}

#[test]
fn test_cmp_write_descriptors() {
  let parse_granted = |text: &str| UnaryPermissionDesc::Granted(write_desc(text));
  let parse_flag_denied =
    |text: &str| UnaryPermissionDesc::<WriteDescriptor>::FlagDenied(write_desc(text));
  let parse_prompt_denied =
    |text: &str| UnaryPermissionDesc::<WriteDescriptor>::PromptDenied(write_desc(text));

  // Test path hierarchy: child < parent for granted
  check_comparison(
    &parse_granted("/foo/bar"),
    &parse_granted("/foo"),
    Ordering::Less,
  );
  check_comparison(
    &parse_granted("/foo/bar/baz"),
    &parse_granted("/foo/bar"),
    Ordering::Less,
  );
  check_comparison(
    &parse_granted("/a/b/c/d"),
    &parse_granted("/a"),
    Ordering::Less,
  );

  // Test path hierarchy: child < parent for flag denied
  check_comparison(
    &parse_flag_denied("/foo/bar"),
    &parse_flag_denied("/foo"),
    Ordering::Less,
  );
  check_comparison(
    &parse_flag_denied("/foo/bar/baz"),
    &parse_flag_denied("/foo/bar"),
    Ordering::Less,
  );

  // Test path hierarchy: child < parent for prompt denied
  check_comparison(
    &parse_prompt_denied("/foo/bar"),
    &parse_prompt_denied("/foo"),
    Ordering::Less,
  );
  check_comparison(
    &parse_prompt_denied("/foo/bar/baz"),
    &parse_prompt_denied("/foo/bar"),
    Ordering::Less,
  );

  // Test equal paths with same type
  check_comparison(
    &parse_granted("/foo/bar"),
    &parse_granted("/foo/bar"),
    Ordering::Equal,
  );
  check_comparison(
    &parse_flag_denied("/foo/bar"),
    &parse_flag_denied("/foo/bar"),
    Ordering::Equal,
  );
  check_comparison(
    &parse_prompt_denied("/foo/bar"),
    &parse_prompt_denied("/foo/bar"),
    Ordering::Equal,
  );

  // Test unrelated paths (lexicographic ordering)
  check_comparison(
    &parse_granted("/aaa"),
    &parse_granted("/bbb"),
    Ordering::Less,
  );
  check_comparison(
    &parse_granted("/xyz"),
    &parse_granted("/abc"),
    Ordering::Greater,
  );
  check_comparison(
    &parse_flag_denied("/aaa"),
    &parse_flag_denied("/zzz"),
    Ordering::Less,
  );

  // Test different types with same path
  // FlagDenied < PromptDenied < Granted (by kind_precedence)
  check_comparison(
    &parse_flag_denied("/foo"),
    &parse_granted("/foo"),
    Ordering::Less,
  );
  check_comparison(
    &parse_prompt_denied("/foo"),
    &parse_granted("/foo"),
    Ordering::Less,
  );
  check_comparison(
    &parse_flag_denied("/foo"),
    &parse_prompt_denied("/foo"),
    Ordering::Less,
  );

  // Test different types with parent/child relationship
  check_comparison(
    &parse_granted("/foo/bar"),
    &parse_flag_denied("/foo"),
    Ordering::Less,
  );
  check_comparison(
    &parse_granted("/foo"),
    &parse_flag_denied("/foo/bar"),
    Ordering::Greater,
  );
  check_comparison(
    &parse_prompt_denied("/foo/bar"),
    &parse_granted("/foo"),
    Ordering::Less,
  );

  // Test root vs subdirectories
  check_comparison(
    &parse_granted("/"),
    &parse_granted("/foo"),
    Ordering::Greater,
  );
  check_comparison(
    &parse_flag_denied("/"),
    &parse_flag_denied("/foo"),
    Ordering::Greater,
  );

  // Test deeply nested paths
  check_comparison(
    &parse_granted("/a/b/c/d/e/f"),
    &parse_granted("/a/b/c"),
    Ordering::Less,
  );
  check_comparison(
    &parse_granted("/a/b/c"),
    &parse_granted("/a/b/d"),
    Ordering::Less,
  );

  // Test paths with similar prefixes but different branches
  check_comparison(
    &parse_granted("/foo/bar"),
    &parse_granted("/foo/baz"),
    Ordering::Less,
  );
  check_comparison(
    &parse_granted("/prefix123"),
    &parse_granted("/prefix456"),
    Ordering::Less,
  );

  // Test two deny types with different descriptors
  check_comparison(
    &parse_flag_denied("/aaa"),
    &parse_prompt_denied("/bbb"),
    Ordering::Less,
  );
  check_comparison(
    &parse_prompt_denied("/foo/bar"),
    &parse_flag_denied("/foo/baz"),
    Ordering::Less,
  );

  // Test PromptDenied(child) vs FlagDenied(parent)
  check_comparison(
    &parse_prompt_denied("/foo/bar/baz"),
    &parse_flag_denied("/foo"),
    Ordering::Less,
  );
}

#[test]
fn test_cmp_env_descriptors() {
  let parse_granted = |text: &str| UnaryPermissionDesc::Granted(env_desc(text));
  let parse_flag_denied =
    |text: &str| UnaryPermissionDesc::<EnvDescriptor>::FlagDenied(env_desc(text));
  let parse_prompt_denied =
    |text: &str| UnaryPermissionDesc::<EnvDescriptor>::PromptDenied(env_desc(text));

  // Test variable name ordering for granted
  check_comparison(
    &parse_granted("AAA"),
    &parse_granted("BBB"),
    Ordering::Less,
  );
  check_comparison(
    &parse_granted("XYZ"),
    &parse_granted("ABC"),
    Ordering::Greater,
  );

  // Test variable name ordering for flag denied
  check_comparison(
    &parse_flag_denied("HOME"),
    &parse_flag_denied("PATH"),
    Ordering::Less,
  );
  check_comparison(
    &parse_flag_denied("ZZZ"),
    &parse_flag_denied("AAA"),
    Ordering::Greater,
  );

  // Test variable name ordering for prompt denied
  check_comparison(
    &parse_prompt_denied("FOO"),
    &parse_prompt_denied("BAR"),
    Ordering::Greater,
  );
  check_comparison(
    &parse_prompt_denied("TEST_VAR"),
    &parse_prompt_denied("TEST_VAR2"),
    Ordering::Less,
  );

  // Test equal descriptors with same type
  check_comparison(
    &parse_granted("PATH"),
    &parse_granted("PATH"),
    Ordering::Equal,
  );
  check_comparison(
    &parse_flag_denied("HOME"),
    &parse_flag_denied("HOME"),
    Ordering::Equal,
  );
  check_comparison(
    &parse_prompt_denied("USER"),
    &parse_prompt_denied("USER"),
    Ordering::Equal,
  );

  // Test different types with same variable
  // FlagDenied < PromptDenied < Granted (by kind_precedence)
  check_comparison(
    &parse_flag_denied("PATH"),
    &parse_granted("PATH"),
    Ordering::Less,
  );
  check_comparison(
    &parse_prompt_denied("PATH"),
    &parse_granted("PATH"),
    Ordering::Less,
  );
  check_comparison(
    &parse_flag_denied("PATH"),
    &parse_prompt_denied("PATH"),
    Ordering::Less,
  );

  // Test different types with different variables
  check_comparison(
    &parse_granted("AAA"),
    &parse_flag_denied("BBB"),
    Ordering::Less,
  );
  check_comparison(
    &parse_flag_denied("AAA"),
    &parse_granted("BBB"),
    Ordering::Less,
  );
  check_comparison(
    &parse_prompt_denied("XXX"),
    &parse_granted("AAA"),
    Ordering::Greater,
  );

  // Test common environment variables
  check_comparison(
    &parse_granted("HOME"),
    &parse_granted("PATH"),
    Ordering::Less,
  );
  check_comparison(
    &parse_granted("USER"),
    &parse_granted("HOME"),
    Ordering::Greater,
  );

  // Test two deny types with different variables
  check_comparison(
    &parse_flag_denied("AAA"),
    &parse_prompt_denied("ZZZ"),
    Ordering::Less,
  );
  check_comparison(
    &parse_prompt_denied("HOME"),
    &parse_flag_denied("PATH"),
    Ordering::Less,
  );
}

#[test]
fn test_cmp_sys_descriptors() {
  let parse_granted = |text: &str| UnaryPermissionDesc::Granted(sys_desc(text));
  let parse_flag_denied =
    |text: &str| UnaryPermissionDesc::<SysDescriptor>::FlagDenied(sys_desc(text));
  let parse_prompt_denied =
    |text: &str| UnaryPermissionDesc::<SysDescriptor>::PromptDenied(sys_desc(text));

  // Test system info kind ordering for granted
  check_comparison(
    &parse_granted("hostname"),
    &parse_granted("osRelease"),
    Ordering::Less,
  );
  check_comparison(
    &parse_granted("uid"),
    &parse_granted("hostname"),
    Ordering::Greater,
  );

  // Test system info kind ordering for flag denied
  check_comparison(
    &parse_flag_denied("cpus"),
    &parse_flag_denied("loadavg"),
    Ordering::Less,
  );
  check_comparison(
    &parse_flag_denied("osRelease"),
    &parse_flag_denied("cpus"),
    Ordering::Greater,
  );

  // Test system info kind ordering for prompt denied
  check_comparison(
    &parse_prompt_denied("hostname"),
    &parse_prompt_denied("loadavg"),
    Ordering::Less,
  );
  check_comparison(
    &parse_prompt_denied("uid"),
    &parse_prompt_denied("gid"),
    Ordering::Greater,
  );

  // Test equal descriptors with same type
  check_comparison(
    &parse_granted("hostname"),
    &parse_granted("hostname"),
    Ordering::Equal,
  );
  check_comparison(
    &parse_flag_denied("osRelease"),
    &parse_flag_denied("osRelease"),
    Ordering::Equal,
  );
  check_comparison(
    &parse_prompt_denied("cpus"),
    &parse_prompt_denied("cpus"),
    Ordering::Equal,
  );

  // Test different types with same kind
  // FlagDenied < PromptDenied < Granted (by kind_precedence)
  check_comparison(
    &parse_flag_denied("hostname"),
    &parse_granted("hostname"),
    Ordering::Less,
  );
  check_comparison(
    &parse_prompt_denied("hostname"),
    &parse_granted("hostname"),
    Ordering::Less,
  );
  check_comparison(
    &parse_flag_denied("hostname"),
    &parse_prompt_denied("hostname"),
    Ordering::Less,
  );

  // Test different types with different kinds
  check_comparison(
    &parse_granted("cpus"),
    &parse_flag_denied("loadavg"),
    Ordering::Greater,
  );
  check_comparison(
    &parse_flag_denied("cpus"),
    &parse_granted("loadavg"),
    Ordering::Less,
  );
  check_comparison(
    &parse_prompt_denied("uid"),
    &parse_granted("hostname"),
    Ordering::Less,
  );

  // Test various system info kinds
  check_comparison(
    &parse_granted("gid"),
    &parse_granted("uid"),
    Ordering::Less,
  );
  check_comparison(
    &parse_granted("loadavg"),
    &parse_granted("hostname"),
    Ordering::Greater,
  );

  // Test two deny types with different kinds
  check_comparison(
    &parse_flag_denied("cpus"),
    &parse_prompt_denied("uid"),
    Ordering::Less,
  );
  check_comparison(
    &parse_prompt_denied("hostname"),
    &parse_flag_denied("osRelease"),
    Ordering::Less,
  );
}

#[test]
fn test_cmp_ffi_descriptors() {
  let parse_granted = |text: &str| UnaryPermissionDesc::Granted(ffi_desc(text));
  let parse_flag_denied =
    |text: &str| UnaryPermissionDesc::<FfiDescriptor>::FlagDenied(ffi_desc(text));
  let parse_prompt_denied =
    |text: &str| UnaryPermissionDesc::<FfiDescriptor>::PromptDenied(ffi_desc(text));

  // Test path hierarchy: child < parent for granted
  check_comparison(
    &parse_granted("/foo/bar"),
    &parse_granted("/foo"),
    Ordering::Less,
  );
  check_comparison(
    &parse_granted("/foo/bar/baz.so"),
    &parse_granted("/foo/bar"),
    Ordering::Less,
  );
  check_comparison(
    &parse_granted("/lib/native/module.so"),
    &parse_granted("/lib"),
    Ordering::Less,
  );

  // Test path hierarchy: child < parent for flag denied
  check_comparison(
    &parse_flag_denied("/foo/bar"),
    &parse_flag_denied("/foo"),
    Ordering::Less,
  );
  check_comparison(
    &parse_flag_denied("/foo/bar/baz.dylib"),
    &parse_flag_denied("/foo/bar"),
    Ordering::Less,
  );

  // Test path hierarchy: child < parent for prompt denied
  check_comparison(
    &parse_prompt_denied("/foo/bar"),
    &parse_prompt_denied("/foo"),
    Ordering::Less,
  );
  check_comparison(
    &parse_prompt_denied("/foo/bar/baz.dll"),
    &parse_prompt_denied("/foo/bar"),
    Ordering::Less,
  );

  // Test equal paths with same type
  check_comparison(
    &parse_granted("/lib/native.so"),
    &parse_granted("/lib/native.so"),
    Ordering::Equal,
  );
  check_comparison(
    &parse_flag_denied("/lib/native.so"),
    &parse_flag_denied("/lib/native.so"),
    Ordering::Equal,
  );
  check_comparison(
    &parse_prompt_denied("/lib/native.so"),
    &parse_prompt_denied("/lib/native.so"),
    Ordering::Equal,
  );

  // Test unrelated paths (lexicographic ordering)
  check_comparison(
    &parse_granted("/aaa/lib.so"),
    &parse_granted("/bbb/lib.so"),
    Ordering::Less,
  );
  check_comparison(
    &parse_granted("/xyz/lib.so"),
    &parse_granted("/abc/lib.so"),
    Ordering::Greater,
  );
  check_comparison(
    &parse_flag_denied("/aaa/lib.so"),
    &parse_flag_denied("/zzz/lib.so"),
    Ordering::Less,
  );

  // Test different types with same path
  // FlagDenied < PromptDenied < Granted (by kind_precedence)
  check_comparison(
    &parse_flag_denied("/lib/native.so"),
    &parse_granted("/lib/native.so"),
    Ordering::Less,
  );
  check_comparison(
    &parse_prompt_denied("/lib/native.so"),
    &parse_granted("/lib/native.so"),
    Ordering::Less,
  );
  check_comparison(
    &parse_flag_denied("/lib/native.so"),
    &parse_prompt_denied("/lib/native.so"),
    Ordering::Less,
  );

  // Test different types with parent/child relationship
  check_comparison(
    &parse_granted("/foo/bar/lib.so"),
    &parse_flag_denied("/foo"),
    Ordering::Less,
  );
  check_comparison(
    &parse_granted("/foo"),
    &parse_flag_denied("/foo/bar/lib.so"),
    Ordering::Greater,
  );
  check_comparison(
    &parse_prompt_denied("/foo/bar/lib.so"),
    &parse_granted("/foo"),
    Ordering::Less,
  );

  // Test root vs subdirectories
  check_comparison(
    &parse_granted("/"),
    &parse_granted("/foo"),
    Ordering::Greater,
  );
  check_comparison(
    &parse_flag_denied("/"),
    &parse_flag_denied("/foo"),
    Ordering::Greater,
  );

  // Test deeply nested paths
  check_comparison(
    &parse_granted("/a/b/c/d/e/f.so"),
    &parse_granted("/a/b/c"),
    Ordering::Less,
  );
  check_comparison(
    &parse_granted("/a/b/c"),
    &parse_granted("/a/b/d"),
    Ordering::Less,
  );

  // Test paths with similar prefixes but different branches
  check_comparison(
    &parse_granted("/foo/bar.so"),
    &parse_granted("/foo/baz.so"),
    Ordering::Less,
  );
  check_comparison(
    &parse_granted("/lib/native1.so"),
    &parse_granted("/lib/native2.so"),
    Ordering::Less,
  );

  // Test two deny types with different paths
  check_comparison(
    &parse_flag_denied("/aaa/lib.so"),
    &parse_prompt_denied("/bbb/lib.so"),
    Ordering::Less,
  );
  check_comparison(
    &parse_prompt_denied("/foo/bar.so"),
    &parse_flag_denied("/foo/baz.so"),
    Ordering::Less,
  );

  // Test PromptDenied(child) vs FlagDenied(parent)
  check_comparison(
    &parse_prompt_denied("/foo/bar/lib.so"),
    &parse_flag_denied("/foo"),
    Ordering::Less,
  );
}

#[test]
fn test_denies_run_name() {
  let cases = [
    ("deno", "/home/test/deno", true),
    ("deno", "/home/test/denot", false),
  ];
  for (name, cmd_path, denies) in cases {
    assert_eq!(
      denies_run_name(name, cmd_path),
      denies,
      "{} {}",
      name,
      cmd_path
    );
  }
}

#[test]
fn test_env_check_all() {
  let mut env: UnaryPermission<EnvDescriptor> =
    new_unary_with_ignore(Some(vec![]), list(&["FOO"], env_desc), None, false);
  assert!(env.check_all(None, &mut NoPrompt).is_err());
}

#[test]
fn test_env_sorting() {
  let mut items = vec![
    EnvDescriptor::new("TEST"),
    EnvDescriptor::new("TEST*"),
    EnvDescriptor::new("TEST2*"),
    EnvDescriptor::new("TEST_TEST"),
  ];
  items.sort_by(|a, b| as_ordering(a.cmp_allow(b)));
  assert_eq!(
    items
      .into_iter()
      .map(|i| match i {
        EnvDescriptor::Name(name) => name.as_str().to_string(),
        EnvDescriptor::PrefixPattern(name) => format!("{}*", name.as_str()),
      })
      .collect::<Vec<_>>(),
    vec![
      "TEST".to_string(),
      "TEST_TEST".to_string(),
      "TEST2*".to_string(),
      "TEST*".to_string(),
    ]
  )
}

#[test]
fn test_format_display_name() {
  assert_eq!(format_display_name("123"), "\"123\"");
  assert_eq!(format_display_name("<other>"), "<other>");
}

#[test]
fn test_path_ordering_multiple_allows_and_denies() {
  let read: UnaryPermission<ReadDescriptor> = new_unary_with_ignore(
    list(&["/foo/bar/baz", "/foo/qux"], read_desc),
    list(&["/foo/bar", "/foo"], read_desc),
    None,
    false,
  );
  assert_eq!(
    read.query(Some(&read_query("/foo/bar/baz"))),
    PermissionState::Granted
  );
  assert_eq!(
    read.query(Some(&read_query("/foo/bar/baz/file.txt"))),
    PermissionState::Granted
  );
  assert_eq!(
    read.query(Some(&read_query("/foo/bar"))),
    PermissionState::Denied
  );
  assert_eq!(
    read.query(Some(&read_query("/foo/bar/other"))),
    PermissionState::Denied
  );
  assert_eq!(
    read.query(Some(&read_query("/foo/qux"))),
    PermissionState::Granted
  );
  assert_eq!(
    read.query(Some(&read_query("/foo/qux/file.txt"))),
    PermissionState::Granted
  );
  assert_eq!(read.query(Some(&read_query("/foo"))), PermissionState::Denied);
  assert_eq!(
    read.query(Some(&read_query("/foo/other"))),
    PermissionState::Denied
  );
  assert_eq!(read.query(Some(&read_query("/bar"))), PermissionState::Prompt);
}

#[test]
fn test_env_ordering_multiple_patterns() {
  let env: UnaryPermission<EnvDescriptor> = new_unary_with_ignore(
    list(&["NODE_ENV", "NODE_DEBUG_*", "DENO_*"], env_desc),
    list(&["NODE_*", "DENO_SECRET"], env_desc),
    None,
    true,
  );
  assert_eq!(env.query(Some("NODE_ENV")), PermissionState::Granted);
  assert_eq!(
    env.query(Some("NODE_DEBUG_NATIVE")),
    PermissionState::Granted
  );
  assert_eq!(env.query(Some("NODE_PATH")), PermissionState::Denied);
  assert_eq!(env.query(Some("NODE_OPTIONS")), PermissionState::Denied);
  assert_eq!(env.query(Some("DENO_DIR")), PermissionState::Granted);
  assert_eq!(env.query(Some("DENO_SECRET")), PermissionState::Denied);
  assert_eq!(env.query(Some("PATH")), PermissionState::Prompt);
}

#[test]
fn test_env_ordering_nested_patterns() {
  let env: UnaryPermission<EnvDescriptor> = new_unary_with_ignore(
    list(&["PREFIX_SUBPREFIX_ALLOWED*", "PREFIX_ALLOWED*"], env_desc),
    list(&["PREFIX_SUBPREFIX*", "PREFIX*"], env_desc),
    None,
    false,
  );
  assert_eq!(
    env.query(Some("PREFIX_SUBPREFIX_ALLOWED_VAR")),
    PermissionState::Granted
  );
  assert_eq!(
    env.query(Some("PREFIX_SUBPREFIX_OTHER")),
    PermissionState::Denied
  );
  assert_eq!(
    env.query(Some("PREFIX_ALLOWED_VAR")),
    PermissionState::Granted
  );
  assert_eq!(env.query(Some("PREFIX_OTHER")), PermissionState::Denied);
}

#[test]
fn test_path_ordering_same_specificity() {
  let read: UnaryPermission<ReadDescriptor> = new_unary_with_ignore(
    list(&["/foo/bar"], read_desc),
    list(&["/foo/bar"], read_desc),
    None,
    false,
  );
  assert_eq!(
    read.query(Some(&read_query("/foo/bar"))),
    PermissionState::Denied
  );
  assert_eq!(
    read.query(Some(&read_query("/foo/bar/file.txt"))),
    PermissionState::Denied
  );
}

#[test]
fn test_env_ordering_same_specificity() {
  let env: UnaryPermission<EnvDescriptor> = new_unary_with_ignore(
    list(&["TEST_VAR"], env_desc),
    list(&["TEST_VAR"], env_desc),
    None,
    false,
  );
  assert_eq!(env.query(Some("TEST_VAR")), PermissionState::Denied);
}

#[test]
fn test_env_ordering_pattern_same_specificity() {
  let env: UnaryPermission<EnvDescriptor> = new_unary_with_ignore(
    list(&["TEST_*"], env_desc),
    list(&["TEST_*"], env_desc),
    None,
    false,
  );
  assert_eq!(env.query(Some("TEST_VAR")), PermissionState::Denied);
  assert_eq!(env.query(Some("TEST_ANOTHER")), PermissionState::Denied);
}

#[test]
fn test_path_ordering_sibling_directories() {
  let read: UnaryPermission<ReadDescriptor> = new_unary_with_ignore(
    list(&["/foo/a"], read_desc),
    list(&["/foo/b"], read_desc),
    None,
    false,
  );
  assert_eq!(
    read.query(Some(&read_query("/foo/a"))),
    PermissionState::Granted
  );
  assert_eq!(
    read.query(Some(&read_query("/foo/a/file.txt"))),
    PermissionState::Granted
  );
  assert_eq!(
    read.query(Some(&read_query("/foo/b"))),
    PermissionState::Denied
  );
  assert_eq!(
    read.query(Some(&read_query("/foo/b/file.txt"))),
    PermissionState::Denied
  );
  assert_eq!(
    read.query(Some(&read_query("/foo/c"))),
    PermissionState::Prompt
  );
}

#[test]
fn test_write_ordering_deep_nesting() {
  let write: UnaryPermission<WriteDescriptor> = new_unary_with_ignore(
    list(&["/a/b/c/d/e/f"], write_desc),
    list(&["/a/b/c", "/a/b/c/d/e"], write_desc),
    None,
    false,
  );
  assert_eq!(
    write.query(Some(&write_query("/a/b/c/d/e/f"))),
    PermissionState::Granted
  );
  assert_eq!(
    write.query(Some(&write_query("/a/b/c/d/e/f/g"))),
    PermissionState::Granted
  );
  assert_eq!(
    write.query(Some(&write_query("/a/b/c/d/e"))),
    PermissionState::Denied
  );
  assert_eq!(
    write.query(Some(&write_query("/a/b/c/d/e/other"))),
    PermissionState::Denied
  );
  assert_eq!(
    write.query(Some(&write_query("/a/b/c"))),
    PermissionState::Denied
  );
  assert_eq!(
    write.query(Some(&write_query("/a/b/c/d"))),
    PermissionState::Denied
  );
  assert_eq!(
    write.query(Some(&write_query("/a/b"))),
    PermissionState::Prompt
  );
}

#[test]
fn test_ffi_ordering_similar_paths() {
  let ffi: UnaryPermission<FfiDescriptor> = new_unary_with_ignore(
    list(&["/usr/lib/custom", "/usr/lib64"], ffi_desc),
    list(&["/usr/lib"], ffi_desc),
    None,
    false,
  );
  assert_eq!(
    ffi.query(Some(&ffi_query("/usr/lib/custom"))),
    PermissionState::Granted
  );
  assert_eq!(
    ffi.query(Some(&ffi_query("/usr/lib/custom/mylib.so"))),
    PermissionState::Granted
  );
  assert_eq!(
    ffi.query(Some(&ffi_query("/usr/lib64"))),
    PermissionState::Granted
  );
  assert_eq!(
    ffi.query(Some(&ffi_query("/usr/lib"))),
    PermissionState::Denied
  );
  assert_eq!(
    ffi.query(Some(&ffi_query("/usr/lib/other.so"))),
    PermissionState::Denied
  );
}

#[test]
fn test_env_ordering_empty_prefix_pattern() {
  let env: UnaryPermission<EnvDescriptor> = new_unary_with_ignore(
    list(&["ALLOWED_VAR"], env_desc),
    list(&["ALLOWED_*"], env_desc),
    None,
    false,
  );
  assert_eq!(env.query(Some("ALLOWED_VAR")), PermissionState::Granted);
  assert_eq!(env.query(Some("ALLOWED_OTHER")), PermissionState::Denied);
}

fn env_child_list(
  env: &mut UnaryPermission<EnvDescriptor>,
  names: &[&str],
) -> bool {
  env
    .create_child_permissions::<EnvQueryDescriptor, _, _>(
      ChildUnaryRequest::GrantedList(
        names.iter().map(|n| Ok(Some(EnvDescriptor::new(n)))).collect(),
      ),
      &mut NoBroker,
      &mut NoPrompt,
    )
    .is_ok()
}

#[test]
fn test_env_wildcards() {
  let mut env: UnaryPermission<EnvDescriptor> =
    new_unary_with_ignore(list(&["HOME_*"], env_desc), None, None, false);
  assert_eq!(env.query(Some("HOME")), PermissionState::Prompt);
  assert_eq!(env.query(Some("HOME_")), PermissionState::Granted);
  assert_eq!(env.query(Some("HOME_TEST")), PermissionState::Granted);

  // no privilege escalation
  assert!(env_child_list(&mut env, &["HOME_SUB"]));
  assert!(!env_child_list(&mut env, &["HOME*"]));
  assert!(!env_child_list(&mut env, &["OUTSIDE"]));
  // ok because this is a subset of HOME_*
  assert!(env_child_list(&mut env, &["HOME_S*"]));
  {
    let env: UnaryPermission<EnvDescriptor> = new_unary_with_ignore(
      list(&["PREFIX_ALLOWED*", "PREFIX_EXPLICIT_ALLOWED"], env_desc),
      list(&["PREFIX*"], env_desc),
      None,
      false,
    );
    assert_eq!(env.query(Some("PREFIX_TEST")), PermissionState::Denied);
    assert_eq!(
      env.query(Some("PREFIX_ALLOWED_TEST")),
      PermissionState::Granted
    );
    assert_eq!(
      env.query(Some("PREFIX_EXPLICIT_ALLOWED")),
      PermissionState::Granted
    );
  }
}

#[test]
fn test_env_ignore() {
  {
    let env: UnaryPermission<EnvDescriptor> = new_unary_with_ignore(
      list(&["ALLOWED_*"], env_desc),
      list(&["DENIED_*"], env_desc),
      list(&["IGNORED_*"], env_desc),
      false,
    );
    assert_eq!(env.query(Some("ALLOWED_TEST")), PermissionState::Granted);
    assert_eq!(env.query(Some("IGNORED_TEST")), PermissionState::Ignored);
    assert_eq!(env.query(Some("DENIED_TEST")), PermissionState::Denied);
  }
  {
    let env: UnaryPermission<EnvDescriptor> = new_unary_with_ignore(
      list(&["PREFIX_ALLOWED*"], env_desc),
      list(&["PREFIX*"], env_desc),
      list(&["PREFIX_IGNORED*"], env_desc),
      false,
    );
    assert_eq!(env.query(Some("PREFIX_TEST")), PermissionState::Denied);
    assert_eq!(
      env.query(Some("PREFIX_IGNORED_TEST")),
      PermissionState::Ignored
    );
    assert_eq!(
      env.query(Some("PREFIX_ALLOWED_TEST")),
      PermissionState::Granted
    );
  }
}

#[test]
fn test_read_ignore() {
  {
    let read: UnaryPermission<ReadDescriptor> = new_unary_with_ignore(
      list(&["allowed"], read_desc),
      list(&["denied"], read_desc),
      list(&["ignored"], read_desc),
      false,
    );
    assert_eq!(
      read.query(Some(&read_query("/allowed"))),
      PermissionState::Granted
    );
    assert_eq!(
      read.query(Some(&read_query("/ignored"))),
      PermissionState::Ignored
    );
    assert_eq!(
      read.query(Some(&read_query("/denied"))),
      PermissionState::Denied
    );
  }
  {
    let read: UnaryPermission<ReadDescriptor> = new_unary_with_ignore(
      list(&["prefix/allowed"], read_desc),
      list(&["prefix"], read_desc),
      list(&["prefix/ignored"], read_desc),
      false,
    );
    assert_eq!(
      read.query(Some(&read_query("/prefix/test"))),
      PermissionState::Denied
    );
    assert_eq!(
      read.query(Some(&read_query("/prefix/ignored/test"))),
      PermissionState::Ignored
    );
    assert_eq!(
      read.query(Some(&read_query("/prefix/allowed/test"))),
      PermissionState::Granted
    );
  }
}

#[test]
fn test_check_partial_denied() {
  let mut write: UnaryPermission<WriteDescriptor> = new_unary_with_ignore(
    Some(vec![]),
    list(&["/foo/bar"], write_desc),
    None,
    false,
  );
  let q = write_query("/foo");
  write.check_partial(&q, None, None, &mut NoPrompt).unwrap();
  assert!(write.check(&q, None, None, &mut NoPrompt).is_err());
}

#[test]
fn test_check_partial_ancestor_of_deny() {
  let mut read: UnaryPermission<ReadDescriptor> = new_unary_with_ignore(
    Some(vec![]),
    list(&["/mnt"], read_desc),
    None,
    false,
  );
  let mut write: UnaryPermission<WriteDescriptor> = new_unary_with_ignore(
    Some(vec![]),
    list(&["/foo/bar"], write_desc),
    None,
    false,
  );
  let root_read = read_query("/");
  read.check_partial(&root_read, None, None, &mut NoPrompt).unwrap();
  assert!(read.check(&root_read, None, None, &mut NoPrompt).is_err());

  let foo_write = write_query("/foo");
  write.check_partial(&foo_write, None, None, &mut NoPrompt).unwrap();
  assert!(write.check(&foo_write, None, None, &mut NoPrompt).is_err());

  let mnt_read = read_query("/mnt");
  assert!(read.check_partial(&mnt_read, None, None, &mut NoPrompt).is_err());
  let mnt_sub_read = read_query("/mnt/sub");
  assert!(
    read
      .check_partial(&mnt_sub_read, None, None, &mut NoPrompt)
      .is_err()
  );
}

#[test]
fn test_check_allow_global_deny_global() {
  let mut read: UnaryPermission<ReadDescriptor> =
    new_unary_with_ignore(Some(vec![]), Some(vec![]), None, false);
  let mut write: UnaryPermission<WriteDescriptor> =
    new_unary_with_ignore(Some(vec![]), Some(vec![]), None, false);
  assert!(read.check_all(None, None, &mut NoPrompt).is_err());
  assert!(
    read
      .check(&read_query("/foo"), None, None, &mut NoPrompt)
      .is_err()
  );
  assert!(write.check_all(None, None, &mut NoPrompt).is_err());
  assert!(
    write
      .check(&write_query("/foo"), None, None, &mut NoPrompt)
      .is_err()
  );
}

fn read_perm(
  allow: Option<Vec<ReadDescriptor>>,
  deny: Option<Vec<ReadDescriptor>>,
  ignore: Option<Vec<ReadDescriptor>>,
  prompt: bool,
) -> UnaryPermission<ReadDescriptor> {
  new_unary_with_ignore(allow, deny, ignore, prompt)
}

#[test]
fn test_is_allow_all_edge_cases() {
  assert!(read_perm(Some(vec![]), None, None, false).is_allow_all(false));
  assert!(
    !read_perm(Some(vec![]), None, Some(vec![]), false).is_allow_all(false)
  );
  assert!(
    !read_perm(Some(vec![]), Some(vec![]), None, false).is_allow_all(false)
  );
  assert!(!read_perm(
    Some(vec![]),
    list(&["/secret"], read_desc),
    None,
    false
  )
  .is_allow_all(false));
  assert!(!read_perm(
    Some(vec![]),
    None,
    list(&["/secret"], read_desc),
    false
  )
  .is_allow_all(false));
  assert!(
    !read_perm(list(&["/foo"], read_desc), None, None, false)
      .is_allow_all(false)
  );
  assert!(!read_perm(None, None, None, false).is_allow_all(false));
}

#[test]
fn test_revoke_and_requery_state_transitions() {
  let mut read = read_perm(list(&["/foo"], read_desc), None, None, false);
  assert_eq!(
    read.query(Some(&read_query("/foo/bar"))),
    PermissionState::Granted
  );
  read.revoke(Some(&read_query("/foo")));
  assert_eq!(
    read.query(Some(&read_query("/foo/bar"))),
    PermissionState::Prompt
  );

  let mut read = read_perm(None, None, None, true);
  assert_eq!(
    read.request(Some(&read_query("/foo")), &mut Stub(true)),
    PermissionState::Granted
  );
  assert_eq!(
    read.query(Some(&read_query("/foo"))),
    PermissionState::Granted
  );
  read.revoke(Some(&read_query("/foo")));
  assert_eq!(
    read.query(Some(&read_query("/foo"))),
    PermissionState::Prompt
  );

  let mut read =
    read_perm(Some(vec![]), list(&["/secret"], read_desc), None, false);
  assert_eq!(
    read.query(Some(&read_query("/foo"))),
    PermissionState::Granted
  );
  read.revoke(None);
  assert_eq!(
    read.query(Some(&read_query("/secret"))),
    PermissionState::Denied
  );
  assert_eq!(
    read.query(Some(&read_query("/foo"))),
    PermissionState::Prompt
  );
}

#[test]
fn test_prompt_denied_accumulation_and_stronger_than() {
  let mut read = read_perm(None, None, None, true);
  let mut deny = Stub(false);
  assert_eq!(
    read.request(Some(&read_query("/foo")), &mut deny),
    PermissionState::Denied
  );
  assert_eq!(
    read.query(Some(&read_query("/foo/bar"))),
    PermissionState::Prompt
  );
  assert_eq!(read.query(Some(&read_query("/foo"))), PermissionState::Denied);

  assert_eq!(
    read.request(Some(&read_query("/bar/baz")), &mut deny),
    PermissionState::Denied
  );
  assert_eq!(read.query(Some(&read_query("/bar"))), PermissionState::Denied);

  assert_eq!(
    read.request(Some(&read_query("/x")), &mut deny),
    PermissionState::Denied
  );
  assert_eq!(
    read.request(Some(&read_query("/y")), &mut deny),
    PermissionState::Denied
  );
  assert_eq!(read.query(Some(&read_query("/x"))), PermissionState::Denied);
  assert_eq!(read.query(Some(&read_query("/y"))), PermissionState::Denied);
  assert_eq!(read.query(Some(&read_query("/z"))), PermissionState::Prompt);
}

#[test]
fn test_allow_deny_ignore_three_way_interaction() {
  let read = read_perm(
    list(&["/home"], read_desc),
    list(&["/home/secret"], read_desc),
    list(&["/home/.cache"], read_desc),
    false,
  );
  assert_eq!(
    read.query(Some(&read_query("/home/file.txt"))),
    PermissionState::Granted
  );
  assert_eq!(
    read.query(Some(&read_query("/home/secret/key"))),
    PermissionState::Denied
  );
  assert_eq!(
    read.query(Some(&read_query("/home/.cache/data"))),
    PermissionState::Ignored
  );
  assert_eq!(
    read.query(Some(&read_query("/home"))),
    PermissionState::GrantedPartial
  );
  assert_eq!(
    read.query(Some(&read_query("/etc/passwd"))),
    PermissionState::Prompt
  );
}

#[test]
fn test_check_all_api_with_specific_allows_only() {
  let mut read = read_perm(list(&["/foo"], read_desc), None, None, false);
  assert!(read.check_all(None, None, &mut NoPrompt).is_err());

  let mut read = read_perm(Some(vec![]), None, None, false);
  assert!(read.check_all(None, None, &mut NoPrompt).is_ok());

  let mut read =
    read_perm(Some(vec![]), list(&["/secret"], read_desc), None, false);
  assert!(read.check_all(None, None, &mut NoPrompt).is_ok());

  let mut read = read_perm(Some(vec![]), Some(vec![]), None, false);
  assert!(read.check_all(None, None, &mut NoPrompt).is_err());

  let mut read = read_perm(None, None, None, true);
  assert!(
    read
      .check(&read_query("/foo"), None, None, &mut Stub(true))
      .is_ok()
  );
  assert!(read.check_all(None, None, &mut Stub(false)).is_err());
}
