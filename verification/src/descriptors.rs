//! The descriptors of the system-information and environment flags, and
//! how their queries match grants and denials.
use vstd::prelude::*;
use vstd::string::*;

use crate::perms::{EnvVarName, EnvVarNameRef};
use crate::text::{ends_with, lex_order, starts_with, str_compare, str_eq, strip_suffix_char, substring, to_owned};
use crate::perms::{result_view, BrokerResponse, PermissionDeniedError, PermissionPrompter, PermissionState};
use crate::unary::{opt_view, AllowDescriptor, AllowPartial, DenyDescriptor, QueryDescriptor, UnaryPermission};
use crate::Cmp;

verus! {

/// Why a system-information kind was refused.
#[derive(Debug, PartialEq, Eq)]
pub enum SysDescriptorParseError {
    InvalidKind(String),
    Empty,
}

/// A kind of system information.
#[derive(Debug, PartialEq, Eq, Hash)]
pub struct SysDescriptor(String);

impl View for SysDescriptor {
    type V = Seq<char>;

    closed spec fn view(&self) -> Seq<char> {
        self.0@
    }
}

/// The kind a name denotes: itself when it is known, `userInfo` for the
/// older `username`, nothing otherwise.
pub open spec fn sys_kind(k: Seq<char>) -> Option<Seq<char>> {
    if sys_known(k) {
        Some(k)
    } else if k == "username"@ {
        Some("userInfo"@)
    } else {
        None
    }
}

/// The kinds of system information that a flag may name.
pub open spec fn sys_known(k: Seq<char>) -> bool {
    k == "hostname"@ || k == "inspector"@ || k == "osRelease"@ || k == "osUptime"@ || k == "loadavg"@ || k
        == "networkInterfaces"@ || k == "systemMemoryInfo"@ || k == "uid"@ || k == "gid"@ || k == "cpus"@ || k
        == "homedir"@ || k == "getegid"@ || k == "statfs"@ || k == "getPriority"@ || k == "setPriority"@ || k
        == "userInfo"@ || k == "setegid"@ || k == "seteuid"@ || k == "setgid"@ || k == "setuid"@ || k == "ca"@
}

fn known_sys_kind(k: &str) -> (r: bool)
    ensures
        r == sys_known(k@),
{
    str_eq(k, "hostname") || str_eq(k, "inspector") || str_eq(k, "osRelease") || str_eq(k, "osUptime") || str_eq(
        k,
        "loadavg",
    ) || str_eq(k, "networkInterfaces") || str_eq(k, "systemMemoryInfo") || str_eq(k, "uid") || str_eq(k, "gid")
        || str_eq(k, "cpus") || str_eq(k, "homedir") || str_eq(k, "getegid") || str_eq(k, "statfs") || str_eq(
        k,
        "getPriority",
    ) || str_eq(k, "setPriority") || str_eq(k, "userInfo") || str_eq(k, "setegid") || str_eq(k, "seteuid")
        || str_eq(k, "setgid") || str_eq(k, "setuid") || str_eq(k, "ca")
}

impl SysDescriptor {
    /// Parses a kind of system information.
    pub fn parse(kind: String) -> (r: Result<SysDescriptor, SysDescriptorParseError>)
        ensures
            match sys_kind(kind@) {
                Some(k) => r matches Ok(d) && d@ == k,
                None => r matches Err(SysDescriptorParseError::InvalidKind(s)) && s@ == kind@,
            },
            known_sys_kinds().contains(kind@) ==> (r matches Ok(d) && d@ == kind@),
    {
        proof {
            reveal_strlit("username");
            reveal_strlit("userInfo");
            if known_sys_kinds().contains(kind@) {
                let i = choose|i: int| 0 <= i < known_sys_kinds().len() && known_sys_kinds()[i] == kind@;
                lemma_known_sys_kinds_parse(i);
            }
        }
        if known_sys_kind(kind.as_str()) {
            Ok(SysDescriptor(kind))
        } else if str_eq(kind.as_str(), "username") {
            Ok(SysDescriptor(to_owned("userInfo")))
        } else {
            Err(SysDescriptorParseError::InvalidKind(kind))
        }
    }

    pub fn into_string(self) -> (r: String)
        ensures
            r@ == self@,
    {
        self.0
    }

    pub fn as_str(&self) -> (r: &str)
        ensures
            r@ == self@,
    {
        self.0.as_str()
    }

    fn duplicate(&self) -> (r: SysDescriptor)
        ensures
            r@ == self@,
            r == *self,
    {
        SysDescriptor(self.0.clone())
    }
}

impl AllowDescriptor for SysDescriptor {
    type DenyView = Seq<char>;

    type DenyDesc = SysDescriptor;

    open spec fn cmp_allow_spec(a: Seq<char>, b: Seq<char>) -> Cmp {
        lex_order(a, b)
    }

    open spec fn cmp_deny_spec(a: Seq<char>, b: Seq<char>) -> Cmp {
        Cmp::Greater
    }

    fn cmp_allow(&self, other: &Self) -> (r: Cmp) {
        str_compare(self.0.as_str(), other.0.as_str())
    }

    fn cmp_deny(&self, other: &Self) -> (r: Cmp) {
        Cmp::Greater
    }

    fn copy_allow(&self) -> (r: Self) {
        self.duplicate()
    }
}

impl DenyDescriptor for SysDescriptor {
    open spec fn deny_order_spec(a: Seq<char>, b: Seq<char>) -> Cmp {
        lex_order(a, b)
    }

    fn cmp_deny(&self, other: &Self) -> (r: Cmp) {
        str_compare(self.0.as_str(), other.0.as_str())
    }

    fn copy_deny(&self) -> (r: Self) {
        self.duplicate()
    }
}

impl QueryDescriptor<SysDescriptor> for SysDescriptor {
    open spec fn flag_name_spec() -> Seq<char> {
        "sys"@
    }

    open spec fn display_name_spec(q: Seq<char>) -> Seq<char> {
        q
    }

    open spec fn as_allow_spec(q: Seq<char>) -> Option<Seq<char>> {
        Some(q)
    }

    open spec fn as_deny_spec(q: Seq<char>) -> Seq<char> {
        q
    }

    open spec fn matches_allow_spec(q: Seq<char>, a: Seq<char>) -> bool {
        q == a
    }

    open spec fn matches_deny_spec(q: Seq<char>, d: Seq<char>) -> bool {
        q == d
    }

    open spec fn revokes_spec(q: Seq<char>, a: Seq<char>) -> bool {
        q == a
    }

    open spec fn stronger_than_deny_spec(q: Seq<char>, d: Seq<char>) -> bool {
        q == d
    }

    open spec fn overlaps_deny_spec(q: Seq<char>, d: Seq<char>) -> bool {
        false
    }

    fn flag_name() -> (r: &'static str) {
        "sys"
    }

    fn display_name(&self) -> (r: String) {
        self.0.clone()
    }

    fn as_allow(&self) -> (r: Option<SysDescriptor>) {
        Some(self.duplicate())
    }

    fn as_deny(&self) -> (r: SysDescriptor) {
        self.duplicate()
    }

    fn matches_allow(&self, other: &SysDescriptor) -> (r: bool) {
        str_eq(self.0.as_str(), other.0.as_str())
    }

    fn matches_deny(&self, other: &SysDescriptor) -> (r: bool) {
        str_eq(self.0.as_str(), other.0.as_str())
    }

    fn revokes(&self, other: &SysDescriptor) -> (r: bool) {
        str_eq(self.0.as_str(), other.0.as_str())
    }

    fn stronger_than_deny(&self, other: &SysDescriptor) -> (r: bool) {
        str_eq(self.0.as_str(), other.0.as_str())
    }

    fn overlaps_deny(&self, other: &SysDescriptor) -> (r: bool) {
        false
    }

    open spec fn from_allow_spec(a: Seq<char>) -> Seq<char> {
        a
    }

    open spec fn non_partial_spec() -> bool {
        false
    }

    fn from_allow(allow: &SysDescriptor) -> (r: SysDescriptor) {
        allow.duplicate()
    }

    fn non_partial() -> (r: bool) {
        false
    }
}

/// An empty environment descriptor.
#[derive(Debug, PartialEq, Eq)]
pub struct EnvDescriptorParseError;

/// The abstract value of an environment descriptor.
pub enum EnvView {
    Name(Seq<char>),
    PrefixPattern(Seq<char>),
}

/// A granted or denied environment variable: a name, or every name with a
/// prefix (written with a trailing `*`).
#[derive(Debug, PartialEq, Eq, Hash)]
pub enum EnvDescriptor {
    Name(EnvVarName),
    PrefixPattern(EnvVarName),
}

impl View for EnvDescriptor {
    type V = EnvView;

    open spec fn view(&self) -> EnvView {
        match self {
            EnvDescriptor::Name(n) => EnvView::Name(n@),
            EnvDescriptor::PrefixPattern(p) => EnvView::PrefixPattern(p@),
        }
    }
}

/// The descriptor an environment flag value denotes.
pub open spec fn env_descriptor_spec(env: Seq<char>) -> EnvView {
    match strip_suffix_char(env, '*') {
        Some(prefix) => EnvView::PrefixPattern(prefix),
        None => EnvView::Name(env),
    }
}

impl EnvDescriptor {
    pub fn new(env: &str) -> (r: EnvDescriptor)
        ensures
            r@ == env_descriptor_spec(env@),
    {
        proof {
            reveal_strlit("*");
        }
        let star = ends_with(env, "*");
        assert("*"@ =~= seq!['*']);
        proof {
            if env@.len() > 0 && env@.last() == '*' {
                assert(env@.subrange(env@.len() - 1, env@.len() as int) =~= "*"@);
            }
        }
        if star {
            let n = env.unicode_len();
            assert(env@.subrange(n - 1, n as int) == "*"@);
            assert(env@[n - 1] == env@.subrange(n - 1, n as int)[0]);
            let prefix = substring(env, 0, n - 1);
            assert(prefix@ =~= env@.drop_last());
            EnvDescriptor::PrefixPattern(EnvVarName::new(prefix.as_str()))
        } else {
            EnvDescriptor::Name(EnvVarName::new(env))
        }
    }

    fn duplicate(&self) -> (r: EnvDescriptor)
        ensures
            r@ == self@,
            r == *self,
    {
        match self {
            EnvDescriptor::Name(n) => EnvDescriptor::Name(n.duplicate()),
            EnvDescriptor::PrefixPattern(p) => EnvDescriptor::PrefixPattern(p.duplicate()),
        }
    }

    fn name(&self) -> (r: &str)
        ensures
            r@ == match self@ {
                EnvView::Name(n) => n,
                EnvView::PrefixPattern(p) => p,
            },
    {
        match self {
            EnvDescriptor::Name(n) => n.as_str(),
            EnvDescriptor::PrefixPattern(p) => p.as_str(),
        }
    }
}

/// The order of environment descriptors: names before patterns, names
/// alphabetically, more specific patterns first.
pub open spec fn env_order(a: EnvView, b: EnvView) -> Cmp {
    match a {
        EnvView::Name(x) => match b {
            EnvView::Name(y) => lex_order(x, y),
            EnvView::PrefixPattern(_) => Cmp::Less,
        },
        EnvView::PrefixPattern(x) => match b {
            EnvView::Name(_) => Cmp::Greater,
            EnvView::PrefixPattern(y) => lex_order(y, x),
        },
    }
}

fn env_compare(a: &EnvDescriptor, b: &EnvDescriptor) -> (r: Cmp)
    ensures
        r == env_order(a@, b@),
{
    match a {
        EnvDescriptor::Name(x) => match b {
            EnvDescriptor::Name(y) => str_compare(x.as_str(), y.as_str()),
            EnvDescriptor::PrefixPattern(_) => Cmp::Less,
        },
        EnvDescriptor::PrefixPattern(x) => match b {
            EnvDescriptor::Name(_) => Cmp::Greater,
            EnvDescriptor::PrefixPattern(y) => str_compare(y.as_str(), x.as_str()),
        },
    }
}

/// Does a denial (or revocation, or refusal) of `d` cover the query `q`?
pub open spec fn env_denies(q: EnvView, d: EnvView) -> bool {
    match d {
        EnvView::Name(n) => match q {
            EnvView::Name(e) => n == e,
            EnvView::PrefixPattern(e) => n.is_prefix_of(e),
        },
        EnvView::PrefixPattern(p) => match q {
            EnvView::Name(e) => p.is_prefix_of(e),
            EnvView::PrefixPattern(e) => p == e,
        },
    }
}

/// Does a grant of `a` cover the query `q`?
pub open spec fn env_allows(q: EnvView, a: EnvView) -> bool {
    match a {
        EnvView::Name(n) => match q {
            EnvView::Name(e) => n == e,
            EnvView::PrefixPattern(e) => n.is_prefix_of(e),
        },
        EnvView::PrefixPattern(p) => match q {
            EnvView::Name(e) => p.is_prefix_of(e),
            EnvView::PrefixPattern(e) => p.is_prefix_of(e),
        },
    }
}

fn env_denies_exec(q: &EnvQueryDescriptor, d: &EnvDescriptor) -> (r: bool)
    ensures
        r == env_denies(q@, d@),
{
    match d {
        EnvDescriptor::Name(n) => match &q.0 {
            EnvQueryDescriptorInner::Name(e) => str_eq(n.as_str(), e.as_str()),
            EnvQueryDescriptorInner::PrefixPattern(e) => starts_with(e.as_str(), n.as_str()),
        },
        EnvDescriptor::PrefixPattern(p) => match &q.0 {
            EnvQueryDescriptorInner::Name(e) => starts_with(e.as_str(), p.as_str()),
            EnvQueryDescriptorInner::PrefixPattern(e) => str_eq(p.as_str(), e.as_str()),
        },
    }
}

impl AllowDescriptor for EnvDescriptor {
    type DenyView = EnvView;

    type DenyDesc = EnvDescriptor;

    open spec fn cmp_allow_spec(a: EnvView, b: EnvView) -> Cmp {
        env_order(a, b)
    }

    open spec fn cmp_deny_spec(a: EnvView, b: EnvView) -> Cmp {
        match env_order(a, b) {
            Cmp::Equal => Cmp::Greater,
            c => c,
        }
    }

    fn cmp_allow(&self, other: &Self) -> (r: Cmp) {
        env_compare(self, other)
    }

    fn cmp_deny(&self, other: &Self) -> (r: Cmp) {
        match env_compare(self, other) {
            Cmp::Equal => Cmp::Greater,
            c => c,
        }
    }

    fn copy_allow(&self) -> (r: Self) {
        self.duplicate()
    }
}

impl DenyDescriptor for EnvDescriptor {
    open spec fn deny_order_spec(a: EnvView, b: EnvView) -> Cmp {
        env_order(a, b)
    }

    fn cmp_deny(&self, other: &Self) -> (r: Cmp) {
        env_compare(self, other)
    }

    fn copy_deny(&self) -> (r: Self) {
        self.duplicate()
    }
}

#[derive(Debug)]
enum EnvQueryDescriptorInner {
    Name(EnvVarNameRef),
    PrefixPattern(EnvVarNameRef),
}

/// An environment variable asked about.
#[derive(Debug)]
pub struct EnvQueryDescriptor(EnvQueryDescriptorInner);

impl View for EnvQueryDescriptor {
    type V = EnvView;

    closed spec fn view(&self) -> EnvView {
        match self.0 {
            EnvQueryDescriptorInner::Name(n) => EnvView::Name(n@),
            EnvQueryDescriptorInner::PrefixPattern(p) => EnvView::PrefixPattern(p@),
        }
    }
}

impl EnvQueryDescriptor {
    /// A query of one variable name.
    pub fn new(env: &str) -> (r: EnvQueryDescriptor)
        ensures
            r@ == EnvView::Name(env@),
    {
        EnvQueryDescriptor(EnvQueryDescriptorInner::Name(EnvVarNameRef::new(env)))
    }

    /// The query a grant of `allow` answers.
    pub fn from_allow(allow: &EnvDescriptor) -> (r: EnvQueryDescriptor)
        ensures
            r@ == allow@,
    {
        match allow {
            EnvDescriptor::Name(n) => EnvQueryDescriptor(EnvQueryDescriptorInner::Name(n.as_env_var_name_ref())),
            EnvDescriptor::PrefixPattern(p) => EnvQueryDescriptor(
                EnvQueryDescriptorInner::PrefixPattern(p.as_env_var_name_ref()),
            ),
        }
    }

    fn text(&self) -> (r: &str)
        ensures
            r@ == match self@ {
                EnvView::Name(n) => n,
                EnvView::PrefixPattern(p) => p,
            },
    {
        match &self.0 {
            EnvQueryDescriptorInner::Name(n) => n.as_str(),
            EnvQueryDescriptorInner::PrefixPattern(p) => p.as_str(),
        }
    }

    fn to_descriptor(&self) -> (r: EnvDescriptor)
        ensures
            r@ == self@,
    {
        match &self.0 {
            EnvQueryDescriptorInner::Name(n) => EnvDescriptor::Name(EnvVarName::new(n.as_str())),
            EnvQueryDescriptorInner::PrefixPattern(p) => EnvDescriptor::PrefixPattern(EnvVarName::new(p.as_str())),
        }
    }
}

impl QueryDescriptor<EnvDescriptor> for EnvQueryDescriptor {
    open spec fn flag_name_spec() -> Seq<char> {
        "env"@
    }

    open spec fn display_name_spec(q: EnvView) -> Seq<char> {
        match q {
            EnvView::Name(n) => n,
            EnvView::PrefixPattern(p) => p,
        }
    }

    open spec fn as_allow_spec(q: EnvView) -> Option<EnvView> {
        Some(q)
    }

    open spec fn as_deny_spec(q: EnvView) -> EnvView {
        q
    }

    open spec fn matches_allow_spec(q: EnvView, a: EnvView) -> bool {
        env_allows(q, a)
    }

    open spec fn matches_deny_spec(q: EnvView, d: EnvView) -> bool {
        env_denies(q, d)
    }

    open spec fn revokes_spec(q: EnvView, a: EnvView) -> bool {
        env_denies(q, a)
    }

    open spec fn stronger_than_deny_spec(q: EnvView, d: EnvView) -> bool {
        env_denies(q, d)
    }

    open spec fn overlaps_deny_spec(q: EnvView, d: EnvView) -> bool {
        false
    }

    fn flag_name() -> (r: &'static str) {
        "env"
    }

    fn display_name(&self) -> (r: String) {
        to_owned(self.text())
    }

    fn as_allow(&self) -> (r: Option<EnvDescriptor>) {
        Some(self.to_descriptor())
    }

    fn as_deny(&self) -> (r: EnvDescriptor) {
        self.to_descriptor()
    }

    fn matches_allow(&self, other: &EnvDescriptor) -> (r: bool) {
        match other {
            EnvDescriptor::Name(n) => match &self.0 {
                EnvQueryDescriptorInner::Name(e) => str_eq(n.as_str(), e.as_str()),
                EnvQueryDescriptorInner::PrefixPattern(e) => starts_with(e.as_str(), n.as_str()),
            },
            EnvDescriptor::PrefixPattern(p) => starts_with(self.text(), p.as_str()),
        }
    }

    fn matches_deny(&self, other: &EnvDescriptor) -> (r: bool) {
        env_denies_exec(self, other)
    }

    fn revokes(&self, other: &EnvDescriptor) -> (r: bool) {
        env_denies_exec(self, other)
    }

    fn stronger_than_deny(&self, other: &EnvDescriptor) -> (r: bool) {
        env_denies_exec(self, other)
    }

    fn overlaps_deny(&self, other: &EnvDescriptor) -> (r: bool) {
        false
    }

    open spec fn from_allow_spec(a: EnvView) -> EnvView {
        a
    }

    open spec fn non_partial_spec() -> bool {
        false
    }

    fn from_allow(allow: &EnvDescriptor) -> (r: EnvQueryDescriptor) {
        EnvQueryDescriptor::from_allow(allow)
    }

    fn non_partial() -> (r: bool) {
        false
    }
}

/// The query of an optional variable name.
pub open spec fn env_query(env: Option<&str>) -> Option<EnvView> {
    match env {
        Some(e) => Some(EnvView::Name(e@)),
        None => None,
    }
}

fn env_query_of(env: Option<&str>) -> (r: Option<EnvQueryDescriptor>)
    ensures
        opt_owned_view(r) == env_query(env),
{
    match env {
        Some(e) => Some(EnvQueryDescriptor::new(e)),
        None => None,
    }
}

pub open spec fn opt_owned_view<Q: View>(o: Option<Q>) -> Option<Q::V> {
    match o {
        Some(q) => Some(q@),
        None => None,
    }
}

impl UnaryPermission<EnvDescriptor> {
    pub fn query(&self, env: Option<&str>) -> (r: PermissionState)
        ensures
            r == self.query_spec::<EnvQueryDescriptor>(env_query(env), AllowPartial::TreatAsPartialGranted),
    {
        let q = env_query_of(env);
        self.query_desc(q.as_ref(), AllowPartial::TreatAsPartialGranted)
    }

    pub fn request<P: PermissionPrompter>(&mut self, env: Option<&str>, prompter: &mut P) -> (r: PermissionState)
        ensures
            old(self).requested_spec::<EnvQueryDescriptor>(final(self), env_query(env), r),
    {
        let q = env_query_of(env);
        self.request_desc(q.as_ref(), prompter)
    }

    pub fn revoke(&mut self, env: Option<&str>) -> (r: PermissionState)
        ensures
            old(self).revoked_spec::<EnvQueryDescriptor>(final(self), env_query(env), r),
    {
        let q = env_query_of(env);
        self.revoke_desc(q.as_ref())
    }

    pub fn check<P: PermissionPrompter>(
        &mut self,
        env: &str,
        api_name: Option<&str>,
        broker: Option<BrokerResponse>,
        prompter: &mut P,
    ) -> (r: Result<(), PermissionDeniedError>)
        ensures
            old(self).checked_spec::<EnvQueryDescriptor>(final(self), Some(EnvView::Name(env@)), false, broker, result_view(r)),
    {
        let q = EnvQueryDescriptor::new(env);
        self.check_skipping_allow_all(Some(&q), false, api_name, broker, prompter)
    }

    pub fn check_all<P: PermissionPrompter>(&mut self, broker: Option<BrokerResponse>, prompter: &mut P) -> (r: Result<
        (),
        PermissionDeniedError,
    >)
        ensures
            old(self).checked_spec::<EnvQueryDescriptor>(final(self), None, true, broker, result_view(r)),
    {
        self.check_skipping_allow_all::<EnvQueryDescriptor, P>(None, true, None, broker, prompter)
    }
}

impl UnaryPermission<SysDescriptor> {
    pub fn query(&self, kind: Option<&SysDescriptor>) -> (r: PermissionState)
        ensures
            r == self.query_spec::<SysDescriptor>(opt_view(kind), AllowPartial::TreatAsPartialGranted),
    {
        self.query_desc(kind, AllowPartial::TreatAsPartialGranted)
    }

    pub fn request<P: PermissionPrompter>(&mut self, kind: Option<&SysDescriptor>, prompter: &mut P) -> (r:
        PermissionState)
        ensures
            old(self).requested_spec::<SysDescriptor>(final(self), opt_view(kind), r),
    {
        self.request_desc(kind, prompter)
    }

    pub fn revoke(&mut self, kind: Option<&SysDescriptor>) -> (r: PermissionState)
        ensures
            old(self).revoked_spec::<SysDescriptor>(final(self), opt_view(kind), r),
    {
        self.revoke_desc(kind)
    }

    pub fn check<P: PermissionPrompter>(
        &mut self,
        kind: &SysDescriptor,
        api_name: Option<&str>,
        broker: Option<BrokerResponse>,
        prompter: &mut P,
    ) -> (r: Result<(), PermissionDeniedError>)
        ensures
            old(self).checked_spec::<SysDescriptor>(final(self), Some(kind@), false, broker, result_view(r)),
    {
        self.check_skipping_allow_all(Some(kind), false, api_name, broker, prompter)
    }

    pub fn check_all<P: PermissionPrompter>(&mut self, broker: Option<BrokerResponse>, prompter: &mut P) -> (r: Result<
        (),
        PermissionDeniedError,
    >)
        ensures
            old(self).checked_spec::<SysDescriptor>(final(self), None, false, broker, result_view(r)),
    {
        self.check_skipping_allow_all::<SysDescriptor, P>(None, false, None, broker, prompter)
    }
}

/// The kinds of system information a flag may name.
pub open spec fn known_sys_kinds() -> Seq<Seq<char>> {
    seq![
        "hostname"@,
        "inspector"@,
        "osRelease"@,
        "osUptime"@,
        "loadavg"@,
        "networkInterfaces"@,
        "systemMemoryInfo"@,
        "uid"@,
        "gid"@,
        "cpus"@,
        "homedir"@,
        "getegid"@,
        "statfs"@,
        "getPriority"@,
        "setPriority"@,
        "userInfo"@,
        "setegid"@,
        "seteuid"@,
        "setgid"@,
        "setuid"@,
        "ca"@,
    ]
}

/// Every kind of system information a flag may name parses to itself.
pub proof fn lemma_known_sys_kinds_parse(i: int)
    requires
        0 <= i < known_sys_kinds().len(),
    ensures
        sys_kind(known_sys_kinds()[i]) == Some(known_sys_kinds()[i]),
{
}

/// Only the known kinds parse, each to itself, and the older `username`,
/// to `userInfo`.
pub proof fn lemma_only_known_sys_kinds_parse(k: Seq<char>)
    ensures
        sys_kind(k) matches Some(r) ==> known_sys_kinds().contains(r) && (r == k || (k == "username"@ && r
            == "userInfo"@)),
{
    if sys_known(k) {
        if k == "hostname"@ {
            assert(known_sys_kinds()[0] == k);
        }
        if k == "inspector"@ {
            assert(known_sys_kinds()[1] == k);
        }
        if k == "osRelease"@ {
            assert(known_sys_kinds()[2] == k);
        }
        if k == "osUptime"@ {
            assert(known_sys_kinds()[3] == k);
        }
        if k == "loadavg"@ {
            assert(known_sys_kinds()[4] == k);
        }
        if k == "networkInterfaces"@ {
            assert(known_sys_kinds()[5] == k);
        }
        if k == "systemMemoryInfo"@ {
            assert(known_sys_kinds()[6] == k);
        }
        if k == "uid"@ {
            assert(known_sys_kinds()[7] == k);
        }
        if k == "gid"@ {
            assert(known_sys_kinds()[8] == k);
        }
        if k == "cpus"@ {
            assert(known_sys_kinds()[9] == k);
        }
        if k == "homedir"@ {
            assert(known_sys_kinds()[10] == k);
        }
        if k == "getegid"@ {
            assert(known_sys_kinds()[11] == k);
        }
        if k == "statfs"@ {
            assert(known_sys_kinds()[12] == k);
        }
        if k == "getPriority"@ {
            assert(known_sys_kinds()[13] == k);
        }
        if k == "setPriority"@ {
            assert(known_sys_kinds()[14] == k);
        }
        if k == "userInfo"@ {
            assert(known_sys_kinds()[15] == k);
        }
        if k == "setegid"@ {
            assert(known_sys_kinds()[16] == k);
        }
        if k == "seteuid"@ {
            assert(known_sys_kinds()[17] == k);
        }
        if k == "setgid"@ {
            assert(known_sys_kinds()[18] == k);
        }
        if k == "setuid"@ {
            assert(known_sys_kinds()[19] == k);
        }
        if k == "ca"@ {
            assert(known_sys_kinds()[20] == k);
        }
    } else if k == "username"@ {
        assert(known_sys_kinds()[15] == "userInfo"@);
    }
}

} // verus!
