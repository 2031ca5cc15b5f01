//! The descriptors of the file-system flags (`read`, `write`, `ffi`) and of
//! subprocesses (`run`), over resolved paths.
use vstd::prelude::*;
use vstd::string::*;

use crate::perms::{
    check_outcome, check_state, opt_str, result_view, BrokerResponse, PermissionDeniedError, PermissionPrompter,
    PermissionState, PromptResponse,
};
use crate::text::{contains_char, has_char, str_compare, str_eq, lex_order, to_owned};
use crate::unary::{opt_view, AllowDescriptor, AllowPartial, DenyDescriptor, QueryDescriptor, UnaryPermission};
use crate::Cmp;

verus! {

/// What `std::path::Path::starts_with` answers for `path` and `base`:
/// whether the components of `base` begin the components of `path`.
pub uninterp spec fn path_has_prefix(path: Seq<char>, base: Seq<char>) -> bool;

/// How `std::path::Path`'s total order, component by component, ranks
/// `a` against `b`.
pub uninterp spec fn path_order(a: Seq<char>, b: Seq<char>) -> Cmp;

/// The path `deno_path_util::normalize_path` makes of `path`: `.` and
/// `..` components folded lexically, trailing separators dropped.
pub uninterp spec fn normalized(path: Seq<char>) -> Seq<char>;

/// What `std::path::Path::is_absolute` answers for `path`.
pub uninterp spec fn absolute(path: Seq<char>) -> bool;

/// The path `std::path::Path::join` makes of `base` and `path`.
pub uninterp spec fn joined(base: Seq<char>, path: Seq<char>) -> Seq<char>;

/// The stem of the last component that `std::path::Path::file_stem`
/// answers for `path`, when it has one that is valid text.
pub uninterp spec fn file_stem_of(path: Seq<char>) -> Option<Seq<char>>;

/// Calls `std::path::Path::starts_with`; its answer is named by
/// `path_has_prefix`.
#[verifier::external_body]
fn path_starts_with(path: &str, base: &str) -> (r: bool)
    ensures
        r == path_has_prefix(path@, base@),
{
    std::path::Path::new(path).starts_with(std::path::Path::new(base))
}

/// Calls `Ord::cmp` on two `std::path::Path`s; its answer is named by
/// `path_order`.
#[verifier::external_body]
pub(crate) fn path_compare(a: &str, b: &str) -> (r: Cmp)
    ensures
        r == path_order(a@, b@),
{
    match std::path::Path::new(a).cmp(std::path::Path::new(b)) {
        std::cmp::Ordering::Less => Cmp::Less,
        std::cmp::Ordering::Equal => Cmp::Equal,
        std::cmp::Ordering::Greater => Cmp::Greater,
    }
}

/// Calls `deno_path_util::normalize_path`; its result is named by
/// `normalized`.
#[verifier::external_body]
pub(crate) fn normalize_path(path: &str) -> (r: String)
    ensures
        r@ == normalized(path@),
{
    deno_path_util::normalize_path(std::borrow::Cow::Borrowed(std::path::Path::new(path))).to_string_lossy().into_owned()
}

/// Calls `std::path::Path::is_absolute`; its answer is named by `absolute`.
#[verifier::external_body]
pub(crate) fn is_absolute(path: &str) -> (r: bool)
    ensures
        r == absolute(path@),
{
    std::path::Path::new(path).is_absolute()
}

/// Calls `std::path::Path::join`; its result is named by `joined`.
#[verifier::external_body]
fn join(base: &str, path: &str) -> (r: String)
    ensures
        r@ == joined(base@, path@),
{
    std::path::Path::new(base).join(path).to_string_lossy().into_owned()
}

/// Calls `std::path::Path::file_stem`; its result is named by
/// `file_stem_of`.
#[verifier::external_body]
fn file_stem(path: &str) -> (r: Option<String>)
    ensures
        opt_str(r) == file_stem_of(path@),
{
    match std::path::Path::new(path).file_stem() {
        Some(stem) => match stem.to_str() {
            Some(s) => Some(s.to_string()),
            None => None,
        },
        None => None,
    }
}

/// The abstract value of a resolved path: the path, and the name it was
/// requested under when that differs.
pub struct ResolvedView {
    pub path: Seq<char>,
    pub requested: Option<Seq<char>>,
}

pub open spec fn shown(v: ResolvedView) -> Seq<char> {
    match v.requested {
        Some(r) => r,
        None => v.path,
    }
}

fn clone_opt(o: &Option<String>) -> (r: Option<String>)
    ensures
        opt_str(r) == opt_str(*o),
        r == *o,
{
    match o {
        Some(s) => Some(s.clone()),
        None => None,
    }
}

/// Why a path could not be resolved; the variants that come from the file
/// system carry its error message.
#[derive(Debug, PartialEq, Eq)]
pub enum PathResolveError {
    CwdResolve(String),
    Canonicalize(String),
    NotFound(String),
    EmptyPath,
}

impl PathResolveError {
    /// The error's message.
    pub fn message(&self) -> (r: String)
        ensures
            r@ == match self {
                PathResolveError::CwdResolve(e) => "failed resolving cwd: "@ + e@,
                PathResolveError::Canonicalize(e) => e@,
                PathResolveError::NotFound(e) => e@,
                PathResolveError::EmptyPath => "Empty path is not allowed"@,
            },
    {
        match self {
            PathResolveError::CwdResolve(e) => crate::text::concat("failed resolving cwd: ", e.as_str()),
            PathResolveError::Canonicalize(e) => e.clone(),
            PathResolveError::NotFound(e) => e.clone(),
            PathResolveError::EmptyPath => to_owned("Empty path is not allowed"),
        }
    }
}

/// A resolved path asked about.
#[derive(Debug)]
pub struct PathQueryDescriptor {
    path: String,
    requested: Option<String>,
}

/// A resolved path granted or denied.
#[derive(Debug)]
pub struct PathDescriptor {
    path: String,
    requested: Option<String>,
}

impl View for PathQueryDescriptor {
    type V = ResolvedView;

    closed spec fn view(&self) -> ResolvedView {
        ResolvedView { path: self.path@, requested: opt_str(self.requested) }
    }
}

impl View for PathDescriptor {
    type V = ResolvedView;

    closed spec fn view(&self) -> ResolvedView {
        ResolvedView { path: self.path@, requested: opt_str(self.requested) }
    }
}

impl PathQueryDescriptor {
    /// A query of an absolute path, normalized.
    pub fn new_known_absolute(path: &str) -> (r: PathQueryDescriptor)
        ensures
            r@ == (ResolvedView { path: normalized(path@), requested: None }),
    {
        PathQueryDescriptor { path: normalize_path(path), requested: None }
    }

    /// A query of `path`, resolved against the working directory `cwd` (or
    /// the reason it could not be read) when it is relative, and then shown
    /// as given. An empty path is refused.
    pub fn new(path: &str, cwd: Result<String, String>) -> (r: Result<PathQueryDescriptor, PathResolveError>)
        ensures
            path@.len() == 0 ==> r == Err::<PathQueryDescriptor, PathResolveError>(PathResolveError::EmptyPath),
            path@.len() > 0 && absolute(path@) ==> (r matches Ok(q) && q@ == resolved_in(path@, Seq::empty())),
            path@.len() > 0 && !absolute(path@) ==> match cwd {
                Ok(c) => (r matches Ok(q) && q@ == resolved_in(path@, c@)),
                Err(e) => r == Err::<PathQueryDescriptor, PathResolveError>(PathResolveError::CwdResolve(e)),
            },
    {
        if path.unicode_len() == 0 {
            return Err(PathResolveError::EmptyPath);
        }
        if is_absolute(path) {
            return Ok(PathQueryDescriptor { path: normalize_path(path), requested: None });
        }
        match cwd {
            Ok(c) => {
                let full = join(c.as_str(), path);
                Ok(PathQueryDescriptor { path: normalize_path(full.as_str()), requested: Some(to_owned(path)) })
            },
            Err(e) => Err(PathResolveError::CwdResolve(e)),
        }
    }

    /// The same query, shown under `requested`.
    pub fn with_requested(self, requested: String) -> (r: PathQueryDescriptor)
        ensures
            r@ == (ResolvedView { path: self@.path, requested: Some(requested@) }),
    {
        PathQueryDescriptor { path: self.path, requested: Some(requested) }
    }

    /// Is the queried path within `base`?
    pub fn starts_with(&self, base: &PathDescriptor) -> (r: bool)
        ensures
            r == path_has_prefix(self@.path, base@.path),
    {
        path_starts_with(self.path.as_str(), base.path.as_str())
    }

    pub fn display_name(&self) -> (r: String)
        ensures
            r@ == shown(self@),
    {
        match &self.requested {
            Some(r) => r.clone(),
            None => self.path.clone(),
        }
    }

    pub fn as_descriptor(&self) -> (r: PathDescriptor)
        ensures
            r@ == self@,
    {
        PathDescriptor { path: self.path.clone(), requested: clone_opt(&self.requested) }
    }

    pub fn into_descriptor(self) -> (r: PathDescriptor)
        ensures
            r@ == self@,
    {
        PathDescriptor { path: self.path, requested: self.requested }
    }

    pub fn into_ffi(self) -> (r: FfiQueryDescriptor)
        ensures
            r.0@ == self@,
    {
        FfiQueryDescriptor(self)
    }

    pub fn into_read(self) -> (r: ReadQueryDescriptor)
        ensures
            r.0@ == self@,
    {
        ReadQueryDescriptor(self)
    }

    pub fn into_write(self) -> (r: WriteQueryDescriptor)
        ensures
            r.0@ == self@,
    {
        WriteQueryDescriptor(self)
    }

    pub fn path(&self) -> (r: &str)
        ensures
            r@ == self@.path,
    {
        self.path.as_str()
    }
}

/// The order of granted paths: equal paths are equal, a path comes after
/// its ancestors, and other paths are ranked as `std::path::Path` ranks
/// them.
pub open spec fn path_allow_order(a: Seq<char>, b: Seq<char>) -> Cmp {
    if a == b {
        Cmp::Equal
    } else if path_has_prefix(b, a) {
        Cmp::Greater
    } else if path_has_prefix(a, b) {
        Cmp::Less
    } else {
        path_order(a, b)
    }
}

/// The order of a granted path against a denied one.
pub open spec fn path_allow_deny_order(a: Seq<char>, b: Seq<char>) -> Cmp {
    if path_has_prefix(b, a) {
        Cmp::Greater
    } else if path_has_prefix(a, b) {
        Cmp::Less
    } else {
        Cmp::Greater
    }
}

/// The resolved path of `path`, relative to `cwd` when it is not absolute.
pub open spec fn resolved_in(path: Seq<char>, cwd: Seq<char>) -> ResolvedView {
    if absolute(path) {
        ResolvedView { path: normalized(path), requested: None }
    } else {
        ResolvedView { path: normalized(joined(cwd, path)), requested: Some(path) }
    }
}

impl PathDescriptor {
    /// A grant of an absolute path, normalized.
    pub fn new_known_absolute(path: &str) -> (r: PathDescriptor)
        ensures
            r@ == (ResolvedView { path: normalized(path@), requested: None }),
    {
        PathQueryDescriptor::new_known_absolute(path).into_descriptor()
    }

    /// A grant of `path`, resolved against `cwd` when it is relative, and
    /// then shown as given.
    pub fn new_known_cwd(path: &str, cwd: &str) -> (r: PathDescriptor)
        ensures
            r@ == resolved_in(path@, cwd@),
    {
        if is_absolute(path) {
            PathDescriptor { path: normalize_path(path), requested: None }
        } else {
            let full = join(cwd, path);
            PathDescriptor { path: normalize_path(full.as_str()), requested: Some(to_owned(path)) }
        }
    }

    /// Is this path within the queried `base`?
    pub fn starts_with(&self, base: &PathQueryDescriptor) -> (r: bool)
        ensures
            r == path_has_prefix(self@.path, base@.path),
    {
        path_starts_with(self.path.as_str(), base.path.as_str())
    }

    pub fn display_name(&self) -> (r: String)
        ensures
            r@ == shown(self@),
    {
        match &self.requested {
            Some(r) => r.clone(),
            None => self.path.clone(),
        }
    }

    pub fn as_query_descriptor(&self) -> (r: PathQueryDescriptor)
        ensures
            r@ == self@,
    {
        PathQueryDescriptor { path: self.path.clone(), requested: clone_opt(&self.requested) }
    }

    /// A copy with the same abstract value.
    pub fn duplicate(&self) -> (r: PathDescriptor)
        ensures
            r@ == self@,
            r == *self,
    {
        PathDescriptor { path: self.path.clone(), requested: clone_opt(&self.requested) }
    }

    pub fn into_ffi(self) -> (r: FfiDescriptor)
        ensures
            r.0@ == self@,
    {
        FfiDescriptor(self)
    }

    pub fn into_read(self) -> (r: ReadDescriptor)
        ensures
            r.0@ == self@,
    {
        ReadDescriptor(self)
    }

    pub fn into_write(self) -> (r: WriteDescriptor)
        ensures
            r.0@ == self@,
    {
        WriteDescriptor(self)
    }

    pub fn into_path_buf(self) -> (r: String)
        ensures
            r@ == self@.path,
    {
        self.path
    }

    pub fn path(&self) -> (r: &str)
        ensures
            r@ == self@.path,
    {
        self.path.as_str()
    }

    fn cmp_allow_allow(&self, other: &PathDescriptor) -> (r: Cmp)
        ensures
            r == path_allow_order(self@.path, other@.path),
    {
        if str_eq(self.path.as_str(), other.path.as_str()) {
            Cmp::Equal
        } else if path_starts_with(other.path.as_str(), self.path.as_str()) {
            Cmp::Greater
        } else if path_starts_with(self.path.as_str(), other.path.as_str()) {
            Cmp::Less
        } else {
            path_compare(self.path.as_str(), other.path.as_str())
        }
    }

    fn cmp_allow_deny(&self, other: &PathDescriptor) -> (r: Cmp)
        ensures
            r == path_allow_deny_order(self@.path, other@.path),
    {
        if path_starts_with(other.path.as_str(), self.path.as_str()) {
            Cmp::Greater
        } else if path_starts_with(self.path.as_str(), other.path.as_str()) {
            Cmp::Less
        } else {
            Cmp::Greater
        }
    }

    fn cmp_deny_deny(&self, other: &PathDescriptor) -> (r: Cmp)
        ensures
            r == path_allow_order(self@.path, other@.path),
    {
        self.cmp_allow_allow(other)
    }
}

/// A path asked about for reading.
#[derive(Debug)]
pub struct ReadQueryDescriptor(pub PathQueryDescriptor);

/// A path granted or denied for reading.
#[derive(Debug)]
pub struct ReadDescriptor(pub PathDescriptor);

/// A path asked about for writing.
#[derive(Debug)]
pub struct WriteQueryDescriptor(pub PathQueryDescriptor);

/// A path granted or denied for writing.
#[derive(Debug)]
pub struct WriteDescriptor(pub PathDescriptor);

/// A library asked about for loading through the foreign function
/// interface.
#[derive(Debug)]
pub struct FfiQueryDescriptor(pub PathQueryDescriptor);

/// A library granted or denied for the foreign function interface.
#[derive(Debug)]
pub struct FfiDescriptor(pub PathDescriptor);

impl View for ReadQueryDescriptor {
    type V = ResolvedView;

    open spec fn view(&self) -> ResolvedView {
        self.0@
    }
}

impl View for ReadDescriptor {
    type V = ResolvedView;

    open spec fn view(&self) -> ResolvedView {
        self.0@
    }
}

impl View for WriteQueryDescriptor {
    type V = ResolvedView;

    open spec fn view(&self) -> ResolvedView {
        self.0@
    }
}

impl View for WriteDescriptor {
    type V = ResolvedView;

    open spec fn view(&self) -> ResolvedView {
        self.0@
    }
}

impl View for FfiQueryDescriptor {
    type V = ResolvedView;

    open spec fn view(&self) -> ResolvedView {
        self.0@
    }
}

impl View for FfiDescriptor {
    type V = ResolvedView;

    open spec fn view(&self) -> ResolvedView {
        self.0@
    }
}

impl AllowDescriptor for ReadDescriptor {
    type DenyView = ResolvedView;

    type DenyDesc = ReadDescriptor;

    open spec fn cmp_allow_spec(a: ResolvedView, b: ResolvedView) -> Cmp {
        path_allow_order(a.path, b.path)
    }

    open spec fn cmp_deny_spec(a: ResolvedView, b: ResolvedView) -> Cmp {
        path_allow_deny_order(a.path, b.path)
    }

    fn cmp_allow(&self, other: &Self) -> (r: Cmp) {
        self.0.cmp_allow_allow(&other.0)
    }

    fn cmp_deny(&self, other: &Self) -> (r: Cmp) {
        self.0.cmp_allow_deny(&other.0)
    }

    fn copy_allow(&self) -> (r: Self) {
        ReadDescriptor(self.0.duplicate())
    }
}

impl DenyDescriptor for ReadDescriptor {
    open spec fn deny_order_spec(a: ResolvedView, b: ResolvedView) -> Cmp {
        path_allow_order(a.path, b.path)
    }

    fn cmp_deny(&self, other: &Self) -> (r: Cmp) {
        self.0.cmp_deny_deny(&other.0)
    }

    fn copy_deny(&self) -> (r: Self) {
        ReadDescriptor(self.0.duplicate())
    }
}

impl QueryDescriptor<ReadDescriptor> for ReadQueryDescriptor {
    open spec fn flag_name_spec() -> Seq<char> {
        "read"@
    }

    open spec fn display_name_spec(q: ResolvedView) -> Seq<char> {
        shown(q)
    }

    open spec fn as_allow_spec(q: ResolvedView) -> Option<ResolvedView> {
        Some(q)
    }

    open spec fn as_deny_spec(q: ResolvedView) -> ResolvedView {
        q
    }

    open spec fn matches_allow_spec(q: ResolvedView, a: ResolvedView) -> bool {
        path_has_prefix(q.path, a.path)
    }

    open spec fn matches_deny_spec(q: ResolvedView, d: ResolvedView) -> bool {
        path_has_prefix(q.path, d.path)
    }

    open spec fn revokes_spec(q: ResolvedView, a: ResolvedView) -> bool {
        path_has_prefix(q.path, a.path)
    }

    open spec fn stronger_than_deny_spec(q: ResolvedView, d: ResolvedView) -> bool {
        path_has_prefix(d.path, q.path)
    }

    open spec fn overlaps_deny_spec(q: ResolvedView, d: ResolvedView) -> bool {
        path_has_prefix(d.path, q.path)
    }

    fn flag_name() -> (r: &'static str) {
        "read"
    }

    fn display_name(&self) -> (r: String) {
        self.0.display_name()
    }

    fn as_allow(&self) -> (r: Option<ReadDescriptor>) {
        Some(ReadDescriptor(self.0.as_descriptor()))
    }

    fn as_deny(&self) -> (r: ReadDescriptor) {
        ReadDescriptor(self.0.as_descriptor())
    }

    fn matches_allow(&self, other: &ReadDescriptor) -> (r: bool) {
        self.0.starts_with(&other.0)
    }

    fn matches_deny(&self, other: &ReadDescriptor) -> (r: bool) {
        self.0.starts_with(&other.0)
    }

    fn revokes(&self, other: &ReadDescriptor) -> (r: bool) {
        self.0.starts_with(&other.0)
    }

    fn stronger_than_deny(&self, other: &ReadDescriptor) -> (r: bool) {
        other.0.starts_with(&self.0)
    }

    fn overlaps_deny(&self, other: &ReadDescriptor) -> (r: bool) {
        other.0.starts_with(&self.0)
    }

    open spec fn from_allow_spec(a: ResolvedView) -> ResolvedView {
        a
    }

    open spec fn non_partial_spec() -> bool {
        true
    }

    fn from_allow(allow: &ReadDescriptor) -> (r: ReadQueryDescriptor) {
        ReadQueryDescriptor(allow.0.as_query_descriptor())
    }

    fn non_partial() -> (r: bool) {
        true
    }
}

impl ReadQueryDescriptor {
    /// The query a grant of `allow` answers.
    pub fn from_allow(allow: &ReadDescriptor) -> (r: ReadQueryDescriptor)
        ensures
            r@ == allow@,
    {
        ReadQueryDescriptor(allow.0.as_query_descriptor())
    }
}

impl AllowDescriptor for WriteDescriptor {
    type DenyView = ResolvedView;

    type DenyDesc = WriteDescriptor;

    open spec fn cmp_allow_spec(a: ResolvedView, b: ResolvedView) -> Cmp {
        path_allow_order(a.path, b.path)
    }

    open spec fn cmp_deny_spec(a: ResolvedView, b: ResolvedView) -> Cmp {
        path_allow_deny_order(a.path, b.path)
    }

    fn cmp_allow(&self, other: &Self) -> (r: Cmp) {
        self.0.cmp_allow_allow(&other.0)
    }

    fn cmp_deny(&self, other: &Self) -> (r: Cmp) {
        self.0.cmp_allow_deny(&other.0)
    }

    fn copy_allow(&self) -> (r: Self) {
        WriteDescriptor(self.0.duplicate())
    }
}

impl DenyDescriptor for WriteDescriptor {
    open spec fn deny_order_spec(a: ResolvedView, b: ResolvedView) -> Cmp {
        path_allow_order(a.path, b.path)
    }

    fn cmp_deny(&self, other: &Self) -> (r: Cmp) {
        self.0.cmp_deny_deny(&other.0)
    }

    fn copy_deny(&self) -> (r: Self) {
        WriteDescriptor(self.0.duplicate())
    }
}

impl QueryDescriptor<WriteDescriptor> for WriteQueryDescriptor {
    open spec fn flag_name_spec() -> Seq<char> {
        "write"@
    }

    open spec fn display_name_spec(q: ResolvedView) -> Seq<char> {
        shown(q)
    }

    open spec fn as_allow_spec(q: ResolvedView) -> Option<ResolvedView> {
        Some(q)
    }

    open spec fn as_deny_spec(q: ResolvedView) -> ResolvedView {
        q
    }

    open spec fn matches_allow_spec(q: ResolvedView, a: ResolvedView) -> bool {
        path_has_prefix(q.path, a.path)
    }

    open spec fn matches_deny_spec(q: ResolvedView, d: ResolvedView) -> bool {
        path_has_prefix(q.path, d.path)
    }

    open spec fn revokes_spec(q: ResolvedView, a: ResolvedView) -> bool {
        path_has_prefix(q.path, a.path)
    }

    open spec fn stronger_than_deny_spec(q: ResolvedView, d: ResolvedView) -> bool {
        path_has_prefix(d.path, q.path)
    }

    open spec fn overlaps_deny_spec(q: ResolvedView, d: ResolvedView) -> bool {
        path_has_prefix(d.path, q.path)
    }

    fn flag_name() -> (r: &'static str) {
        "write"
    }

    fn display_name(&self) -> (r: String) {
        self.0.display_name()
    }

    fn as_allow(&self) -> (r: Option<WriteDescriptor>) {
        Some(WriteDescriptor(self.0.as_descriptor()))
    }

    fn as_deny(&self) -> (r: WriteDescriptor) {
        WriteDescriptor(self.0.as_descriptor())
    }

    fn matches_allow(&self, other: &WriteDescriptor) -> (r: bool) {
        self.0.starts_with(&other.0)
    }

    fn matches_deny(&self, other: &WriteDescriptor) -> (r: bool) {
        self.0.starts_with(&other.0)
    }

    fn revokes(&self, other: &WriteDescriptor) -> (r: bool) {
        self.0.starts_with(&other.0)
    }

    fn stronger_than_deny(&self, other: &WriteDescriptor) -> (r: bool) {
        other.0.starts_with(&self.0)
    }

    fn overlaps_deny(&self, other: &WriteDescriptor) -> (r: bool) {
        other.0.starts_with(&self.0)
    }

    open spec fn from_allow_spec(a: ResolvedView) -> ResolvedView {
        a
    }

    open spec fn non_partial_spec() -> bool {
        true
    }

    fn from_allow(allow: &WriteDescriptor) -> (r: WriteQueryDescriptor) {
        WriteQueryDescriptor(allow.0.as_query_descriptor())
    }

    fn non_partial() -> (r: bool) {
        true
    }
}

impl WriteQueryDescriptor {
    /// The query a grant of `allow` answers.
    pub fn from_allow(allow: &WriteDescriptor) -> (r: WriteQueryDescriptor)
        ensures
            r@ == allow@,
    {
        WriteQueryDescriptor(allow.0.as_query_descriptor())
    }
}

impl AllowDescriptor for FfiDescriptor {
    type DenyView = ResolvedView;

    type DenyDesc = FfiDescriptor;

    open spec fn cmp_allow_spec(a: ResolvedView, b: ResolvedView) -> Cmp {
        path_allow_order(a.path, b.path)
    }

    open spec fn cmp_deny_spec(a: ResolvedView, b: ResolvedView) -> Cmp {
        path_allow_deny_order(a.path, b.path)
    }

    fn cmp_allow(&self, other: &Self) -> (r: Cmp) {
        self.0.cmp_allow_allow(&other.0)
    }

    fn cmp_deny(&self, other: &Self) -> (r: Cmp) {
        self.0.cmp_allow_deny(&other.0)
    }

    fn copy_allow(&self) -> (r: Self) {
        FfiDescriptor(self.0.duplicate())
    }
}

impl DenyDescriptor for FfiDescriptor {
    open spec fn deny_order_spec(a: ResolvedView, b: ResolvedView) -> Cmp {
        path_allow_order(a.path, b.path)
    }

    fn cmp_deny(&self, other: &Self) -> (r: Cmp) {
        self.0.cmp_deny_deny(&other.0)
    }

    fn copy_deny(&self) -> (r: Self) {
        FfiDescriptor(self.0.duplicate())
    }
}

impl QueryDescriptor<FfiDescriptor> for FfiQueryDescriptor {
    open spec fn flag_name_spec() -> Seq<char> {
        "ffi"@
    }

    open spec fn display_name_spec(q: ResolvedView) -> Seq<char> {
        shown(q)
    }

    open spec fn as_allow_spec(q: ResolvedView) -> Option<ResolvedView> {
        Some(q)
    }

    open spec fn as_deny_spec(q: ResolvedView) -> ResolvedView {
        q
    }

    open spec fn matches_allow_spec(q: ResolvedView, a: ResolvedView) -> bool {
        path_has_prefix(q.path, a.path)
    }

    open spec fn matches_deny_spec(q: ResolvedView, d: ResolvedView) -> bool {
        path_has_prefix(q.path, d.path)
    }

    open spec fn revokes_spec(q: ResolvedView, a: ResolvedView) -> bool {
        path_has_prefix(q.path, a.path)
    }

    open spec fn stronger_than_deny_spec(q: ResolvedView, d: ResolvedView) -> bool {
        path_has_prefix(d.path, q.path)
    }

    open spec fn overlaps_deny_spec(q: ResolvedView, d: ResolvedView) -> bool {
        path_has_prefix(d.path, q.path)
    }

    fn flag_name() -> (r: &'static str) {
        "ffi"
    }

    fn display_name(&self) -> (r: String) {
        self.0.display_name()
    }

    fn as_allow(&self) -> (r: Option<FfiDescriptor>) {
        Some(FfiDescriptor(self.0.as_descriptor()))
    }

    fn as_deny(&self) -> (r: FfiDescriptor) {
        FfiDescriptor(self.0.as_descriptor())
    }

    fn matches_allow(&self, other: &FfiDescriptor) -> (r: bool) {
        self.0.starts_with(&other.0)
    }

    fn matches_deny(&self, other: &FfiDescriptor) -> (r: bool) {
        self.0.starts_with(&other.0)
    }

    fn revokes(&self, other: &FfiDescriptor) -> (r: bool) {
        self.0.starts_with(&other.0)
    }

    fn stronger_than_deny(&self, other: &FfiDescriptor) -> (r: bool) {
        other.0.starts_with(&self.0)
    }

    fn overlaps_deny(&self, other: &FfiDescriptor) -> (r: bool) {
        other.0.starts_with(&self.0)
    }

    open spec fn from_allow_spec(a: ResolvedView) -> ResolvedView {
        a
    }

    open spec fn non_partial_spec() -> bool {
        true
    }

    fn from_allow(allow: &FfiDescriptor) -> (r: FfiQueryDescriptor) {
        FfiQueryDescriptor(allow.0.as_query_descriptor())
    }

    fn non_partial() -> (r: bool) {
        true
    }
}

impl FfiQueryDescriptor {
    /// The query a grant of `allow` answers.
    pub fn from_allow(allow: &FfiDescriptor) -> (r: FfiQueryDescriptor)
        ensures
            r@ == allow@,
    {
        FfiQueryDescriptor(allow.0.as_query_descriptor())
    }
}

impl UnaryPermission<ReadDescriptor> {
    pub fn query(&self, desc: Option<&ReadQueryDescriptor>) -> (r: PermissionState)
        ensures
            r == self.query_spec::<ReadQueryDescriptor>(opt_view(desc), AllowPartial::TreatAsPartialGranted),
    {
        self.query_desc(desc, AllowPartial::TreatAsPartialGranted)
    }

    pub fn request<P: PermissionPrompter>(&mut self, desc: Option<&ReadQueryDescriptor>, prompter: &mut P) -> (r: PermissionState)
        ensures
            old(self).requested_spec::<ReadQueryDescriptor>(final(self), opt_view(desc), r),
    {
        self.request_desc(desc, prompter)
    }

    pub fn revoke(&mut self, desc: Option<&ReadQueryDescriptor>) -> (r: PermissionState)
        ensures
            old(self).revoked_spec::<ReadQueryDescriptor>(final(self), opt_view(desc), r),
    {
        self.revoke_desc(desc)
    }

    /// Checks `desc`; a flag that denies part of its scope denies it.
    pub fn check<P: PermissionPrompter>(
        &mut self,
        desc: &ReadQueryDescriptor,
        api_name: Option<&str>,
        broker: Option<BrokerResponse>,
        prompter: &mut P,
    ) -> (r: Result<(), PermissionDeniedError>)
        ensures
            old(self).checked_spec::<ReadQueryDescriptor>(final(self), Some(desc@), true, broker, result_view(r)),
    {
        self.check_skipping_allow_all(Some(desc), true, api_name, broker, prompter)
    }

    /// Checks `desc`; a flag that denies only part of its scope does not
    /// deny it.
    pub fn check_partial<P: PermissionPrompter>(
        &mut self,
        desc: &ReadQueryDescriptor,
        api_name: Option<&str>,
        broker: Option<BrokerResponse>,
        prompter: &mut P,
    ) -> (r: Result<(), PermissionDeniedError>)
        ensures
            old(self).checked_spec::<ReadQueryDescriptor>(final(self), Some(desc@), false, broker, result_view(r)),
    {
        self.check_skipping_allow_all(Some(desc), false, api_name, broker, prompter)
    }

    pub fn check_all<P: PermissionPrompter>(
        &mut self,
        api_name: Option<&str>,
        broker: Option<BrokerResponse>,
        prompter: &mut P,
    ) -> (r: Result<(), PermissionDeniedError>)
        ensures
            old(self).checked_spec::<ReadQueryDescriptor>(final(self), None, false, broker, result_view(r)),
    {
        self.check_skipping_allow_all::<ReadQueryDescriptor, P>(None, false, api_name, broker, prompter)
    }

    /// Checks a static import of the file `desc`. Static imports need no
    /// read grant, but a denial or an ignore that reaches the file stays
    /// authoritative: then the import is checked as a read.
    pub fn check_static_import<P: PermissionPrompter>(
        &mut self,
        desc: &ReadQueryDescriptor,
        broker: Option<BrokerResponse>,
        prompter: &mut P,
    ) -> (r: Result<(), PermissionDeniedError>)
        ensures
            if static_import_checked(old(self).query_spec::<ReadQueryDescriptor>(Some(desc@), AllowPartial::TreatAsDenied)) {
                old(self).checked_spec::<ReadQueryDescriptor>(final(self), Some(desc@), true, broker, result_view(r))
            } else {
                r is Ok && *final(self) == *old(self)
            },
    {
        let state = self.query_desc(Some(desc), AllowPartial::TreatAsDenied);
        match state {
            PermissionState::Denied | PermissionState::DeniedPartial | PermissionState::Ignored => self.check(
                desc,
                Some("static import"),
                broker,
                prompter,
            ),
            _ => Ok(()),
        }
    }
}

/// A static import is checked as a read when a denial or ignore reaches it.
pub open spec fn static_import_checked(s: PermissionState) -> bool {
    s == PermissionState::Denied || s == PermissionState::DeniedPartial || s == PermissionState::Ignored
}

impl UnaryPermission<WriteDescriptor> {
    pub fn query(&self, desc: Option<&WriteQueryDescriptor>) -> (r: PermissionState)
        ensures
            r == self.query_spec::<WriteQueryDescriptor>(opt_view(desc), AllowPartial::TreatAsPartialGranted),
    {
        self.query_desc(desc, AllowPartial::TreatAsPartialGranted)
    }

    pub fn request<P: PermissionPrompter>(&mut self, desc: Option<&WriteQueryDescriptor>, prompter: &mut P) -> (r: PermissionState)
        ensures
            old(self).requested_spec::<WriteQueryDescriptor>(final(self), opt_view(desc), r),
    {
        self.request_desc(desc, prompter)
    }

    pub fn revoke(&mut self, desc: Option<&WriteQueryDescriptor>) -> (r: PermissionState)
        ensures
            old(self).revoked_spec::<WriteQueryDescriptor>(final(self), opt_view(desc), r),
    {
        self.revoke_desc(desc)
    }

    /// Checks `desc`; a flag that denies part of its scope denies it.
    pub fn check<P: PermissionPrompter>(
        &mut self,
        desc: &WriteQueryDescriptor,
        api_name: Option<&str>,
        broker: Option<BrokerResponse>,
        prompter: &mut P,
    ) -> (r: Result<(), PermissionDeniedError>)
        ensures
            old(self).checked_spec::<WriteQueryDescriptor>(final(self), Some(desc@), true, broker, result_view(r)),
    {
        self.check_skipping_allow_all(Some(desc), true, api_name, broker, prompter)
    }

    /// Checks `desc`; a flag that denies only part of its scope does not
    /// deny it.
    pub fn check_partial<P: PermissionPrompter>(
        &mut self,
        desc: &WriteQueryDescriptor,
        api_name: Option<&str>,
        broker: Option<BrokerResponse>,
        prompter: &mut P,
    ) -> (r: Result<(), PermissionDeniedError>)
        ensures
            old(self).checked_spec::<WriteQueryDescriptor>(final(self), Some(desc@), false, broker, result_view(r)),
    {
        self.check_skipping_allow_all(Some(desc), false, api_name, broker, prompter)
    }

    pub fn check_all<P: PermissionPrompter>(
        &mut self,
        api_name: Option<&str>,
        broker: Option<BrokerResponse>,
        prompter: &mut P,
    ) -> (r: Result<(), PermissionDeniedError>)
        ensures
            old(self).checked_spec::<WriteQueryDescriptor>(final(self), None, false, broker, result_view(r)),
    {
        self.check_skipping_allow_all::<WriteQueryDescriptor, P>(None, false, api_name, broker, prompter)
    }
}

impl UnaryPermission<FfiDescriptor> {
    pub fn query(&self, desc: Option<&FfiQueryDescriptor>) -> (r: PermissionState)
        ensures
            r == self.query_spec::<FfiQueryDescriptor>(opt_view(desc), AllowPartial::TreatAsPartialGranted),
    {
        self.query_desc(desc, AllowPartial::TreatAsPartialGranted)
    }

    pub fn request<P: PermissionPrompter>(&mut self, desc: Option<&FfiQueryDescriptor>, prompter: &mut P) -> (r: PermissionState)
        ensures
            old(self).requested_spec::<FfiQueryDescriptor>(final(self), opt_view(desc), r),
    {
        self.request_desc(desc, prompter)
    }

    pub fn revoke(&mut self, desc: Option<&FfiQueryDescriptor>) -> (r: PermissionState)
        ensures
            old(self).revoked_spec::<FfiQueryDescriptor>(final(self), opt_view(desc), r),
    {
        self.revoke_desc(desc)
    }

    /// Checks `desc`; a flag that denies part of its scope denies it.
    pub fn check<P: PermissionPrompter>(
        &mut self,
        desc: &FfiQueryDescriptor,
        api_name: Option<&str>,
        broker: Option<BrokerResponse>,
        prompter: &mut P,
    ) -> (r: Result<(), PermissionDeniedError>)
        ensures
            old(self).checked_spec::<FfiQueryDescriptor>(final(self), Some(desc@), true, broker, result_view(r)),
    {
        self.check_skipping_allow_all(Some(desc), true, api_name, broker, prompter)
    }

    /// Checks `desc`, or everything; a flag that denies only part of the
    /// scope does not deny it.
    pub fn check_partial<P: PermissionPrompter>(
        &mut self,
        desc: Option<&FfiQueryDescriptor>,
        broker: Option<BrokerResponse>,
        prompter: &mut P,
    ) -> (r: Result<(), PermissionDeniedError>)
        ensures
            old(self).checked_spec::<FfiQueryDescriptor>(final(self), opt_view(desc), false, broker, result_view(r)),
    {
        self.check_skipping_allow_all(desc, false, None, broker, prompter)
    }

    pub fn check_all<P: PermissionPrompter>(&mut self, broker: Option<BrokerResponse>, prompter: &mut P) -> (r: Result<
        (),
        PermissionDeniedError,
    >)
        ensures
            old(self).checked_spec::<FfiQueryDescriptor>(final(self), None, false, broker, result_view(r)),
    {
        self.check_skipping_allow_all::<FfiQueryDescriptor, P>(None, false, Some("all"), broker, prompter)
    }
}

/// A character folded to lower case, ASCII letters only, as a code point.
pub open spec fn ascii_fold(c: char) -> u32 {
    let x = c as u32;
    if 65 <= x <= 90 {
        (x + 32) as u32
    } else {
        x
    }
}

fn ascii_fold_exec(c: char) -> (r: u32)
    ensures
        r == ascii_fold(c),
{
    let x = c as u32;
    if 65 <= x && x <= 90 {
        x + 32
    } else {
        x
    }
}

/// Does a denial of the command name `name` cover an executable whose file
/// stem is `stem`? The stem must begin with the name, ignoring ASCII case,
/// and go on with nothing or with a `.`.
pub open spec fn run_name_denied(name: Seq<char>, stem: Option<Seq<char>>) -> bool {
    match stem {
        None => false,
        Some(s) => {
            &&& s.len() >= name.len()
            &&& forall|i: int| 0 <= i < name.len() ==> ascii_fold(#[trigger] s[i]) == ascii_fold(name[i])
            &&& (s.len() == name.len() || s[name.len() as int] == '.')
        },
    }
}

/// Does a denial of the command name `name` cover the executable at
/// `cmd_path`?
pub fn denies_run_name(name: &str, cmd_path: &str) -> (r: bool)
    ensures
        r == run_name_denied(name@, file_stem_of(cmd_path@)),
{
    let stem = match file_stem(cmd_path) {
        None => return false,
        Some(s) => s,
    };
    let n = name.unicode_len();
    let m = stem.as_str().unicode_len();
    if m < n {
        return false;
    }
    let mut i: usize = 0;
    while i < n
        invariant
            n == name@.len(),
            m == stem@.len(),
            file_stem_of(cmd_path@) == Some(stem@),
            n <= m,
            i <= n,
            forall|j: int| 0 <= j < i ==> ascii_fold(#[trigger] stem@[j]) == ascii_fold(name@[j]),
        decreases n - i,
    {
        if ascii_fold_exec(stem.as_str().get_char(i)) != ascii_fold_exec(name.get_char(i)) {
            assert(ascii_fold(stem@[i as int]) != ascii_fold(name@[i as int]));
            return false;
        }
        i = i + 1;
    }
    m == n || stem.as_str().get_char(n) == '.'
}

/// A path granted to be run.
#[derive(Debug)]
pub struct AllowRunDescriptor(pub PathDescriptor);

impl View for AllowRunDescriptor {
    type V = ResolvedView;

    open spec fn view(&self) -> ResolvedView {
        self.0@
    }
}

/// Does `text` name a path rather than a command to look up?
pub open spec fn names_path(text: Seq<char>) -> bool {
    has_char(text, '/')
}

impl AllowRunDescriptor {
    pub fn is_path(text: &str) -> (r: bool)
        ensures
            r == names_path(text@),
    {
        contains_char(text, '/')
    }

    /// Parses an `--allow-run` value: a path is resolved against `cwd`; a
    /// bare name by `lookup`, what searching the executable path for it
    /// gave. A name that is not found, or not canonical, stays unresolved;
    /// a search that had neither a working directory nor a path list fails.
    pub fn parse(text: &str, cwd: &str, lookup: Result<String, WhichError>) -> (r: Result<
        AllowRunDescriptorParseResult,
        WhichError,
    >)
        ensures
            names_path(text@) ==> (r matches Ok(AllowRunDescriptorParseResult::Descriptor(d)) && d@ == resolved_in(
                text@,
                cwd@,
            )),
            !names_path(text@) ==> match lookup {
                Ok(found) => r matches Ok(AllowRunDescriptorParseResult::Descriptor(d)) && d@ == resolved_in(
                    found@,
                    cwd@,
                ),
                Err(e) => if e == WhichError::CannotGetCurrentDirAndPathListEmpty {
                    r == Err::<AllowRunDescriptorParseResult, WhichError>(e)
                } else {
                    r matches Ok(AllowRunDescriptorParseResult::Unresolved(u)) && u == e
                },
            },
    {
        if Self::is_path(text) {
            return Ok(AllowRunDescriptorParseResult::Descriptor(AllowRunDescriptor(PathDescriptor::new_known_cwd(text, cwd))));
        }
        match lookup {
            Ok(found) => Ok(
                AllowRunDescriptorParseResult::Descriptor(AllowRunDescriptor(PathDescriptor::new_known_cwd(found.as_str(), cwd))),
            ),
            Err(e) => match e {
                WhichError::CannotGetCurrentDirAndPathListEmpty => Err(e),
                WhichError::CannotFindBinaryPath | WhichError::CannotCanonicalize => Ok(
                    AllowRunDescriptorParseResult::Unresolved(e),
                ),
            },
        }
    }
}

/// Why searching the executable path for a command name failed.
#[derive(Clone, Copy, Debug, PartialEq, Eq, Structural)]
pub enum WhichError {
    CannotGetCurrentDirAndPathListEmpty,
    CannotFindBinaryPath,
    CannotCanonicalize,
}

/// A parsed `--allow-run` value: a resolved command, or a name the search
/// did not resolve, which is reported at startup and skipped in a worker's
/// list.
pub enum AllowRunDescriptorParseResult {
    Unresolved(WhichError),
    Descriptor(AllowRunDescriptor),
}

/// What a worker's `run` list grants for one parsed value: nothing for an
/// unresolved name.
pub fn listed_run_grant(parsed: AllowRunDescriptorParseResult) -> (r: Option<AllowRunDescriptor>)
    ensures
        match parsed {
            AllowRunDescriptorParseResult::Unresolved(_) => r is None,
            AllowRunDescriptorParseResult::Descriptor(d) => r == Some(d),
        },
{
    match parsed {
        AllowRunDescriptorParseResult::Unresolved(_) => None,
        AllowRunDescriptorParseResult::Descriptor(d) => Some(d),
    }
}

/// The abstract value of a denied command.
pub enum DenyRunView {
    Name(Seq<char>),
    Path(ResolvedView),
}

/// A command denied to be run: by name, or by path.
#[derive(Debug)]
pub enum DenyRunDescriptor {
    Name(String),
    Path(PathDescriptor),
}

impl View for DenyRunDescriptor {
    type V = DenyRunView;

    open spec fn view(&self) -> DenyRunView {
        match self {
            DenyRunDescriptor::Name(n) => DenyRunView::Name(n@),
            DenyRunDescriptor::Path(p) => DenyRunView::Path(p@),
        }
    }
}

impl DenyRunDescriptor {
    /// A denial of `text`: a path, resolved against `cwd`, when it holds a
    /// `/`; a command name otherwise.
    pub fn parse(text: &str, cwd: &str) -> (r: DenyRunDescriptor)
        ensures
            r@ == (if names_path(text@) {
                DenyRunView::Path(resolved_in(text@, cwd@))
            } else {
                DenyRunView::Name(text@)
            }),
    {
        if contains_char(text, '/') {
            DenyRunDescriptor::Path(PathDescriptor::new_known_cwd(text, cwd))
        } else {
            DenyRunDescriptor::Name(to_owned(text))
        }
    }
}

/// The order of denied commands: paths before names, names
/// alphabetically, paths as granted paths are ordered.
pub open spec fn deny_run_order(a: DenyRunView, b: DenyRunView) -> Cmp {
    match a {
        DenyRunView::Name(x) => match b {
            DenyRunView::Name(y) => lex_order(x, y),
            DenyRunView::Path(_) => Cmp::Greater,
        },
        DenyRunView::Path(x) => match b {
            DenyRunView::Name(_) => Cmp::Less,
            DenyRunView::Path(y) => path_allow_order(x.path, y.path),
        },
    }
}

impl AllowDescriptor for AllowRunDescriptor {
    type DenyView = DenyRunView;

    type DenyDesc = DenyRunDescriptor;

    open spec fn cmp_allow_spec(a: ResolvedView, b: ResolvedView) -> Cmp {
        path_allow_order(a.path, b.path)
    }

    open spec fn cmp_deny_spec(a: ResolvedView, b: DenyRunView) -> Cmp {
        match b {
            DenyRunView::Name(_) => Cmp::Less,
            DenyRunView::Path(_) => Cmp::Greater,
        }
    }

    fn cmp_allow(&self, other: &Self) -> (r: Cmp) {
        self.0.cmp_allow_allow(&other.0)
    }

    fn cmp_deny(&self, other: &DenyRunDescriptor) -> (r: Cmp) {
        match other {
            DenyRunDescriptor::Name(n) => {
                assert(other@ == DenyRunView::Name(n@));
                Cmp::Less
            },
            DenyRunDescriptor::Path(p) => {
                assert(other@ == DenyRunView::Path(p@));
                Cmp::Greater
            },
        }
    }

    fn copy_allow(&self) -> (r: Self) {
        AllowRunDescriptor(self.0.duplicate())
    }
}

impl DenyDescriptor for DenyRunDescriptor {
    open spec fn deny_order_spec(a: DenyRunView, b: DenyRunView) -> Cmp {
        deny_run_order(a, b)
    }

    fn cmp_deny(&self, other: &Self) -> (r: Cmp) {
        match self {
            DenyRunDescriptor::Name(x) => match other {
                DenyRunDescriptor::Name(y) => str_compare(x.as_str(), y.as_str()),
                DenyRunDescriptor::Path(_) => Cmp::Greater,
            },
            DenyRunDescriptor::Path(x) => match other {
                DenyRunDescriptor::Name(_) => Cmp::Less,
                DenyRunDescriptor::Path(y) => x.cmp_deny_deny(y),
            },
        }
    }

    fn copy_deny(&self) -> (r: Self) {
        match self {
            DenyRunDescriptor::Name(n) => DenyRunDescriptor::Name(n.clone()),
            DenyRunDescriptor::Path(p) => DenyRunDescriptor::Path(p.duplicate()),
        }
    }
}

/// The abstract value of a command asked about.
pub enum RunQueryView {
    Path(ResolvedView),
    Name(Seq<char>),
}

/// A command asked about: resolved to a path, or a name that did not
/// resolve (which never gets a grant, but is prompted for alike).
#[derive(Debug)]
pub enum RunQueryDescriptor {
    Path(PathQueryDescriptor),
    Name(String),
}

impl RunQueryDescriptor {
    /// Parses a command asked about. A path is resolved like any path
    /// query; a bare name is looked up by `lookup`, what searching the
    /// executable path for it gave, and stays a name when it was not
    /// found. `cwd` is the working directory, or why it could not be read.
    pub fn parse(requested: &str, cwd: Result<String, String>, lookup: Result<String, WhichError>) -> (r: Result<
        RunQueryDescriptor,
        PathResolveError,
    >)
        ensures
            names_path(requested@) && absolute(requested@) ==> (r matches Ok(RunQueryDescriptor::Path(q)) && q@
                == resolved_in(requested@, Seq::empty())),
            names_path(requested@) && !absolute(requested@) ==> match cwd {
                Ok(c) => (r matches Ok(RunQueryDescriptor::Path(q)) && q@ == resolved_in(requested@, c@)),
                Err(e) => r matches Err(PathResolveError::CwdResolve(m)) && m == e,
            },
            !names_path(requested@) ==> match cwd {
                Err(e) => r matches Err(PathResolveError::CwdResolve(m)) && m == e,
                Ok(_) => match lookup {
                    Ok(found) => (r matches Ok(RunQueryDescriptor::Path(q)) && q@ == (ResolvedView {
                        path: found@,
                        requested: Some(requested@),
                    })),
                    Err(_) => (r matches Ok(RunQueryDescriptor::Name(n)) && n@ == requested@),
                },
            },
    {
        if AllowRunDescriptor::is_path(requested) {
            assert(requested@.len() > 0) by {
                assert(has_char(requested@, '/'));
            }
            return match PathQueryDescriptor::new(requested, cwd) {
                Ok(q) => Ok(RunQueryDescriptor::Path(q)),
                Err(e) => Err(e),
            };
        }
        match cwd {
            Err(e) => Err(PathResolveError::CwdResolve(e)),
            Ok(_) => match lookup {
                Ok(found) => Ok(
                    RunQueryDescriptor::Path(PathQueryDescriptor { path: found, requested: Some(to_owned(requested)) }),
                ),
                Err(_) => Ok(RunQueryDescriptor::Name(to_owned(requested))),
            },
        }
    }
}

impl View for RunQueryDescriptor {
    type V = RunQueryView;

    open spec fn view(&self) -> RunQueryView {
        match self {
            RunQueryDescriptor::Path(p) => RunQueryView::Path(p@),
            RunQueryDescriptor::Name(n) => RunQueryView::Name(n@),
        }
    }
}

/// Does a denial of `d` cover the command `q`?
pub open spec fn run_denied(q: RunQueryView, d: DenyRunView) -> bool {
    match d {
        DenyRunView::Name(dn) => match q {
            RunQueryView::Path(p) => run_name_denied(dn, file_stem_of(p.path)),
            RunQueryView::Name(qn) => qn == dn,
        },
        DenyRunView::Path(dp) => match q {
            RunQueryView::Path(p) => path_has_prefix(p.path, dp.path),
            RunQueryView::Name(qn) => run_name_denied(qn, file_stem_of(dp.path)),
        },
    }
}

/// Does revoking the command `q` remove the grant `a`?
pub open spec fn run_revokes(q: RunQueryView, a: ResolvedView) -> bool {
    match q {
        RunQueryView::Path(p) => if p.path == a.path {
            true
        } else {
            match p.requested {
                Some(req) => !names_path(req) && run_name_denied(req, file_stem_of(a.path)),
                None => false,
            }
        },
        RunQueryView::Name(qn) => run_name_denied(qn, file_stem_of(a.path)),
    }
}

/// What a refusal of the command `q` records: the path, unless the command
/// was asked for by a bare name.
pub open spec fn run_deny_of(q: RunQueryView) -> DenyRunView {
    match q {
        RunQueryView::Path(p) => match p.requested {
            Some(req) => if names_path(req) {
                DenyRunView::Path(p)
            } else {
                DenyRunView::Name(req)
            },
            None => DenyRunView::Path(p),
        },
        RunQueryView::Name(n) => DenyRunView::Name(n),
    }
}

impl QueryDescriptor<AllowRunDescriptor> for RunQueryDescriptor {
    open spec fn flag_name_spec() -> Seq<char> {
        "run"@
    }

    open spec fn display_name_spec(q: RunQueryView) -> Seq<char> {
        match q {
            RunQueryView::Path(p) => shown(p),
            RunQueryView::Name(n) => n,
        }
    }

    open spec fn as_allow_spec(q: RunQueryView) -> Option<ResolvedView> {
        match q {
            RunQueryView::Path(p) => Some(p),
            RunQueryView::Name(_) => None,
        }
    }

    open spec fn as_deny_spec(q: RunQueryView) -> DenyRunView {
        run_deny_of(q)
    }

    open spec fn matches_allow_spec(q: RunQueryView, a: ResolvedView) -> bool {
        match q {
            RunQueryView::Path(p) => p.path == a.path,
            RunQueryView::Name(_) => false,
        }
    }

    open spec fn matches_deny_spec(q: RunQueryView, d: DenyRunView) -> bool {
        run_denied(q, d)
    }

    open spec fn revokes_spec(q: RunQueryView, a: ResolvedView) -> bool {
        run_revokes(q, a)
    }

    open spec fn stronger_than_deny_spec(q: RunQueryView, d: DenyRunView) -> bool {
        run_denied(q, d)
    }

    open spec fn overlaps_deny_spec(q: RunQueryView, d: DenyRunView) -> bool {
        false
    }

    fn flag_name() -> (r: &'static str) {
        "run"
    }

    fn display_name(&self) -> (r: String) {
        match self {
            RunQueryDescriptor::Path(p) => p.display_name(),
            RunQueryDescriptor::Name(n) => n.clone(),
        }
    }

    fn as_allow(&self) -> (r: Option<AllowRunDescriptor>) {
        match self {
            RunQueryDescriptor::Path(p) => Some(AllowRunDescriptor(p.as_descriptor())),
            RunQueryDescriptor::Name(_) => None,
        }
    }

    fn as_deny(&self) -> (r: DenyRunDescriptor) {
        let r = match self {
            RunQueryDescriptor::Path(p) => match &p.requested {
                Some(req) => if contains_char(req.as_str(), '/') {
                    let d = p.as_descriptor();
                    assert(DenyRunDescriptor::Path(d)@ == DenyRunView::Path(p@));
                    DenyRunDescriptor::Path(d)
                } else {
                    let n = req.clone();
                    assert(DenyRunDescriptor::Name(n)@ == DenyRunView::Name(req@));
                    DenyRunDescriptor::Name(n)
                },
                None => {
                    let d = p.as_descriptor();
                    assert(DenyRunDescriptor::Path(d)@ == DenyRunView::Path(p@));
                    DenyRunDescriptor::Path(d)
                },
            },
            RunQueryDescriptor::Name(n) => {
                let m = n.clone();
                assert(DenyRunDescriptor::Name(m)@ == DenyRunView::Name(n@));
                DenyRunDescriptor::Name(m)
            },
        };
        r
    }

    fn matches_allow(&self, other: &AllowRunDescriptor) -> (r: bool) {
        match self {
            RunQueryDescriptor::Path(p) => str_eq(p.path.as_str(), other.0.path.as_str()),
            RunQueryDescriptor::Name(_) => false,
        }
    }

    fn matches_deny(&self, other: &DenyRunDescriptor) -> (r: bool) {
        run_denied_exec(self, other)
    }

    fn revokes(&self, other: &AllowRunDescriptor) -> (r: bool) {
        match self {
            RunQueryDescriptor::Path(p) => {
                if str_eq(p.path.as_str(), other.0.path.as_str()) {
                    return true;
                }
                match &p.requested {
                    Some(req) => !contains_char(req.as_str(), '/') && denies_run_name(
                        req.as_str(),
                        other.0.path.as_str(),
                    ),
                    None => false,
                }
            },
            RunQueryDescriptor::Name(q) => denies_run_name(q.as_str(), other.0.path.as_str()),
        }
    }

    fn stronger_than_deny(&self, other: &DenyRunDescriptor) -> (r: bool) {
        run_denied_exec(self, other)
    }

    fn overlaps_deny(&self, other: &DenyRunDescriptor) -> (r: bool) {
        false
    }

    open spec fn from_allow_spec(a: ResolvedView) -> RunQueryView {
        RunQueryView::Path(a)
    }

    open spec fn non_partial_spec() -> bool {
        false
    }

    fn from_allow(allow: &AllowRunDescriptor) -> (r: RunQueryDescriptor) {
        RunQueryDescriptor::Path(allow.0.as_query_descriptor())
    }

    fn non_partial() -> (r: bool) {
        false
    }
}

fn run_denied_exec(q: &RunQueryDescriptor, d: &DenyRunDescriptor) -> (r: bool)
    ensures
        r == run_denied(q@, d@),
{
    match d {
        DenyRunDescriptor::Name(dn) => match q {
            RunQueryDescriptor::Path(p) => denies_run_name(dn.as_str(), p.path.as_str()),
            RunQueryDescriptor::Name(qn) => str_eq(qn.as_str(), dn.as_str()),
        },
        DenyRunDescriptor::Path(dp) => match q {
            RunQueryDescriptor::Path(p) => p.starts_with(dp),
            RunQueryDescriptor::Name(qn) => denies_run_name(qn.as_str(), dp.path.as_str()),
        },
    }
}

/// A prompter that is never asked: it refuses.
pub struct NoPrompt;

impl PermissionPrompter for NoPrompt {
    fn prompt(&mut self, message: &str, name: &str, api_name: Option<&str>, is_unary: bool) -> PromptResponse {
        PromptResponse::Deny
    }
}

impl UnaryPermission<AllowRunDescriptor> {
    pub fn query(&self, cmd: Option<&RunQueryDescriptor>) -> (r: PermissionState)
        ensures
            r == self.query_spec::<RunQueryDescriptor>(opt_view(cmd), AllowPartial::TreatAsPartialGranted),
    {
        self.query_desc(cmd, AllowPartial::TreatAsPartialGranted)
    }

    pub fn request<P: PermissionPrompter>(&mut self, cmd: Option<&RunQueryDescriptor>, prompter: &mut P) -> (r:
        PermissionState)
        ensures
            old(self).requested_spec::<RunQueryDescriptor>(final(self), opt_view(cmd), r),
    {
        self.request_desc(cmd, prompter)
    }

    pub fn revoke(&mut self, cmd: Option<&RunQueryDescriptor>) -> (r: PermissionState)
        ensures
            old(self).revoked_spec::<RunQueryDescriptor>(final(self), opt_view(cmd), r),
    {
        self.revoke_desc(cmd)
    }

    pub fn check<P: PermissionPrompter>(
        &mut self,
        cmd: &RunQueryDescriptor,
        api_name: Option<&str>,
        broker: Option<BrokerResponse>,
        prompter: &mut P,
    ) -> (r: Result<(), PermissionDeniedError>)
        ensures
            exists|answer: PromptResponse| #[trigger]
                old(self).check_answered::<RunQueryDescriptor>(final(self), Some(cmd@), false, broker, answer, result_view(r)),
    {
        self.check_desc(Some(cmd), false, api_name, broker, prompter)
    }

    pub fn check_all<P: PermissionPrompter>(
        &mut self,
        api_name: Option<&str>,
        broker: Option<BrokerResponse>,
        prompter: &mut P,
    ) -> (r: Result<(), PermissionDeniedError>)
        ensures
            exists|answer: PromptResponse| #[trigger]
                old(self).check_answered::<RunQueryDescriptor>(final(self), None, false, broker, answer, result_view(r)),
    {
        self.check_desc::<RunQueryDescriptor, P>(None, false, api_name, broker, prompter)
    }

    /// Whether running anything would be allowed, without prompting.
    pub fn query_all(&mut self, api_name: Option<&str>, broker: Option<BrokerResponse>) -> (r: bool)
        ensures
            final(self).same_state(old(self)),
            r == (old(self).allow_all_spec(broker is Some) || check_outcome(
                old(self).query_spec::<RunQueryDescriptor>(None, AllowPartial::TreatAsDenied),
                "run"@,
                None,
                broker,
                false,
                PromptResponse::Deny,
            ).0 is Ok),
    {
        if self.is_allow_all(broker.is_some()) {
            return true;
        }
        let state = self.query_desc::<RunQueryDescriptor>(None, AllowPartial::TreatAsDenied);
        let mut never = NoPrompt;
        let ghost bv = broker;
        let (result, _prompted, _all) = check_state(state, "run", api_name, broker, None, false, &mut never);
        proof {
            reveal_strlit("run");
        }
        result.is_ok()
    }
}

/// A path to a special file, checked against the special-file rules.
#[derive(Debug)]
pub struct SpecialFilePathQueryDescriptor {
    pub path: String,
    pub requested: Option<String>,
    pub canonicalized: bool,
}

impl SpecialFilePathQueryDescriptor {
    /// The query of `path` as it stands, without resolving links: for
    /// operations that must not follow the last component.
    pub fn from_path_query_no_canonicalize(path: PathQueryDescriptor) -> (r: SpecialFilePathQueryDescriptor)
        ensures
            r.path@ == path@.path,
            opt_str(r.requested) == path@.requested,
            !r.canonicalized,
    {
        SpecialFilePathQueryDescriptor { path: path.path, requested: path.requested, canonicalized: false }
    }

    /// Whether the special-file query of `path` resolves its links first:
    /// not on Linux for a path under `/proc` or `/dev`, whose magic links
    /// must stay unresolved.
    pub fn needs_canonicalization(path: &PathQueryDescriptor, linux: bool) -> (r: bool)
        ensures
            r == needs_canonicalization_spec(path@.path, linux),
    {
        !(linux && (path_starts_with(path.path.as_str(), "/proc") || path_starts_with(path.path.as_str(), "/dev")))
    }

    /// The special-file query of `path`, given what canonicalizing its path
    /// gave (the canonical path, or the error's message) when it is to be
    /// canonicalized: then the canonical path is queried and the path asked
    /// for is kept as requested; otherwise the path stands.
    pub fn parse(path: PathQueryDescriptor, linux: bool, canonical: Option<Result<String, String>>) -> (r: Result<
        SpecialFilePathQueryDescriptor,
        PathResolveError,
    >)
        requires
            needs_canonicalization_spec(path@.path, linux) ==> canonical is Some,
        ensures
            !needs_canonicalization_spec(path@.path, linux) ==> (r matches Ok(d) && d.path@ == path@.path && opt_str(
                d.requested,
            ) == path@.requested && !d.canonicalized),
            needs_canonicalization_spec(path@.path, linux) ==> match canonical {
                Some(Ok(c)) => r matches Ok(d) && d.path@ == c@ && opt_str(d.requested) == Some(
                    match path@.requested {
                        Some(q) => q,
                        None => path@.path,
                    },
                ) && d.canonicalized,
                Some(Err(e)) => r matches Err(PathResolveError::Canonicalize(m)) && m@ == e@,
                None => false,
            },
    {
        if !Self::needs_canonicalization(&path, linux) {
            return Ok(Self::from_path_query_no_canonicalize(path));
        }
        match canonical {
            Some(Ok(c)) => {
                let requested = match path.requested {
                    Some(q) => Some(q),
                    None => Some(path.path),
                };
                Ok(SpecialFilePathQueryDescriptor { path: c, requested, canonicalized: true })
            },
            Some(Err(e)) => Err(PathResolveError::Canonicalize(e)),
            None => Err(PathResolveError::Canonicalize(String::new())),
        }
    }
}

/// Does the special-file query of `path` resolve its links first?
pub open spec fn needs_canonicalization_spec(path: Seq<char>, linux: bool) -> bool {
    !(linux && (path_has_prefix(path, "/proc"@) || path_has_prefix(path, "/dev"@)))
}

/// Without a broker, whether running anything is allowed, as `query_all`
/// answers it, is exactly whether everything is granted.
pub proof fn lemma_query_all_is_allow_all(perm: UnaryPermission<AllowRunDescriptor>)
    ensures
        (perm.allow_all_spec(false) || check_outcome(
            perm.query_spec::<RunQueryDescriptor>(None, AllowPartial::TreatAsDenied),
            "run"@,
            None,
            None,
            false,
            PromptResponse::Deny,
        ).0 is Ok) == perm.allow_all_spec(false),
{
}

/// One component of a path, as `std::path::Path::components` yields it.
#[derive(Debug, PartialEq, Eq)]
pub enum PathPart {
    /// A Windows prefix such as `C:`.
    Prefix(String),
    /// The root separator.
    Root,
    /// `.`
    Current,
    /// `..`
    Parent,
    /// A name.
    Normal(String),
}

pub enum PartView {
    Prefix(Seq<char>),
    Root,
    Current,
    Parent,
    Normal(Seq<char>),
}

impl View for PathPart {
    type V = PartView;

    open spec fn view(&self) -> PartView {
        match self {
            PathPart::Prefix(s) => PartView::Prefix(s@),
            PathPart::Root => PartView::Root,
            PathPart::Current => PartView::Current,
            PathPart::Parent => PartView::Parent,
            PathPart::Normal(s) => PartView::Normal(s@),
        }
    }
}

pub open spec fn parts_view(v: Seq<PathPart>) -> Seq<PartView> {
    v.map_values(|x: PathPart| x@)
}

/// The components `std::path::Path::components` yields for `path`.
pub uninterp spec fn path_parts(path: Seq<char>) -> Seq<PartView>;

/// Calls `std::path::Path::components`; its answer is named by
/// `path_parts`.
#[verifier::external_body]
fn components_of(path: &str) -> (r: Vec<PathPart>)
    ensures
        parts_view(r@) == path_parts(path@),
{
    std::path::Path::new(path).components().map(|c| match c {
        std::path::Component::Prefix(p) => PathPart::Prefix(p.as_os_str().to_string_lossy().into_owned()),
        std::path::Component::RootDir => PathPart::Root,
        std::path::Component::CurDir => PathPart::Current,
        std::path::Component::ParentDir => PathPart::Parent,
        std::path::Component::Normal(n) => PathPart::Normal(n.to_string_lossy().into_owned()),
    }).collect()
}

/// The components folded lexically: `.` dropped, and `..` dropping the
/// name before it, or dropped itself when no name comes before it.
pub open spec fn folded(parts: Seq<PartView>) -> Seq<PartView>
    decreases parts.len(),
{
    if parts.len() == 0 {
        Seq::empty()
    } else {
        let prev = folded(parts.drop_last());
        match parts.last() {
            PartView::Current => prev,
            PartView::Parent => if prev.len() > 0 && prev.last() is Normal {
                prev.drop_last()
            } else {
                prev
            },
            other => prev.push(other),
        }
    }
}

/// The text a component is pushed onto a path as.
pub open spec fn part_text(p: PartView) -> Seq<char> {
    match p {
        PartView::Prefix(s) => s,
        PartView::Root => "/"@,
        PartView::Current => "."@,
        PartView::Parent => ".."@,
        PartView::Normal(s) => s,
    }
}

/// The path made by pushing each component in turn onto an empty path.
pub open spec fn rebuilt(parts: Seq<PartView>) -> Seq<char>
    decreases parts.len(),
{
    if parts.len() == 0 {
        Seq::empty()
    } else {
        joined(rebuilt(parts.drop_last()), part_text(parts.last()))
    }
}

fn part_text_of(p: &PathPart) -> (r: String)
    ensures
        r@ == part_text(p@),
{
    match p {
        PathPart::Prefix(s) => s.clone(),
        PathPart::Root => to_owned("/"),
        PathPart::Current => to_owned("."),
        PathPart::Parent => to_owned(".."),
        PathPart::Normal(s) => s.clone(),
    }
}

fn copy_part(p: &PathPart) -> (r: PathPart)
    ensures
        r@ == p@,
{
    match p {
        PathPart::Prefix(s) => PathPart::Prefix(s.clone()),
        PathPart::Root => PathPart::Root,
        PathPart::Current => PathPart::Current,
        PathPart::Parent => PathPart::Parent,
        PathPart::Normal(s) => PathPart::Normal(s.clone()),
    }
}

/// `path` folded lexically, `.` and `..` resolved without the filesystem.
pub fn fold_path(path: &str) -> (r: String)
    ensures
        r@ == rebuilt(folded(path_parts(path@))),
{
    let parts = components_of(path);
    let ghost pv = parts_view(parts@);
    let mut out: Vec<PathPart> = Vec::new();
    let mut i: usize = 0;
    assert(pv.take(0) =~= Seq::<PartView>::empty());
    while i < parts.len()
        invariant
            pv == parts_view(parts@),
            i <= parts@.len(),
            parts_view(out@) == folded(pv.take(i as int)),
        decreases parts@.len() - i,
    {
        assert(pv.take(i + 1).drop_last() =~= pv.take(i as int));
        assert(pv.take(i + 1).last() == parts@[i as int]@);
        match &parts[i] {
            PathPart::Current => {},
            PathPart::Parent => {
                let n = out.len();
                if n > 0 {
                    let last_normal = match &out[n - 1] {
                        PathPart::Normal(_) => true,
                        _ => false,
                    };
                    if last_normal {
                        let ghost before = out@;
                        out.pop();
                        assert(parts_view(out@) =~= parts_view(before).drop_last());
                    }
                }
            },
            other => {
                let ghost before = out@;
                out.push(copy_part(other));
                assert(parts_view(out@) =~= parts_view(before).push(other@));
            },
        }
        i = i + 1;
    }
    assert(pv.take(parts@.len() as int) =~= pv);
    let ghost fv = parts_view(out@);
    let mut acc = String::new();
    let mut k: usize = 0;
    assert(fv.take(0) =~= Seq::<PartView>::empty());
    while k < out.len()
        invariant
            fv == parts_view(out@),
            k <= out@.len(),
            acc@ == rebuilt(fv.take(k as int)),
        decreases out@.len() - k,
    {
        assert(fv.take(k + 1).drop_last() =~= fv.take(k as int));
        assert(fv.take(k + 1).last() == out@[k as int]@);
        let t = part_text_of(&out[k]);
        acc = join(acc.as_str(), t.as_str());
        k = k + 1;
    }
    assert(fv.take(out@.len() as int) =~= fv);
    acc
}

/// A command denied by path is denied to every query of a resolved path
/// within it: the denied program itself, and anything under a denied
/// directory.
pub proof fn lemma_path_denial_covers_paths_within(p: ResolvedView, d: ResolvedView)
    requires
        path_has_prefix(p.path, d.path),
    ensures
        <RunQueryDescriptor as QueryDescriptor<AllowRunDescriptor>>::matches_deny_spec(
            RunQueryView::Path(p),
            DenyRunView::Path(d),
        ),
{
}

/// A command denied by path is denied to a query of a resolved path
/// exactly when the path lies within the denied one.
pub proof fn lemma_path_denial_covers_only_paths_within(p: ResolvedView, d: ResolvedView)
    ensures
        <RunQueryDescriptor as QueryDescriptor<AllowRunDescriptor>>::matches_deny_spec(
            RunQueryView::Path(p),
            DenyRunView::Path(d),
        ) == path_has_prefix(p.path, d.path),
{
}

} // verus!
