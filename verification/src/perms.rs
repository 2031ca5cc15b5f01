//! The process-level permission states, the errors a denial produces, the
//! unit (all-or-nothing) permissions, and the path carriers that checks hand
//! around.
use vstd::prelude::*;
use vstd::string::*;

use crate::text::{concat, to_owned};

verus! {

/// The state of a permission.
#[derive(Clone, Copy, Debug, PartialEq, Eq, Structural, PartialOrd)]
pub enum PermissionState {
    Granted,
    GrantedPartial,
    Prompt,
    Denied,
    DeniedPartial,
    Ignored,
}

impl Default for PermissionState {
    fn default() -> (r: PermissionState)
        ensures
            r == PermissionState::Prompt,
    {
        PermissionState::Prompt
    }
}

/// How a file is opened.
#[derive(Clone, Copy, Debug, PartialEq, Eq, Structural)]
pub enum OpenAccessKind {
    Read,
    ReadNoFollow,
    Write,
    WriteNoFollow,
    ReadWrite,
    ReadWriteNoFollow,
}

impl OpenAccessKind {
    pub fn is_no_follow(&self) -> (r: bool)
        ensures
            r == (*self == OpenAccessKind::ReadNoFollow || *self == OpenAccessKind::WriteNoFollow || *self
                == OpenAccessKind::ReadWriteNoFollow),
    {
        match self {
            OpenAccessKind::ReadNoFollow | OpenAccessKind::WriteNoFollow | OpenAccessKind::ReadWriteNoFollow => true,
            OpenAccessKind::Read | OpenAccessKind::Write | OpenAccessKind::ReadWrite => false,
        }
    }

    pub fn is_read(&self) -> (r: bool)
        ensures
            r == !(*self == OpenAccessKind::Write || *self == OpenAccessKind::WriteNoFollow),
    {
        match self {
            OpenAccessKind::Read | OpenAccessKind::ReadNoFollow | OpenAccessKind::ReadWrite
            | OpenAccessKind::ReadWriteNoFollow => true,
            OpenAccessKind::Write | OpenAccessKind::WriteNoFollow => false,
        }
    }

    pub fn is_write(&self) -> (r: bool)
        ensures
            r == !(*self == OpenAccessKind::Read || *self == OpenAccessKind::ReadNoFollow),
    {
        match self {
            OpenAccessKind::Read | OpenAccessKind::ReadNoFollow => false,
            OpenAccessKind::Write | OpenAccessKind::WriteNoFollow | OpenAccessKind::ReadWrite
            | OpenAccessKind::ReadWriteNoFollow => true,
        }
    }
}

/// The protocol class of a network operation: fetching, opening a stream,
/// and listening are distinct authority.
#[derive(Clone, Copy, Debug, PartialEq, Eq, Structural)]
pub enum NetPermissionAction {
    Fetch,
    Connect,
    Listen,
}

impl NetPermissionAction {
    pub open spec fn spec_str(self) -> Seq<char> {
        match self {
            NetPermissionAction::Fetch => "fetch"@,
            NetPermissionAction::Connect => "connect"@,
            NetPermissionAction::Listen => "listen"@,
        }
    }

    /// The grant action that names this class.
    pub fn as_str(self) -> (r: &'static str)
        ensures
            r@ == self.spec_str(),
    {
        match self {
            NetPermissionAction::Fetch => "fetch",
            NetPermissionAction::Connect => "connect",
            NetPermissionAction::Listen => "listen",
        }
    }
}

/// Whether a host pattern's subdomains are included.
#[derive(Clone, Copy, Debug, PartialEq, Eq, Structural)]
pub enum SubdomainWildcards {
    Enabled,
    Disabled,
}

impl Default for SubdomainWildcards {
    fn default() -> (r: SubdomainWildcards)
        ensures
            r == SubdomainWildcards::Disabled,
    {
        SubdomainWildcards::Disabled
    }
}

/// Whether a module is loaded by a static or a dynamic import.
#[derive(Clone, Copy, Debug, PartialEq, Eq, Structural)]
pub enum CheckSpecifierKind {
    Static,
    Dynamic,
}

/// The answer of a permission broker.
#[derive(Debug, PartialEq, Eq)]
pub enum BrokerResponse {
    Allow,
    Deny { message: Option<String> },
}

/// The answer of the user to a permission prompt.
#[derive(Clone, Copy, Debug, PartialEq, Eq, Structural)]
pub enum PromptResponse {
    Allow,
    Deny,
    AllowAll,
}

/// The permission broker that a check consults before anything else.
/// Implemented by the embedder; nothing is assumed of the answer.
pub trait PermissionBroker {
    /// The broker's answer to a check of the flag `name` for `value` (for
    /// everything when `value` is `None`); `None` when no broker is
    /// registered.
    fn answer(&mut self, name: &str, value: Option<&str>) -> Option<BrokerResponse>;
}

/// No broker: every check is decided by the permission itself.
pub struct NoBroker;

impl PermissionBroker for NoBroker {
    fn answer(&mut self, name: &str, value: Option<&str>) -> Option<BrokerResponse> {
        None
    }
}

/// Asks the user whether to grant an access. Implemented by the embedder;
/// nothing is assumed of the answer.
pub trait PermissionPrompter {
    fn prompt(&mut self, message: &str, name: &str, api_name: Option<&str>, is_unary: bool) -> PromptResponse;
}

/// A permission check that failed.
#[derive(Debug)]
pub struct PermissionDeniedError {
    pub access: String,
    pub name: &'static str,
    pub custom_message: Option<String>,
    pub state: PermissionState,
}

pub struct ErrorView {
    pub access: Seq<char>,
    pub name: Seq<char>,
    pub custom_message: Option<Seq<char>>,
    pub state: PermissionState,
}

pub open spec fn opt_str(o: Option<String>) -> Option<Seq<char>> {
    match o {
        Some(s) => Some(s@),
        None => None,
    }
}

impl View for PermissionDeniedError {
    type V = ErrorView;

    open spec fn view(&self) -> ErrorView {
        ErrorView {
            access: self.access@,
            name: self.name@,
            custom_message: opt_str(self.custom_message),
            state: self.state,
        }
    }
}

pub open spec fn result_view(r: Result<(), PermissionDeniedError>) -> Result<(), ErrorView> {
    match r {
        Ok(()) => Ok(()),
        Err(e) => Err(e@),
    }
}

/// "NAME access" or "NAME access to INFO".
pub open spec fn fmt_access_spec(name: Seq<char>, info: Option<Seq<char>>) -> Seq<char> {
    match info {
        Some(i) => name + " access to "@ + i,
        None => name + " access"@,
    }
}

pub fn fmt_access(name: &str, info: &Option<String>) -> (r: String)
    ensures
        r@ == fmt_access_spec(name@, opt_str(*info)),
{
    match info {
        Some(i) => {
            let head = concat(name, " access to ");
            concat(head.as_str(), i.as_str())
        },
        None => concat(name, " access"),
    }
}

pub open spec fn denied_error_view(name: Seq<char>, info: Option<Seq<char>>, state: PermissionState) -> ErrorView {
    ErrorView { access: fmt_access_spec(name, info), name, custom_message: None, state }
}

pub fn permission_denied_error(name: &'static str, info: &Option<String>, state: PermissionState) -> (r:
    PermissionDeniedError)
    ensures
        r@ == denied_error_view(name@, opt_str(*info), state),
{
    PermissionDeniedError { access: fmt_access(name, info), name, custom_message: None, state }
}

/// The flag advice at the end of a denial message.
pub open spec fn advice_spec(name: Seq<char>, standalone: bool) -> Seq<char> {
    if standalone {
        "specify the required permissions during compilation using `deno compile --allow-"@ + name + "`"@
    } else {
        "run again with the --allow-"@ + name + " flag"@
    }
}

impl PermissionDeniedError {
    /// The message of the error: the custom message when there is one,
    /// otherwise what is required and how to allow it.
    pub fn message(&self, standalone: bool) -> (r: String)
        ensures
            r@ == match self.custom_message {
                Some(m) => m@,
                None => "Requires "@ + self.access@ + ", "@ + advice_spec(self.name@, standalone),
            },
    {
        match &self.custom_message {
            Some(m) => m.clone(),
            None => {
                let advice = if standalone {
                    let a = concat(
                        "specify the required permissions during compilation using `deno compile --allow-",
                        self.name,
                    );
                    concat(a.as_str(), "`")
                } else {
                    let a = concat("run again with the --allow-", self.name);
                    concat(a.as_str(), " flag")
                };
                let head = concat("Requires ", self.access.as_str());
                let head = concat(head.as_str(), ", ");
                concat(head.as_str(), advice.as_str())
            },
        }
    }
}

/// What a prompt answer makes of a check: the result and whether the user
/// allowed everything.
pub open spec fn prompt_outcome(answer: PromptResponse, name: Seq<char>, info: Option<Seq<char>>) -> (
    Result<(), ErrorView>,
    bool,
) {
    match answer {
        PromptResponse::Allow => (Ok(()), false),
        PromptResponse::AllowAll => (Ok(()), true),
        PromptResponse::Deny => (Err(denied_error_view(name, info, PermissionState::Denied)), false),
    }
}

/// What a check of `state` answers when no prompt is involved.
pub open spec fn settled_check(state: PermissionState, name: Seq<char>, info: Option<Seq<char>>) -> Result<(), ErrorView> {
    if state == PermissionState::Granted {
        Ok(())
    } else {
        Err(denied_error_view(name, info, state))
    }
}

/// The outcome of a check: the result, whether the user was prompted, and
/// whether the user allowed everything. A broker's answer comes first; a
/// prompting state asks the user when prompts are enabled.
pub open spec fn check_outcome(
    state: PermissionState,
    name: Seq<char>,
    info: Option<Seq<char>>,
    broker: Option<BrokerResponse>,
    prompt: bool,
    answer: PromptResponse,
) -> (Result<(), ErrorView>, bool, bool) {
    match broker {
        Some(BrokerResponse::Allow) => (Ok(()), false, false),
        Some(BrokerResponse::Deny { message }) => (
            Err(ErrorView { access: fmt_access_spec(name, info), name, custom_message: opt_str(message), state: PermissionState::Denied }),
            false,
            false,
        ),
        None => if state == PermissionState::Prompt && prompt {
            (prompt_outcome(answer, name, info).0, true, prompt_outcome(answer, name, info).1)
        } else {
            (settled_check(state, name, info), false, false)
        },
    }
}

/// The prompt message of a check: "NAME access" or "NAME access to INFO".
fn prompt_message(name: &str, info: &Option<String>) -> (r: String)
    ensures
        r@ == fmt_access_spec(name@, opt_str(*info)),
{
    fmt_access(name, info)
}

/// Checks `state`, consulting the broker's answer first and prompting the
/// user when the state asks for it.
pub fn check_state<P: PermissionPrompter>(
    state: PermissionState,
    name: &'static str,
    api_name: Option<&str>,
    broker: Option<BrokerResponse>,
    info: Option<String>,
    prompt: bool,
    prompter: &mut P,
) -> (r: (Result<(), PermissionDeniedError>, bool, bool))
    ensures
        exists|answer: PromptResponse|
            (result_view(r.0), r.1, r.2) == check_outcome(state, name@, opt_str(info), broker, prompt, answer),
{
    match broker {
        Some(BrokerResponse::Allow) => {
            assert((result_view(Ok(())), false, false) == check_outcome(
                state,
                name@,
                opt_str(info),
                broker,
                prompt,
                PromptResponse::Allow,
            ));
            return (Ok(()), false, false);
        },
        Some(BrokerResponse::Deny { message }) => {
            let ghost m = message;
            let e = PermissionDeniedError {
                access: fmt_access(name, &info),
                name,
                custom_message: message,
                state: PermissionState::Denied,
            };
            assert((result_view(Err(e)), false, false) == check_outcome(
                state,
                name@,
                opt_str(info),
                broker,
                prompt,
                PromptResponse::Allow,
            ));
            return (Err(e), false, false);
        },
        None => {},
    }
    if state == PermissionState::Prompt && prompt {
        let msg = prompt_message(name, &info);
        let answer = prompter.prompt(msg.as_str(), name, api_name, true);
        let r = match answer {
            PromptResponse::Allow => (Ok(()), true, false),
            PromptResponse::AllowAll => (Ok(()), true, true),
            PromptResponse::Deny => (Err(permission_denied_error(name, &info, PermissionState::Denied)), true, false),
        };
        assert((result_view(r.0), r.1, r.2) == check_outcome(state, name@, opt_str(info), broker, prompt, answer));
        r
    } else if state == PermissionState::Granted {
        assert((result_view(Ok(())), false, false) == check_outcome(
            state,
            name@,
            opt_str(info),
            broker,
            prompt,
            PromptResponse::Allow,
        ));
        (Ok(()), false, false)
    } else {
        let e = permission_denied_error(name, &info, state);
        assert((result_view(Err(e)), false, false) == check_outcome(
            state,
            name@,
            opt_str(info),
            broker,
            prompt,
            PromptResponse::Allow,
        ));
        (Err(e), false, false)
    }
}

/// A unit check of `before` answered `result` and left `state`: the
/// outcome of the broker's answer or of the prompt answer `answer`, and a
/// prompt's answer is remembered.
pub open spec fn unit_check_after(
    before: UnitPermission,
    info: Option<Seq<char>>,
    broker: Option<BrokerResponse>,
    answer: PromptResponse,
    result: Result<(), ErrorView>,
    state: PermissionState,
) -> bool {
    let o = check_outcome(before.state, before.name@, info, broker, before.prompt, answer);
    &&& result == o.0
    &&& state == (if o.1 {
        if o.0 is Ok {
            PermissionState::Granted
        } else {
            PermissionState::Denied
        }
    } else {
        before.state
    })
}

/// An all-or-nothing permission.
#[derive(Clone, Debug, PartialEq, Eq)]
pub struct UnitPermission {
    pub name: &'static str,
    pub description: &'static str,
    pub state: PermissionState,
    pub prompt: bool,
}

impl UnitPermission {
    pub fn query(&self) -> (r: PermissionState)
        ensures
            r == self.state,
    {
        self.state
    }

    /// Asks the user when the state is `Prompt`: only an answer of `Allow`
    /// grants; any other answer denies.
    pub fn request<P: PermissionPrompter>(&mut self, prompter: &mut P) -> (r: PermissionState)
        ensures
            final(self).name == old(self).name,
            final(self).description == old(self).description,
            final(self).prompt == old(self).prompt,
            old(self).state != PermissionState::Prompt ==> final(self).state == old(self).state,
            old(self).state == PermissionState::Prompt ==> final(self).state == PermissionState::Granted
                || final(self).state == PermissionState::Denied,
            r == final(self).state,
    {
        if self.state == PermissionState::Prompt {
            let msg = concat("access to ", self.description);
            let answer = prompter.prompt(msg.as_str(), self.name, Some("Deno.permissions.query()"), false);
            if answer == PromptResponse::Allow {
                self.state = PermissionState::Granted;
            } else {
                self.state = PermissionState::Denied;
            }
        }
        self.state
    }

    /// A granted permission returns to `Prompt`; any other state stays.
    pub fn revoke(&mut self) -> (r: PermissionState)
        ensures
            final(self).name == old(self).name,
            final(self).description == old(self).description,
            final(self).prompt == old(self).prompt,
            final(self).state == (if old(self).state == PermissionState::Granted {
                PermissionState::Prompt
            } else {
                old(self).state
            }),
            r == final(self).state,
    {
        if self.state == PermissionState::Granted {
            self.state = PermissionState::Prompt;
        }
        self.state
    }

    /// Checks the permission. A prompt's answer is remembered: granted on
    /// success, denied on refusal.
    pub fn check<P: PermissionPrompter>(&mut self, broker: Option<BrokerResponse>, info: Option<String>, prompter: &mut P) -> (r:
        Result<(), PermissionDeniedError>)
        ensures
            final(self).name == old(self).name,
            final(self).description == old(self).description,
            final(self).prompt == old(self).prompt,
            exists|answer: PromptResponse|
                #[trigger] unit_check_after(*old(self), opt_str(info), broker, answer, result_view(r), final(self).state),
    {
        let ghost before = *self;
        let ghost iv = opt_str(info);
        let ghost bv = broker;
        let (result, prompted, _all) = check_state(self.state, self.name, None, broker, info, self.prompt, prompter);
        let ghost answer = choose|answer: PromptResponse|
            (result_view(result), prompted, _all) == check_outcome(before.state, before.name@, iv, bv, before.prompt, answer);
        if prompted {
            if result.is_ok() {
                self.state = PermissionState::Granted;
            } else {
                self.state = PermissionState::Denied;
            }
        }
        assert(unit_check_after(before, iv, bv, answer, result_view(result), self.state));
        result
    }
}

/// A normalized environment variable name: as given, on the platforms
/// where environment names are case-sensitive.
#[derive(Clone, Debug, PartialEq, Eq, Hash, PartialOrd, Ord)]
pub struct EnvVarName {
    inner: String,
}

/// A borrowed-or-owned normalized environment variable name.
#[derive(Clone, Debug, PartialEq, Eq, Hash)]
pub struct EnvVarNameRef {
    inner: String,
}

impl View for EnvVarName {
    type V = Seq<char>;

    closed spec fn view(&self) -> Seq<char> {
        self.inner@
    }
}

impl View for EnvVarNameRef {
    type V = Seq<char>;

    closed spec fn view(&self) -> Seq<char> {
        self.inner@
    }
}

impl EnvVarName {
    pub fn new(env: &str) -> (r: EnvVarName)
        ensures
            r@ == env@,
    {
        EnvVarNameRef::new(env).into_owned()
    }

    pub fn as_env_var_name_ref(&self) -> (r: EnvVarNameRef)
        ensures
            r@ == self@,
    {
        EnvVarNameRef { inner: self.inner.clone() }
    }

    pub fn as_str(&self) -> (r: &str)
        ensures
            r@ == self@,
    {
        self.inner.as_str()
    }

    pub fn duplicate(&self) -> (r: EnvVarName)
        ensures
            r@ == self@,
            r == *self,
    {
        EnvVarName { inner: self.inner.clone() }
    }
}

impl EnvVarNameRef {
    pub fn new(env: &str) -> (r: EnvVarNameRef)
        ensures
            r@ == env@,
    {
        EnvVarNameRef { inner: to_owned(env) }
    }

    pub fn into_owned(self) -> (r: EnvVarName)
        ensures
            r@ == self@,
    {
        EnvVarName { inner: self.inner }
    }

    pub fn as_str(&self) -> (r: &str)
        ensures
            r@ == self@,
    {
        self.inner.as_str()
    }
}

/// A path with the name it was requested under, when that differs from the
/// resolved path.
#[derive(Debug)]
pub struct PathWithRequested {
    pub path: String,
    pub requested: Option<String>,
}

/// An owned path with the name it was requested under.
#[derive(Clone, Debug)]
pub struct PathBufWithRequested {
    pub path: String,
    pub requested: Option<String>,
}

pub struct PathView {
    pub path: Seq<char>,
    pub requested: Option<Seq<char>>,
}

impl View for PathWithRequested {
    type V = PathView;

    open spec fn view(&self) -> PathView {
        PathView { path: self.path@, requested: opt_str(self.requested) }
    }
}

impl View for PathBufWithRequested {
    type V = PathView;

    open spec fn view(&self) -> PathView {
        PathView { path: self.path@, requested: opt_str(self.requested) }
    }
}

/// What a path is shown as: the requested name when there is one.
pub open spec fn display_spec(p: PathView) -> Seq<char> {
    match p.requested {
        Some(r) => r,
        None => p.path,
    }
}

fn clone_opt(o: &Option<String>) -> (r: Option<String>)
    ensures
        opt_str(r) == opt_str(*o),
        r == *o,
{
    match o {
        Some(s) => Some(s.clone()),
        None => None,
    }
}

impl PathWithRequested {
    pub fn only_path(path: String) -> (r: PathWithRequested)
        ensures
            r@ == (PathView { path: path@, requested: None }),
    {
        PathWithRequested { path, requested: None }
    }

    pub fn display(&self) -> (r: String)
        ensures
            r@ == display_spec(self@),
    {
        match &self.requested {
            Some(requested) => requested.clone(),
            None => self.path.clone(),
        }
    }

    pub fn as_owned(&self) -> (r: PathBufWithRequested)
        ensures
            r@ == self@,
    {
        PathBufWithRequested { path: self.path.clone(), requested: clone_opt(&self.requested) }
    }

    pub fn into_owned(self) -> (r: PathBufWithRequested)
        ensures
            r@ == self@,
    {
        PathBufWithRequested { path: self.path, requested: self.requested }
    }
}

impl PathBufWithRequested {
    pub fn only_path(path: String) -> (r: PathBufWithRequested)
        ensures
            r@ == (PathView { path: path@, requested: None }),
    {
        PathBufWithRequested { path, requested: None }
    }

    pub fn as_path_with_requested(&self) -> (r: PathWithRequested)
        ensures
            r@ == self@,
    {
        PathWithRequested { path: self.path.clone(), requested: clone_opt(&self.requested) }
    }
}

/// A path that has passed a permission check, and whether it was
/// canonicalized on the way. Only the checks construct one.
#[derive(Debug)]
pub struct CheckedPath {
    path: PathWithRequested,
    canonicalized: bool,
}

/// The owned form of a checked path.
#[derive(Clone, Debug)]
pub struct CheckedPathBuf {
    path: PathBufWithRequested,
    canonicalized: bool,
}

pub struct CheckedView {
    pub path: PathView,
    pub canonicalized: bool,
}

impl View for CheckedPath {
    type V = CheckedView;

    closed spec fn view(&self) -> CheckedView {
        CheckedView { path: self.path@, canonicalized: self.canonicalized }
    }
}

impl View for CheckedPathBuf {
    type V = CheckedView;

    closed spec fn view(&self) -> CheckedView {
        CheckedView { path: self.path@, canonicalized: self.canonicalized }
    }
}

impl CheckedPath {
    /// Wraps a path that the caller vouches for, not canonicalized.
    pub fn unsafe_new(path: String) -> (r: CheckedPath)
        ensures
            r@ == (CheckedView { path: PathView { path: path@, requested: None }, canonicalized: false }),
    {
        CheckedPath { path: PathWithRequested { path, requested: None }, canonicalized: false }
    }

    /// A checked path built by a check from its resolved path.
    pub fn new(path: PathWithRequested, canonicalized: bool) -> (r: CheckedPath)
        ensures
            r@ == (CheckedView { path: path@, canonicalized }),
    {
        CheckedPath { path, canonicalized }
    }

    pub fn canonicalized(&self) -> (r: bool)
        ensures
            r == self@.canonicalized,
    {
        self.canonicalized
    }

    pub fn display(&self) -> (r: String)
        ensures
            r@ == display_spec(self@.path),
    {
        self.path.display()
    }

    pub fn into_path_with_requested(self) -> (r: PathWithRequested)
        ensures
            r@ == self@.path,
    {
        self.path
    }

    pub fn as_owned(&self) -> (r: CheckedPathBuf)
        ensures
            r@ == self@,
    {
        CheckedPathBuf { path: self.path.as_owned(), canonicalized: self.canonicalized }
    }

    pub fn into_owned(self) -> (r: CheckedPathBuf)
        ensures
            r@ == self@,
    {
        CheckedPathBuf { path: self.path.into_owned(), canonicalized: self.canonicalized }
    }

    pub fn into_path(self) -> (r: String)
        ensures
            r@ == self@.path.path,
    {
        self.path.path
    }

    pub fn into_owned_path(self) -> (r: String)
        ensures
            r@ == self@.path.path,
    {
        self.path.path
    }
}

impl CheckedPathBuf {
    pub fn unsafe_new(path: String) -> (r: CheckedPathBuf)
        ensures
            r@ == (CheckedView { path: PathView { path: path@, requested: None }, canonicalized: false }),
    {
        CheckedPathBuf { path: PathBufWithRequested::only_path(path), canonicalized: false }
    }

    pub fn as_checked_path(&self) -> (r: CheckedPath)
        ensures
            r@ == self@,
    {
        CheckedPath { path: self.path.as_path_with_requested(), canonicalized: self.canonicalized }
    }

    pub fn into_path_buf(self) -> (r: String)
        ensures
            r@ == self@.path.path,
    {
        self.path.path
    }
}

/// How a worker's permission for one unit flag is derived from its parent.
#[derive(Debug, PartialEq, Eq)]
pub enum ChildUnitPermissionArg {
    Inherit,
    Granted,
    NotGranted,
}

/// How a worker's permission for one descriptor flag is derived from its
/// parent.
#[derive(Debug, PartialEq, Eq)]
pub enum ChildUnaryPermissionArg {
    Inherit,
    Granted,
    NotGranted,
    GrantedList(Vec<String>),
}

/// The permissions a worker asks for, flag by flag.
#[derive(Debug, PartialEq, Eq)]
pub struct ChildPermissionsArg {
    pub env: ChildUnaryPermissionArg,
    pub net: ChildUnaryPermissionArg,
    pub ffi: ChildUnaryPermissionArg,
    pub import: ChildUnaryPermissionArg,
    pub read: ChildUnaryPermissionArg,
    pub run: ChildUnaryPermissionArg,
    pub sys: ChildUnaryPermissionArg,
    pub write: ChildUnaryPermissionArg,
}

pub open spec fn all_flags(a: &ChildPermissionsArg, pred: spec_fn(&ChildUnaryPermissionArg) -> bool) -> bool {
    pred(&a.env) && pred(&a.net) && pred(&a.ffi) && pred(&a.import) && pred(&a.read) && pred(&a.run) && pred(&a.sys)
        && pred(&a.write)
}

impl ChildPermissionsArg {
    /// Every flag inherits the parent's permission.
    pub fn inherit() -> (r: ChildPermissionsArg)
        ensures
            all_flags(&r, |f: &ChildUnaryPermissionArg| *f is Inherit),
    {
        ChildPermissionsArg {
            env: ChildUnaryPermissionArg::Inherit,
            net: ChildUnaryPermissionArg::Inherit,
            ffi: ChildUnaryPermissionArg::Inherit,
            import: ChildUnaryPermissionArg::Inherit,
            read: ChildUnaryPermissionArg::Inherit,
            run: ChildUnaryPermissionArg::Inherit,
            sys: ChildUnaryPermissionArg::Inherit,
            write: ChildUnaryPermissionArg::Inherit,
        }
    }

    /// No flag is granted.
    pub fn none() -> (r: ChildPermissionsArg)
        ensures
            all_flags(&r, |f: &ChildUnaryPermissionArg| *f is NotGranted),
    {
        ChildPermissionsArg {
            env: ChildUnaryPermissionArg::NotGranted,
            net: ChildUnaryPermissionArg::NotGranted,
            ffi: ChildUnaryPermissionArg::NotGranted,
            import: ChildUnaryPermissionArg::NotGranted,
            read: ChildUnaryPermissionArg::NotGranted,
            run: ChildUnaryPermissionArg::NotGranted,
            sys: ChildUnaryPermissionArg::NotGranted,
            write: ChildUnaryPermissionArg::NotGranted,
        }
    }
}


/// The permission flags a process starts with: for each flag, no list,
/// an empty list (everything) or the listed values.
pub struct PermissionsOptions {
    pub allow_env: Option<Vec<String>>,
    pub deny_env: Option<Vec<String>>,
    pub ignore_env: Option<Vec<String>>,
    pub allow_net: Option<Vec<String>>,
    pub deny_net: Option<Vec<String>>,
    pub allow_ffi: Option<Vec<String>>,
    pub deny_ffi: Option<Vec<String>>,
    pub allow_read: Option<Vec<String>>,
    pub deny_read: Option<Vec<String>>,
    pub ignore_read: Option<Vec<String>>,
    pub allow_run: Option<Vec<String>>,
    pub deny_run: Option<Vec<String>>,
    pub allow_sys: Option<Vec<String>>,
    pub deny_sys: Option<Vec<String>>,
    pub allow_write: Option<Vec<String>>,
    pub deny_write: Option<Vec<String>>,
    pub allow_import: Option<Vec<String>>,
    pub deny_import: Option<Vec<String>>,
    pub prompt: bool,
}

impl Default for PermissionsOptions {
    /// No flag given and no prompting.
    fn default() -> (r: PermissionsOptions)
        ensures
            r.allow_env is None,
            r.deny_env is None,
            r.ignore_env is None,
            r.allow_net is None,
            r.deny_net is None,
            r.allow_ffi is None,
            r.deny_ffi is None,
            r.allow_read is None,
            r.deny_read is None,
            r.ignore_read is None,
            r.allow_run is None,
            r.deny_run is None,
            r.allow_sys is None,
            r.deny_sys is None,
            r.allow_write is None,
            r.deny_write is None,
            r.allow_import is None,
            r.deny_import is None,
            !r.prompt,
    {
        PermissionsOptions {
            allow_env: None,
            deny_env: None,
            ignore_env: None,
            allow_net: None,
            deny_net: None,
            allow_ffi: None,
            deny_ffi: None,
            allow_read: None,
            deny_read: None,
            ignore_read: None,
            allow_run: None,
            deny_run: None,
            allow_sys: None,
            deny_sys: None,
            allow_write: None,
            deny_write: None,
            allow_import: None,
            deny_import: None,
            prompt: false,
        }
    }
}

} // verus!
