//! The package-capability vocabulary: capability families, grants, requests,
//! principals, and the grant grammar `family:action:scope`.
use vstd::prelude::*;
use vstd::string::*;

use crate::text::{first_index_of, lemma_first_index_of, str_eq, starts_with, find_char, to_owned, concat};

verus! {

/// A capability family at the package-capability layer.
#[derive(Clone, Copy, Debug, PartialEq, Eq, Hash, Structural)]
pub enum Family {
    Fs,
    Env,
    Network,
    Sys,
    Run,
    Ffi,
    Inspector,
}

impl Family {
    pub open spec fn spec_name(self) -> Seq<char> {
        match self {
            Family::Fs => "fs"@,
            Family::Env => "env"@,
            Family::Network => "network"@,
            Family::Sys => "sys"@,
            Family::Run => "run"@,
            Family::Ffi => "ffi"@,
            Family::Inspector => "inspector"@,
        }
    }

    /// The family's name in the grant grammar.
    pub fn name(&self) -> (r: &'static str)
        ensures
            r@ == self.spec_name(),
    {
        match self {
            Family::Fs => "fs",
            Family::Env => "env",
            Family::Network => "network",
            Family::Sys => "sys",
            Family::Run => "run",
            Family::Ffi => "ffi",
            Family::Inspector => "inspector",
        }
    }
}

/// The family whose name is `s`.
pub open spec fn family_from_name(s: Seq<char>) -> Option<Family> {
    if s == "fs"@ {
        Some(Family::Fs)
    } else if s == "env"@ {
        Some(Family::Env)
    } else if s == "network"@ {
        Some(Family::Network)
    } else if s == "sys"@ {
        Some(Family::Sys)
    } else if s == "run"@ {
        Some(Family::Run)
    } else if s == "ffi"@ {
        Some(Family::Ffi)
    } else if s == "inspector"@ {
        Some(Family::Inspector)
    } else {
        None
    }
}

/// Parses a family name.
pub fn parse_family(s: &str) -> (r: Option<Family>)
    ensures
        r == family_from_name(s@),
{
    if str_eq(s, "fs") {
        Some(Family::Fs)
    } else if str_eq(s, "env") {
        Some(Family::Env)
    } else if str_eq(s, "network") {
        Some(Family::Network)
    } else if str_eq(s, "sys") {
        Some(Family::Sys)
    } else if str_eq(s, "run") {
        Some(Family::Run)
    } else if str_eq(s, "ffi") {
        Some(Family::Ffi)
    } else if str_eq(s, "inspector") {
        Some(Family::Inspector)
    } else {
        None
    }
}

/// How a policy answers a request that no grant covers.
#[derive(Clone, Copy, Debug, PartialEq, Eq, Structural)]
pub enum Mode {
    Permissive,
    Audit,
    Enforce,
}

/// The outcome of a capability decision.
#[derive(Clone, Copy, Debug, PartialEq, Eq, Structural)]
pub enum Decision {
    Allow,
    AllowRecord,
    Deny,
}

/// The abstract value of a grant or of a request.
pub struct Capability {
    pub family: Family,
    pub action: Seq<char>,
    pub scope: Seq<char>,
}

/// An authority a principal holds: `family:action:scope`.
#[derive(Clone, Debug, PartialEq, Eq, Hash)]
pub struct Grant {
    pub family: Family,
    pub action: String,
    pub scope: String,
}

impl View for Grant {
    type V = Capability;

    open spec fn view(&self) -> Capability {
        Capability { family: self.family, action: self.action@, scope: self.scope@ }
    }
}

/// An operation a principal attempts: `family:action:target`.
#[derive(Clone, Debug, PartialEq, Eq, Hash)]
pub struct Request {
    pub family: Family,
    pub action: String,
    pub target: String,
}

impl View for Request {
    type V = Capability;

    open spec fn view(&self) -> Capability {
        Capability { family: self.family, action: self.action@, scope: self.target@ }
    }
}

impl Grant {
    /// A copy with the same abstract value.
    pub fn duplicate(&self) -> (r: Grant)
        ensures
            r@ == self@,
    {
        Grant { family: self.family, action: self.action.clone(), scope: self.scope.clone() }
    }

    /// The exact grant that authorizes `req` and nothing broader than its
    /// own action and target.
    pub fn from_request(req: &Request) -> (r: Grant)
        ensures
            r@ == req@,
    {
        Grant { family: req.family, action: req.action.clone(), scope: req.target.clone() }
    }

    /// `family:action:scope`.
    pub fn to_string_canonical(&self) -> (r: String)
        ensures
            r@ == canonical(self@),
    {
        let mut out = String::from_str(self.family.name());
        out.append(":");
        out.append(self.action.as_str());
        out.append(":");
        out.append(self.scope.as_str());
        out
    }

    /// Parses one grant token.
    pub fn parse(s: &str) -> (r: Result<Grant, GrantParseError>)
        ensures
            match r {
                Ok(g) => parse_grant(s@) == Some(g@),
                Err(e) => parse_grant(s@) is None && e.input@ == s@,
            },
    {
        match parse_grant_exec(s) {
            Some(g) => Ok(g),
            None => Err(GrantParseError { input: to_owned(s) }),
        }
    }

    /// Parses a comma-separated list of grant tokens.
    pub fn parse_many(s: &str) -> (r: Result<Vec<Grant>, GrantParseError>)
        ensures
            match r {
                Ok(v) => parse_many_spec(s@) == Some(grants_view(v@)),
                Err(e) => parse_many_spec(s@) is None && e.input@ == bad_token(s@),
            },
        decreases s@.len(),
    {
        if s.unicode_len() == 0 {
            return Ok(Vec::new());
        }
        parse_list(s)
    }
}

impl Request {
    /// A copy with the same abstract value.
    pub fn duplicate(&self) -> (r: Request)
        ensures
            r@ == self@,
    {
        Request { family: self.family, action: self.action.clone(), target: self.target.clone() }
    }
}

/// A grant token that does not follow the grammar.
#[derive(Clone, Debug, PartialEq, Eq)]
pub struct GrantParseError {
    pub input: String,
}

pub open spec fn grants_view(v: Seq<Grant>) -> Seq<Capability> {
    v.map_values(|g: Grant| g@)
}

pub open spec fn canonical(g: Capability) -> Seq<char> {
    g.family.spec_name() + ":"@ + g.action + ":"@ + g.scope
}

/// The grammar of one grant token. Three-part tokens name family, action
/// and scope; `run:CMD`, `sys:KIND`, `ffi:PATH` and `inspector:ACTION` are
/// shorthands, and a bare `ffi` loads anything.
pub open spec fn parse_grant(s: Seq<char>) -> Option<Capability> {
    match first_index_of(s, ':') {
        None => if s == "ffi"@ {
            Some(Capability { family: Family::Ffi, action: "load"@, scope: "*"@ })
        } else {
            None
        },
        Some(i) => {
            let rest = s.skip(i + 1);
            match family_from_name(s.take(i)) {
                None => None,
                Some(f) => match first_index_of(rest, ':') {
                    None => if rest.len() == 0 {
                        None
                    } else {
                        match f {
                            Family::Run => Some(Capability { family: f, action: "run"@, scope: rest }),
                            Family::Sys => Some(Capability { family: f, action: "read"@, scope: rest }),
                            Family::Ffi => Some(Capability { family: f, action: "load"@, scope: rest }),
                            Family::Inspector => Some(Capability { family: f, action: rest, scope: "*"@ }),
                            _ => None,
                        }
                    },
                    Some(j) => {
                        let action = rest.take(j);
                        let scope = rest.skip(j + 1);
                        if action.len() == 0 || scope.len() == 0 {
                            None
                        } else {
                            Some(Capability { family: f, action, scope })
                        }
                    },
                },
            }
        },
    }
}

/// The grammar of a comma-separated grant list; the empty string is the
/// empty list.
pub open spec fn parse_many_spec(s: Seq<char>) -> Option<Seq<Capability>> {
    if s.len() == 0 {
        Some(Seq::empty())
    } else {
        parse_list_spec(s)
    }
}

pub open spec fn parse_list_spec(s: Seq<char>) -> Option<Seq<Capability>>
    decreases s.len(),
{
    match first_index_of(s, ',') {
        None => match parse_grant(s) {
            Some(g) => Some(seq![g]),
            None => None,
        },
        Some(i) => {
            if 0 <= i < s.len() {
                match (parse_grant(s.take(i)), parse_list_spec(s.skip(i + 1))) {
                    (Some(g), Some(rest)) => Some(seq![g] + rest),
                    _ => None,
                }
            } else {
                None
            }
        },
    }
}

/// The first token of a comma-separated list that is not a grant.
pub open spec fn bad_token(s: Seq<char>) -> Seq<char>
    decreases s.len(),
{
    match first_index_of(s, ',') {
        None => s,
        Some(i) => if 0 <= i < s.len() {
            if parse_grant(s.take(i)) is None {
                s.take(i)
            } else {
                bad_token(s.skip(i + 1))
            }
        } else {
            s
        },
    }
}

fn parse_list(s: &str) -> (r: Result<Vec<Grant>, GrantParseError>)
    ensures
        match r {
            Ok(v) => parse_list_spec(s@) == Some(grants_view(v@)),
            Err(e) => parse_list_spec(s@) is None && e.input@ == bad_token(s@),
        },
    decreases s@.len(),
{
    let n = s.unicode_len();
    proof {
        lemma_first_index_of(s@, ',');
    }
    match find_char(s, ',') {
        None => match parse_grant_exec(s) {
            Some(g) => {
                let mut v = Vec::new();
                v.push(g);
                assert(grants_view(v@) =~= seq![g@]);
                Ok(v)
            },
            None => Err(GrantParseError { input: to_owned(s) }),
        },
        Some(i) => {
            let head = s.substring_char(0, i);
            let tail = s.substring_char(i + 1, n);
            assert(head@ == s@.take(i as int));
            assert(tail@ == s@.skip(i + 1));
            match parse_grant_exec(head) {
                None => Err(GrantParseError { input: to_owned(head) }),
                Some(g) => match parse_list(tail) {
                    Err(e) => Err(e),
                    Ok(rest) => {
                        let mut v = Vec::new();
                        v.push(g);
                        let mut rest = rest;
                        let ghost rv = grants_view(rest@);
                        v.append(&mut rest);
                        assert(grants_view(v@) =~= seq![g@] + rv);
                        Ok(v)
                    },
                },
            }
        },
    }
}

fn parse_grant_exec(s: &str) -> (r: Option<Grant>)
    ensures
        match r {
            Some(g) => parse_grant(s@) == Some(g@),
            None => parse_grant(s@) is None,
        },
{
    let n = s.unicode_len();
    proof {
        lemma_first_index_of(s@, ':');
    }
    match find_char(s, ':') {
        None => {
            if str_eq(s, "ffi") {
                Some(Grant { family: Family::Ffi, action: to_owned("load"), scope: to_owned("*") })
            } else {
                None
            }
        },
        Some(i) => {
            let fam = s.substring_char(0, i);
            let rest = s.substring_char(i + 1, n);
            assert(fam@ == s@.take(i as int));
            assert(rest@ == s@.skip(i + 1));
            let m = rest.unicode_len();
            proof {
                lemma_first_index_of(rest@, ':');
            }
            match parse_family(fam) {
                None => None,
                Some(f) => match find_char(rest, ':') {
                    None => {
                        if m == 0 {
                            None
                        } else {
                            match f {
                                Family::Run => Some(Grant { family: f, action: to_owned("run"), scope: to_owned(rest) }),
                                Family::Sys => Some(Grant { family: f, action: to_owned("read"), scope: to_owned(rest) }),
                                Family::Ffi => Some(Grant { family: f, action: to_owned("load"), scope: to_owned(rest) }),
                                Family::Inspector => Some(Grant { family: f, action: to_owned(rest), scope: to_owned("*") }),
                                _ => None,
                            }
                        }
                    },
                    Some(j) => {
                        let action = rest.substring_char(0, j);
                        let scope = rest.substring_char(j + 1, m);
                        assert(action@ == rest@.take(j as int));
                        assert(scope@ == rest@.skip(j + 1));
                        if action.unicode_len() == 0 || scope.unicode_len() == 0 {
                            None
                        } else {
                            Some(Grant { family: f, action: to_owned(action), scope: to_owned(scope) })
                        }
                    },
                },
            }
        },
    }
}

// ---------------------------------------------------------------------------
// Coverage.

/// A grant action authorizes a request action when it is `*` or the same.
pub open spec fn action_covers(grant: Seq<char>, req: Seq<char>) -> bool {
    grant == "*"@ || grant == req
}

/// `scope` is a path-prefix of `target` at a component boundary.
pub open spec fn path_prefix(scope: Seq<char>, target: Seq<char>) -> bool {
    &&& scope.is_prefix_of(target)
    &&& target.len() > scope.len()
    &&& (target[scope.len() as int] == '/' || (scope.len() > 0 && scope.last() == '/'))
}

/// A grant scope reaches a request target when it is the same string, when
/// it is a prefix pattern `P*` and `P` begins the target (`*` alone reaches
/// every target), or, for the filesystem, when it names an ancestor
/// directory of the target.
pub open spec fn scope_covers(family: Family, scope: Seq<char>, target: Seq<char>) -> bool {
    ||| scope == target
    ||| (scope.len() > 0 && scope.last() == '*' && scope.drop_last().is_prefix_of(target))
    ||| (family == Family::Fs && path_prefix(scope, target))
}

pub open spec fn grant_covers(g: Capability, r: Capability) -> bool {
    &&& g.family == r.family
    &&& action_covers(g.action, r.action)
    &&& scope_covers(g.family, g.scope, r.scope)
}

pub open spec fn covers_spec(gs: Seq<Capability>, r: Capability) -> bool {
    exists|i: int| 0 <= i < gs.len() && grant_covers(gs[i], r)
}

/// Two grants overlap: same family, compatible actions, and one scope
/// reaches the other.
pub open spec fn grants_intersect_spec(a: Capability, b: Capability) -> bool {
    &&& a.family == b.family
    &&& (a.action == "*"@ || b.action == "*"@ || a.action == b.action)
    &&& (scope_covers(a.family, a.scope, b.scope) || scope_covers(a.family, b.scope, a.scope))
}

fn action_covers_exec(grant: &str, req: &str) -> (r: bool)
    ensures
        r == action_covers(grant@, req@),
{
    str_eq(grant, "*") || str_eq(grant, req)
}

fn path_prefix_exec(scope: &str, target: &str) -> (r: bool)
    ensures
        r == path_prefix(scope@, target@),
{
    let n = scope.unicode_len();
    let m = target.unicode_len();
    if !starts_with(target, scope) || m <= n {
        return false;
    }
    target.get_char(n) == '/' || (n > 0 && scope.get_char(n - 1) == '/')
}

fn scope_covers_exec(family: Family, scope: &str, target: &str) -> (r: bool)
    ensures
        r == scope_covers(family, scope@, target@),
{
    if str_eq(scope, target) {
        return true;
    }
    let n = scope.unicode_len();
    if n > 0 && scope.get_char(n - 1) == '*' {
        let stem = scope.substring_char(0, n - 1);
        assert(stem@ == scope@.drop_last());
        if starts_with(target, stem) {
            return true;
        }
    }
    family == Family::Fs && path_prefix_exec(scope, target)
}

/// Does the grant authorize the request?
pub fn grant_covers_exec(g: &Grant, r: &Request) -> (b: bool)
    ensures
        b == grant_covers(g@, r@),
{
    g.family == r.family && action_covers_exec(g.action.as_str(), r.action.as_str())
        && scope_covers_exec(g.family, g.scope.as_str(), r.target.as_str())
}

/// Does any of the grants authorize the request?
pub fn covers(grants: &[Grant], req: &Request) -> (b: bool)
    ensures
        b == covers_spec(grants_view(grants@), req@),
{
    let mut i: usize = 0;
    while i < grants.len()
        invariant
            i <= grants.len(),
            forall|j: int| 0 <= j < i ==> !grant_covers(#[trigger] grants@[j]@, req@),
        decreases grants.len() - i,
    {
        if grant_covers_exec(&grants[i], req) {
            assert(grants_view(grants@)[i as int] == grants@[i as int]@);
            return true;
        }
        i = i + 1;
    }
    proof {
        if covers_spec(grants_view(grants@), req@) {
            let k = choose|k: int| 0 <= k < grants_view(grants@).len() && grant_covers(grants_view(grants@)[k], req@);
            assert(grants_view(grants@)[k] == grants@[k]@);
        }
    }
    false
}

/// Do two grants overlap?
pub fn grants_intersect(a: &Grant, b: &Grant) -> (r: bool)
    ensures
        r == grants_intersect_spec(a@, b@),
{
    a.family == b.family && (str_eq(a.action.as_str(), "*") || str_eq(b.action.as_str(), "*")
        || str_eq(a.action.as_str(), b.action.as_str()))
        && (scope_covers_exec(a.family, a.scope.as_str(), b.scope.as_str())
        || scope_covers_exec(a.family, b.scope.as_str(), a.scope.as_str()))
}

// ---------------------------------------------------------------------------
// Principals.

/// The actor an operation is attributed to.
#[derive(Clone, Debug, PartialEq, Eq, Hash)]
pub enum Principal {
    /// The application's own code.
    Root,
    /// The runtime acting for itself.
    Runtime,
    /// No frame could be attributed: the fail-closed sentinel.
    NoUser,
    /// Code whose provenance failed its integrity binding.
    Quarantine,
    Package { name: String, version: Option<String> },
    Jsr { name: String, version: Option<String> },
    Url { url: String },
}

/// The abstract value of a principal.
pub enum PrincipalView {
    Root,
    Runtime,
    NoUser,
    Quarantine,
    Package { name: Seq<char>, version: Option<Seq<char>> },
    Jsr { name: Seq<char>, version: Option<Seq<char>> },
    Url { url: Seq<char> },
}

pub open spec fn opt_string_view(o: Option<String>) -> Option<Seq<char>> {
    match o {
        Some(s) => Some(s@),
        None => None,
    }
}

impl View for Principal {
    type V = PrincipalView;

    open spec fn view(&self) -> PrincipalView {
        match self {
            Principal::Root => PrincipalView::Root,
            Principal::Runtime => PrincipalView::Runtime,
            Principal::NoUser => PrincipalView::NoUser,
            Principal::Quarantine => PrincipalView::Quarantine,
            Principal::Package { name, version } => PrincipalView::Package { name: name@, version: opt_string_view(*version) },
            Principal::Jsr { name, version } => PrincipalView::Jsr { name: name@, version: opt_string_view(*version) },
            Principal::Url { url } => PrincipalView::Url { url: url@ },
        }
    }
}

impl PrincipalView {
    /// A human-readable name for audit records and messages.
    pub open spec fn label_spec(self) -> Seq<char> {
        match self {
            PrincipalView::Root => "root"@,
            PrincipalView::Runtime => "root/runtime"@,
            PrincipalView::NoUser => "no-user"@,
            PrincipalView::Quarantine => "quarantine"@,
            PrincipalView::Package { name, .. } => name,
            PrincipalView::Jsr { name, .. } => "jsr:"@ + name,
            PrincipalView::Url { url } => url,
        }
    }

    pub open spec fn is_ambient(self) -> bool {
        matches!(self, PrincipalView::Root | PrincipalView::Runtime)
    }

    pub open spec fn selector(self) -> Option<Seq<char>> {
        match self {
            PrincipalView::Package { name, .. } => Some(name),
            PrincipalView::Jsr { name, .. } => Some(name),
            PrincipalView::Url { url } => Some(url),
            _ => None,
        }
    }
}

impl Principal {
    pub open spec fn spec_is_ambient(&self) -> bool {
        self@.is_ambient()
    }

    pub open spec fn spec_selector(&self) -> Option<Seq<char>> {
        self@.selector()
    }

    /// Do two principals denote the same actor?
    pub fn same_as(&self, other: &Principal) -> (r: bool)
        ensures
            r == (self@ == other@),
    {
        match (self, other) {
            (Principal::Root, Principal::Root) => true,
            (Principal::Runtime, Principal::Runtime) => true,
            (Principal::NoUser, Principal::NoUser) => true,
            (Principal::Quarantine, Principal::Quarantine) => true,
            (Principal::Package { name: a, version: va }, Principal::Package { name: b, version: vb }) => {
                str_eq(a.as_str(), b.as_str()) && opt_string_eq(va, vb)
            },
            (Principal::Jsr { name: a, version: va }, Principal::Jsr { name: b, version: vb }) => {
                str_eq(a.as_str(), b.as_str()) && opt_string_eq(va, vb)
            },
            (Principal::Url { url: a }, Principal::Url { url: b }) => str_eq(a.as_str(), b.as_str()),
            _ => false,
        }
    }

    /// Ambient principals hold all authority and are never constrained.
    pub fn is_ambient(&self) -> (r: bool)
        ensures
            r == self.spec_is_ambient(),
    {
        match self {
            Principal::Root | Principal::Runtime => true,
            _ => false,
        }
    }

    /// The policy key under which this principal's grants are filed.
    pub fn selector(&self) -> (r: Option<String>)
        ensures
            match r {
                Some(s) => self.spec_selector() == Some(s@),
                None => self.spec_selector() is None,
            },
    {
        match self {
            Principal::Package { name, .. } => Some(name.clone()),
            Principal::Jsr { name, .. } => Some(name.clone()),
            Principal::Url { url } => Some(url.clone()),
            _ => None,
        }
    }

    /// A human-readable name for audit records and messages.
    pub fn label(&self) -> (r: String)
        ensures
            r@ == self.spec_label(),
    {
        match self {
            Principal::Root => to_owned("root"),
            Principal::Runtime => to_owned("root/runtime"),
            Principal::NoUser => to_owned("no-user"),
            Principal::Quarantine => to_owned("quarantine"),
            Principal::Package { name, .. } => name.clone(),
            Principal::Jsr { name, .. } => concat("jsr:", name.as_str()),
            Principal::Url { url } => url.clone(),
        }
    }

    pub open spec fn spec_label(&self) -> Seq<char> {
        self@.label_spec()
    }

    /// A copy of this principal.
    pub fn duplicate(&self) -> (r: Principal)
        ensures
            r@ == self@,
            r.spec_is_ambient() == self.spec_is_ambient(),
            r.spec_selector() == self.spec_selector(),
            r.spec_label() == self.spec_label(),
    {
        match self {
            Principal::Root => Principal::Root,
            Principal::Runtime => Principal::Runtime,
            Principal::NoUser => Principal::NoUser,
            Principal::Quarantine => Principal::Quarantine,
            Principal::Package { name, version } => Principal::Package {
                name: name.clone(),
                version: match version {
                    Some(v) => Some(v.clone()),
                    None => None,
                },
            },
            Principal::Jsr { name, version } => Principal::Jsr {
                name: name.clone(),
                version: match version {
                    Some(v) => Some(v.clone()),
                    None => None,
                },
            },
            Principal::Url { url } => Principal::Url { url: url.clone() },
        }
    }
}

fn opt_string_eq(a: &Option<String>, b: &Option<String>) -> (r: bool)
    ensures
        r == (opt_string_view(*a) == opt_string_view(*b)),
{
    match (a, b) {
        (Some(x), Some(y)) => str_eq(x.as_str(), y.as_str()),
        (None, None) => true,
        _ => false,
    }
}

} // verus!
