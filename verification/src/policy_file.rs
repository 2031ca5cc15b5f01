//! The policy artifact: its validation before any grant is installed, the
//! mode it selects, the resolution of relative filesystem scopes, and the
//! decision policy built from it. The artifact reaches the library already
//! read from JSON; its object members arrive in the order they were read.
use vstd::prelude::*;
use vstd::string::*;

use crate::capsec::{
    debug_quoted, debug_str, join, join_spec, record, record_spec, records_view, strings_view, AuditRecord, RecordView,
};
use crate::dynamic::{IssueView, OnRequest, Policy, PolicyValidationIssue};
use crate::policy::{bad_token, canonical, grants_view, parse_many_spec, Capability, Family, Grant, Mode};
use crate::text::{concat, starts_with, str_eq, to_owned, trim, trimmed};

verus! {

/// A dynamic ceiling as the artifact writes it: an authority string, which
/// prompts, or an authority with an explicit disposition.
pub enum CeilingFile {
    Authority(String),
    Detailed { authority: String, on_request: String },
}

pub enum CeilingView {
    Authority(Seq<char>),
    Detailed { authority: Seq<char>, on_request: Seq<char> },
}

impl View for CeilingFile {
    type V = CeilingView;

    open spec fn view(&self) -> CeilingView {
        match self {
            CeilingFile::Authority(a) => CeilingView::Authority(a@),
            CeilingFile::Detailed { authority, on_request } => CeilingView::Detailed {
                authority: authority@,
                on_request: on_request@,
            },
        }
    }
}

/// The policy artifact.
pub struct PolicyFile {
    pub mode: Option<String>,
    /// Static grants by package selector.
    pub grants: Vec<(String, String)>,
    /// The runtime-control grants, a namespace apart from packages.
    pub root_grants: String,
    /// Dynamic ceilings by package selector.
    pub ceilings: Vec<(String, CeilingFile)>,
    pub deny_ceiling: String,
    pub deputy_classes: Vec<String>,
}

pub struct PolicyFileView {
    pub mode: Option<Seq<char>>,
    pub grants: Seq<(Seq<char>, Seq<char>)>,
    pub root_grants: Seq<char>,
    pub ceilings: Seq<(Seq<char>, CeilingView)>,
    pub deny_ceiling: Seq<char>,
    pub deputy_classes: Seq<Seq<char>>,
}

pub open spec fn pairs_view(v: Seq<(String, String)>) -> Seq<(Seq<char>, Seq<char>)> {
    v.map_values(|p: (String, String)| (p.0@, p.1@))
}

pub open spec fn ceilings_view(v: Seq<(String, CeilingFile)>) -> Seq<(Seq<char>, CeilingView)> {
    v.map_values(|p: (String, CeilingFile)| (p.0@, p.1@))
}

impl View for PolicyFile {
    type V = PolicyFileView;

    open spec fn view(&self) -> PolicyFileView {
        PolicyFileView {
            mode: match self.mode {
                Some(m) => Some(m@),
                None => None,
            },
            grants: pairs_view(self.grants@),
            root_grants: self.root_grants@,
            ceilings: ceilings_view(self.ceilings@),
            deny_ceiling: self.deny_ceiling@,
            deputy_classes: strings_view(self.deputy_classes@),
        }
    }
}

/// A selector that is empty once trimmed names no package.
pub open spec fn blank(s: Seq<char>) -> bool {
    trimmed(s).len() == 0
}

fn is_blank(s: &str) -> (r: bool)
    ensures
        r == blank(s@),
{
    trim(s).unicode_len() == 0
}

/// The mode names an artifact may give.
pub open spec fn known_mode(m: Seq<char>) -> bool {
    m == "permissive"@ || m == "audit"@ || m == "enforce"@
}

/// How a grant that does not parse is reported.
pub open spec fn grant_error_text(token: Seq<char>) -> Seq<char> {
    "invalid grant token "@ + debug_quoted(token)
}

/// The authority and disposition a ceiling entry stands for.
pub open spec fn ceiling_parts(c: CeilingView) -> (Seq<char>, Option<OnRequest>) {
    match c {
        CeilingView::Authority(a) => (a, Some(OnRequest::Prompt)),
        CeilingView::Detailed { authority, on_request } => (authority, OnRequest::parse_spec(on_request)),
    }
}

/// The first problem among the static grants, in artifact order.
pub open spec fn grants_problem(gs: Seq<(Seq<char>, Seq<char>)>, path: Seq<char>) -> Option<Seq<char>>
    decreases gs.len(),
{
    if gs.len() == 0 {
        None
    } else {
        let (sel, g) = gs[0];
        if blank(sel) {
            Some(path + "#grants: package selector must not be empty"@)
        } else if parse_many_spec(g) is None {
            Some(path + "#grants["@ + debug_quoted(sel) + "]: invalid capsec grant: "@ + grant_error_text(bad_token(g)))
        } else {
            grants_problem(gs.drop_first(), path)
        }
    }
}

/// The first problem among the ceilings, in artifact order.
pub open spec fn ceilings_problem(cs: Seq<(Seq<char>, CeilingView)>, path: Seq<char>) -> Option<Seq<char>>
    decreases cs.len(),
{
    if cs.len() == 0 {
        None
    } else {
        let (sel, c) = cs[0];
        let (authority, disposition) = ceiling_parts(c);
        if blank(sel) {
            Some(path + "#ceilings: package selector must not be empty"@)
        } else if disposition is None {
            Some(path + "#ceilings["@ + debug_quoted(sel) + "].on_request: expected prompt, auto, or deny"@)
        } else if parse_many_spec(authority) is None {
            Some(
                path + "#ceilings["@ + debug_quoted(sel) + "].authority: invalid capsec grant: "@ + grant_error_text(
                    bad_token(authority),
                ),
            )
        } else {
            ceilings_problem(cs.drop_first(), path)
        }
    }
}

/// Every root grant is an inspector row.
pub open spec fn only_inspector(gs: Seq<Capability>) -> bool {
    forall|i: int| 0 <= i < gs.len() ==> gs[i].family == Family::Inspector
}

/// The mode is known, if given.
pub open spec fn mode_ok(f: PolicyFileView) -> bool {
    f.mode matches Some(m) ==> known_mode(m)
}

/// The first problem of the artifact at `path`, checked in this order: the
/// mode, the root grants, the static grants, the deny ceiling, the
/// ceilings.
pub open spec fn file_problem(f: PolicyFileView, path: Seq<char>) -> Option<Seq<char>> {
    if f.mode matches Some(m) && !known_mode(m) {
        Some(
            path + "#mode: unknown mode "@ + debug_quoted(f.mode->0)
                + "; expected permissive, audit, or enforce"@,
        )
    } else if parse_many_spec(f.root_grants) is None {
        Some(path + "#rootGrants: invalid capsec grant: "@ + grant_error_text(bad_token(f.root_grants)))
    } else if !only_inspector(parse_many_spec(f.root_grants)->0) {
        Some(path + "#rootGrants: only the exact static inspector:activate row is supported in oden/capsec/1.1"@)
    } else if grants_problem(f.grants, path) is Some {
        grants_problem(f.grants, path)
    } else if parse_many_spec(f.deny_ceiling) is None {
        Some(path + "#denyCeiling: invalid capsec grant: "@ + grant_error_text(bad_token(f.deny_ceiling)))
    } else {
        ceilings_problem(f.ceilings, path)
    }
}

fn grant_problem_text(prefix: String, token: &str) -> (r: String)
    ensures
        r@ == prefix@ + grant_error_text(token@),
{
    let q = debug_str(token);
    let a = concat(prefix.as_str(), "invalid grant token ");
    concat(a.as_str(), q.as_str())
}

fn is_known_mode(m: &str) -> (r: bool)
    ensures
        r == known_mode(m@),
{
    str_eq(m, "permissive") || str_eq(m, "audit") || str_eq(m, "enforce")
}

/// Validates the whole artifact before any grant is installed; `path` is
/// how the artifact's location is displayed in the message.
pub fn oden_validate_policy_file(file: &PolicyFile, path: &str) -> (r: Result<(), String>)
    ensures
        match r {
            Ok(()) => file_problem(file@, path@) is None,
            Err(m) => file_problem(file@, path@) == Some(m@),
        },
{
    if let Some(mode) = &file.mode {
        if !is_known_mode(mode.as_str()) {
            let a = concat(path, "#mode: unknown mode ");
            let b = concat(a.as_str(), debug_str(mode.as_str()).as_str());
            return Err(concat(b.as_str(), "; expected permissive, audit, or enforce"));
        }
    }
    let root = match Grant::parse_many(file.root_grants.as_str()) {
        Ok(v) => v,
        Err(e) => {
            let prefix = concat(path, "#rootGrants: invalid capsec grant: ");
            return Err(grant_problem_text(prefix, e.input.as_str()));
        },
    };
    let mut k: usize = 0;
    while k < root.len()
        invariant
            mode_ok(file@),
            parse_many_spec(file@.root_grants) == Some(crate::policy::grants_view(root@)),
            k <= root@.len(),
            forall|j: int| 0 <= j < k ==> (#[trigger] root@[j]).family == Family::Inspector,
        decreases root@.len() - k,
    {
        if root[k].family != Family::Inspector {
            assert(crate::policy::grants_view(root@)[k as int].family != Family::Inspector);
            return Err(
                concat(
                    path,
                    "#rootGrants: only the exact static inspector:activate row is supported in oden/capsec/1.1",
                ),
            );
        }
        k = k + 1;
    }
    let ghost gv = pairs_view(file.grants@);
    proof {
        assert(gv.skip(0) =~= gv);
    }
    let mut i: usize = 0;
    while i < file.grants.len()
        invariant
            mode_ok(file@),
            parse_many_spec(file@.root_grants) is Some,
            only_inspector(parse_many_spec(file@.root_grants)->0),
            gv == pairs_view(file.grants@),
            gv == file@.grants,
            i <= gv.len(),
            grants_problem(gv, path@) == grants_problem(gv.skip(i as int), path@),
        decreases gv.len() - i,
    {
        let ghost rest = gv.skip(i as int);
        assert(rest[0] == gv[i as int]);
        assert(rest.drop_first() =~= gv.skip(i + 1));
        let (sel, g) = (&file.grants[i].0, &file.grants[i].1);
        if is_blank(sel.as_str()) {
            return Err(concat(path, "#grants: package selector must not be empty"));
        }
        match Grant::parse_many(g.as_str()) {
            Err(e) => {
                let a = concat(path, "#grants[");
                let b = concat(a.as_str(), debug_str(sel.as_str()).as_str());
                let prefix = concat(b.as_str(), "]: invalid capsec grant: ");
                return Err(grant_problem_text(prefix, e.input.as_str()));
            },
            Ok(_) => {},
        }
        i = i + 1;
    }
    proof {
        assert(gv.skip(gv.len() as int) =~= Seq::<(Seq<char>, Seq<char>)>::empty());
    }
    match Grant::parse_many(file.deny_ceiling.as_str()) {
        Err(e) => {
            let prefix = concat(path, "#denyCeiling: invalid capsec grant: ");
            return Err(grant_problem_text(prefix, e.input.as_str()));
        },
        Ok(_) => {},
    }
    let ghost cv = ceilings_view(file.ceilings@);
    proof {
        assert(cv.skip(0) =~= cv);
    }
    let mut c: usize = 0;
    while c < file.ceilings.len()
        invariant
            mode_ok(file@),
            parse_many_spec(file@.root_grants) is Some,
            only_inspector(parse_many_spec(file@.root_grants)->0),
            grants_problem(file@.grants, path@) is None,
            parse_many_spec(file@.deny_ceiling) is Some,
            cv == ceilings_view(file.ceilings@),
            cv == file@.ceilings,
            c <= cv.len(),
            ceilings_problem(cv, path@) == ceilings_problem(cv.skip(c as int), path@),
        decreases cv.len() - c,
    {
        let ghost rest = cv.skip(c as int);
        assert(rest[0] == cv[c as int]);
        assert(rest.drop_first() =~= cv.skip(c + 1));
        let sel = &file.ceilings[c].0;
        let (authority, disposition) = match &file.ceilings[c].1 {
            CeilingFile::Authority(a) => (a.as_str(), Some(OnRequest::Prompt)),
            CeilingFile::Detailed { authority, on_request } => (authority.as_str(), OnRequest::parse(on_request.as_str())),
        };
        if is_blank(sel.as_str()) {
            return Err(concat(path, "#ceilings: package selector must not be empty"));
        }
        if disposition.is_none() {
            let a = concat(path, "#ceilings[");
            let b = concat(a.as_str(), debug_str(sel.as_str()).as_str());
            return Err(concat(b.as_str(), "].on_request: expected prompt, auto, or deny"));
        }
        match Grant::parse_many(authority) {
            Err(e) => {
                let a = concat(path, "#ceilings[");
                let b = concat(a.as_str(), debug_str(sel.as_str()).as_str());
                let prefix = concat(b.as_str(), "].authority: invalid capsec grant: ");
                return Err(grant_problem_text(prefix, e.input.as_str()));
            },
            Ok(_) => {},
        }
        c = c + 1;
    }
    proof {
        assert(cv.skip(cv.len() as int) =~= Seq::<(Seq<char>, CeilingView)>::empty());
    }
    Ok(())
}

pub open spec fn opt_file(file: Option<&PolicyFile>) -> Option<PolicyFileView> {
    match file {
        Some(f) => Some(f@),
        None => None,
    }
}

/// The mode the artifact selects: an unreadable artifact forces enforce,
/// a missing mode is audit.
pub open spec fn mode_of(file: Option<PolicyFileView>, unreadable: bool) -> Mode {
    if unreadable {
        Mode::Enforce
    } else {
        match file {
            Some(f) => match f.mode {
                Some(m) => if m == "permissive"@ {
                    Mode::Permissive
                } else if m == "enforce"@ {
                    Mode::Enforce
                } else {
                    Mode::Audit
                },
                None => Mode::Audit,
            },
            None => Mode::Audit,
        }
    }
}

pub fn oden_capsec_mode(file: Option<&PolicyFile>, unreadable: bool) -> (r: Mode)
    ensures
        r == mode_of(opt_file(file), unreadable),
{
    if unreadable {
        return Mode::Enforce;
    }
    match file {
        Some(f) => match &f.mode {
            Some(m) => if str_eq(m.as_str(), "permissive") {
                Mode::Permissive
            } else if str_eq(m.as_str(), "enforce") {
                Mode::Enforce
            } else {
                Mode::Audit
            },
            None => Mode::Audit,
        },
        None => Mode::Audit,
    }
}

/// A filesystem scope as the artifact means it: `~/` is the home
/// directory, when known; an absolute scope stays; anything else is under
/// the project root, without a leading `./`.
pub open spec fn resolved_scope(scope: Seq<char>, root: Seq<char>, home: Option<Seq<char>>) -> Seq<char> {
    if "~/"@.is_prefix_of(scope) {
        match home {
            Some(h) => h + "/"@ + scope.skip(2),
            None => scope,
        }
    } else if scope.len() > 0 && scope[0] == '/' {
        scope
    } else {
        root + "/"@ + if "./"@.is_prefix_of(scope) {
            scope.skip(2)
        } else {
            scope
        }
    }
}

pub open spec fn resolved_grant(g: Capability, root: Seq<char>, home: Option<Seq<char>>) -> Capability {
    if g.family == Family::Fs {
        Capability { family: g.family, action: g.action, scope: resolved_scope(g.scope, root, home) }
    } else {
        g
    }
}

/// A grant list with its filesystem scopes resolved, in canonical form; a
/// list that does not parse is left as it is.
pub open spec fn resolve_spec(s: Seq<char>, root: Seq<char>, home: Option<Seq<char>>) -> Seq<char> {
    match parse_many_spec(s) {
        None => s,
        Some(gs) => join_spec(gs.map_values(|g: Capability| canonical(resolved_grant(g, root, home))), ","@),
    }
}

fn resolve_scope(scope: &str, root: &str, home: Option<&str>) -> (r: String)
    ensures
        r@ == resolved_scope(scope@, root@, opt_str_ref2(home)),
{
    proof {
        reveal_strlit("~/");
        reveal_strlit("./");
        reveal_strlit("/");
    }
    let n = scope.unicode_len();
    if starts_with(scope, "~/") {
        match home {
            Some(h) => {
                let a = concat(h, "/");
                let rest = scope.substring_char(2, n);
                concat(a.as_str(), rest)
            },
            None => to_owned(scope),
        }
    } else if n > 0 && scope.get_char(0) == '/' {
        to_owned(scope)
    } else {
        let a = concat(root, "/");
        if starts_with(scope, "./") {
            let rest = scope.substring_char(2, n);
            concat(a.as_str(), rest)
        } else {
            concat(a.as_str(), scope)
        }
    }
}

pub open spec fn opt_str_ref2(o: Option<&str>) -> Option<Seq<char>> {
    match o {
        Some(s) => Some(s@),
        None => None,
    }
}

/// Resolves the filesystem scopes of `grant_str` against `root` and the
/// home directory `home`, if known.
pub fn oden_resolve_grant_scopes(grant_str: &str, root: &str, home: Option<&str>) -> (r: String)
    ensures
        r@ == resolve_spec(grant_str@, root@, opt_str_ref2(home)),
{
    let grants = match Grant::parse_many(grant_str) {
        Ok(v) => v,
        Err(_) => return to_owned(grant_str),
    };
    let ghost gv = grants_view(grants@);
    let ghost hv = opt_str_ref2(home);
    let ghost want = gv.map_values(|g: Capability| canonical(resolved_grant(g, root@, hv)));
    let mut parts: Vec<String> = Vec::new();
    let mut i: usize = 0;
    while i < grants.len()
        invariant
            gv == grants_view(grants@),
            hv == opt_str_ref2(home),
            want == gv.map_values(|g: Capability| canonical(resolved_grant(g, root@, hv))),
            i <= grants@.len(),
            strings_view(parts@) == want.take(i as int),
        decreases grants@.len() - i,
    {
        let g = &grants[i];
        let text = if g.family == Family::Fs {
            let scope = resolve_scope(g.scope.as_str(), root, home);
            let resolved = Grant { family: g.family, action: g.action.clone(), scope };
            resolved.to_string_canonical()
        } else {
            g.to_string_canonical()
        };
        let ghost before = strings_view(parts@);
        parts.push(text);
        assert(strings_view(parts@) =~= before.push(want[i as int]));
        assert(want.take(i + 1) =~= want.take(i as int).push(want[i as int]));
        i = i + 1;
    }
    assert(want.take(grants@.len() as int) =~= want);
    join(&parts, ",")
}

/// The static floor the artifact's grants give selector `s`, in artifact
/// order, after scope resolution.
pub open spec fn floors_from(gs: Seq<(Seq<char>, Seq<char>)>, root: Seq<char>, home: Option<Seq<char>>, s: Seq<char>) -> Seq<
    Capability,
>
    decreases gs.len(),
{
    if gs.len() == 0 {
        Seq::empty()
    } else {
        let prev = floors_from(gs.drop_last(), root, home, s);
        if gs.last().0 == s {
            prev + parse_many_spec(resolve_spec(gs.last().1, root, home))->0
        } else {
            prev
        }
    }
}

/// The selector of the first grant entry that no longer parses once its
/// scopes are resolved.
pub open spec fn first_unresolvable(gs: Seq<(Seq<char>, Seq<char>)>, root: Seq<char>, home: Option<Seq<char>>) -> Option<
    Seq<char>,
>
    decreases gs.len(),
{
    if gs.len() == 0 {
        None
    } else if parse_many_spec(resolve_spec(gs[0].1, root, home)) is None {
        Some(gs[0].0)
    } else {
        first_unresolvable(gs.drop_first(), root, home)
    }
}

/// The ceiling the artifact gives selector `s`, after scope resolution.
pub open spec fn ceilings_from(cs: Seq<(Seq<char>, CeilingView)>, root: Seq<char>, home: Option<Seq<char>>, s: Seq<char>) -> Option<
    (Seq<Capability>, OnRequest),
>
    decreases cs.len(),
{
    if cs.len() == 0 {
        None
    } else {
        let prev = ceilings_from(cs.drop_last(), root, home, s);
        let (authority, disposition) = ceiling_parts(cs.last().1);
        let ra = resolve_spec(authority, root, home);
        if cs.last().0 == s && parse_many_spec(ra) is Some {
            Some(
                (
                    match prev {
                        Some((a, _)) => a,
                        None => Seq::empty(),
                    } + parse_many_spec(ra)->0,
                    disposition->0,
                ),
            )
        } else {
            prev
        }
    }
}

/// The audit records of the ceilings that a deny ceiling conflicts with.
pub open spec fn conflict_records(issues: Seq<IssueView>) -> Seq<RecordView>
    decreases issues.len(),
{
    if issues.len() == 0 {
        Seq::empty()
    } else {
        let prev = conflict_records(issues.drop_last());
        match issues.last() {
            IssueView::CeilingConflicted { selector, ceiling, deny } => prev.push(
                record_spec(selector, "ceiling"@, "conflict"@, ceiling, "deny(ceiling-conflicted)"@, None),
            ),
            _ => prev,
        }
    }
}

/// Some static floor exceeds its ceiling.
pub open spec fn floor_above_ceiling(issues: Seq<IssueView>) -> bool {
    exists|i: int| 0 <= i < issues.len() && issues[i] is FloorAboveCeiling
}

/// The deny ceiling and every ceiling authority of the artifact still
/// parse once their scopes are resolved.
pub open spec fn envelopes_resolve(f: PolicyFileView, root: Seq<char>, home: Option<Seq<char>>) -> bool {
    &&& parse_many_spec(resolve_spec(f.deny_ceiling, root, home)) is Some
    &&& forall|i: int|
        0 <= i < f.ceilings.len() ==> parse_many_spec(
            resolve_spec(#[trigger] ceiling_parts(f.ceilings[i].1).0, root, home),
        ) is Some
}

/// Do the deny ceiling and every ceiling authority still parse once their
/// scopes are resolved?
pub fn oden_envelopes_resolve(f: &PolicyFile, root: &str, home: Option<&str>) -> (r: bool)
    ensures
        r == envelopes_resolve(f@, root@, opt_str_ref2(home)),
{
    let ghost cv = f@.ceilings;
    let ghost hv = opt_str_ref2(home);
    let rd = oden_resolve_grant_scopes(f.deny_ceiling.as_str(), root, home);
    if Grant::parse_many(rd.as_str()).is_err() {
        return false;
    }
    let mut i: usize = 0;
    while i < f.ceilings.len()
        invariant
            cv == f@.ceilings,
            cv == ceilings_view(f.ceilings@),
            hv == opt_str_ref2(home),
            i <= cv.len(),
            forall|j: int|
                0 <= j < i ==> parse_many_spec(resolve_spec(#[trigger] ceiling_parts(cv[j].1).0, root@, hv)) is Some,
        decreases cv.len() - i,
    {
        let authority = match &f.ceilings[i].1 {
            CeilingFile::Authority(a) => a.as_str(),
            CeilingFile::Detailed { authority, .. } => authority.as_str(),
        };
        assert(cv[i as int].1 == f.ceilings@[i as int].1@);
        assert(authority@ == ceiling_parts(cv[i as int].1).0);
        let ra = oden_resolve_grant_scopes(authority, root, home);
        if Grant::parse_many(ra.as_str()).is_err() {
            return false;
        }
        i = i + 1;
    }
    true
}

/// Does every grant of the artifact still parse once its scopes are
/// resolved?
fn grants_resolve(f: &PolicyFile, root: &str, home: Option<&str>) -> (r: bool)
    ensures
        r == (first_unresolvable(f@.grants, root@, opt_str_ref2(home)) is None),
{
    let ghost gv = f@.grants;
    let ghost hv = opt_str_ref2(home);
    assert(gv.skip(0) =~= gv);
    let mut i: usize = 0;
    while i < f.grants.len()
        invariant
            gv == f@.grants,
            gv == pairs_view(f.grants@),
            hv == opt_str_ref2(home),
            i <= gv.len(),
            first_unresolvable(gv, root@, hv) == first_unresolvable(gv.skip(i as int), root@, hv),
        decreases gv.len() - i,
    {
        let ghost rest = gv.skip(i as int);
        assert(rest[0] == gv[i as int]);
        assert(rest.drop_first() =~= gv.skip(i + 1));
        assert(gv[i as int].1 == f.grants@[i as int].1@);
        let resolved = oden_resolve_grant_scopes(f.grants[i].1.as_str(), root, home);
        if Grant::parse_many(resolved.as_str()).is_err() {
            return false;
        }
        i = i + 1;
    }
    assert(gv.skip(i as int).len() == 0);
    true
}

/// Can the policy be built from the artifact: once its grants resolve, do
/// its deny ceiling and ceiling authorities resolve too?
pub fn oden_policy_buildable(f: &PolicyFile, root: &str, home: Option<&str>) -> (r: bool)
    ensures
        r == (first_unresolvable(f@.grants, root@, opt_str_ref2(home)) is None ==> envelopes_resolve(
            f@,
            root@,
            opt_str_ref2(home),
        )),
{
    !grants_resolve(f, root, home) || oden_envelopes_resolve(f, root, home)
}

/// Every ceiling of the artifact names a known disposition.
pub open spec fn dispositions_known(f: PolicyFileView) -> bool {
    forall|i: int| 0 <= i < f.ceilings.len() ==> (#[trigger] ceiling_parts(f.ceilings[i].1)).1 is Some
}

/// Every ceiling of the artifact names a known disposition.
pub fn oden_dispositions_known(f: &PolicyFile) -> (r: bool)
    ensures
        r == dispositions_known(f@),
{
    let ghost cv = f@.ceilings;
    let mut i: usize = 0;
    while i < f.ceilings.len()
        invariant
            cv == f@.ceilings,
            cv == ceilings_view(f.ceilings@),
            i <= cv.len(),
            forall|j: int| 0 <= j < i ==> (#[trigger] ceiling_parts(cv[j].1)).1 is Some,
        decreases cv.len() - i,
    {
        let known = match &f.ceilings[i].1 {
            CeilingFile::Authority(_) => true,
            CeilingFile::Detailed { on_request, .. } => OnRequest::parse(on_request.as_str()).is_some(),
        };
        assert(cv[i as int].1 == f.ceilings@[i as int].1@);
        if !known {
            assert(ceiling_parts(cv[i as int].1).1 is None);
            assert(!dispositions_known(f@));
            return false;
        }
        i = i + 1;
    }
    true
}

/// What building the decision policy produced.
pub struct BuiltPolicy {
    pub policy: Policy,
    /// The audit records of conflicted ceilings.
    pub records: Vec<AuditRecord>,
    /// Some static floor exceeds its ceiling.
    pub invalid: bool,
    /// Why the artifact could not be installed, if it could not; the
    /// policy then denies every package.
    pub unreadable_reason: Option<String>,
}

/// Installs the static grants of the artifact, in order; the first that no
/// longer parses once resolved stops the installation with its selector.
fn install_grants(policy: &mut Policy, f: &PolicyFile, root: &str, home: Option<&str>) -> (r: Result<(), String>)
    requires
        old(policy).wf(),
        old(policy).packages@.len() == 0,
    ensures
        final(policy).wf(),
        final(policy).mode == old(policy).mode,
        final(policy).ceilings@ == old(policy).ceilings@,
        final(policy).deny_ceiling@ == old(policy).deny_ceiling@,
        final(policy).session == old(policy).session,
        match r {
            Ok(()) => first_unresolvable(f@.grants, root@, opt_str_ref2(home)) is None && forall|s: Seq<char>|
                #[trigger] final(policy).floor_of(s) == floors_from(f@.grants, root@, opt_str_ref2(home), s),
            Err(sel) => first_unresolvable(f@.grants, root@, opt_str_ref2(home)) == Some(sel@),
        },
{
    let ghost gv = f@.grants;
    let ghost hv = opt_str_ref2(home);
    proof {
        assert(gv.skip(0) =~= gv);
        assert(gv.take(0) =~= Seq::<(Seq<char>, Seq<char>)>::empty());
    }
    let mut i: usize = 0;
    while i < f.grants.len()
        invariant
            gv == f@.grants,
            gv == pairs_view(f.grants@),
            hv == opt_str_ref2(home),
            i <= gv.len(),
            policy.wf(),
            policy.mode == old(policy).mode,
            policy.ceilings@ == old(policy).ceilings@,
            policy.deny_ceiling@ == old(policy).deny_ceiling@,
            policy.session == old(policy).session,
            first_unresolvable(gv, root@, hv) == first_unresolvable(gv.skip(i as int), root@, hv),
            forall|s: Seq<char>| #[trigger] policy.floor_of(s) == floors_from(gv.take(i as int), root@, hv, s),
        decreases gv.len() - i,
    {
        let ghost rest = gv.skip(i as int);
        assert(rest[0] == gv[i as int]);
        assert(rest.drop_first() =~= gv.skip(i + 1));
        assert(gv.take(i + 1).drop_last() =~= gv.take(i as int));
        assert(gv.take(i + 1).last() == gv[i as int]);
        let sel = &f.grants[i].0;
        let resolved = oden_resolve_grant_scopes(f.grants[i].1.as_str(), root, home);
        assert(gv[i as int].0 == sel@);
        assert(gv[i as int].1 == f.grants@[i as int].1@);
        match policy.grant(sel.as_str(), resolved.as_str()) {
            Err(_) => {
                assert(first_unresolvable(rest, root@, hv) == Some(sel@));
                return Err(sel.clone());
            },
            Ok(()) => {},
        }
        i = i + 1;
    }
    proof {
        assert(gv.skip(gv.len() as int) =~= Seq::<(Seq<char>, Seq<char>)>::empty());
        assert(gv.take(gv.len() as int) =~= gv);
    }
    Ok(())
}

/// Installs the ceilings of the artifact, in order; an authority that no
/// longer parses once resolved is left out.
fn install_ceilings(policy: &mut Policy, f: &PolicyFile, root: &str, home: Option<&str>)
    requires
        old(policy).wf(),
        old(policy).ceilings@.len() == 0,
        dispositions_known(f@),
        envelopes_resolve(f@, root@, opt_str_ref2(home)),
    ensures
        final(policy).wf(),
        final(policy).mode == old(policy).mode,
        final(policy).packages@ == old(policy).packages@,
        final(policy).deny_ceiling@ == old(policy).deny_ceiling@,
        final(policy).session == old(policy).session,
        forall|s: Seq<char>| #[trigger] final(policy).ceiling_of(s) == ceilings_from(f@.ceilings, root@, opt_str_ref2(home), s),
{
    let ghost cv = f@.ceilings;
    let ghost hv = opt_str_ref2(home);
    proof {
        assert(cv.take(0) =~= Seq::<(Seq<char>, CeilingView)>::empty());
    }
    let mut c: usize = 0;
    while c < f.ceilings.len()
        invariant
            cv == f@.ceilings,
            cv == ceilings_view(f.ceilings@),
            dispositions_known(f@),
            envelopes_resolve(f@, root@, hv),
            hv == opt_str_ref2(home),
            c <= cv.len(),
            policy.wf(),
            policy.mode == old(policy).mode,
            policy.packages@ == old(policy).packages@,
            policy.deny_ceiling@ == old(policy).deny_ceiling@,
            policy.session == old(policy).session,
            forall|s: Seq<char>| #[trigger] policy.ceiling_of(s) == ceilings_from(cv.take(c as int), root@, hv, s),
        decreases cv.len() - c,
    {
        assert(cv.take(c + 1).drop_last() =~= cv.take(c as int));
        assert(cv.take(c + 1).last() == cv[c as int]);
        assert(ceiling_parts(cv[c as int].1).1 is Some);
        let sel = &f.ceilings[c].0;
        let (authority, disposition) = match &f.ceilings[c].1 {
            CeilingFile::Authority(a) => (a.as_str(), Some(OnRequest::Prompt)),
            CeilingFile::Detailed { authority, on_request } => (authority.as_str(), OnRequest::parse(on_request.as_str())),
        };
        let ra = oden_resolve_grant_scopes(authority, root, home);
        let ghost p_prev = *policy;
        assert(authority@ == ceiling_parts(cv[c as int].1).0);
        assert(parse_many_spec(ra@) is Some);
        match disposition {
            Some(d) => {
                policy.ceiling(sel.as_str(), ra.as_str(), d);
            },
            None => {},
        }
        assert forall|s: Seq<char>| #[trigger] policy.ceiling_of(s) == ceilings_from(cv.take(c + 1), root@, hv, s) by {
            assert(p_prev.ceiling_of(s) == ceilings_from(cv.take(c as int), root@, hv, s));
        }
        c = c + 1;
    }
    proof {
        assert(cv.take(cv.len() as int) =~= cv);
    }
}

/// Records the conflicted ceilings among `issues` and reports whether a
/// static floor exceeds its ceiling.
fn envelope_outcome(issues: &Vec<PolicyValidationIssue>) -> (r: (Vec<AuditRecord>, bool))
    ensures
        records_view(r.0@) == conflict_records(issues@.map_values(|x: PolicyValidationIssue| x@)),
        r.1 == floor_above_ceiling(issues@.map_values(|x: PolicyValidationIssue| x@)),
{
    let ghost iv = issues@.map_values(|x: PolicyValidationIssue| x@);
    let mut records: Vec<AuditRecord> = Vec::new();
    let mut invalid = false;
    let mut k: usize = 0;
    while k < issues.len()
        invariant
            iv == issues@.map_values(|x: PolicyValidationIssue| x@),
            k <= issues@.len(),
            records_view(records@) == conflict_records(iv.take(k as int)),
            invalid == floor_above_ceiling(iv.take(k as int)),
        decreases issues@.len() - k,
    {
        assert(iv.take(k + 1).drop_last() =~= iv.take(k as int));
        assert(iv.take(k + 1).last() == issues@[k as int]@);
        match &issues[k] {
            PolicyValidationIssue::FloorAboveCeiling { .. } => {
                invalid = true;
                assert(iv.take(k + 1)[k as int] is FloorAboveCeiling);
            },
            PolicyValidationIssue::CeilingConflicted { selector, ceiling, .. } => {
                let ghost before = records_view(records@);
                records.push(
                    record(selector.as_str(), "ceiling", "conflict", ceiling.as_str(), "deny(ceiling-conflicted)", None),
                );
                assert(records_view(records@) =~= before.push(records@.last()@));
            },
        }
        proof {
            let pre = iv.take(k as int);
            let now = iv.take(k + 1);
            if floor_above_ceiling(now) && !(now[k as int] is FloorAboveCeiling) {
                let j = choose|j: int| 0 <= j < now.len() && now[j] is FloorAboveCeiling;
                assert(pre[j] == now[j]);
            }
            if floor_above_ceiling(pre) {
                let j = choose|j: int| 0 <= j < pre.len() && pre[j] is FloorAboveCeiling;
                assert(now[j] == pre[j]);
            }
        }
        k = k + 1;
    }
    assert(iv.take(issues@.len() as int) =~= iv);
    (records, invalid)
}

/// Builds the decision policy from the artifact, resolving filesystem
/// scopes against `root` and `home`. A grant that no longer parses once
/// resolved refuses the artifact: the policy is then an empty enforce
/// policy. The deny ceiling and the ceiling authorities must still parse
/// once resolved (`oden_envelopes_resolve`). Otherwise the envelopes are checked, and conflicted ceilings are
/// recorded.
pub fn oden_capsec_build_policy(file: Option<&PolicyFile>, root: &str, home: Option<&str>, unreadable: bool) -> (r:
    BuiltPolicy)
    requires
        file matches Some(f) ==> dispositions_known(f@),
        match file {
            Some(f) => first_unresolvable(f@.grants, root@, opt_str_ref2(home)) is None ==> envelopes_resolve(
                f@,
                root@,
                opt_str_ref2(home),
            ),
            None => true,
        },
    ensures
        r.policy.wf(),
        r.policy.session.principals@.len() == 0,
        match file {
            Some(f) if first_unresolvable(f@.grants, root@, opt_str_ref2(home)) is Some => {
                &&& r.unreadable_reason matches Some(m) && m@ == "policy selector "@ + debug_quoted(
                    first_unresolvable(f@.grants, root@, opt_str_ref2(home))->0,
                ) + " failed validation after scope resolution"@
                &&& r.policy.mode == Mode::Enforce
                &&& r.policy.packages@.len() == 0
                &&& r.policy.ceilings@.len() == 0
                &&& r.policy.deny_ceiling@.len() == 0
                &&& r.records@.len() == 0
                &&& !r.invalid
            },
            _ => {
                let issues = r.policy.issues_upto(r.policy.ceilings@.len() as int);
                &&& r.unreadable_reason is None
                &&& r.policy.mode == mode_of(opt_file(file), unreadable)
                &&& forall|s: Seq<char>| #[trigger] r.policy.floor_of(s) == match file {
                    Some(f) => floors_from(f@.grants, root@, opt_str_ref2(home), s),
                    None => Seq::empty(),
                }
                &&& forall|s: Seq<char>| #[trigger] r.policy.ceiling_of(s) == match file {
                    Some(f) => ceilings_from(f@.ceilings, root@, opt_str_ref2(home), s),
                    None => None,
                }
                &&& r.policy.deny_view() == match file {
                    Some(f) => parse_many_spec(resolve_spec(f@.deny_ceiling, root@, opt_str_ref2(home)))->0,
                    None => Seq::empty(),
                }
                &&& records_view(r.records@) == conflict_records(issues)
                &&& r.invalid == floor_above_ceiling(issues)
            },
        },
{
    let mut policy = Policy::new(oden_capsec_mode(file, unreadable));
    if let Some(f) = file {
        match install_grants(&mut policy, f, root, home) {
            Err(sel) => {
                let a = concat("policy selector ", debug_str(sel.as_str()).as_str());
                let reason = concat(a.as_str(), " failed validation after scope resolution");
                let empty = Policy::new(Mode::Enforce);
                return BuiltPolicy { policy: empty, records: Vec::new(), invalid: false, unreadable_reason: Some(reason) };
            },
            Ok(()) => {},
        }
        let rd = oden_resolve_grant_scopes(f.deny_ceiling.as_str(), root, home);
        let ghost p_floors = policy;
        policy.deny_ceiling(rd.as_str());
        assert forall|s: Seq<char>| #[trigger] policy.floor_of(s) == p_floors.floor_of(s) by {}
        let ghost p_deny = policy;
        install_ceilings(&mut policy, f, root, home);
        assert forall|s: Seq<char>| #[trigger] policy.floor_of(s) == p_deny.floor_of(s) by {}
    }
    let issues = policy.validate_envelopes();
    let (records, invalid) = envelope_outcome(&issues);
    BuiltPolicy { policy, records, invalid, unreadable_reason: None }
}

} // verus!
