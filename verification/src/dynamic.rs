//! Ceiling-bounded dynamic permission state for package principals: the
//! static floor, the escalation ceilings and the deny ceiling of a policy,
//! and the request state machine over the session overlay.
use vstd::prelude::*;
use vstd::string::*;

use crate::overlay::{widens_at_most, SessionOverlay, MAX_SESSION_PRINCIPALS};
use crate::policy::{
    canonical, covers, covers_spec, grant_covers, grant_covers_exec, grants_intersect,
    grants_intersect_spec, grants_view, parse_many_spec, Capability, Decision, Grant,
    GrantParseError, Mode, Principal, PrincipalView, Request,
};
use crate::text::str_eq;

verus! {

/// How a within-ceiling request is answered.
#[derive(Clone, Copy, Debug, PartialEq, Eq, Structural)]
pub enum OnRequest {
    Prompt,
    Auto,
    Deny,
}

impl OnRequest {
    pub open spec fn parse_spec(value: Seq<char>) -> Option<OnRequest> {
        if value == "prompt"@ {
            Some(OnRequest::Prompt)
        } else if value == "auto"@ {
            Some(OnRequest::Auto)
        } else if value == "deny"@ {
            Some(OnRequest::Deny)
        } else {
            None
        }
    }

    /// Parses a disposition name.
    pub fn parse(value: &str) -> (r: Option<OnRequest>)
        ensures
            r == OnRequest::parse_spec(value@),
    {
        if str_eq(value, "prompt") {
            Some(OnRequest::Prompt)
        } else if str_eq(value, "auto") {
            Some(OnRequest::Auto)
        } else if str_eq(value, "deny") {
            Some(OnRequest::Deny)
        } else {
            None
        }
    }
}

/// The authority a principal may still acquire at run time, and how a
/// request within it is answered.
#[derive(Debug)]
pub struct EscalationCeiling {
    pub authority: Vec<Grant>,
    pub on_request: OnRequest,
}

/// A defect of a policy's envelopes.
#[derive(Debug, PartialEq, Eq)]
pub enum PolicyValidationIssue {
    FloorAboveCeiling { selector: String, grant: String },
    CeilingConflicted { selector: String, ceiling: String, deny: String },
}

pub enum IssueView {
    FloorAboveCeiling { selector: Seq<char>, grant: Seq<char> },
    CeilingConflicted { selector: Seq<char>, ceiling: Seq<char>, deny: Seq<char> },
}

impl View for PolicyValidationIssue {
    type V = IssueView;

    open spec fn view(&self) -> IssueView {
        match self {
            PolicyValidationIssue::FloorAboveCeiling { selector, grant } => IssueView::FloorAboveCeiling {
                selector: selector@,
                grant: grant@,
            },
            PolicyValidationIssue::CeilingConflicted { selector, ceiling, deny } => IssueView::CeilingConflicted {
                selector: selector@,
                ceiling: ceiling@,
                deny: deny@,
            },
        }
    }
}

#[derive(Clone, Copy, Debug, PartialEq, Eq, Structural)]
pub enum DynamicPermissionState {
    Granted,
    Denied,
}

#[derive(Clone, Copy, Debug, PartialEq, Eq, Structural)]
pub enum DynamicQueryState {
    Ambient,
    Granted,
    Prompt,
    Denied,
}

/// The answer code a dynamic request receives.
#[derive(Clone, Copy, Debug, PartialEq, Eq, Hash, Structural)]
pub enum DynamicRequestCode {
    Granted,
    Refused,
    AboveCeiling,
    DenyCeiling,
    Unanswered,
    Unattributed,
    Ambiguous,
    Capacity,
}

impl DynamicRequestCode {
    pub open spec fn spec_str(self) -> Seq<char> {
        match self {
            DynamicRequestCode::Granted => "OD-CAP-REQ-GRANTED"@,
            DynamicRequestCode::Refused => "OD-CAP-REQ-REFUSED"@,
            DynamicRequestCode::AboveCeiling => "OD-CAP-REQ-ABOVE-CEILING"@,
            DynamicRequestCode::DenyCeiling => "OD-CAP-REQ-DENY-CEILING"@,
            DynamicRequestCode::Unanswered => "OD-CAP-REQ-UNANSWERED"@,
            DynamicRequestCode::Unattributed => "OD-CAP-REQ-UNATTRIBUTED"@,
            DynamicRequestCode::Ambiguous => "OD-CAP-REQ-AMBIGUOUS"@,
            DynamicRequestCode::Capacity => "OD-CAP-REQ-CAPACITY"@,
        }
    }

    /// The stable diagnostic code.
    pub fn as_str(self) -> (r: &'static str)
        ensures
            r@ == self.spec_str(),
    {
        match self {
            DynamicRequestCode::Granted => "OD-CAP-REQ-GRANTED",
            DynamicRequestCode::Refused => "OD-CAP-REQ-REFUSED",
            DynamicRequestCode::AboveCeiling => "OD-CAP-REQ-ABOVE-CEILING",
            DynamicRequestCode::DenyCeiling => "OD-CAP-REQ-DENY-CEILING",
            DynamicRequestCode::Unanswered => "OD-CAP-REQ-UNANSWERED",
            DynamicRequestCode::Unattributed => "OD-CAP-REQ-UNATTRIBUTED",
            DynamicRequestCode::Ambiguous => "OD-CAP-REQ-AMBIGUOUS",
            DynamicRequestCode::Capacity => "OD-CAP-REQ-CAPACITY",
        }
    }
}

/// Who decided a granted dynamic request.
#[derive(Clone, Copy, Debug, PartialEq, Eq, Structural)]
pub enum DynamicDecider {
    Existing,
    Policy,
    Interactive,
    Broker,
}

impl DynamicDecider {
    pub open spec fn spec_str(self) -> Seq<char> {
        match self {
            DynamicDecider::Existing => "existing"@,
            DynamicDecider::Policy => "policy"@,
            DynamicDecider::Interactive => "interactive"@,
            DynamicDecider::Broker => "broker"@,
        }
    }

    pub fn as_str(self) -> (r: &'static str)
        ensures
            r@ == self.spec_str(),
    {
        match self {
            DynamicDecider::Existing => "existing",
            DynamicDecider::Policy => "policy",
            DynamicDecider::Interactive => "interactive",
            DynamicDecider::Broker => "broker",
        }
    }
}

/// The outcome of a dynamic request.
#[derive(Debug, PartialEq, Eq)]
pub struct DynamicRequestResult {
    pub state: DynamicPermissionState,
    pub code: DynamicRequestCode,
    pub decider: Option<DynamicDecider>,
    pub session_grant: Option<Grant>,
    pub ceiling: Option<Grant>,
    pub memoized: bool,
}

pub struct ResultView {
    pub state: DynamicPermissionState,
    pub code: DynamicRequestCode,
    pub decider: Option<DynamicDecider>,
    pub session_grant: Option<Capability>,
    pub ceiling: Option<Capability>,
    pub memoized: bool,
}

pub open spec fn opt_cap(g: Option<Grant>) -> Option<Capability> {
    match g {
        Some(g) => Some(g@),
        None => None,
    }
}

impl View for DynamicRequestResult {
    type V = ResultView;

    open spec fn view(&self) -> ResultView {
        ResultView {
            state: self.state,
            code: self.code,
            decider: self.decider,
            session_grant: opt_cap(self.session_grant),
            ceiling: opt_cap(self.ceiling),
            memoized: self.memoized,
        }
    }
}

/// The first stage of a dynamic request: settled, ambient, or waiting for
/// a decider within the covering ceiling entry.
#[derive(Debug, PartialEq, Eq)]
pub enum DynamicRequestEvaluation {
    Ambient,
    Terminal(DynamicRequestResult),
    NeedsDecision { ceiling: Grant },
}

pub enum EvaluationView {
    Ambient,
    Terminal(ResultView),
    NeedsDecision { ceiling: Capability },
}

impl View for DynamicRequestEvaluation {
    type V = EvaluationView;

    open spec fn view(&self) -> EvaluationView {
        match self {
            DynamicRequestEvaluation::Ambient => EvaluationView::Ambient,
            DynamicRequestEvaluation::Terminal(r) => EvaluationView::Terminal(r@),
            DynamicRequestEvaluation::NeedsDecision { ceiling } => EvaluationView::NeedsDecision {
                ceiling: ceiling@,
            },
        }
    }
}

pub open spec fn granted_view(decider: DynamicDecider, session_grant: Option<Capability>, ceiling: Option<Capability>) -> ResultView {
    ResultView {
        state: DynamicPermissionState::Granted,
        code: DynamicRequestCode::Granted,
        decider: Some(decider),
        session_grant,
        ceiling,
        memoized: false,
    }
}

pub open spec fn denied_view(code: DynamicRequestCode, ceiling: Option<Capability>, memoized: bool) -> ResultView {
    ResultView {
        state: DynamicPermissionState::Denied,
        code,
        decider: None,
        session_grant: None,
        ceiling,
        memoized,
    }
}

fn granted(decider: DynamicDecider, session_grant: Option<Grant>, ceiling: Option<Grant>) -> (r: DynamicRequestResult)
    ensures
        r@ == granted_view(decider, opt_cap(session_grant), opt_cap(ceiling)),
{
    DynamicRequestResult {
        state: DynamicPermissionState::Granted,
        code: DynamicRequestCode::Granted,
        decider: Some(decider),
        session_grant,
        ceiling,
        memoized: false,
    }
}

fn denied(code: DynamicRequestCode, ceiling: Option<Grant>, memoized: bool) -> (r: DynamicRequestResult)
    ensures
        r@ == denied_view(code, opt_cap(ceiling), memoized),
{
    DynamicRequestResult {
        state: DynamicPermissionState::Denied,
        code,
        decider: None,
        session_grant: None,
        ceiling,
        memoized,
    }
}

// ---------------------------------------------------------------------------
// Selector-keyed tables.

pub open spec fn sel_index<T>(v: Seq<(String, T)>, sel: Seq<char>) -> Option<int>
    decreases v.len(),
{
    if v.len() == 0 {
        None
    } else if v.last().0@ == sel {
        Some(v.len() - 1)
    } else {
        sel_index(v.drop_last(), sel)
    }
}

pub proof fn lemma_sel_index<T>(v: Seq<(String, T)>, sel: Seq<char>)
    ensures
        match sel_index(v, sel) {
            Some(i) => 0 <= i < v.len() && v[i].0@ == sel,
            None => forall|j: int| 0 <= j < v.len() ==> v[j].0@ != sel,
        },
    decreases v.len(),
{
    if v.len() > 0 && v.last().0@ != sel {
        lemma_sel_index(v.drop_last(), sel);
        assert forall|j: int| 0 <= j < v.len() - 1 implies v[j] == v.drop_last()[j] by {}
    }
}

fn find_sel<T>(v: &Vec<(String, T)>, sel: &str) -> (r: Option<usize>)
    ensures
        match r {
            Some(i) => sel_index(v@, sel@) == Some(i as int),
            None => sel_index(v@, sel@) is None,
        },
{
    let mut i = v.len();
    assert(v@.take(i as int) =~= v@);
    while i > 0
        invariant
            i <= v@.len(),
            sel_index(v@, sel@) == sel_index(v@.take(i as int), sel@),
        decreases i,
    {
        assert(v@.take(i as int).drop_last() =~= v@.take(i - 1));
        if str_eq(v[i - 1].0.as_str(), sel) {
            return Some(i - 1);
        }
        i = i - 1;
    }
    None
}

/// Does some entry of `deny` overlap `g`?
pub open spec fn intersects_any(g: Capability, deny: Seq<Capability>) -> bool {
    exists|i: int| 0 <= i < deny.len() && grants_intersect_spec(g, deny[i])
}

/// The first entry of `auth` that the deny ceiling leaves active and that
/// covers `req`.
pub open spec fn first_active_covering(auth: Seq<Capability>, deny: Seq<Capability>, req: Capability) -> Option<Capability>
    decreases auth.len(),
{
    if auth.len() == 0 {
        None
    } else if !intersects_any(auth[0], deny) && grant_covers(auth[0], req) {
        Some(auth[0])
    } else {
        first_active_covering(auth.drop_first(), deny, req)
    }
}

/// The entries of `auth` that the deny ceiling leaves active, in order.
pub open spec fn active_entries(auth: Seq<Capability>, deny: Seq<Capability>) -> Seq<Capability>
    decreases auth.len(),
{
    if auth.len() == 0 {
        Seq::empty()
    } else if !intersects_any(auth.last(), deny) {
        active_entries(auth.drop_last(), deny).push(auth.last())
    } else {
        active_entries(auth.drop_last(), deny)
    }
}

/// The first entry of `deny` that overlaps `g`.
pub open spec fn first_deny_hit(g: Capability, deny: Seq<Capability>) -> Option<Capability>
    decreases deny.len(),
{
    if deny.len() == 0 {
        None
    } else if grants_intersect_spec(g, deny[0]) {
        Some(deny[0])
    } else {
        first_deny_hit(g, deny.drop_first())
    }
}

pub proof fn lemma_first_deny_hit(g: Capability, deny: Seq<Capability>, i: int)
    requires
        0 <= i <= deny.len(),
        forall|j: int| 0 <= j < i ==> !grants_intersect_spec(g, #[trigger] deny[j]),
    ensures
        i < deny.len() && grants_intersect_spec(g, deny[i]) ==> first_deny_hit(g, deny) == Some(deny[i]),
        i == deny.len() ==> first_deny_hit(g, deny) is None && !intersects_any(g, deny),
    decreases deny.len(),
{
    if deny.len() > 0 && i > 0 {
        assert forall|j: int| 0 <= j < i - 1 implies !grants_intersect_spec(g, #[trigger] deny.drop_first()[j]) by {
            assert(deny.drop_first()[j] == deny[j + 1]);
        }
        lemma_first_deny_hit(g, deny.drop_first(), i - 1);
        if i == deny.len() {
            assert forall|j: int| 0 <= j < deny.len() implies !grants_intersect_spec(g, deny[j]) by {}
        }
    }
}

pub proof fn lemma_first_active_covering(auth: Seq<Capability>, deny: Seq<Capability>, req: Capability, i: int)
    requires
        0 <= i <= auth.len(),
        forall|j: int| 0 <= j < i ==> !(!intersects_any(#[trigger] auth[j], deny) && grant_covers(auth[j], req)),
    ensures
        i < auth.len() && !intersects_any(auth[i], deny) && grant_covers(auth[i], req) ==> first_active_covering(
            auth,
            deny,
            req,
        ) == Some(auth[i]),
        i == auth.len() ==> first_active_covering(auth, deny, req) is None,
    decreases auth.len(),
{
    if auth.len() > 0 && i > 0 {
        assert forall|j: int| 0 <= j < i - 1 implies !(!intersects_any(#[trigger] auth.drop_first()[j], deny) && grant_covers(
            auth.drop_first()[j],
            req,
        )) by {
            assert(auth.drop_first()[j] == auth[j + 1]);
        }
        lemma_first_active_covering(auth.drop_first(), deny, req, i - 1);
    }
}

pub open spec fn conflicts(sel: Seq<char>, auth: Seq<Capability>, deny: Seq<Capability>) -> Seq<IssueView>
    decreases auth.len(),
{
    if auth.len() == 0 {
        Seq::empty()
    } else {
        let rest = conflicts(sel, auth.drop_last(), deny);
        match first_deny_hit(auth.last(), deny) {
            Some(d) => rest.push(
                IssueView::CeilingConflicted { selector: sel, ceiling: canonical(auth.last()), deny: canonical(d) },
            ),
            None => rest,
        }
    }
}

pub open spec fn floor_issues(sel: Seq<char>, floors: Seq<Capability>, active: Seq<Capability>) -> Seq<IssueView>
    decreases floors.len(),
{
    if floors.len() == 0 {
        Seq::empty()
    } else {
        let rest = floor_issues(sel, floors.drop_last(), active);
        if covers_spec(active, floors.last()) {
            rest
        } else {
            rest.push(IssueView::FloorAboveCeiling { selector: sel, grant: canonical(floors.last()) })
        }
    }
}

/// The policy of a process: the static floor of each selector, the
/// escalation ceilings, the process-wide deny ceiling, and the session
/// overlay of dynamic decisions.
pub struct Policy {
    pub mode: Mode,
    pub packages: Vec<(String, Vec<Grant>)>,
    pub ceilings: Vec<(String, EscalationCeiling)>,
    pub deny_ceiling: Vec<Grant>,
    pub session: SessionOverlay,
}

impl Policy {
    pub open spec fn wf(&self) -> bool {
        self.session.wf()
    }

    /// The static grants of `sel`.
    pub open spec fn floor_of(&self, sel: Seq<char>) -> Seq<Capability> {
        match sel_index(self.packages@, sel) {
            Some(i) => grants_view(self.packages@[i].1@),
            None => Seq::empty(),
        }
    }

    pub open spec fn deny_view(&self) -> Seq<Capability> {
        grants_view(self.deny_ceiling@)
    }

    pub open spec fn ceiling_of(&self, sel: Seq<char>) -> Option<(Seq<Capability>, OnRequest)> {
        match sel_index(self.ceilings@, sel) {
            Some(i) => Some((grants_view(self.ceilings@[i].1.authority@), self.ceilings@[i].1.on_request)),
            None => None,
        }
    }

    /// The ceiling entries of `sel` that the deny ceiling leaves active.
    pub open spec fn active_ceiling_spec(&self, sel: Seq<char>) -> Seq<Capability> {
        match self.ceiling_of(sel) {
            Some((auth, _)) => active_entries(auth, self.deny_view()),
            None => Seq::empty(),
        }
    }

    pub open spec fn covering_ceiling_spec(&self, sel: Seq<char>, req: Capability) -> Option<Capability> {
        match self.ceiling_of(sel) {
            Some((auth, _)) => first_active_covering(auth, self.deny_view(), req),
            None => None,
        }
    }

    pub open spec fn deny_ceiling_intersects_spec(&self, req: Capability) -> bool {
        intersects_any(req, self.deny_view())
    }

    /// Does the policy let `p` perform `req` now?
    pub open spec fn grants_spec(&self, p: PrincipalView, req: Capability) -> bool {
        if p.is_ambient() {
            true
        } else {
            match p.selector() {
                None => false,
                Some(sel) => self.session.effective_spec(sel, req, covers_spec(self.floor_of(sel), req)),
            }
        }
    }

    pub open spec fn fallback(&self) -> Decision {
        match self.mode {
            Mode::Permissive => Decision::Allow,
            Mode::Audit => Decision::AllowRecord,
            Mode::Enforce => Decision::Deny,
        }
    }

    pub open spec fn decide_spec(&self, p: PrincipalView, req: Capability) -> Decision {
        if self.grants_spec(p, req) {
            Decision::Allow
        } else {
            self.fallback()
        }
    }

    pub open spec fn all_granted(&self, set: Seq<PrincipalView>, req: Capability) -> bool {
        forall|i: int| 0 <= i < set.len() ==> self.grants_spec(#[trigger] set[i], req)
    }

    /// `self` is `before` with the entries `added` appended to its deny
    /// ceiling, and nothing else changed.
    pub open spec fn denials_added(self, before: Policy, added: Seq<Capability>) -> bool {
        &&& self.deny_view() == before.deny_view() + added
        &&& self.mode == before.mode
        &&& self.packages@ == before.packages@
        &&& self.ceilings@ == before.ceilings@
        &&& self.session == before.session
    }

    /// The parts of a policy that only construction changes.
    pub open spec fn same_envelopes(self, other: Policy) -> bool {
        &&& self.mode == other.mode
        &&& self.packages@ == other.packages@
        &&& self.ceilings@ == other.ceilings@
        &&& self.deny_ceiling@ == other.deny_ceiling@
    }

    /// An empty policy in `mode`.
    pub fn new(mode: Mode) -> (r: Policy)
        ensures
            r.wf(),
            r.mode == mode,
            r.packages@.len() == 0,
            r.ceilings@.len() == 0,
            r.deny_ceiling@.len() == 0,
            r.session.principals@.len() == 0,
            !r.session.process_requests_blocked,
            !r.session.deny_all_effective,
    {
        Policy {
            mode,
            packages: Vec::new(),
            ceilings: Vec::new(),
            deny_ceiling: Vec::new(),
            session: SessionOverlay::new(),
        }
    }

    /// Adds the grants of `grant_str` to the static floor of `selector`.
    pub fn grant(&mut self, selector: &str, grant_str: &str) -> (r: Result<(), GrantParseError>)
        requires
            old(self).wf(),
        ensures
            final(self).wf(),
            r is Ok == parse_many_spec(grant_str@) is Some,
            r is Ok ==> final(self).floor_of(selector@) == old(self).floor_of(selector@) + parse_many_spec(
                grant_str@,
            )->0,
            r is Err ==> final(self).packages@ == old(self).packages@,
            forall|s: Seq<char>| s != selector@ ==> #[trigger] final(self).floor_of(s) == old(self).floor_of(s),
            final(self).mode == old(self).mode,
            final(self).ceilings@ == old(self).ceilings@,
            final(self).deny_ceiling@ == old(self).deny_ceiling@,
            final(self).session == old(self).session,
    {
        let mut parsed = match Grant::parse_many(grant_str) {
            Ok(v) => v,
            Err(e) => {
                return Err(e);
            },
        };
        let ghost pv = grants_view(parsed@);
        let ghost old_p = self.packages@;
        proof {
            lemma_sel_index(old_p, selector@);
        }
        match find_sel(&self.packages, selector) {
            Some(i) => {
                let ghost before = grants_view(self.packages@[i as int].1@);
                self.packages[i].1.append(&mut parsed);
                proof {
                    assert(self.packages@ == old_p.update(i as int, self.packages@[i as int]));
                    assert(grants_view(self.packages@[i as int].1@) =~= before + pv);
                    assert forall|s: Seq<char>| s != selector@ implies #[trigger] self.floor_of(s) == old(self).floor_of(s) by {
                        lemma_sel_index_names_same(self.packages@, old_p, s);
                        lemma_sel_index(old_p, s);
                    }
                    lemma_sel_index_names_same(self.packages@, old_p, selector@);
                }
            },
            None => {
                self.packages.push((crate::text::to_owned(selector), parsed));
                proof {
                    assert(self.packages@.drop_last() =~= old_p);
                    assert(grants_view(self.packages@.last().1@) =~= pv);
                    assert forall|s: Seq<char>| s != selector@ implies #[trigger] self.floor_of(s) == old(self).floor_of(s) by {
                        lemma_sel_index(old_p, s);
                        if sel_index(old_p, s) is Some {
                            assert(self.packages@[sel_index(old_p, s)->0] == old_p[sel_index(old_p, s)->0]);
                        }
                    }
                }
            },
        }
        Ok(())
    }

    /// The static grants of `selector` cover `req`.
    fn floor_covers(&self, selector: &str, req: &Request) -> (r: bool)
        ensures
            r == covers_spec(self.floor_of(selector@), req@),
    {
        proof {
            lemma_sel_index(self.packages@, selector@);
        }
        match find_sel(&self.packages, selector) {
            Some(i) => covers(self.packages[i].1.as_slice(), req),
            None => false,
        }
    }

    /// Does the policy let `principal` perform `req` now?
    pub fn grants(&self, principal: &Principal, req: &Request) -> (r: bool)
        requires
            self.wf(),
        ensures
            r == self.grants_spec(principal@, req@),
    {
        if principal.is_ambient() {
            return true;
        }
        match principal.selector() {
            None => false,
            Some(sel) => {
                let floor = self.floor_covers(sel.as_str(), req);
                self.session.effective(sel.as_str(), req, floor)
            },
        }
    }

    /// Does the static floor alone let `p` perform `req`? Session allows
    /// and the mode play no part.
    pub open spec fn static_grants_spec(&self, p: PrincipalView, req: Capability) -> bool {
        if p.is_ambient() {
            true
        } else {
            match p.selector() {
                None => false,
                Some(sel) => covers_spec(self.floor_of(sel), req),
            }
        }
    }

    pub fn static_grants(&self, principal: &Principal, req: &Request) -> (r: bool)
        requires
            self.wf(),
        ensures
            r == self.static_grants_spec(principal@, req@),
    {
        if principal.is_ambient() {
            return true;
        }
        match principal.selector() {
            None => false,
            Some(sel) => self.floor_covers(sel.as_str(), req),
        }
    }

    /// The decision for one principal: allow what is granted; otherwise the
    /// mode decides.
    pub fn decide(&self, principal: &Principal, req: &Request) -> (r: Decision)
        requires
            self.wf(),
        ensures
            r == self.decide_spec(principal@, req@),
    {
        if self.grants(principal, req) {
            Decision::Allow
        } else {
            self.fallback_exec()
        }
    }

    fn fallback_exec(&self) -> (r: Decision)
        ensures
            r == self.fallback(),
    {
        match self.mode {
            Mode::Permissive => Decision::Allow,
            Mode::Audit => Decision::AllowRecord,
            Mode::Enforce => Decision::Deny,
        }
    }

    /// The decision for a set of principals acting together: allowed only
    /// when every member is granted, so no member launders another's
    /// authority.
    pub fn decide_set(&self, set: &[Principal], req: &Request) -> (r: Decision)
        requires
            self.wf(),
        ensures
            r == (if self.all_granted(set@.map_values(|p: Principal| p@), req@) {
                Decision::Allow
            } else {
                self.fallback()
            }),
    {
        let ghost sv = set@.map_values(|p: Principal| p@);
        let mut i: usize = 0;
        while i < set.len()
            invariant
                self.wf(),
                sv == set@.map_values(|p: Principal| p@),
                i <= set.len(),
                forall|j: int| 0 <= j < i ==> self.grants_spec(#[trigger] sv[j], req@),
            decreases set.len() - i,
        {
            if !self.grants(&set[i as usize], req) {
                assert(!self.grants_spec(sv[i as int], req@));
                return self.fallback_exec();
            }
            i = i + 1;
        }
        Decision::Allow
    }

    /// The distinct non-ambient members of `set`, in order of first
    /// appearance.
    pub fn constrained_principals(set: &[Principal]) -> (r: Vec<Principal>)
        ensures
            principal_views(r@) == constrained_spec(principal_views(set@)),
    {
        let ghost sv = principal_views(set@);
        let mut out: Vec<Principal> = Vec::new();
        let mut k: usize = 0;
        while k < set.len()
            invariant
                sv == principal_views(set@),
                k <= set@.len(),
                principal_views(out@) == constrained_spec(sv.take(k as int)),
            decreases set@.len() - k,
        {
            assert(sv.take(k + 1).drop_last() =~= sv.take(k as int));
            assert(sv.take(k + 1).last() == set@[k as int]@);
            let ghost acc = principal_views(out@);
            let p = &set[k];
            if !p.is_ambient() {
                let mut seen = false;
                let mut i: usize = 0;
                while i < out.len()
                    invariant
                        i <= out@.len(),
                        acc == principal_views(out@),
                        seen == (exists|j: int| 0 <= j < i && acc[j] == p@),
                    decreases out@.len() - i,
                {
                    if out[i].same_as(p) {
                        seen = true;
                    }
                    assert(acc[i as int] == out@[i as int]@);
                    i = i + 1;
                }
                assert(seen == acc.contains(p@));
                if !seen {
                    out.push(p.duplicate());
                    assert(principal_views(out@) =~= acc.push(p@));
                }
            }
            k = k + 1;
        }
        assert(sv.take(set@.len() as int) =~= sv);
        out
    }
}

pub open spec fn principal_views(v: Seq<Principal>) -> Seq<PrincipalView> {
    v.map_values(|p: Principal| p@)
}

/// The distinct non-ambient members of `s`, in order of first appearance.
pub open spec fn constrained_spec(s: Seq<PrincipalView>) -> Seq<PrincipalView>
    decreases s.len(),
{
    if s.len() == 0 {
        Seq::empty()
    } else {
        let acc = constrained_spec(s.drop_last());
        let x = s.last();
        if x.is_ambient() || acc.contains(x) {
            acc
        } else {
            acc.push(x)
        }
    }
}

/// The constrained members of a set are non-ambient, distinct, drawn from
/// the set, and include every non-ambient member.
pub proof fn lemma_constrained(s: Seq<PrincipalView>)
    ensures
        forall|i: int| 0 <= i < constrained_spec(s).len() ==> !(#[trigger] constrained_spec(s)[i]).is_ambient(),
        forall|i: int, j: int|
            0 <= i < j < constrained_spec(s).len() ==> constrained_spec(s)[i] != constrained_spec(s)[j],
        forall|i: int| 0 <= i < constrained_spec(s).len() ==> s.contains(#[trigger] constrained_spec(s)[i]),
        forall|k: int| 0 <= k < s.len() && !(#[trigger] s[k]).is_ambient() ==> constrained_spec(s).contains(s[k]),
    decreases s.len(),
{
    if s.len() > 0 {
        let pre = s.drop_last();
        lemma_constrained(pre);
        let acc = constrained_spec(pre);
        assert forall|i: int| 0 <= i < acc.len() implies s.contains(#[trigger] acc[i]) by {
            let k = choose|k: int| 0 <= k < pre.len() && pre[k] == acc[i];
            assert(s[k] == pre[k]);
        }
        assert forall|k: int| 0 <= k < s.len() && !(#[trigger] s[k]).is_ambient() implies constrained_spec(s).contains(s[k]) by {
            if k < s.len() - 1 {
                assert(pre[k] == s[k]);
                let j = choose|j: int| 0 <= j < acc.len() && acc[j] == pre[k];
                if !(s.last().is_ambient() || acc.contains(s.last())) {
                    assert(constrained_spec(s)[j] == acc[j]);
                }
            } else {
                if acc.contains(s.last()) {
                } else {
                    assert(constrained_spec(s)[acc.len() as int] == s.last());
                }
            }
        }
        if !(s.last().is_ambient() || acc.contains(s.last())) {
            assert(s.contains(s.last())) by {
                assert(s[s.len() - 1] == s.last());
            }
        }
    }
}


/// Two tables with the same names find a selector at the same place.
pub proof fn lemma_sel_index_names_same<T>(a: Seq<(String, T)>, b: Seq<(String, T)>, sel: Seq<char>)
    requires
        a.len() == b.len(),
        forall|m: int| 0 <= m < b.len() ==> (#[trigger] a[m]).0 == b[m].0,
    ensures
        sel_index(a, sel) == sel_index(b, sel),
    decreases a.len(),
{
    if a.len() > 0 {
        assert forall|m: int| 0 <= m < b.len() - 1 implies (#[trigger] a.drop_last()[m]).0 == b.drop_last()[m].0 by {
            assert(a.drop_last()[m] == a[m]);
            assert(b.drop_last()[m] == b[m]);
        }
        lemma_sel_index_names_same(a.drop_last(), b.drop_last(), sel);
    }
}


impl Policy {
    pub open spec fn issues_for(&self, i: int) -> Seq<IssueView> {
        let sel = self.ceilings@[i].0@;
        let auth = grants_view(self.ceilings@[i].1.authority@);
        conflicts(sel, auth, self.deny_view()) + floor_issues(
            sel,
            self.floor_of(sel),
            active_entries(auth, self.deny_view()),
        )
    }

    pub open spec fn issues_upto(&self, n: int) -> Seq<IssueView>
        decreases n,
    {
        if n <= 0 {
            Seq::empty()
        } else {
            self.issues_upto(n - 1) + self.issues_for(n - 1)
        }
    }

    /// The query state of `req` by `p`, without any side effect.
    pub open spec fn query_spec(&self, p: PrincipalView, req: Option<Capability>) -> DynamicQueryState {
        if self.mode == Mode::Permissive {
            DynamicQueryState::Granted
        } else if p.is_ambient() {
            DynamicQueryState::Ambient
        } else if req is None {
            DynamicQueryState::Denied
        } else if p.selector() is None {
            DynamicQueryState::Denied
        } else {
            let r = req->0;
            let sel = p.selector()->0;
            if self.grants_spec(p, r) {
                DynamicQueryState::Granted
            } else if self.deny_ceiling_intersects_spec(r) {
                DynamicQueryState::Denied
            } else {
                match self.ceiling_of(sel) {
                    None => DynamicQueryState::Denied,
                    Some((_, on)) => if on == OnRequest::Deny {
                        DynamicQueryState::Denied
                    } else if self.covering_ceiling_spec(sel, r) is Some {
                        DynamicQueryState::Prompt
                    } else {
                        DynamicQueryState::Denied
                    },
                }
            }
        }
    }

    /// The first stage of a dynamic request, as a function of the policy
    /// before the call.
    pub open spec fn evaluate_spec(&self, p: PrincipalView, req: Option<Capability>) -> EvaluationView {
        if self.mode == Mode::Permissive {
            EvaluationView::Terminal(granted_view(DynamicDecider::Existing, None, None))
        } else if p.is_ambient() {
            EvaluationView::Ambient
        } else if req is None {
            EvaluationView::Terminal(denied_view(DynamicRequestCode::Ambiguous, None, false))
        } else if p.selector() is None {
            EvaluationView::Terminal(denied_view(DynamicRequestCode::Unattributed, None, false))
        } else {
            let r = req->0;
            let sel = p.selector()->0;
            let memo = self.session.memoized_spec(sel, r);
            if self.grants_spec(p, r) {
                EvaluationView::Terminal(granted_view(DynamicDecider::Existing, None, None))
            } else if self.deny_ceiling_intersects_spec(r) {
                EvaluationView::Terminal(denied_view(DynamicRequestCode::DenyCeiling, None, memo))
            } else if self.ceiling_of(sel) is None || self.covering_ceiling_spec(sel, r) is None {
                EvaluationView::Terminal(denied_view(DynamicRequestCode::AboveCeiling, None, memo))
            } else {
                let covering = self.covering_ceiling_spec(sel, r)->0;
                let on = (self.ceiling_of(sel)->0).1;
                if on == OnRequest::Deny {
                    EvaluationView::Terminal(denied_view(DynamicRequestCode::AboveCeiling, Some(covering), memo))
                } else {
                    match self.session.prior_spec(sel, r) {
                        Ok(Some(code)) => EvaluationView::Terminal(denied_view(code, Some(covering), true)),
                        Err(()) => EvaluationView::Terminal(
                            denied_view(DynamicRequestCode::Capacity, Some(covering), false),
                        ),
                        Ok(None) => if on == OnRequest::Auto {
                            if self.session.append_allow_succeeds(sel, r) {
                                EvaluationView::Terminal(granted_view(DynamicDecider::Policy, Some(r), Some(covering)))
                            } else {
                                EvaluationView::Terminal(
                                    denied_view(DynamicRequestCode::Capacity, Some(covering), false),
                                )
                            }
                        } else {
                            EvaluationView::NeedsDecision { ceiling: covering }
                        },
                    }
                }
            }
        }
    }

    /// Adds `authority` to the escalation ceiling of `selector` and sets how
    /// requests within it are answered.
    pub fn ceiling(&mut self, selector: &str, authority: &str, on_request: OnRequest)
        requires
            old(self).wf(),
            parse_many_spec(authority@) is Some,
        ensures
            final(self).wf(),
            final(self).ceiling_of(selector@) == Some((
                match old(self).ceiling_of(selector@) {
                    Some((auth, _)) => auth,
                    None => Seq::<Capability>::empty(),
                } + parse_many_spec(authority@)->0,
                on_request,
            )),
            forall|s: Seq<char>| s != selector@ ==> #[trigger] final(self).ceiling_of(s) == old(self).ceiling_of(s),
            final(self).mode == old(self).mode,
            final(self).packages@ == old(self).packages@,
            final(self).deny_ceiling@ == old(self).deny_ceiling@,
            final(self).session == old(self).session,
    {
        let mut parsed = match Grant::parse_many(authority) {
            Ok(v) => v,
            Err(_) => Vec::new(),
        };
        let ghost pv = grants_view(parsed@);
        let ghost old_c = self.ceilings@;
        proof {
            lemma_sel_index(old_c, selector@);
        }
        match find_sel(&self.ceilings, selector) {
            Some(i) => {
                let ghost before = grants_view(self.ceilings@[i as int].1.authority@);
                self.ceilings[i].1.authority.append(&mut parsed);
                self.ceilings[i].1.on_request = on_request;
                proof {
                    assert(self.ceilings@ == old_c.update(i as int, self.ceilings@[i as int]));
                    assert(grants_view(self.ceilings@[i as int].1.authority@) =~= before + pv);
                    lemma_sel_index_names_same(self.ceilings@, old_c, selector@);
                    assert forall|s: Seq<char>| s != selector@ implies #[trigger] self.ceiling_of(s) == old(self).ceiling_of(s) by {
                        lemma_sel_index_names_same(self.ceilings@, old_c, s);
                        lemma_sel_index(old_c, s);
                    }
                }
            },
            None => {
                self.ceilings.push((crate::text::to_owned(selector), EscalationCeiling { authority: parsed, on_request }));
                proof {
                    assert(self.ceilings@.drop_last() =~= old_c);
                    assert(grants_view(self.ceilings@.last().1.authority@) =~= Seq::<Capability>::empty() + pv);
                    assert forall|s: Seq<char>| s != selector@ implies #[trigger] self.ceiling_of(s) == old(self).ceiling_of(s) by {
                        lemma_sel_index(old_c, s);
                        if sel_index(old_c, s) is Some {
                            assert(self.ceilings@[sel_index(old_c, s)->0] == old_c[sel_index(old_c, s)->0]);
                        }
                    }
                }
            },
        }
    }

    /// Adds `authority` to the process-wide deny ceiling.
    pub fn deny_ceiling(&mut self, authority: &str)
        requires
            old(self).wf(),
            parse_many_spec(authority@) is Some,
        ensures
            final(self).wf(),
            final(self).denials_added(*old(self), parse_many_spec(authority@)->0),
    {
        let mut parsed = match Grant::parse_many(authority) {
            Ok(v) => v,
            Err(_) => Vec::new(),
        };
        let ghost pv = grants_view(parsed@);
        let ghost before = self.deny_view();
        self.deny_ceiling.append(&mut parsed);
        assert(self.deny_view() =~= before + pv);
    }

    fn first_deny_hit_exec(&self, g: &Grant) -> (r: Option<&Grant>)
        ensures
            opt_cap_ref(r) == first_deny_hit(g@, self.deny_view()),
    {
        let mut j: usize = 0;
        while j < self.deny_ceiling.len()
            invariant
                j <= self.deny_ceiling@.len(),
                forall|k: int| 0 <= k < j ==> !grants_intersect_spec(g@, #[trigger] self.deny_view()[k]),
            decreases self.deny_ceiling@.len() - j,
        {
            if grants_intersect(g, &self.deny_ceiling[j]) {
                proof {
                    lemma_first_deny_hit(g@, self.deny_view(), j as int);
                }
                return Some(&self.deny_ceiling[j]);
            }
            j = j + 1;
        }
        proof {
            lemma_first_deny_hit(g@, self.deny_view(), j as int);
        }
        None
    }

    /// Does the deny ceiling overlap the exact grant of `req`?
    fn deny_ceiling_intersects(&self, req: &Request) -> (r: bool)
        ensures
            r == self.deny_ceiling_intersects_spec(req@),
    {
        let requested = Grant::from_request(req);
        let hit = self.first_deny_hit_exec(&requested);
        proof {
            lemma_first_deny_hit(requested@, self.deny_view(), 0);
            if intersects_any(req@, self.deny_view()) {
                let k = choose|k: int| 0 <= k < self.deny_view().len() && grants_intersect_spec(req@, self.deny_view()[k]);
                lemma_first_deny_hit_some(req@, self.deny_view(), k);
            } else {
                lemma_first_deny_hit_none(req@, self.deny_view());
            }
        }
        hit.is_some()
    }

    /// The active entries of ceiling `ci`, in order.
    fn active_ceiling_at(&self, ci: usize) -> (r: Vec<Grant>)
        requires
            ci < self.ceilings@.len(),
        ensures
            grants_view(r@) == active_entries(grants_view(self.ceilings@[ci as int].1.authority@), self.deny_view()),
    {
        let auth = &self.ceilings[ci].1.authority;
        let ghost av = grants_view(auth@);
        let mut out: Vec<Grant> = Vec::new();
        let mut i: usize = 0;
        while i < auth.len()
            invariant
                av == grants_view(auth@),
                i <= auth@.len(),
                grants_view(out@) == active_entries(av.take(i as int), self.deny_view()),
            decreases auth@.len() - i,
        {
            assert(av.take(i + 1).drop_last() =~= av.take(i as int));
            assert(av.take(i + 1).last() == auth@[i as int]@);
            let hit = self.first_deny_hit_exec(&auth[i]);
            proof {
                if hit is None {
                    lemma_first_deny_hit_none_iff(auth@[i as int]@, self.deny_view());
                } else {
                    let k = choose|k: int| 0 <= k < self.deny_view().len() && self.deny_view()[k] == hit->0@ && grants_intersect_spec(auth@[i as int]@, self.deny_view()[k]);
                }
                lemma_first_deny_hit_none_iff(auth@[i as int]@, self.deny_view());
            }
            if hit.is_none() {
                let ghost before = out@;
                out.push(auth[i].duplicate());
                assert(grants_view(out@) =~= grants_view(before).push(auth@[i as int]@));
            }
            i = i + 1;
        }
        assert(av.take(auth@.len() as int) =~= av);
        out
    }

    /// The first active ceiling entry of `selector` that covers `req`.
    fn covering_ceiling(&self, selector: &str, req: &Request) -> (r: Option<Grant>)
        ensures
            opt_cap(r) == self.covering_ceiling_spec(selector@, req@),
    {
        proof {
            lemma_sel_index(self.ceilings@, selector@);
        }
        let ci = match find_sel(&self.ceilings, selector) {
            None => return None,
            Some(i) => i,
        };
        let auth = &self.ceilings[ci].1.authority;
        let ghost av = grants_view(auth@);
        let mut i: usize = 0;
        while i < auth.len()
            invariant
                av == grants_view(auth@),
                ci < self.ceilings@.len(),
                sel_index(self.ceilings@, selector@) == Some(ci as int),
                av == grants_view(self.ceilings@[ci as int].1.authority@),
                i <= auth@.len(),
                forall|j: int| 0 <= j < i ==> !(!intersects_any(#[trigger] av[j], self.deny_view()) && grant_covers(av[j], req@)),
            decreases auth@.len() - i,
        {
            let hit = self.first_deny_hit_exec(&auth[i]);
            proof {
                lemma_first_deny_hit_none_iff(auth@[i as int]@, self.deny_view());
            }
            assert(av[i as int] == auth@[i as int]@);
            if hit.is_none() && grant_covers_exec(&auth[i], req) {
                proof {
                    lemma_first_active_covering(av, self.deny_view(), req@, i as int);
                }
                let found = auth[i].duplicate();
                assert(self.ceiling_of(selector@) == Some((av, self.ceilings@[ci as int].1.on_request)));
                return Some(found);
            }
            i = i + 1;
        }
        proof {
            lemma_first_active_covering(av, self.deny_view(), req@, i as int);
            assert(self.ceiling_of(selector@) == Some((av, self.ceilings@[ci as int].1.on_request)));
        }
        None
    }

    /// The envelope defects: ceiling entries that the deny ceiling
    /// overlaps, and static grants that no active ceiling entry covers.
    pub fn validate_envelopes(&self) -> (r: Vec<PolicyValidationIssue>)
        ensures
            r@.map_values(|i: PolicyValidationIssue| i@) == self.issues_upto(self.ceilings@.len() as int),
    {
        let mut issues: Vec<PolicyValidationIssue> = Vec::new();
        let mut ci: usize = 0;
        while ci < self.ceilings.len()
            invariant
                ci <= self.ceilings@.len(),
                issues@.map_values(|i: PolicyValidationIssue| i@) == self.issues_upto(ci as int),
            decreases self.ceilings@.len() - ci,
        {
            let ghost start = issues@.map_values(|i: PolicyValidationIssue| i@);
            let sel = &self.ceilings[ci].0;
            let auth = &self.ceilings[ci].1.authority;
            let ghost av = grants_view(auth@);
            let mut i: usize = 0;
            while i < auth.len()
                invariant
                    av == grants_view(auth@),
                    i <= auth@.len(),
                    issues@.map_values(|x: PolicyValidationIssue| x@) == start + conflicts(sel@, av.take(i as int), self.deny_view()),
                decreases auth@.len() - i,
            {
                assert(av.take(i + 1).drop_last() =~= av.take(i as int));
                assert(av.take(i + 1).last() == auth@[i as int]@);
                match self.first_deny_hit_exec(&auth[i]) {
                    Some(d) => {
                        let ghost before = issues@.map_values(|x: PolicyValidationIssue| x@);
                        issues.push(PolicyValidationIssue::CeilingConflicted {
                            selector: sel.clone(),
                            ceiling: auth[i].to_string_canonical(),
                            deny: d.to_string_canonical(),
                        });
                        assert(issues@.map_values(|x: PolicyValidationIssue| x@) =~= before.push(issues@.last()@));
                    },
                    None => {},
                }
                i = i + 1;
            }
            assert(av.take(auth@.len() as int) =~= av);
            let ghost mid = issues@.map_values(|x: PolicyValidationIssue| x@);
            let active = self.active_ceiling_at(ci);
            proof {
                lemma_sel_index(self.packages@, sel@);
            }
            match find_sel(&self.packages, sel.as_str()) {
                None => {
                    assert(self.floor_of(sel@) =~= Seq::<Capability>::empty());
                    assert(mid =~= mid + floor_issues(sel@, self.floor_of(sel@), grants_view(active@)));
                },
                Some(pi) => {
                    let floors = &self.packages[pi].1;
                    let ghost fv = grants_view(floors@);
                    let mut f: usize = 0;
                    while f < floors.len()
                        invariant
                            fv == grants_view(floors@),
                            f <= floors@.len(),
                            issues@.map_values(|x: PolicyValidationIssue| x@) == mid + floor_issues(sel@, fv.take(f as int), grants_view(active@)),
                        decreases floors@.len() - f,
                    {
                        assert(fv.take(f + 1).drop_last() =~= fv.take(f as int));
                        assert(fv.take(f + 1).last() == floors@[f as int]@);
                        let fl = &floors[f];
                        let as_req = Request { family: fl.family, action: fl.action.clone(), target: fl.scope.clone() };
                        if !covers(active.as_slice(), &as_req) {
                            let ghost before = issues@.map_values(|x: PolicyValidationIssue| x@);
                            issues.push(PolicyValidationIssue::FloorAboveCeiling {
                                selector: sel.clone(),
                                grant: fl.to_string_canonical(),
                            });
                            assert(issues@.map_values(|x: PolicyValidationIssue| x@) =~= before.push(issues@.last()@));
                        }
                        f = f + 1;
                    }
                    assert(fv.take(floors@.len() as int) =~= fv);
                },
            }
            assert(self.issues_upto(ci + 1) == self.issues_upto(ci as int) + self.issues_for(ci as int));
            assert(issues@.map_values(|x: PolicyValidationIssue| x@) =~= self.issues_upto(ci + 1));
            ci = ci + 1;
        }
        issues
    }
}

pub open spec fn opt_req(req: Option<&Request>) -> Option<Capability> {
    match req {
        Some(r) => Some(r@),
        None => None,
    }
}

/// The session answers every principal, request and floor alike.
pub open spec fn same_verdicts(a: SessionOverlay, b: SessionOverlay) -> bool {
    forall|sel: Seq<char>, q: Capability, floor: bool| #[trigger] b.effective_spec(sel, q, floor) == a.effective_spec(sel, q, floor)
}

/// `after` lets a principal do only what `before` let it, or what the
/// principal `sel` asks under a descriptor that `g` covers.
pub open spec fn grants_widen_at_most(before: Policy, after: Policy, sel: Seq<char>, g: Capability) -> bool {
    forall|p: PrincipalView, q: Capability| #[trigger] after.grants_spec(p, q) ==> before.grants_spec(p, q) || (
    p.selector() == Some(sel) && grant_covers(g, q))
}

/// `after` lets no principal do anything that `before` did not.
pub open spec fn grants_narrow(before: Policy, after: Policy) -> bool {
    forall|p: PrincipalView, q: Capability| #[trigger] after.grants_spec(p, q) ==> before.grants_spec(p, q)
}

/// A denial of `req` by `sel` is remembered: a repeated request is answered
/// from the memo with `code`, or requests are closed.
pub open spec fn denial_remembered(s: SessionOverlay, sel: Seq<char>, req: Capability, code: DynamicRequestCode) -> bool {
    s.prior_spec(sel, req) is Err || s.prior_spec(sel, req) == Ok::<Option<DynamicRequestCode>, ()>(Some(code))
}

/// The evaluation granted a session allow on its own authority.
pub open spec fn auto_granted(e: EvaluationView) -> bool {
    e matches EvaluationView::Terminal(v) && v.decider == Some(DynamicDecider::Policy)
}

/// The evaluation may have written the session overlay: it granted a
/// session allow, or it ran out of room while trying.
pub open spec fn may_write_allow(e: EvaluationView) -> bool {
    e matches EvaluationView::Terminal(v) && (v.decider == Some(DynamicDecider::Policy) || v.code
        == DynamicRequestCode::Capacity)
}

/// The evaluation memoized a fresh denial of one of its own.
pub open spec fn fresh_denial(e: EvaluationView) -> bool {
    e matches EvaluationView::Terminal(v) && v.state == DynamicPermissionState::Denied && !v.memoized && (
    v.code == DynamicRequestCode::DenyCeiling || v.code == DynamicRequestCode::AboveCeiling)
}

impl Policy {
    /// Records a denial in the session memo and answers it.
    fn memoized_denial(
        &mut self,
        selector: &str,
        req: &Request,
        code: DynamicRequestCode,
        ceiling: Option<Grant>,
    ) -> (r: DynamicRequestResult)
        requires
            old(self).wf(),
        ensures
            final(self).wf(),
            final(self).same_envelopes(*old(self)),
            same_verdicts(old(self).session, final(self).session),
            r@ == denied_view(code, opt_cap(ceiling), old(self).session.memoized_spec(selector@, req@)),
            r.memoized ==> final(self).session.prior_spec(selector@, req@) == old(self).session.prior_spec(
                selector@,
                req@,
            ),
            !r.memoized ==> denial_remembered(final(self).session, selector@, req@, code),
    {
        let memoized = self.session.record_denial(selector, req, code);
        denied(code, ceiling, memoized)
    }

    /// The state of `req` by `principal`, without any side effect.
    pub fn query_dynamic(&self, principal: &Principal, req: Option<&Request>) -> (r: DynamicQueryState)
        requires
            self.wf(),
        ensures
            r == self.query_spec(principal@, opt_req(req)),
    {
        if self.mode == Mode::Permissive {
            return DynamicQueryState::Granted;
        }
        if principal.is_ambient() {
            return DynamicQueryState::Ambient;
        }
        let req = match req {
            None => return DynamicQueryState::Denied,
            Some(r) => r,
        };
        let selector = match principal.selector() {
            None => return DynamicQueryState::Denied,
            Some(s) => s,
        };
        if self.grants(principal, req) {
            return DynamicQueryState::Granted;
        }
        if self.deny_ceiling_intersects(req) {
            return DynamicQueryState::Denied;
        }
        proof {
            lemma_sel_index(self.ceilings@, selector@);
        }
        let ci = match find_sel(&self.ceilings, selector.as_str()) {
            None => return DynamicQueryState::Denied,
            Some(i) => i,
        };
        if self.ceilings[ci].1.on_request == OnRequest::Deny {
            return DynamicQueryState::Denied;
        }
        if self.covering_ceiling(selector.as_str(), req).is_some() {
            DynamicQueryState::Prompt
        } else {
            DynamicQueryState::Denied
        }
    }

    /// The first stage of a dynamic request. Settled rows are answered at
    /// once, denials are memoized, and an automatic disposition records an
    /// exact session allow; a prompting disposition leaves the decision to
    /// a decider.
    pub fn evaluate_dynamic_request(&mut self, principal: &Principal, req: Option<&Request>) -> (r:
        DynamicRequestEvaluation)
        requires
            old(self).wf(),
        ensures
            final(self).wf(),
            final(self).same_envelopes(*old(self)),
            r@ == old(self).evaluate_spec(principal@, opt_req(req)),
            !may_write_allow(r@) ==> same_verdicts(old(self).session, final(self).session),
            auto_granted(r@) ==> final(self).grants_spec(principal@, opt_req(req)->0),
            fresh_denial(r@) ==> denial_remembered(
                final(self).session,
                principal@.selector()->0,
                opt_req(req)->0,
                r@->Terminal_0.code,
            ),
            r@ is NeedsDecision || r@ is Ambient ==> final(self).session == old(self).session,
            may_write_allow(r@) ==> grants_widen_at_most(
                *old(self),
                *final(self),
                principal@.selector()->0,
                opt_req(req)->0,
            ),
    {
        if self.mode == Mode::Permissive {
            return DynamicRequestEvaluation::Terminal(granted(DynamicDecider::Existing, None, None));
        }
        if principal.is_ambient() {
            return DynamicRequestEvaluation::Ambient;
        }
        let req = match req {
            None => return DynamicRequestEvaluation::Terminal(denied(DynamicRequestCode::Ambiguous, None, false)),
            Some(r) => r,
        };
        let selector = match principal.selector() {
            None => return DynamicRequestEvaluation::Terminal(denied(DynamicRequestCode::Unattributed, None, false)),
            Some(s) => s,
        };
        if self.grants(principal, req) {
            return DynamicRequestEvaluation::Terminal(granted(DynamicDecider::Existing, None, None));
        }
        if self.deny_ceiling_intersects(req) {
            let d = self.memoized_denial(selector.as_str(), req, DynamicRequestCode::DenyCeiling, None);
            return DynamicRequestEvaluation::Terminal(d);
        }
        proof {
            lemma_sel_index(self.ceilings@, selector@);
        }
        let ci = match find_sel(&self.ceilings, selector.as_str()) {
            None => {
                let d = self.memoized_denial(selector.as_str(), req, DynamicRequestCode::AboveCeiling, None);
                return DynamicRequestEvaluation::Terminal(d);
            },
            Some(i) => i,
        };
        let on = self.ceilings[ci].1.on_request;
        let covering = match self.covering_ceiling(selector.as_str(), req) {
            None => {
                let d = self.memoized_denial(selector.as_str(), req, DynamicRequestCode::AboveCeiling, None);
                return DynamicRequestEvaluation::Terminal(d);
            },
            Some(c) => c,
        };
        if on == OnRequest::Deny {
            let d = self.memoized_denial(selector.as_str(), req, DynamicRequestCode::AboveCeiling, Some(covering));
            return DynamicRequestEvaluation::Terminal(d);
        }
        match self.session.prior_denial_or_blocked(selector.as_str(), req) {
            Ok(Some(code)) => {
                return DynamicRequestEvaluation::Terminal(denied(code, Some(covering), true));
            },
            Err(()) => {
                return DynamicRequestEvaluation::Terminal(denied(DynamicRequestCode::Capacity, Some(covering), false));
            },
            Ok(None) => {},
        }
        if on == OnRequest::Auto {
            let ghost before = *self;
            let appended = self.session.append_allow(selector.as_str(), req);
            proof {
                lemma_session_widening_lifts(before, *self, selector@, req@);
            }
            match appended {
                None => {
                    return DynamicRequestEvaluation::Terminal(
                        denied(DynamicRequestCode::Capacity, Some(covering), false),
                    );
                },
                Some(grant) => {
                    assert(self.session.effective_spec(selector@, req@, covers_spec(self.floor_of(selector@), req@)));
                    return DynamicRequestEvaluation::Terminal(granted(DynamicDecider::Policy, Some(grant), Some(covering)));
                },
            }
        }
        DynamicRequestEvaluation::NeedsDecision { ceiling: covering }
    }
}

impl Policy {
    /// The answer of a decider, as a function of the policy before the call.
    pub open spec fn complete_spec(
        &self,
        p: PrincipalView,
        req: Capability,
        ceiling: Capability,
        decider: DynamicDecider,
        allowed: bool,
    ) -> ResultView {
        match p.selector() {
            None => denied_view(DynamicRequestCode::Unattributed, Some(ceiling), false),
            Some(sel) => if allowed {
                if self.session.append_allow_succeeds(sel, req) {
                    granted_view(decider, Some(req), Some(ceiling))
                } else {
                    denied_view(DynamicRequestCode::Capacity, Some(ceiling), false)
                }
            } else {
                denied_view(DynamicRequestCode::Refused, Some(ceiling), self.session.memoized_spec(sel, req))
            },
        }
    }

    /// A refused or unanswered request is settled: asked again, it is
    /// answered from the memo with the same code, or at capacity.
    pub open spec fn settled_as(&self, p: PrincipalView, req: Capability, code: DynamicRequestCode) -> bool {
        self.evaluate_spec(p, Some(req)) matches EvaluationView::Terminal(v) && v.state
            == DynamicPermissionState::Denied && ((v.code == code && v.memoized) || (v.code
            == DynamicRequestCode::Capacity && !v.memoized))
    }

    /// `self` is what recording the answer `allowed` of `decider` to `req`
    /// under `ceiling` left of `before`, the answer being `r`.
    pub open spec fn decision_recorded(
        self,
        before: Policy,
        p: PrincipalView,
        req: Capability,
        ceiling: Capability,
        decider: DynamicDecider,
        allowed: bool,
        r: ResultView,
    ) -> bool {
        &&& r == before.complete_spec(p, req, ceiling, decider, allowed)
        &&& r.state == DynamicPermissionState::Granted ==> self.grants_spec(p, req)
        &&& !allowed && before.evaluate_spec(p, Some(req)) is NeedsDecision ==> self.settled_as(
            p,
            req,
            DynamicRequestCode::Refused,
        )
    }

    /// Records the answer of a decider to a request that needed one.
    pub fn complete_dynamic_request(
        &mut self,
        principal: &Principal,
        req: &Request,
        ceiling: Grant,
        decider: DynamicDecider,
        allowed: bool,
    ) -> (r: DynamicRequestResult)
        requires
            old(self).wf(),
        ensures
            final(self).wf(),
            final(self).same_envelopes(*old(self)),
            r@ == old(self).complete_spec(principal@, req@, ceiling@, decider, allowed),
            !allowed ==> same_verdicts(old(self).session, final(self).session),
            allowed && principal@.selector() is Some ==> grants_widen_at_most(
                *old(self),
                *final(self),
                principal@.selector()->0,
                req@,
            ),
            r.state == DynamicPermissionState::Granted ==> final(self).grants_spec(principal@, req@),
            !allowed && old(self).evaluate_spec(principal@, Some(req@)) is NeedsDecision ==> final(self).settled_as(
                principal@,
                req@,
                DynamicRequestCode::Refused,
            ),
            final(self).decision_recorded(*old(self), principal@, req@, ceiling@, decider, allowed, r@),
    {
        let selector = match principal.selector() {
            None => return denied(DynamicRequestCode::Unattributed, Some(ceiling), false),
            Some(s) => s,
        };
        if allowed {
            let ghost before = *self;
            let appended = self.session.append_allow(selector.as_str(), req);
            proof {
                lemma_session_widening_lifts(before, *self, selector@, req@);
            }
            match appended {
                None => denied(DynamicRequestCode::Capacity, Some(ceiling), false),
                Some(grant) => {
                    assert(self.session.effective_spec(selector@, req@, covers_spec(self.floor_of(selector@), req@)));
                    granted(decider, Some(grant), Some(ceiling))
                },
            }
        } else {
            let ghost before = *self;
            let r = self.memoized_denial(selector.as_str(), req, DynamicRequestCode::Refused, Some(ceiling));
            proof {
                if before.evaluate_spec(principal@, Some(req@)) is NeedsDecision {
                    lemma_denial_settles(before, *self, principal@, req@, DynamicRequestCode::Refused);
                }
            }
            r
        }
    }

    /// Records that no decider answered a request that needed one.
    pub fn unanswered_dynamic_request(&mut self, principal: &Principal, req: &Request, ceiling: Grant) -> (r:
        DynamicRequestResult)
        requires
            old(self).wf(),
        ensures
            final(self).wf(),
            final(self).same_envelopes(*old(self)),
            same_verdicts(old(self).session, final(self).session),
            r@ == match principal@.selector() {
                None => denied_view(DynamicRequestCode::Unattributed, Some(ceiling@), false),
                Some(sel) => denied_view(
                    DynamicRequestCode::Unanswered,
                    Some(ceiling@),
                    old(self).session.memoized_spec(sel, req@),
                ),
            },
            old(self).evaluate_spec(principal@, Some(req@)) is NeedsDecision ==> final(self).settled_as(
                principal@,
                req@,
                DynamicRequestCode::Unanswered,
            ),
    {
        let selector = match principal.selector() {
            None => return denied(DynamicRequestCode::Unattributed, Some(ceiling), false),
            Some(s) => s,
        };
        let ghost before = *self;
        let r = self.memoized_denial(selector.as_str(), req, DynamicRequestCode::Unanswered, Some(ceiling));
        proof {
            if before.evaluate_spec(principal@, Some(req@)) is NeedsDecision {
                lemma_denial_settles(before, *self, principal@, req@, DynamicRequestCode::Unanswered);
            }
        }
        r
    }

    /// Revokes the session authority of `principal` for exactly `req`. The
    /// static floor never comes back through a revocation.
    pub fn revoke_dynamic(&mut self, principal: &Principal, req: &Request) -> (r: DynamicQueryState)
        requires
            old(self).wf(),
        ensures
            final(self).wf(),
            final(self).same_envelopes(*old(self)),
            r == (if old(self).mode == Mode::Permissive {
                DynamicQueryState::Granted
            } else if principal@.is_ambient() {
                DynamicQueryState::Ambient
            } else {
                DynamicQueryState::Denied
            }),
            r == DynamicQueryState::Denied && principal@.selector() is Some ==> !final(self).grants_spec(principal@, req@),
            grants_narrow(*old(self), *final(self)),
            r != DynamicQueryState::Denied || principal@.selector() is None ==> final(self).session == old(self).session,
    {
        if self.mode == Mode::Permissive {
            return DynamicQueryState::Granted;
        }
        if principal.is_ambient() {
            return DynamicQueryState::Ambient;
        }
        let selector = match principal.selector() {
            None => return DynamicQueryState::Denied,
            Some(s) => s,
        };
        let ghost before = *self;
        self.session.revoke(selector.as_str(), req);
        assert(!self.session.effective_spec(selector@, req@, covers_spec(self.floor_of(selector@), req@)));
        proof {
            assert forall|p: PrincipalView, q: Capability| #[trigger] self.grants_spec(p, q) implies before.grants_spec(p, q) by {
                if let Some(s) = p.selector() {
                    assert(self.floor_of(s) == before.floor_of(s));
                }
            }
        }
        DynamicQueryState::Denied
    }
}

/// A session that widened only `sel`'s verdicts on what `g` covers widens
/// the policy's grants no further, when the envelopes are unchanged.
pub proof fn lemma_session_widening_lifts(before: Policy, after: Policy, sel: Seq<char>, g: Capability)
    requires
        after.same_envelopes(before),
        widens_at_most(before.session, after.session, sel, g),
    ensures
        grants_widen_at_most(before, after, sel, g),
{
    assert forall|p: PrincipalView, q: Capability| #[trigger] after.grants_spec(p, q) implies before.grants_spec(p, q) || (
    p.selector() == Some(sel) && grant_covers(g, q)) by {
        if let Some(s) = p.selector() {
            assert(after.floor_of(s) == before.floor_of(s));
            let fl = covers_spec(before.floor_of(s), q);
            assert(after.session.effective_spec(s, q, fl) ==> before.session.effective_spec(s, q, fl) || (s == sel
                && grant_covers(g, q)));
        }
    }
}

/// A request that needed a decider and was then denied without changing
/// the envelopes or the session's verdicts is settled by the memo.
pub proof fn lemma_denial_settles(
    before: Policy,
    after: Policy,
    p: PrincipalView,
    req: Capability,
    code: DynamicRequestCode,
)
    requires
        before.evaluate_spec(p, Some(req)) is NeedsDecision,
        after.same_envelopes(before),
        same_verdicts(before.session, after.session),
        denial_remembered(after.session, p.selector()->0, req, code),
    ensures
        after.settled_as(p, req, code),
{
    let sel = p.selector()->0;
    let fl = covers_spec(before.floor_of(sel), req);
    assert(after.floor_of(sel) == before.floor_of(sel));
    assert(after.session.effective_spec(sel, req, fl) == before.session.effective_spec(sel, req, fl));
    assert(after.grants_spec(p, req) == before.grants_spec(p, req));
    assert(after.ceiling_of(sel) == before.ceiling_of(sel));
    assert(after.covering_ceiling_spec(sel, req) == before.covering_ceiling_spec(sel, req));
}

pub open spec fn opt_cap_ref(g: Option<&Grant>) -> Option<Capability> {
    match g {
        Some(g) => Some(g@),
        None => None,
    }
}

pub proof fn lemma_first_deny_hit_some(g: Capability, deny: Seq<Capability>, k: int)
    requires
        0 <= k < deny.len(),
        grants_intersect_spec(g, deny[k]),
    ensures
        first_deny_hit(g, deny) is Some,
    decreases deny.len(),
{
    if !grants_intersect_spec(g, deny[0]) {
        assert(deny.drop_first()[k - 1] == deny[k]);
        lemma_first_deny_hit_some(g, deny.drop_first(), k - 1);
    }
}

pub proof fn lemma_first_deny_hit_none(g: Capability, deny: Seq<Capability>)
    requires
        !intersects_any(g, deny),
    ensures
        first_deny_hit(g, deny) is None,
    decreases deny.len(),
{
    if deny.len() > 0 {
        assert(!grants_intersect_spec(g, deny[0]));
        assert forall|j: int| 0 <= j < deny.drop_first().len() implies !grants_intersect_spec(g, deny.drop_first()[j]) by {
            assert(deny.drop_first()[j] == deny[j + 1]);
        }
        lemma_first_deny_hit_none(g, deny.drop_first());
    }
}

pub proof fn lemma_first_deny_hit_none_iff(g: Capability, deny: Seq<Capability>)
    ensures
        (first_deny_hit(g, deny) is None) == !intersects_any(g, deny),
{
    if intersects_any(g, deny) {
        let k = choose|k: int| 0 <= k < deny.len() && grants_intersect_spec(g, deny[k]);
        lemma_first_deny_hit_some(g, deny, k);
    } else {
        lemma_first_deny_hit_none(g, deny);
    }
}
/// A request that meets a denial added to the deny ceiling is denied from
/// then on, to a query and to a request alike, whatever ceiling would
/// cover it, unless the policy is permissive or already grants it.
pub proof fn lemma_deny_ceiling_denies(
    before: Policy,
    after: Policy,
    added: Seq<Capability>,
    p: PrincipalView,
    req: Capability,
    k: int,
)
    requires
        after.denials_added(before, added),
        after.mode != Mode::Permissive,
        !p.is_ambient(),
        p.selector() is Some,
        !before.grants_spec(p, req),
        0 <= k < added.len(),
        grants_intersect_spec(req, added[k]),
    ensures
        after.query_spec(p, Some(req)) == DynamicQueryState::Denied,
        after.evaluate_spec(p, Some(req)) matches EvaluationView::Terminal(v) && v.state
            == DynamicPermissionState::Denied && v.code == DynamicRequestCode::DenyCeiling,
{
    assert(after.floor_of(p.selector()->0) == before.floor_of(p.selector()->0));
    assert(after.grants_spec(p, req) == before.grants_spec(p, req));
    let i = before.deny_view().len() + k;
    assert(after.deny_view()[i] == added[k]);
    assert(intersects_any(req, after.deny_view()));
}

/// Once a request needed a decision, recording an allowing answer grants
/// exactly the request for the session under the ceiling, when the session
/// has room for it, and the policy then grants it; recording a refusal is
/// a refusal under the ceiling that no decider is credited with, and asking
/// again is answered from the memo as refused, unless requests were closed
/// for lack of room.
pub proof fn lemma_decision_outcome(
    before: Policy,
    after: Policy,
    p: PrincipalView,
    req: Capability,
    ceiling: Capability,
    decider: DynamicDecider,
    allowed: bool,
    r: ResultView,
)
    requires
        p.selector() is Some,
        before.evaluate_spec(p, Some(req)) == (EvaluationView::NeedsDecision { ceiling }),
        after.decision_recorded(before, p, req, ceiling, decider, allowed, r),
    ensures
        allowed && before.session.append_allow_succeeds(p.selector()->0, req) ==> r == granted_view(
            decider,
            Some(req),
            Some(ceiling),
        ) && after.grants_spec(p, req),
        !allowed ==> {
            &&& r.state == DynamicPermissionState::Denied
            &&& r.code == DynamicRequestCode::Refused
            &&& r.decider is None
            &&& r.session_grant is None
            &&& r.ceiling == Some(ceiling)
            &&& after.evaluate_spec(p, Some(req)) matches EvaluationView::Terminal(v) && v.state
                == DynamicPermissionState::Denied && ((v.code == DynamicRequestCode::Refused && v.memoized) || (
            v.code == DynamicRequestCode::Capacity && !v.memoized))
        },
{
}

/// Once the session holds as many principals as it may, a principal it
/// does not hold gains no session authority: its request within an
/// automatic ceiling that nothing grants is refused for capacity.
pub proof fn lemma_full_session_refuses_new_principals(policy: Policy, p: PrincipalView, req: Capability)
    requires
        policy.wf(),
        policy.mode != Mode::Permissive,
        !p.is_ambient(),
        p.selector() is Some,
        policy.session.principals@.len() == MAX_SESSION_PRINCIPALS,
        policy.session.principal_of(p.selector()->0) is None,
        !policy.grants_spec(p, req),
        !policy.deny_ceiling_intersects_spec(req),
        policy.ceiling_of(p.selector()->0) matches Some((_, on)) && on == OnRequest::Auto,
        policy.covering_ceiling_spec(p.selector()->0, req) is Some,
    ensures
        policy.evaluate_spec(p, Some(req)) matches EvaluationView::Terminal(v) && v.state
            == DynamicPermissionState::Denied && v.code == DynamicRequestCode::Capacity,
{
}

/// A ceiling whose requests are to be denied lets none be asked: for a
/// request the policy does not already grant, a query answers Denied and
/// a request is denied at its first stage, whatever the ceiling covers.
pub proof fn lemma_deny_disposition_denies(policy: Policy, p: PrincipalView, req: Capability)
    requires
        policy.mode != Mode::Permissive,
        !p.is_ambient(),
        p.selector() is Some,
        policy.ceiling_of(p.selector()->0) matches Some((_, on)) && on == OnRequest::Deny,
        !policy.grants_spec(p, req),
    ensures
        policy.query_spec(p, Some(req)) == DynamicQueryState::Denied,
        policy.evaluate_spec(p, Some(req)) matches EvaluationView::Terminal(v) && v.state
            == DynamicPermissionState::Denied,
{
}

/// A request that a ceiling asking the user or deciding itself covers, and
/// that nothing grants or denies, is open to being asked: a query answers
/// Prompt.
pub proof fn lemma_open_ceiling_prompts(policy: Policy, p: PrincipalView, req: Capability)
    requires
        policy.mode != Mode::Permissive,
        !p.is_ambient(),
        p.selector() is Some,
        policy.ceiling_of(p.selector()->0) matches Some((_, on)) && on != OnRequest::Deny,
        policy.covering_ceiling_spec(p.selector()->0, req) is Some,
        !policy.grants_spec(p, req),
        !policy.deny_ceiling_intersects_spec(req),
    ensures
        policy.query_spec(p, Some(req)) == DynamicQueryState::Prompt,
{
}

} // verus!
