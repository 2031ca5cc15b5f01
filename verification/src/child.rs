//! A worker's permission for one flag, derived from its parent's: it may
//! inherit, take everything, take nothing, or take a list of descriptors,
//! and whatever it takes must pass a check on the parent. The worker always
//! keeps every denial, refusal and ignore of its parent.
use vstd::prelude::*;

use crate::perms::{result_view, BrokerResponse, ErrorView, PermissionBroker, PermissionPrompter};
use crate::unary::{
    as_granted, inserted, inserted_all, kind_precedence, without_grants, AllowDescriptor, DenyDescriptor,
    QueryDescriptor, UnaryPermission, UnaryPermissionDesc, UnaryPermissionDescriptors,
};

verus! {

/// How a worker's permission for one flag is derived from its parent's,
/// with each listed value already parsed: `Ok(None)` is a value that names
/// nothing to grant, `Err` carries the parser's message.
pub enum ChildUnaryRequest<A: AllowDescriptor> {
    Inherit,
    Granted,
    NotGranted,
    GrantedList(Vec<Result<Option<A>, String>>),
}

/// Why a worker's permission could not be derived from its parent's.
#[derive(Debug)]
pub enum ChildPermissionError {
    /// The worker asked for something its parent does not hold.
    Escalation,
    /// A listed value did not parse; the parser's message.
    DescriptorParse(String),
}

impl ChildPermissionError {
    /// The error's message.
    pub fn message(&self) -> (r: String)
        ensures
            r@ == match self {
                ChildPermissionError::Escalation => "Can't escalate parent thread permissions"@,
                ChildPermissionError::DescriptorParse(m) => m@,
            },
    {
        match self {
            ChildPermissionError::Escalation => String::from_str("Can't escalate parent thread permissions"),
            ChildPermissionError::DescriptorParse(m) => m.clone(),
        }
    }
}

/// The descriptors that a parsed list grants, in list order.
pub open spec fn listed_grants<A: AllowDescriptor>(items: Seq<Result<Option<A>, String>>) -> Seq<A>
    decreases items.len(),
{
    if items.len() == 0 {
        Seq::empty()
    } else {
        let rest = listed_grants(items.drop_last());
        match items.last() {
            Ok(Some(a)) => rest.push(a),
            _ => rest,
        }
    }
}

/// A check of the parent for the grant `g` took it from `before` to
/// `after` and answered `res`, for some answer of the broker.
pub open spec fn grant_checked<A: AllowDescriptor, Q: QueryDescriptor<A>>(
    before: UnaryPermission<A>,
    after: UnaryPermission<A>,
    g: A,
    res: Result<(), ErrorView>,
) -> bool {
    exists|b: Option<BrokerResponse>| #[trigger]
        before.checked_spec::<Q>(&after, Some(Q::from_allow_spec(g@)), Q::non_partial_spec(), b, res)
}

/// Checking the parent for each of `grants` in turn took it through
/// `states`, and every check passed.
pub open spec fn grants_pass<A: AllowDescriptor, Q: QueryDescriptor<A>>(
    states: Seq<UnaryPermission<A>>,
    grants: Seq<A>,
) -> bool {
    &&& states.len() == grants.len() + 1
    &&& forall|i: int|
        0 <= i < grants.len() ==> #[trigger] grant_checked::<A, Q>(states[i], states[i + 1], grants[i], Ok(()))
}

/// The first `k` listed values parsed, and checking the parent for the
/// grants among them took it from `before` to `after`, every check passing.
pub open spec fn prefix_passes<A: AllowDescriptor, Q: QueryDescriptor<A>>(
    items: Seq<Result<Option<A>, String>>,
    k: int,
    before: UnaryPermission<A>,
    after: UnaryPermission<A>,
) -> bool {
    &&& 0 <= k <= items.len()
    &&& forall|i: int| 0 <= i < k ==> #[trigger] items[i] is Ok
    &&& exists|states: Seq<UnaryPermission<A>>|
        #![trigger grants_pass::<A, Q>(states, listed_grants(items.take(k)))]
        states[0] == before && states.last() == after && grants_pass::<A, Q>(states, listed_grants(items.take(k)))
}

/// Some entry of `items` is of the kind ranked `k` (see `kind_precedence`).
pub open spec fn holds_kind<A: AllowDescriptor>(items: Seq<UnaryPermissionDesc<A>>, k: u8) -> bool {
    exists|i: int| 0 <= i < items.len() && kind_precedence(#[trigger] items[i]) == k
}

/// `child` holds the grants `start` (whose kinds are noted by `flags`:
/// flag denials, ignores, refusals) and the global grant `granted_global`,
/// and takes from `parent` every global flag and every entry that is not a
/// grant.
pub open spec fn child_of<A: AllowDescriptor>(
    child: UnaryPermission<A>,
    parent: UnaryPermission<A>,
    granted_global: bool,
    start: Seq<UnaryPermissionDesc<A>>,
    flags: (bool, bool, bool),
) -> bool {
    let added = without_grants(parent.descriptors.inner@);
    &&& child.granted_global == granted_global
    &&& child.flag_denied_global == parent.flag_denied_global
    &&& child.flag_ignored_global == parent.flag_ignored_global
    &&& child.prompt_denied_global == parent.prompt_denied_global
    &&& child.prompt == parent.prompt
    &&& child.descriptors.inner@ == inserted_all(start, added)
    &&& child.descriptors.has_flag_denied == (flags.0 || holds_kind(added, 0))
    &&& child.descriptors.has_flag_ignored == (flags.1 || holds_kind(added, 2))
    &&& child.descriptors.has_prompt_denied == (flags.2 || holds_kind(added, 1))
}

/// How a list request ended: with the child's grants when every value
/// parsed and every check passed, else with the first failure in list
/// order.
pub open spec fn list_outcome<A: AllowDescriptor, Q: QueryDescriptor<A>>(
    items: Seq<Result<Option<A>, String>>,
    before: UnaryPermission<A>,
    after: UnaryPermission<A>,
    r: Result<UnaryPermission<A>, ChildPermissionError>,
) -> bool {
    match r {
        Ok(c) => prefix_passes::<A, Q>(items, items.len() as int, before, after) && child_of(
            c,
            after,
            false,
            inserted_all(Seq::empty(), as_granted(listed_grants(items))),
            (false, false, false),
        ),
        Err(ChildPermissionError::DescriptorParse(m)) => exists|k: int|
            0 <= k < items.len() && #[trigger] items[k] == Err::<Option<A>, String>(m) && prefix_passes::<A, Q>(
                items,
                k,
                before,
                after,
            ),
        Err(ChildPermissionError::Escalation) => exists|k: int, mid: UnaryPermission<A>|
            0 <= k < items.len() && #[trigger] prefix_passes::<A, Q>(items, k, before, mid) && (
            items[k] matches Ok(Some(g)) && exists|e: ErrorView| #[trigger]
                grant_checked::<A, Q>(mid, after, g, Err(e))),
    }
}

/// What deriving a worker's permission did, by the kind of request.
pub open spec fn child_outcome<A: AllowDescriptor, Q: QueryDescriptor<A>>(
    flag: ChildUnaryRequest<A>,
    before: UnaryPermission<A>,
    after: UnaryPermission<A>,
    r: Result<UnaryPermission<A>, ChildPermissionError>,
) -> bool {
    match flag {
        ChildUnaryRequest::Inherit => before.same_state(&after) && (r matches Ok(c) && child_of(
            c,
            before,
            before.granted_global,
            before.descriptors.inner@,
            (
                before.descriptors.has_flag_denied,
                before.descriptors.has_flag_ignored,
                before.descriptors.has_prompt_denied,
            ),
        )),
        ChildUnaryRequest::NotGranted => before.same_state(&after) && (r matches Ok(c) && child_of(
            c,
            before,
            false,
            Seq::empty(),
            (false, false, false),
        )),
        ChildUnaryRequest::Granted => exists|b: Option<BrokerResponse>, res: Result<(), ErrorView>|
            #[trigger] before.checked_spec::<Q>(&after, None, false, b, res) && match r {
                Ok(c) => res is Ok && child_of(c, after, true, Seq::empty(), (false, false, false)),
                Err(e) => res is Err && e is Escalation,
            },
        ChildUnaryRequest::GrantedList(items) => list_outcome::<A, Q>(items@, before, after, r),
    }
}

fn copy_entry<A: AllowDescriptor>(e: &UnaryPermissionDesc<A>) -> (r: UnaryPermissionDesc<A>)
    ensures
        r == *e,
{
    match e {
        UnaryPermissionDesc::Granted(a) => UnaryPermissionDesc::Granted(a.copy_allow()),
        UnaryPermissionDesc::FlagDenied(d) => UnaryPermissionDesc::FlagDenied(d.copy_deny()),
        UnaryPermissionDesc::FlagIgnored(d) => UnaryPermissionDesc::FlagIgnored(d.copy_deny()),
        UnaryPermissionDesc::PromptDenied(d) => UnaryPermissionDesc::PromptDenied(d.copy_deny()),
    }
}

impl<A: AllowDescriptor> UnaryPermissionDescriptors<A> {
    /// A copy of the list and its notes.
    pub fn duplicate(&self) -> (r: Self)
        ensures
            r.inner@ == self.inner@,
            r.has_flag_denied == self.has_flag_denied,
            r.has_flag_ignored == self.has_flag_ignored,
            r.has_prompt_denied == self.has_prompt_denied,
    {
        let mut inner: Vec<UnaryPermissionDesc<A>> = Vec::new();
        let mut i: usize = 0;
        while i < self.inner.len()
            invariant
                i <= self.inner@.len(),
                inner@ == self.inner@.take(i as int),
            decreases self.inner@.len() - i,
        {
            inner.push(copy_entry(&self.inner[i]));
            assert(inner@ =~= self.inner@.take(i + 1));
            i = i + 1;
        }
        assert(self.inner@.take(i as int) =~= self.inner@);
        UnaryPermissionDescriptors {
            inner,
            has_flag_denied: self.has_flag_denied,
            has_prompt_denied: self.has_prompt_denied,
            has_flag_ignored: self.has_flag_ignored,
        }
    }
}

impl<A: AllowDescriptor> UnaryPermission<A> {
    /// A copy in the same state.
    pub fn duplicate(&self) -> (r: Self)
        ensures
            self.same_state(&r),
    {
        UnaryPermission {
            granted_global: self.granted_global,
            flag_denied_global: self.flag_denied_global,
            flag_ignored_global: self.flag_ignored_global,
            prompt_denied_global: self.prompt_denied_global,
            descriptors: self.descriptors.duplicate(),
            prompt: self.prompt,
        }
    }
}


/// Inserting the entries of `xs.push(x)` is inserting those of `xs`, then `x`.
proof fn lemma_inserted_all_push<A: AllowDescriptor>(
    start: Seq<UnaryPermissionDesc<A>>,
    xs: Seq<UnaryPermissionDesc<A>>,
    x: UnaryPermissionDesc<A>,
)
    ensures
        inserted_all(start, xs.push(x)) == inserted(inserted_all(start, xs), x),
{
    assert(xs.push(x).drop_last() =~= xs);
}

proof fn lemma_holds_kind_push<A: AllowDescriptor>(xs: Seq<UnaryPermissionDesc<A>>, x: UnaryPermissionDesc<A>, k: u8)
    ensures
        holds_kind(xs.push(x), k) == (holds_kind(xs, k) || kind_precedence(x) == k),
{
    let ys = xs.push(x);
    if holds_kind(ys, k) {
        let i = choose|i: int| 0 <= i < ys.len() && kind_precedence(#[trigger] ys[i]) == k;
        if i < xs.len() {
            assert(ys[i] == xs[i]);
        }
    }
    if holds_kind(xs, k) {
        let i = choose|i: int| 0 <= i < xs.len() && kind_precedence(#[trigger] xs[i]) == k;
        assert(ys[i] == xs[i]);
    }
    if kind_precedence(x) == k {
        assert(ys[xs.len() as int] == x);
    }
}

impl<A: AllowDescriptor> UnaryPermission<A> {
    /// Gives `child` this permission's global flags and every entry of its
    /// list that is not a grant.
    fn pass_limits_to(&self, child: &mut UnaryPermission<A>)
        ensures
            final(child).granted_global == old(child).granted_global,
            final(child).flag_denied_global == self.flag_denied_global,
            final(child).flag_ignored_global == self.flag_ignored_global,
            final(child).prompt_denied_global == self.prompt_denied_global,
            final(child).prompt == self.prompt,
            final(child).descriptors.inner@ == inserted_all(
                old(child).descriptors.inner@,
                without_grants(self.descriptors.inner@),
            ),
            final(child).descriptors.has_flag_denied == (old(child).descriptors.has_flag_denied || holds_kind(
                without_grants(self.descriptors.inner@),
                0,
            )),
            final(child).descriptors.has_flag_ignored == (old(child).descriptors.has_flag_ignored || holds_kind(
                without_grants(self.descriptors.inner@),
                2,
            )),
            final(child).descriptors.has_prompt_denied == (old(child).descriptors.has_prompt_denied || holds_kind(
                without_grants(self.descriptors.inner@),
                1,
            )),
    {
        child.flag_denied_global = self.flag_denied_global;
        child.prompt_denied_global = self.prompt_denied_global;
        child.prompt = self.prompt;
        child.flag_ignored_global = self.flag_ignored_global;
        let items = self.descriptors.iter();
        let ghost start = old(child).descriptors.inner@;
        let ghost fd = old(child).descriptors.has_flag_denied;
        let ghost fi = old(child).descriptors.has_flag_ignored;
        let ghost pd = old(child).descriptors.has_prompt_denied;
        assert(items@.take(0) =~= Seq::<UnaryPermissionDesc<A>>::empty());
        let mut j: usize = 0;
        while j < items.len()
            invariant
                items@ == self.descriptors.inner@,
                j <= items@.len(),
                child.granted_global == old(child).granted_global,
                child.flag_denied_global == self.flag_denied_global,
                child.flag_ignored_global == self.flag_ignored_global,
                child.prompt_denied_global == self.prompt_denied_global,
                child.prompt == self.prompt,
                child.descriptors.inner@ == inserted_all(start, without_grants(items@.take(j as int))),
                child.descriptors.has_flag_denied == (fd || holds_kind(without_grants(items@.take(j as int)), 0)),
                child.descriptors.has_flag_ignored == (fi || holds_kind(without_grants(items@.take(j as int)), 2)),
                child.descriptors.has_prompt_denied == (pd || holds_kind(without_grants(items@.take(j as int)), 1)),
            decreases items@.len() - j,
        {
            let ghost w = without_grants(items@.take(j as int));
            assert(items@.take(j + 1).drop_last() =~= items@.take(j as int));
            assert(items@.take(j + 1).last() == items@[j as int]);
            let item = &items[j];
            match item {
                UnaryPermissionDesc::Granted(_) => {},
                _ => {
                    proof {
                        lemma_inserted_all_push(start, w, *item);
                        lemma_holds_kind_push(w, *item, 0);
                        lemma_holds_kind_push(w, *item, 1);
                        lemma_holds_kind_push(w, *item, 2);
                    }
                    child.descriptors.insert(copy_entry(item));
                },
            }
            j = j + 1;
        }
        assert(items@.take(j as int) =~= items@);
    }
}


impl<A: AllowDescriptor> UnaryPermission<A> {
    /// Checks this permission for each listed grant, in list order, and
    /// collects the grants; stops at the first value that did not parse and
    /// at the first check that failed.
    fn check_listed<Q: QueryDescriptor<A>, B: PermissionBroker, P: PermissionPrompter>(
        &mut self,
        items: &Vec<Result<Option<A>, String>>,
        broker: &mut B,
        prompter: &mut P,
    ) -> (r: Result<UnaryPermissionDescriptors<A>, ChildPermissionError>)
        ensures
            match r {
                Ok(d) => prefix_passes::<A, Q>(items@, items@.len() as int, *old(self), *final(self))
                    && d.inner@ == inserted_all(Seq::empty(), as_granted(listed_grants(items@)))
                    && !d.has_flag_denied && !d.has_flag_ignored && !d.has_prompt_denied,
                Err(ChildPermissionError::DescriptorParse(m)) => exists|k: int|
                    0 <= k < items@.len() && #[trigger] items@[k] == Err::<Option<A>, String>(m)
                        && prefix_passes::<A, Q>(items@, k, *old(self), *final(self)),
                Err(ChildPermissionError::Escalation) => exists|k: int, mid: UnaryPermission<A>|
                    0 <= k < items@.len() && #[trigger] prefix_passes::<A, Q>(items@, k, *old(self), mid) && (
                    items@[k] matches Ok(Some(g)) && exists|e: ErrorView| #[trigger]
                        grant_checked::<A, Q>(mid, *final(self), g, Err(e))),
            },
    {
        let mut descs: UnaryPermissionDescriptors<A> = UnaryPermissionDescriptors::with_capacity(0);
        let ghost mut states: Seq<UnaryPermission<A>> = seq![*self];
        assert(items@.take(0) =~= Seq::<Result<Option<A>, String>>::empty());
        assert(descs.inner@ =~= inserted_all(Seq::empty(), as_granted(listed_grants(items@.take(0)))));
        let mut i: usize = 0;
        while i < items.len()
            invariant
                i <= items@.len(),
                forall|j: int| 0 <= j < i ==> #[trigger] items@[j] is Ok,
                states.len() >= 1,
                states[0] == *old(self),
                states.last() == *self,
                grants_pass::<A, Q>(states, listed_grants(items@.take(i as int))),
                descs.inner@ == inserted_all(Seq::empty(), as_granted(listed_grants(items@.take(i as int)))),
                !descs.has_flag_denied,
                !descs.has_flag_ignored,
                !descs.has_prompt_denied,
            decreases items@.len() - i,
        {
            let ghost gs = listed_grants(items@.take(i as int));
            assert(items@.take(i + 1).drop_last() =~= items@.take(i as int));
            assert(items@.take(i + 1).last() == items@[i as int]);
            assert(prefix_passes::<A, Q>(items@, i as int, *old(self), *self));
            match &items[i] {
                Err(m) => {
                    return Err(ChildPermissionError::DescriptorParse(m.clone()));
                },
                Ok(None) => {},
                Ok(Some(a)) => {
                    let q = Q::from_allow(a);
                    let shown = q.display_name();
                    let answer = broker.answer(Q::flag_name(), Some(shown.as_str()));
                    let ghost before = *self;
                    let res = self.check_skipping_allow_all(Some(&q), Q::non_partial(), None, answer, prompter);
                    if res.is_err() {
                        assert(grant_checked::<A, Q>(before, *self, *a, Err(result_view(res)->Err_0)));
                        return Err(ChildPermissionError::Escalation);
                    }
                    assert(grant_checked::<A, Q>(before, *self, *a, Ok(())));
                    let ghost states2 = states.push(*self);
                    let ghost gs2 = gs.push(*a);
                    assert forall|j: int| 0 <= j < gs2.len() implies #[trigger] grant_checked::<A, Q>(
                        states2[j],
                        states2[j + 1],
                        gs2[j],
                        Ok(()),
                    ) by {
                        if j < gs.len() {
                            assert(states2[j] == states[j]);
                            assert(states2[j + 1] == states[j + 1]);
                            assert(gs2[j] == gs[j]);
                        }
                    }
                    proof {
                        states = states2;
                    }
                    assert(as_granted(gs2) =~= as_granted(gs).push(UnaryPermissionDesc::Granted(*a)));
                    proof {
                        lemma_inserted_all_push(Seq::empty(), as_granted(gs), UnaryPermissionDesc::Granted(*a));
                    }
                    descs.insert(UnaryPermissionDesc::Granted(a.copy_allow()));
                },
            }
            i = i + 1;
        }
        assert(items@.take(i as int) =~= items@);
        Ok(descs)
    }
}


impl<A: AllowDescriptor> UnaryPermission<A> {
    /// Derives a worker's permission from this one. `Inherit` copies it;
    /// `Granted` grants everything if a check of everything passes here;
    /// `NotGranted` grants nothing; a list grants each listed descriptor if
    /// its check passes here. A failed check is an escalation. Whatever was
    /// asked, the worker keeps every global flag and every denial, refusal
    /// and ignore of this permission.
    pub fn create_child_permissions<Q: QueryDescriptor<A>, B: PermissionBroker, P: PermissionPrompter>(
        &mut self,
        flag: ChildUnaryRequest<A>,
        broker: &mut B,
        prompter: &mut P,
    ) -> (r: Result<UnaryPermission<A>, ChildPermissionError>)
        ensures
            child_outcome::<A, Q>(flag, *old(self), *final(self), r),
    {
        let ghost flag_in = flag;
        let mut child = UnaryPermission {
            granted_global: false,
            flag_denied_global: false,
            flag_ignored_global: false,
            prompt_denied_global: false,
            descriptors: UnaryPermissionDescriptors::with_capacity(0),
            prompt: false,
        };
        assert(child.descriptors.inner@ =~= Seq::<UnaryPermissionDesc<A>>::empty());
        match flag {
            ChildUnaryRequest::Inherit => {
                child = self.duplicate();
            },
            ChildUnaryRequest::Granted => {
                let answer = broker.answer(Q::flag_name(), None);
                let checked = self.check_all_api::<Q, P>(None, answer, prompter);
                assert(old(self).checked_spec::<Q>(self, None, false, answer, result_view(checked)));
                if checked.is_err() {
                    return Err(ChildPermissionError::Escalation);
                }
                child.granted_global = true;
            },
            ChildUnaryRequest::NotGranted => {},
            ChildUnaryRequest::GrantedList(items) => {
                match self.check_listed::<Q, B, P>(&items, broker, prompter) {
                    Ok(descs) => {
                        child.descriptors = descs;
                    },
                    Err(e) => {
                        return Err(e);
                    },
                }
            },
        }
        self.pass_limits_to(&mut child);
        Ok(child)
    }
}

} // verus!
