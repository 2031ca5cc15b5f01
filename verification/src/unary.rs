//! The descriptor-based permission of one flag: a global grant, deny and
//! ignore state, and a sorted list of granted, denied and ignored
//! descriptors that is searched in order.
use vstd::prelude::*;

use crate::perms::{
    check_outcome, check_state, opt_str, result_view, BrokerResponse, ErrorView, PermissionDeniedError,
    PermissionPrompter, PermissionState, PromptResponse,
};
use crate::text::concat;
use crate::Cmp;

verus! {

/// A descriptor that can be granted.
pub trait AllowDescriptor: View + Sized {
    type DenyView;

    type DenyDesc: DenyDescriptor + View<V = Self::DenyView>;

    spec fn cmp_allow_spec(a: Self::V, b: Self::V) -> Cmp;

    spec fn cmp_deny_spec(a: Self::V, b: Self::DenyView) -> Cmp;

    /// The order of two granted descriptors in the list.
    fn cmp_allow(&self, other: &Self) -> (r: Cmp)
        ensures
            r == Self::cmp_allow_spec(self@, other@),
    ;

    /// The order of a granted and a denied descriptor in the list.
    fn cmp_deny(&self, other: &Self::DenyDesc) -> (r: Cmp)
        ensures
            r == Self::cmp_deny_spec(self@, other@),
    ;

    /// An identical copy.
    fn copy_allow(&self) -> (r: Self)
        ensures
            r == *self,
    ;
}

/// A descriptor that can be denied or ignored.
pub trait DenyDescriptor: View + Sized {
    spec fn deny_order_spec(a: Self::V, b: Self::V) -> Cmp;

    /// The order of two denied descriptors in the list.
    fn cmp_deny(&self, other: &Self) -> (r: Cmp)
        ensures
            r == Self::deny_order_spec(self@, other@),
    ;

    /// An identical copy.
    fn copy_deny(&self) -> (r: Self)
        ensures
            r == *self,
    ;
}

/// A descriptor that a permission is queried, requested, revoked or
/// checked with.
pub trait QueryDescriptor<A: AllowDescriptor>: View + Sized {
    spec fn flag_name_spec() -> Seq<char>;

    spec fn display_name_spec(q: Self::V) -> Seq<char>;

    spec fn as_allow_spec(q: Self::V) -> Option<A::V>;

    spec fn as_deny_spec(q: Self::V) -> A::DenyView;

    spec fn matches_allow_spec(q: Self::V, a: A::V) -> bool;

    spec fn matches_deny_spec(q: Self::V, d: A::DenyView) -> bool;

    spec fn revokes_spec(q: Self::V, a: A::V) -> bool;

    spec fn stronger_than_deny_spec(q: Self::V, d: A::DenyView) -> bool;

    spec fn overlaps_deny_spec(q: Self::V, d: A::DenyView) -> bool;

    spec fn from_allow_spec(a: A::V) -> Self::V;

    /// Whether a check of this kind of descriptor treats a partial grant
    /// as a denial.
    spec fn non_partial_spec() -> bool;

    /// The query that asks for exactly the grant `allow`.
    fn from_allow(allow: &A) -> (r: Self)
        ensures
            r@ == Self::from_allow_spec(allow@),
    ;

    fn non_partial() -> (r: bool)
        ensures
            r == Self::non_partial_spec(),
    ;

    /// The name of the flag, as in `--allow-NAME`.
    fn flag_name() -> (r: &'static str)
        ensures
            r@ == Self::flag_name_spec(),
    ;

    fn display_name(&self) -> (r: String)
        ensures
            r@ == Self::display_name_spec(self@),
    ;

    /// The descriptor a grant of this query records; `None` when the query
    /// names nothing that can be granted.
    fn as_allow(&self) -> (r: Option<A>)
        ensures
            match r {
                Some(a) => Self::as_allow_spec(self@) == Some(a@),
                None => Self::as_allow_spec(self@) is None,
            },
    ;

    /// The descriptor a refusal of this query records.
    fn as_deny(&self) -> (r: A::DenyDesc)
        ensures
            r@ == Self::as_deny_spec(self@),
    ;

    /// A grant of `other` covers this query.
    fn matches_allow(&self, other: &A) -> (r: bool)
        ensures
            r == Self::matches_allow_spec(self@, other@),
    ;

    /// A denial of `other` covers this query.
    fn matches_deny(&self, other: &A::DenyDesc) -> (r: bool)
        ensures
            r == Self::matches_deny_spec(self@, other@),
    ;

    /// Revoking this query removes the grant `other`.
    fn revokes(&self, other: &A) -> (r: bool)
        ensures
            r == Self::revokes_spec(self@, other@),
    ;

    /// This query covers the refused `other`.
    fn stronger_than_deny(&self, other: &A::DenyDesc) -> (r: bool)
        ensures
            r == Self::stronger_than_deny_spec(self@, other@),
    ;

    /// This query reaches a part that `other` denies.
    fn overlaps_deny(&self, other: &A::DenyDesc) -> (r: bool)
        ensures
            r == Self::overlaps_deny_spec(self@, other@),
    ;
}

/// How a permission that a flag denies for a part of the queried scope is
/// treated.
#[derive(Clone, Copy, Debug, PartialEq, Eq, Structural)]
pub enum AllowPartial {
    TreatAsGranted,
    TreatAsDenied,
    TreatAsPartialGranted,
}

impl AllowPartial {
    pub open spec fn from_bool(value: bool) -> AllowPartial {
        if value {
            AllowPartial::TreatAsGranted
        } else {
            AllowPartial::TreatAsDenied
        }
    }
}

/// One entry of a permission's descriptor list.
pub enum UnaryPermissionDesc<A: AllowDescriptor> {
    Granted(A),
    FlagDenied(A::DenyDesc),
    FlagIgnored(A::DenyDesc),
    PromptDenied(A::DenyDesc),
}

/// The rank of an entry's kind among entries for equal descriptors.
pub open spec fn kind_precedence<A: AllowDescriptor>(d: UnaryPermissionDesc<A>) -> u8 {
    match d {
        UnaryPermissionDesc::FlagDenied(_) => 0,
        UnaryPermissionDesc::PromptDenied(_) => 1,
        UnaryPermissionDesc::FlagIgnored(_) => 2,
        UnaryPermissionDesc::Granted(_) => 3,
    }
}

pub open spec fn rank_order(a: u8, b: u8) -> Cmp {
    if a < b {
        Cmp::Less
    } else if a == b {
        Cmp::Equal
    } else {
        Cmp::Greater
    }
}

pub open spec fn flip(c: Cmp) -> Cmp {
    match c {
        Cmp::Less => Cmp::Greater,
        Cmp::Equal => Cmp::Equal,
        Cmp::Greater => Cmp::Less,
    }
}

/// The order of two denied descriptors.
pub open spec fn deny_order<D: DenyDescriptor>(a: D::V, b: D::V) -> Cmp {
    D::deny_order_spec(a, b)
}

/// The order of the descriptor list: by descriptor, then denials before
/// refusals before ignores before grants.
pub open spec fn desc_order<A: AllowDescriptor>(a: UnaryPermissionDesc<A>, b: UnaryPermissionDesc<A>) -> Cmp {
    match a {
        UnaryPermissionDesc::Granted(x) => match b {
            UnaryPermissionDesc::Granted(y) => A::cmp_allow_spec(x@, y@),
            UnaryPermissionDesc::FlagDenied(y) | UnaryPermissionDesc::FlagIgnored(y)
            | UnaryPermissionDesc::PromptDenied(y) => match A::cmp_deny_spec(x@, y@) {
                Cmp::Equal => rank_order(kind_precedence(a), kind_precedence(b)),
                c => c,
            },
        },
        UnaryPermissionDesc::FlagDenied(x) | UnaryPermissionDesc::FlagIgnored(x)
        | UnaryPermissionDesc::PromptDenied(x) => match b {
            UnaryPermissionDesc::Granted(y) => match A::cmp_deny_spec(y@, x@) {
                Cmp::Equal => rank_order(kind_precedence(a), kind_precedence(b)),
                c => flip(c),
            },
            UnaryPermissionDesc::FlagDenied(y) | UnaryPermissionDesc::FlagIgnored(y)
            | UnaryPermissionDesc::PromptDenied(y) => match deny_order::<A::DenyDesc>(x@, y@) {
                Cmp::Equal => rank_order(kind_precedence(a), kind_precedence(b)),
                c => c,
            },
        },
    }
}

fn precedence<A: AllowDescriptor>(d: &UnaryPermissionDesc<A>) -> (r: u8)
    ensures
        r == kind_precedence(*d),
{
    match d {
        UnaryPermissionDesc::FlagDenied(_) => 0,
        UnaryPermissionDesc::PromptDenied(_) => 1,
        UnaryPermissionDesc::FlagIgnored(_) => 2,
        UnaryPermissionDesc::Granted(_) => 3,
    }
}

fn rank_compare(a: u8, b: u8) -> (r: Cmp)
    ensures
        r == rank_order(a, b),
{
    if a < b {
        Cmp::Less
    } else if a == b {
        Cmp::Equal
    } else {
        Cmp::Greater
    }
}

fn desc_compare<A: AllowDescriptor>(a: &UnaryPermissionDesc<A>, b: &UnaryPermissionDesc<A>) -> (r: Cmp)
    ensures
        r == desc_order(*a, *b),
{
    match a {
        UnaryPermissionDesc::Granted(x) => match b {
            UnaryPermissionDesc::Granted(y) => x.cmp_allow(y),
            UnaryPermissionDesc::FlagDenied(y) | UnaryPermissionDesc::FlagIgnored(y)
            | UnaryPermissionDesc::PromptDenied(y) => match x.cmp_deny(y) {
                Cmp::Equal => rank_compare(precedence(a), precedence(b)),
                c => c,
            },
        },
        UnaryPermissionDesc::FlagDenied(x) | UnaryPermissionDesc::FlagIgnored(x)
        | UnaryPermissionDesc::PromptDenied(x) => match b {
            UnaryPermissionDesc::Granted(y) => match y.cmp_deny(x) {
                Cmp::Equal => rank_compare(precedence(a), precedence(b)),
                Cmp::Less => Cmp::Greater,
                Cmp::Greater => Cmp::Less,
            },
            UnaryPermissionDesc::FlagDenied(y) | UnaryPermissionDesc::FlagIgnored(y)
            | UnaryPermissionDesc::PromptDenied(y) => match x.cmp_deny(y) {
                Cmp::Equal => rank_compare(precedence(a), precedence(b)),
                c => c,
            },
        },
    }
}

impl<A: AllowDescriptor> UnaryPermissionDesc<A> {
    /// The order of two entries in the list.
    pub fn cmp(&self, other: &Self) -> (r: Cmp)
        ensures
            r == desc_order(*self, *other),
    {
        desc_compare(self, other)
    }
}

/// Where `x` goes in `items`: the first entry not ordered before it, and
/// whether that entry is equal to it.
pub open spec fn insert_position<A: AllowDescriptor>(items: Seq<UnaryPermissionDesc<A>>, x: UnaryPermissionDesc<A>) -> (
    int,
    bool,
)
    decreases items.len(),
{
    if items.len() == 0 {
        (0, false)
    } else if desc_order(items[0], x) == Cmp::Less {
        let (p, eq) = insert_position(items.drop_first(), x);
        (p + 1, eq)
    } else {
        (0, desc_order(items[0], x) == Cmp::Equal)
    }
}

/// The list after inserting `x`: unchanged when an equal entry is present,
/// otherwise with `x` at its place.
pub open spec fn inserted<A: AllowDescriptor>(items: Seq<UnaryPermissionDesc<A>>, x: UnaryPermissionDesc<A>) -> Seq<
    UnaryPermissionDesc<A>,
> {
    let (p, eq) = insert_position(items, x);
    if eq {
        items
    } else {
        items.insert(p, x)
    }
}

pub proof fn lemma_insert_position<A: AllowDescriptor>(items: Seq<UnaryPermissionDesc<A>>, x: UnaryPermissionDesc<A>, i: int)
    requires
        0 <= i <= items.len(),
        forall|j: int| 0 <= j < i ==> desc_order(#[trigger] items[j], x) == Cmp::Less,
    ensures
        i < items.len() && desc_order(items[i], x) != Cmp::Less ==> insert_position(items, x) == (
            i,
            desc_order(items[i], x) == Cmp::Equal,
        ),
        i == items.len() ==> insert_position(items, x) == (i, false),
    decreases i,
{
    if i > 0 {
        assert forall|j: int| 0 <= j < i - 1 implies desc_order(#[trigger] items.drop_first()[j], x) == Cmp::Less by {
            assert(items.drop_first()[j] == items[j + 1]);
        }
        lemma_insert_position(items.drop_first(), x, i - 1);
    }
}

/// Where `insert_position` puts `x`: after the entries ordered before it,
/// at the first entry that is not, which it equals or not.
pub proof fn lemma_insert_position_props<A: AllowDescriptor>(items: Seq<UnaryPermissionDesc<A>>, x: UnaryPermissionDesc<A>)
    ensures
        ({
            let (p, eq) = insert_position(items, x);
            &&& 0 <= p <= items.len()
            &&& forall|j: int| 0 <= j < p ==> desc_order(#[trigger] items[j], x) == Cmp::Less
            &&& p < items.len() ==> desc_order(items[p], x) != Cmp::Less && eq == (desc_order(items[p], x) == Cmp::Equal)
            &&& p == items.len() ==> !eq
        }),
    decreases items.len(),
{
    if items.len() > 0 && desc_order(items[0], x) == Cmp::Less {
        lemma_insert_position_props(items.drop_first(), x);
        let (q, _) = insert_position(items.drop_first(), x);
        assert forall|j: int| 0 <= j < q + 1 implies desc_order(#[trigger] items[j], x) == Cmp::Less by {
            if j > 0 {
                assert(items[j] == items.drop_first()[j - 1]);
            }
        }
        if q < items.drop_first().len() {
            assert(items[q + 1] == items.drop_first()[q]);
        }
    }
}

/// No two entries are equal, and each is ordered before every later one.
pub open spec fn strictly_sorted<A: AllowDescriptor>(items: Seq<UnaryPermissionDesc<A>>) -> bool {
    forall|i: int, j: int| 0 <= i < j < items.len() ==> desc_order(#[trigger] items[i], #[trigger] items[j]) == Cmp::Less
}

/// The entry order is a total order between `x` and `items`, as `Ord`
/// requires of it: `x` equals itself, comparing the other way round flips
/// the answer, and what `x` precedes, it precedes transitively.
pub open spec fn orders_totally<A: AllowDescriptor>(items: Seq<UnaryPermissionDesc<A>>, x: UnaryPermissionDesc<A>) -> bool {
    &&& desc_order(x, x) == Cmp::Equal
    &&& forall|i: int| 0 <= i < items.len() ==> desc_order(x, #[trigger] items[i]) == flip(desc_order(items[i], x))
    &&& forall|i: int, j: int|
        0 <= i < items.len() && 0 <= j < items.len() && desc_order(x, #[trigger] items[i]) == Cmp::Less && desc_order(
            items[i],
            #[trigger] items[j],
        ) == Cmp::Less ==> desc_order(x, items[j]) == Cmp::Less
}

/// Inserting into a strictly sorted list keeps it strictly sorted; the
/// list then holds an entry equal to `x`, keeps every old entry, and grows
/// by one exactly when no equal entry was there.
pub proof fn lemma_insert_keeps_sorted<A: AllowDescriptor>(items: Seq<UnaryPermissionDesc<A>>, x: UnaryPermissionDesc<A>)
    requires
        strictly_sorted(items),
        orders_totally(items, x),
    ensures
        strictly_sorted(inserted(items, x)),
        exists|k: int| 0 <= k < inserted(items, x).len() && desc_order(#[trigger] inserted(items, x)[k], x) == Cmp::Equal,
        inserted(items, x).len() == items.len() + (if insert_position(items, x).1 {
            0int
        } else {
            1int
        }),
        forall|i: int| 0 <= i < items.len() ==> inserted(items, x).contains(#[trigger] items[i]),
{
    lemma_insert_position_props(items, x);
    let (p, eq) = insert_position(items, x);
    if eq {
        assert(desc_order(inserted(items, x)[p], x) == Cmp::Equal);
        assert forall|i: int| 0 <= i < items.len() implies inserted(items, x).contains(#[trigger] items[i]) by {
            assert(inserted(items, x)[i] == items[i]);
        }
    } else {
        let n = items.insert(p, x);
        assert(n == inserted(items, x));
        assert(n[p] == x);
        if p < items.len() {
            assert(desc_order(items[p], x) == Cmp::Greater);
            assert(desc_order(x, items[p]) == Cmp::Less);
        }
        assert forall|a: int, b: int| 0 <= a < b < n.len() implies desc_order(#[trigger] n[a], #[trigger] n[b])
            == Cmp::Less by {
            if b < p {
                assert(n[a] == items[a] && n[b] == items[b]);
            } else if b == p {
                assert(n[a] == items[a]);
            } else if a == p {
                assert(n[b] == items[b - 1]);
                if b - 1 > p {
                    assert(desc_order(items[p], items[b - 1]) == Cmp::Less);
                }
            } else if a < p {
                assert(n[a] == items[a] && n[b] == items[b - 1]);
            } else {
                assert(n[a] == items[a - 1] && n[b] == items[b - 1]);
            }
        }
        assert(desc_order(n[p], x) == Cmp::Equal);
        assert forall|i: int| 0 <= i < items.len() implies n.contains(#[trigger] items[i]) by {
            if i < p {
                assert(n[i] == items[i]);
            } else {
                assert(n[i + 1] == items[i]);
            }
        }
    }
}

/// The entries that a revocation by `q` keeps: every denial, and the grants
/// that `q` does not revoke.
pub open spec fn kept_after_revoke<A: AllowDescriptor, Q: QueryDescriptor<A>>(items: Seq<UnaryPermissionDesc<A>>, q: Q::V) -> Seq<
    UnaryPermissionDesc<A>,
>
    decreases items.len(),
{
    if items.len() == 0 {
        Seq::empty()
    } else {
        let rest = kept_after_revoke::<A, Q>(items.drop_last(), q);
        match items.last() {
            UnaryPermissionDesc::Granted(v) => if Q::revokes_spec(q, v@) {
                rest
            } else {
                rest.push(items.last())
            },
            _ => rest.push(items.last()),
        }
    }
}

/// The entries that are not grants, in order.
pub open spec fn without_grants<A: AllowDescriptor>(items: Seq<UnaryPermissionDesc<A>>) -> Seq<UnaryPermissionDesc<A>>
    decreases items.len(),
{
    if items.len() == 0 {
        Seq::empty()
    } else {
        let rest = without_grants(items.drop_last());
        match items.last() {
            UnaryPermissionDesc::Granted(_) => rest,
            _ => rest.push(items.last()),
        }
    }
}

pub proof fn lemma_without_grants<A: AllowDescriptor>(items: Seq<UnaryPermissionDesc<A>>)
    ensures
        forall|i: int|
            0 <= i < without_grants(items).len() ==> !(#[trigger] without_grants(items)[i] is Granted),
    decreases items.len(),
{
    if items.len() > 0 {
        lemma_without_grants(items.drop_last());
    }
}

/// The sorted descriptor list of a permission, with a note of which kinds
/// of denial it has ever held.
pub struct UnaryPermissionDescriptors<A: AllowDescriptor> {
    pub inner: Vec<UnaryPermissionDesc<A>>,
    pub has_flag_denied: bool,
    pub has_prompt_denied: bool,
    pub has_flag_ignored: bool,
}

impl<A: AllowDescriptor> UnaryPermissionDescriptors<A> {
    /// An empty list.
    pub fn with_capacity(capacity: usize) -> (r: Self)
        ensures
            r.inner@.len() == 0,
            !r.has_flag_denied,
            !r.has_prompt_denied,
            !r.has_flag_ignored,
    {
        UnaryPermissionDescriptors {
            inner: Vec::with_capacity(capacity),
            has_flag_denied: false,
            has_prompt_denied: false,
            has_flag_ignored: false,
        }
    }

    /// The entries, in list order.
    pub fn iter(&self) -> (r: &Vec<UnaryPermissionDesc<A>>)
        ensures
            r@ == self.inner@,
    {
        &self.inner
    }

    pub fn has_any_denied_or_ignored(&self) -> (r: bool)
        ensures
            r == (self.has_flag_denied || self.has_prompt_denied || self.has_flag_ignored),
    {
        self.has_flag_denied || self.has_prompt_denied || self.has_flag_ignored
    }

    pub fn has_prompt_denied(&self) -> (r: bool)
        ensures
            r == self.has_prompt_denied,
    {
        self.has_prompt_denied
    }

    /// Inserts `item` at its place in the order, unless an equal entry is
    /// already there, and notes its kind.
    pub fn insert(&mut self, item: UnaryPermissionDesc<A>)
        ensures
            final(self).inner@ == inserted(old(self).inner@, item),
            final(self).has_flag_denied == (old(self).has_flag_denied || item is FlagDenied),
            final(self).has_flag_ignored == (old(self).has_flag_ignored || item is FlagIgnored),
            final(self).has_prompt_denied == (old(self).has_prompt_denied || item is PromptDenied),
    {
        match &item {
            UnaryPermissionDesc::Granted(_) => {},
            UnaryPermissionDesc::FlagDenied(_) => {
                self.has_flag_denied = true;
            },
            UnaryPermissionDesc::FlagIgnored(_) => {
                self.has_flag_ignored = true;
            },
            UnaryPermissionDesc::PromptDenied(_) => {
                self.has_prompt_denied = true;
            },
        }
        let ghost items = self.inner@;
        let mut i: usize = 0;
        while i < self.inner.len()
            invariant
                self.inner@ == items,
                items == old(self).inner@,
                self.has_flag_denied == (old(self).has_flag_denied || item is FlagDenied),
                self.has_flag_ignored == (old(self).has_flag_ignored || item is FlagIgnored),
                self.has_prompt_denied == (old(self).has_prompt_denied || item is PromptDenied),
                i <= items.len(),
                forall|j: int| 0 <= j < i ==> desc_order(#[trigger] items[j], item) == Cmp::Less,
            decreases items.len() - i,
        {
            let c = desc_compare(&self.inner[i], &item);
            match c {
                Cmp::Less => {},
                Cmp::Equal => {
                    proof {
                        lemma_insert_position(items, item, i as int);
                    }
                    return;
                },
                Cmp::Greater => {
                    proof {
                        lemma_insert_position(items, item, i as int);
                    }
                    self.inner.insert(i, item);
                    return;
                },
            }
            i = i + 1;
        }
        proof {
            lemma_insert_position(items, item, i as int);
        }
        self.inner.insert(i, item);
    }

    /// Removes the grants that `desc` revokes.
    pub fn revoke_granted<Q: QueryDescriptor<A>>(&mut self, desc: &Q)
        ensures
            final(self).inner@ == kept_after_revoke::<A, Q>(old(self).inner@, desc@),
            final(self).has_flag_denied == old(self).has_flag_denied,
            final(self).has_flag_ignored == old(self).has_flag_ignored,
            final(self).has_prompt_denied == old(self).has_prompt_denied,
    {
        let mut old_items = Vec::new();
        std::mem::swap(&mut old_items, &mut self.inner);
        let ghost items = old_items@;
        let n = old_items.len();
        let mut kept: Vec<UnaryPermissionDesc<A>> = Vec::new();
        let mut rest = old_items;
        let mut i: usize = 0;
        while rest.len() > 0
            invariant
                items.len() == n,
                i + rest@.len() == items.len(),
                rest@ == items.skip(i as int),
                kept@ == kept_after_revoke::<A, Q>(items.take(i as int), desc@),
            decreases rest@.len(),
        {
            let item = rest.remove(0);
            assert(item == items[i as int]);
            assert(rest@ =~= items.skip(i + 1));
            assert(items.take(i + 1).drop_last() =~= items.take(i as int));
            let keep = match &item {
                UnaryPermissionDesc::Granted(v) => !desc.revokes(v),
                _ => true,
            };
            if keep {
                kept.push(item);
            }
            i = i + 1;
        }
        assert(items.take(i as int) =~= items);
        self.inner = kept;
    }

    /// Removes every grant.
    pub fn revoke_all_granted(&mut self)
        ensures
            final(self).inner@ == without_grants(old(self).inner@),
            final(self).has_flag_denied == old(self).has_flag_denied,
            final(self).has_flag_ignored == old(self).has_flag_ignored,
            final(self).has_prompt_denied == old(self).has_prompt_denied,
    {
        let mut old_items = Vec::new();
        std::mem::swap(&mut old_items, &mut self.inner);
        let ghost items = old_items@;
        let n = old_items.len();
        let mut kept: Vec<UnaryPermissionDesc<A>> = Vec::new();
        let mut rest = old_items;
        let mut i: usize = 0;
        while rest.len() > 0
            invariant
                items.len() == n,
                i + rest@.len() == items.len(),
                rest@ == items.skip(i as int),
                kept@ == without_grants(items.take(i as int)),
            decreases rest@.len(),
        {
            let item = rest.remove(0);
            assert(item == items[i as int]);
            assert(rest@ =~= items.skip(i + 1));
            assert(items.take(i + 1).drop_last() =~= items.take(i as int));
            let keep = match &item {
                UnaryPermissionDesc::Granted(_) => false,
                _ => true,
            };
            if keep {
                kept.push(item);
            }
            i = i + 1;
        }
        assert(items.take(i as int) =~= items);
        self.inner = kept;
    }
}

/// A display name as shown in prompts and errors: quoted, unless it is a
/// placeholder in angle brackets.
pub open spec fn formatted_name(name: Seq<char>) -> Seq<char> {
    if "<"@.is_prefix_of(name) && ">"@.is_suffix_of(name) {
        name
    } else {
        "\""@ + name + "\""@
    }
}

pub fn format_display_name(name: &str) -> (r: String)
    ensures
        r@ == formatted_name(name@),
{
    if crate::text::starts_with(name, "<") && crate::text::ends_with(name, ">") {
        crate::text::to_owned(name)
    } else {
        let a = concat("\"", name);
        concat(a.as_str(), "\"")
    }
}

/// The state of a permission that applies to the queried descriptor,
/// given whether a flag denies part of its scope.
pub open spec fn allowed_state(ap: AllowPartial, partial: bool) -> PermissionState {
    match ap {
        AllowPartial::TreatAsGranted => PermissionState::Granted,
        AllowPartial::TreatAsDenied => if partial {
            PermissionState::DeniedPartial
        } else {
            PermissionState::Granted
        },
        AllowPartial::TreatAsPartialGranted => if partial {
            PermissionState::GrantedPartial
        } else {
            PermissionState::Granted
        },
    }
}

/// Some flag denial or ignore reaches into the scope of `q`.
pub open spec fn overlaps_flag<A: AllowDescriptor, Q: QueryDescriptor<A>>(items: Seq<UnaryPermissionDesc<A>>, q: Q::V) -> bool {
    exists|i: int|
        0 <= i < items.len() && match #[trigger] items[i] {
            UnaryPermissionDesc::FlagIgnored(v) | UnaryPermissionDesc::FlagDenied(v) => Q::overlaps_deny_spec(q, v@),
            _ => false,
        }
}

/// The state that one entry gives `q`, if the entry decides it.
pub open spec fn decides<A: AllowDescriptor, Q: QueryDescriptor<A>>(item: UnaryPermissionDesc<A>, q: Q::V, granted: PermissionState) -> Option<
    PermissionState,
> {
    match item {
        UnaryPermissionDesc::Granted(v) => if Q::matches_allow_spec(q, v@) {
            Some(granted)
        } else {
            None
        },
        UnaryPermissionDesc::FlagDenied(v) => if Q::matches_deny_spec(q, v@) {
            Some(PermissionState::Denied)
        } else {
            None
        },
        UnaryPermissionDesc::FlagIgnored(v) => if Q::matches_deny_spec(q, v@) {
            Some(PermissionState::Ignored)
        } else {
            None
        },
        UnaryPermissionDesc::PromptDenied(v) => if Q::stronger_than_deny_spec(q, v@) {
            Some(PermissionState::Denied)
        } else {
            None
        },
    }
}

/// The first entry, in list order, that decides `q`.
pub open spec fn first_match<A: AllowDescriptor, Q: QueryDescriptor<A>>(
    items: Seq<UnaryPermissionDesc<A>>,
    q: Q::V,
    granted: PermissionState,
) -> Option<PermissionState>
    decreases items.len(),
{
    if items.len() == 0 {
        None
    } else {
        match decides::<A, Q>(items[0], q, granted) {
            Some(s) => Some(s),
            None => first_match::<A, Q>(items.drop_first(), q, granted),
        }
    }
}

pub proof fn lemma_first_match<A: AllowDescriptor, Q: QueryDescriptor<A>>(
    items: Seq<UnaryPermissionDesc<A>>,
    q: Q::V,
    granted: PermissionState,
    i: int,
)
    requires
        0 <= i <= items.len(),
        forall|j: int| 0 <= j < i ==> decides::<A, Q>(#[trigger] items[j], q, granted) is None,
    ensures
        i < items.len() && decides::<A, Q>(items[i], q, granted) is Some ==> first_match::<A, Q>(items, q, granted)
            == decides::<A, Q>(items[i], q, granted),
        i == items.len() ==> first_match::<A, Q>(items, q, granted) is None,
    decreases i,
{
    if items.len() > 0 && i > 0 {
        assert forall|j: int| 0 <= j < i - 1 implies decides::<A, Q>(#[trigger] items.drop_first()[j], q, granted) is None by {
            assert(items.drop_first()[j] == items[j + 1]);
        }
        assert(decides::<A, Q>(items[0], q, granted) is None);
        lemma_first_match::<A, Q>(items.drop_first(), q, granted, i - 1);
    }
}

pub open spec fn opt_owned_view<Q: View>(o: Option<Q>) -> Option<Q::V> {
    match o {
        Some(q) => Some(q@),
        None => None,
    }
}

pub open spec fn opt_view<Q: View>(o: Option<&Q>) -> Option<Q::V> {
    match o {
        Some(q) => Some(q@),
        None => None,
    }
}

/// The permission of one flag.
pub struct UnaryPermission<A: AllowDescriptor> {
    pub granted_global: bool,
    pub flag_denied_global: bool,
    pub flag_ignored_global: bool,
    pub prompt_denied_global: bool,
    pub descriptors: UnaryPermissionDescriptors<A>,
    pub prompt: bool,
}

impl<A: AllowDescriptor> UnaryPermission<A> {
    /// A flag denial or ignore reaches into the scope of `q`; for a query of
    /// everything, any flag denial or ignore does.
    pub open spec fn partial_spec<Q: QueryDescriptor<A>>(&self, q: Option<Q::V>) -> bool {
        match q {
            None => self.descriptors.has_flag_denied || self.descriptors.has_flag_ignored,
            Some(q) => overlaps_flag::<A, Q>(self.descriptors.inner@, q),
        }
    }

    /// The state of the permission for `q`, or for everything when `q` is
    /// `None`.
    pub open spec fn query_spec<Q: QueryDescriptor<A>>(&self, q: Option<Q::V>, ap: AllowPartial) -> PermissionState {
        let partial = self.partial_spec::<Q>(q);
        let exact = match q {
            Some(d) => first_match::<A, Q>(self.descriptors.inner@, d, allowed_state(ap, partial)),
            None => None,
        };
        match exact {
            Some(s) => s,
            None => if self.flag_ignored_global {
                PermissionState::Ignored
            } else if ap == AllowPartial::TreatAsDenied && partial {
                PermissionState::DeniedPartial
            } else if self.flag_denied_global || (q is None && (self.prompt_denied_global
                || self.descriptors.has_prompt_denied)) {
                PermissionState::Denied
            } else if self.granted_global {
                allowed_state(ap, partial)
            } else {
                PermissionState::Prompt
            },
        }
    }

    /// The parts of the permission that grants and refusals never change.
    pub open spec fn same_flags(&self, other: &Self) -> bool {
        &&& self.flag_denied_global == other.flag_denied_global
        &&& self.flag_ignored_global == other.flag_ignored_global
        &&& self.prompt == other.prompt
        &&& self.descriptors.has_flag_denied == other.descriptors.has_flag_denied
        &&& self.descriptors.has_flag_ignored == other.descriptors.has_flag_ignored
    }

    /// The permission after recording a grant for `q`: of everything when
    /// `q` is `None`, of the descriptor `q` names otherwise, and nothing
    /// when `q` names nothing grantable.
    pub open spec fn granted_spec<Q: QueryDescriptor<A>>(&self, after: &Self, q: Option<Q::V>) -> bool {
        &&& after.same_flags(self)
        &&& after.prompt_denied_global == self.prompt_denied_global
        &&& after.descriptors.has_prompt_denied == self.descriptors.has_prompt_denied
        &&& match q {
            None => after.granted_global && after.descriptors.inner@ == self.descriptors.inner@,
            Some(d) => after.granted_global == self.granted_global && match Q::as_allow_spec(d) {
                Some(av) => exists|a: A|
                    a@ == av && #[trigger] inserted(self.descriptors.inner@, UnaryPermissionDesc::Granted(a))
                        == after.descriptors.inner@,
                None => after.descriptors.inner@ == self.descriptors.inner@,
            },
        }
    }

    /// The permission after recording a refusal: of everything when `d` is
    /// `None`, of `d` otherwise.
    pub open spec fn refused_spec(&self, after: &Self, d: Option<A::DenyView>) -> bool {
        &&& after.same_flags(self)
        &&& after.granted_global == self.granted_global
        &&& match d {
            None => after.prompt_denied_global && after.descriptors.inner@ == self.descriptors.inner@
                && after.descriptors.has_prompt_denied == self.descriptors.has_prompt_denied,
            Some(xv) => after.prompt_denied_global == self.prompt_denied_global && (exists|x: A::DenyDesc|
                x@ == xv && #[trigger] inserted(self.descriptors.inner@, UnaryPermissionDesc::PromptDenied(x))
                    == after.descriptors.inner@) && after.descriptors.has_prompt_denied,
        }
    }

    /// Everything is granted and nothing is denied, refused or ignored.
    pub open spec fn allow_all_spec(&self, broker_present: bool) -> bool {
        &&& self.granted_global
        &&& !self.flag_denied_global
        &&& !self.prompt_denied_global
        &&& !self.flag_ignored_global
        &&& !(self.descriptors.has_flag_denied || self.descriptors.has_prompt_denied
            || self.descriptors.has_flag_ignored)
        &&& !broker_present
    }

    /// A permission that grants everything.
    pub fn allow_all() -> (r: Self)
        ensures
            r.granted_global,
            !r.flag_denied_global,
            !r.flag_ignored_global,
            !r.prompt_denied_global,
            !r.prompt,
            r.descriptors.inner@.len() == 0,
            !r.descriptors.has_flag_denied,
            !r.descriptors.has_prompt_denied,
            !r.descriptors.has_flag_ignored,
    {
        UnaryPermission {
            granted_global: true,
            flag_denied_global: false,
            flag_ignored_global: false,
            prompt_denied_global: false,
            descriptors: UnaryPermissionDescriptors::with_capacity(0),
            prompt: false,
        }
    }

    /// Is everything granted, with nothing denied and no broker to ask?
    pub fn is_allow_all(&self, broker_present: bool) -> (r: bool)
        ensures
            r == self.allow_all_spec(broker_present),
    {
        self.granted_global && !self.flag_denied_global && !self.prompt_denied_global && !self.flag_ignored_global
            && !self.descriptors.has_any_denied_or_ignored() && !broker_present
    }

    fn is_partial_flag_denied<Q: QueryDescriptor<A>>(&self, query: Option<&Q>) -> (r: bool)
        ensures
            r == self.partial_spec::<Q>(opt_view(query)),
    {
        match query {
            None => self.descriptors.has_flag_denied || self.descriptors.has_flag_ignored,
            Some(q) => {
                let items = self.descriptors.iter();
                let mut i: usize = 0;
                while i < items.len()
                    invariant
                        items@ == self.descriptors.inner@,
                        opt_view(query) == Some(q@),
                        i <= items@.len(),
                        forall|j: int|
                            0 <= j < i ==> !match #[trigger] items@[j] {
                                UnaryPermissionDesc::FlagIgnored(v) | UnaryPermissionDesc::FlagDenied(v) => Q::overlaps_deny_spec(q@, v@),
                                _ => false,
                            },
                    decreases items@.len() - i,
                {
                    let hit = match &items[i] {
                        UnaryPermissionDesc::FlagIgnored(v) | UnaryPermissionDesc::FlagDenied(v) => q.overlaps_deny(v),
                        _ => false,
                    };
                    if hit {
                        assert(match items@[i as int] {
                            UnaryPermissionDesc::FlagIgnored(v) | UnaryPermissionDesc::FlagDenied(v) => Q::overlaps_deny_spec(q@, v@),
                            _ => false,
                        });
                        assert(overlaps_flag::<A, Q>(self.descriptors.inner@, q@));
                        return true;
                    }
                    i = i + 1;
                }
                false
            },
        }
    }

    fn query_allowed_desc<Q: QueryDescriptor<A>>(&self, desc: Option<&Q>, ap: AllowPartial) -> (r: PermissionState)
        ensures
            r == allowed_state(ap, self.partial_spec::<Q>(opt_view(desc))),
    {
        match ap {
            AllowPartial::TreatAsGranted => PermissionState::Granted,
            AllowPartial::TreatAsDenied => if self.is_partial_flag_denied(desc) {
                PermissionState::DeniedPartial
            } else {
                PermissionState::Granted
            },
            AllowPartial::TreatAsPartialGranted => if self.is_partial_flag_denied(desc) {
                PermissionState::GrantedPartial
            } else {
                PermissionState::Granted
            },
        }
    }

    fn query_allowed_desc_for_exact_match<Q: QueryDescriptor<A>>(&self, desc: Option<&Q>, ap: AllowPartial) -> (r:
        Option<PermissionState>)
        ensures
            r == match opt_view(desc) {
                Some(d) => first_match::<A, Q>(self.descriptors.inner@, d, allowed_state(ap, self.partial_spec::<Q>(Some(d)))),
                None => None,
            },
    {
        let d = match desc {
            None => return None,
            Some(d) => d,
        };
        let ghost granted = allowed_state(ap, self.partial_spec::<Q>(Some(d@)));
        let items = self.descriptors.iter();
        let mut i: usize = 0;
        while i < items.len()
            invariant
                items@ == self.descriptors.inner@,
                opt_view(desc) == Some(d@),
                granted == allowed_state(ap, self.partial_spec::<Q>(Some(d@))),
                i <= items@.len(),
                forall|j: int| 0 <= j < i ==> decides::<A, Q>(#[trigger] items@[j], d@, granted) is None,
            decreases items@.len() - i,
        {
            let found = match &items[i] {
                UnaryPermissionDesc::Granted(v) => if d.matches_allow(v) {
                    Some(self.query_allowed_desc(desc, ap))
                } else {
                    None
                },
                UnaryPermissionDesc::FlagDenied(v) => if d.matches_deny(v) {
                    Some(PermissionState::Denied)
                } else {
                    None
                },
                UnaryPermissionDesc::FlagIgnored(v) => if d.matches_deny(v) {
                    Some(PermissionState::Ignored)
                } else {
                    None
                },
                UnaryPermissionDesc::PromptDenied(v) => if d.stronger_than_deny(v) {
                    Some(PermissionState::Denied)
                } else {
                    None
                },
            };
            assert(opt_view(desc) == Some(d@));
            assert(found == decides::<A, Q>(items@[i as int], d@, granted));
            if found.is_some() {
                proof {
                    lemma_first_match::<A, Q>(items@, d@, granted, i as int);
                }
                return found;
            }
            i = i + 1;
        }
        proof {
            lemma_first_match::<A, Q>(items@, d@, granted, i as int);
        }
        None
    }

    pub fn query_desc<Q: QueryDescriptor<A>>(&self, desc: Option<&Q>, ap: AllowPartial) -> (r: PermissionState)
        ensures
            r == self.query_spec::<Q>(opt_view(desc), ap),
    {
        if let Some(state) = self.query_allowed_desc_for_exact_match(desc, ap) {
            state
        } else if self.flag_ignored_global {
            PermissionState::Ignored
        } else if ap == AllowPartial::TreatAsDenied && self.is_partial_flag_denied(desc) {
            PermissionState::DeniedPartial
        } else if self.flag_denied_global || (desc.is_none() && (self.prompt_denied_global
            || self.descriptors.has_prompt_denied())) {
            PermissionState::Denied
        } else if self.granted_global {
            self.query_allowed_desc(desc, ap)
        } else {
            PermissionState::Prompt
        }
    }

    /// Records a grant for `query`; false when the query names nothing
    /// grantable.
    fn insert_granted<Q: QueryDescriptor<A>>(&mut self, query: Option<&Q>) -> (r: bool)
        ensures
            old(self).granted_spec::<Q>(final(self), opt_view(query)),
            r == (query is None || Q::as_allow_spec(opt_view(query)->0) is Some),
    {
        match query {
            Some(q) => match q.as_allow() {
                Some(a) => {
                    self.descriptors.insert(UnaryPermissionDesc::Granted(a));
                    true
                },
                None => false,
            },
            None => {
                self.granted_global = true;
                true
            },
        }
    }

    fn insert_prompt_denied(&mut self, desc: Option<A::DenyDesc>)
        ensures
            old(self).refused_spec(final(self), opt_owned_view(desc)),
    {
        match desc {
            Some(d) => {
                self.descriptors.insert(UnaryPermissionDesc::PromptDenied(d));
            },
            None => {
                self.prompt_denied_global = true;
            },
        }
    }
}

/// The shown name of a query, if there is one.
/// The sentence a request of `q` asks the user: "NAME access", and " to "
/// and the shown descriptor when one is asked for.
pub open spec fn request_message_spec<A: AllowDescriptor, Q: QueryDescriptor<A>>(q: Option<Q::V>) -> Seq<char> {
    match q {
        Some(d) => Q::flag_name_spec() + " access"@ + " to "@ + formatted_name(Q::display_name_spec(d)),
        None => Q::flag_name_spec() + " access"@,
    }
}

/// Builds the sentence a request of `desc` asks the user.
pub fn request_message<A: AllowDescriptor, Q: QueryDescriptor<A>>(desc: Option<&Q>) -> (r: String)
    ensures
        r@ == request_message_spec::<A, Q>(opt_view(desc)),
{
    let head = concat(Q::flag_name(), " access");
    match desc {
        Some(d) => {
            let shown = format_display_name(d.display_name().as_str());
            let with_to = concat(head.as_str(), " to ");
            concat(with_to.as_str(), shown.as_str())
        },
        None => head,
    }
}

pub open spec fn info_of<A: AllowDescriptor, Q: QueryDescriptor<A>>(q: Option<Q::V>) -> Option<Seq<char>> {
    match q {
        Some(d) => Some(formatted_name(Q::display_name_spec(d))),
        None => None,
    }
}

impl<A: AllowDescriptor> UnaryPermission<A> {
    /// Two permissions are in the same state.
    pub open spec fn same_state(&self, other: &Self) -> bool {
        &&& self.same_flags(other)
        &&& self.granted_global == other.granted_global
        &&& self.prompt_denied_global == other.prompt_denied_global
        &&& self.descriptors.has_prompt_denied == other.descriptors.has_prompt_denied
        &&& self.descriptors.inner@ == other.descriptors.inner@
    }

    /// A request of `q` answered `r` and left `after`, when the user
    /// answered `answer` if asked.
    pub open spec fn request_answered<Q: QueryDescriptor<A>>(
        &self,
        after: &Self,
        q: Option<Q::V>,
        answer: PromptResponse,
        r: PermissionState,
    ) -> bool {
        let s = self.query_spec::<Q>(q, AllowPartial::TreatAsPartialGranted);
        if s == PermissionState::Granted {
            r == PermissionState::Granted && self.granted_spec::<Q>(after, q)
        } else if s != PermissionState::Prompt || !self.prompt {
            r == (if s == PermissionState::Prompt {
                PermissionState::Denied
            } else {
                s
            }) && self.same_state(after)
        } else {
            match answer {
                PromptResponse::Allow => r == PermissionState::Granted && self.granted_spec::<Q>(after, q),
                PromptResponse::AllowAll => r == PermissionState::Granted && self.granted_spec::<Q>(after, None),
                PromptResponse::Deny => r == PermissionState::Denied && self.refused_spec(after, opt_deny::<A, Q>(q)),
            }
        }
    }

    /// A check of `q` answered `r` and left `after`, for the broker's answer
    /// `broker` and, if the user was asked, the answer `answer`.
    pub open spec fn check_answered<Q: QueryDescriptor<A>>(
        &self,
        after: &Self,
        q: Option<Q::V>,
        assert_non_partial: bool,
        broker: Option<BrokerResponse>,
        answer: PromptResponse,
        r: Result<(), ErrorView>,
    ) -> bool {
        let state = self.query_spec::<Q>(q, AllowPartial::from_bool(!assert_non_partial));
        let o = check_outcome(state, Q::flag_name_spec(), info_of::<A, Q>(q), broker, self.prompt, answer);
        &&& r == o.0
        &&& if o.1 {
            if o.0 is Ok {
                if o.2 {
                    self.granted_spec::<Q>(after, None)
                } else {
                    self.granted_spec::<Q>(after, q)
                }
            } else {
                self.refused_spec(after, opt_deny::<A, Q>(q))
            }
        } else {
            self.same_state(after)
        }
    }

    /// Asks for `desc`, or for everything: a granted query is recorded, a
    /// settled one is answered as it stands, and a prompting one asks the
    /// user and records the answer.
    pub fn request_desc<Q: QueryDescriptor<A>, P: PermissionPrompter>(&mut self, desc: Option<&Q>, prompter: &mut P) -> (r:
        PermissionState)
        ensures
            exists|answer: PromptResponse| #[trigger]
                old(self).request_answered::<Q>(final(self), opt_view(desc), answer, r),
    {
        let state = self.query_desc(desc, AllowPartial::TreatAsPartialGranted);
        if state == PermissionState::Granted {
            self.insert_granted(desc);
            assert(old(self).request_answered::<Q>(self, opt_view(desc), PromptResponse::Allow, state));
            return state;
        }
        if state != PermissionState::Prompt {
            assert(old(self).request_answered::<Q>(self, opt_view(desc), PromptResponse::Allow, state));
            return state;
        }
        if !self.prompt {
            assert(old(self).request_answered::<Q>(self, opt_view(desc), PromptResponse::Allow, PermissionState::Denied));
            return PermissionState::Denied;
        }
        let message = request_message::<A, Q>(desc);
        let answer = prompter.prompt(message.as_str(), Q::flag_name(), Some("Deno.permissions.request()"), true);
        let r = match answer {
            PromptResponse::Allow => {
                self.insert_granted(desc);
                PermissionState::Granted
            },
            PromptResponse::Deny => {
                let d = match desc {
                    Some(d) => Some(d.as_deny()),
                    None => None,
                };
                self.insert_prompt_denied(d);
                PermissionState::Denied
            },
            PromptResponse::AllowAll => {
                self.insert_granted::<Q>(None);
                PermissionState::Granted
            },
        };
        assert(old(self).request_answered::<Q>(self, opt_view(desc), answer, r));
        r
    }

    /// Revokes the grants that `desc` revokes, or every grant and the
    /// global grant when `desc` is `None`, and answers the state after.
    pub fn revoke_desc<Q: QueryDescriptor<A>>(&mut self, desc: Option<&Q>) -> (r: PermissionState)
        ensures
            old(self).revoked_spec::<Q>(final(self), opt_view(desc), r),
            desc is None ==> r != PermissionState::Granted && r != PermissionState::GrantedPartial,
    {
        match desc {
            Some(d) => {
                self.descriptors.revoke_granted(d);
            },
            None => {
                self.granted_global = false;
                self.descriptors.revoke_all_granted();
            },
        }
        self.query_desc(desc, AllowPartial::TreatAsPartialGranted)
    }

    /// Checks `desc`, or everything: the broker's answer comes first, then
    /// the state; a prompt's answer is recorded.
    pub fn check_desc<Q: QueryDescriptor<A>, P: PermissionPrompter>(
        &mut self,
        desc: Option<&Q>,
        assert_non_partial: bool,
        api_name: Option<&str>,
        broker: Option<BrokerResponse>,
        prompter: &mut P,
    ) -> (r: Result<(), PermissionDeniedError>)
        ensures
            exists|answer: PromptResponse| #[trigger]
                old(self).check_answered::<Q>(final(self), opt_view(desc), assert_non_partial, broker, answer, result_view(r)),
    {
        let ap = if !assert_non_partial {
            AllowPartial::TreatAsGranted
        } else {
            AllowPartial::TreatAsDenied
        };
        let state = self.query_desc(desc, ap);
        let info = match desc {
            Some(d) => Some(format_display_name(d.display_name().as_str())),
            None => None,
        };
        let ghost iv = opt_str(info);
        assert(iv == info_of::<A, Q>(opt_view(desc)));
        let ghost bv = broker;
        let (result, prompted, is_allow_all) = check_state(state, Q::flag_name(), api_name, broker, info, self.prompt, prompter);
        let ghost answer = choose|answer: PromptResponse|
            (result_view(result), prompted, is_allow_all) == check_outcome(state, Q::flag_name_spec(), iv, bv, old(self).prompt, answer);
        if prompted {
            if result.is_ok() {
                if is_allow_all {
                    self.insert_granted::<Q>(None);
                } else {
                    self.insert_granted(desc);
                }
            } else {
                let d = match desc {
                    Some(d) => Some(d.as_deny()),
                    None => None,
                };
                self.insert_prompt_denied(d);
            }
        }
        assert(old(self).check_answered::<Q>(self, opt_view(desc), assert_non_partial, bv, answer, result_view(result)));
        result
    }


    /// A revocation of `q`, or of everything, left `after` and answered `r`:
    /// the grants that `q` revokes are gone (every grant and the global grant
    /// for a revocation of everything), and `r` is the state after.
    pub open spec fn revoked_spec<Q: QueryDescriptor<A>>(&self, after: &Self, q: Option<Q::V>, r: PermissionState) -> bool {
        &&& after.same_flags(self)
        &&& after.prompt_denied_global == self.prompt_denied_global
        &&& after.descriptors.has_prompt_denied == self.descriptors.has_prompt_denied
        &&& after.granted_global == (q is Some && self.granted_global)
        &&& after.descriptors.inner@ == match q {
            Some(d) => kept_after_revoke::<A, Q>(self.descriptors.inner@, d),
            None => without_grants(self.descriptors.inner@),
        }
        &&& r == after.query_spec::<Q>(q, AllowPartial::TreatAsPartialGranted)
    }

    /// A check of `q` answered `r` and left `after`: at once when everything
    /// is granted, otherwise as `check_answered` says for some answer of the
    /// user.
    pub open spec fn checked_spec<Q: QueryDescriptor<A>>(
        &self,
        after: &Self,
        q: Option<Q::V>,
        assert_non_partial: bool,
        broker: Option<BrokerResponse>,
        r: Result<(), ErrorView>,
    ) -> bool {
        if self.allow_all_spec(broker is Some) {
            r is Ok && self.same_state(after)
        } else {
            exists|answer: PromptResponse| #[trigger]
                self.check_answered::<Q>(after, q, assert_non_partial, broker, answer, r)
        }
    }

    /// A request of `q` answered `r` and left `after`, for some answer of
    /// the user.
    pub open spec fn requested_spec<Q: QueryDescriptor<A>>(&self, after: &Self, q: Option<Q::V>, r: PermissionState) -> bool {
        exists|answer: PromptResponse| #[trigger] self.request_answered::<Q>(after, q, answer, r)
    }

    /// Checks `desc` unless everything is already granted.
    pub fn check_skipping_allow_all<Q: QueryDescriptor<A>, P: PermissionPrompter>(
        &mut self,
        desc: Option<&Q>,
        assert_non_partial: bool,
        api_name: Option<&str>,
        broker: Option<BrokerResponse>,
        prompter: &mut P,
    ) -> (r: Result<(), PermissionDeniedError>)
        ensures
            old(self).checked_spec::<Q>(final(self), opt_view(desc), assert_non_partial, broker, result_view(r)),
    {
        if self.is_allow_all(broker.is_some()) {
            return Ok(());
        }
        self.check_desc(desc, assert_non_partial, api_name, broker, prompter)
    }

    /// Checks everything, unless everything is already granted.
    pub fn check_all_api<Q: QueryDescriptor<A>, P: PermissionPrompter>(
        &mut self,
        api_name: Option<&str>,
        broker: Option<BrokerResponse>,
        prompter: &mut P,
    ) -> (r: Result<(), PermissionDeniedError>)
        ensures
            old(self).checked_spec::<Q>(final(self), None, false, broker, result_view(r)),
    {
        self.check_skipping_allow_all::<Q, P>(None, false, api_name, broker, prompter)
    }
}

pub open spec fn opt_deny<A: AllowDescriptor, Q: QueryDescriptor<A>>(q: Option<Q::V>) -> Option<A::DenyView> {
    match q {
        Some(d) => Some(Q::as_deny_spec(d)),
        None => None,
    }
}

/// The list after inserting each of `xs` in turn.
pub open spec fn inserted_all<A: AllowDescriptor>(items: Seq<UnaryPermissionDesc<A>>, xs: Seq<UnaryPermissionDesc<A>>) -> Seq<
    UnaryPermissionDesc<A>,
>
    decreases xs.len(),
{
    if xs.len() == 0 {
        items
    } else {
        inserted(inserted_all(items, xs.drop_last()), xs.last())
    }
}

pub open spec fn as_granted<A: AllowDescriptor>(v: Seq<A>) -> Seq<UnaryPermissionDesc<A>> {
    v.map_values(|a: A| UnaryPermissionDesc::Granted(a))
}

pub open spec fn as_flag_denied<A: AllowDescriptor>(v: Seq<A::DenyDesc>) -> Seq<UnaryPermissionDesc<A>> {
    v.map_values(|d: A::DenyDesc| UnaryPermissionDesc::FlagDenied(d))
}

pub open spec fn as_flag_ignored<A: AllowDescriptor>(v: Seq<A::DenyDesc>) -> Seq<UnaryPermissionDesc<A>> {
    v.map_values(|d: A::DenyDesc| UnaryPermissionDesc::FlagIgnored(d))
}

pub open spec fn list_items<T>(o: Option<Vec<T>>) -> Seq<T> {
    match o {
        Some(v) => v@,
        None => Seq::empty(),
    }
}


impl<A: AllowDescriptor> UnaryPermissionDescriptors<A> {
    /// Inserts every element of `items`, in order, each wrapped by `wrap`.
    fn insert_each(&mut self, items: Vec<UnaryPermissionDesc<A>>)
        ensures
            final(self).inner@ == inserted_all(old(self).inner@, items@),
            final(self).has_flag_denied == (old(self).has_flag_denied || exists|i: int|
                0 <= i < items@.len() && #[trigger] items@[i] is FlagDenied),
            final(self).has_flag_ignored == (old(self).has_flag_ignored || exists|i: int|
                0 <= i < items@.len() && #[trigger] items@[i] is FlagIgnored),
            final(self).has_prompt_denied == (old(self).has_prompt_denied || exists|i: int|
                0 <= i < items@.len() && #[trigger] items@[i] is PromptDenied),
    {
        let ghost xs = items@;
        let n = items.len();
        let mut rest = items;
        let mut i: usize = 0;
        while rest.len() > 0
            invariant
                xs.len() == n,
                i + rest@.len() == xs.len(),
                rest@ == xs.skip(i as int),
                self.inner@ == inserted_all(old(self).inner@, xs.take(i as int)),
                self.has_flag_denied == (old(self).has_flag_denied || exists|j: int|
                    0 <= j < i && #[trigger] xs[j] is FlagDenied),
                self.has_flag_ignored == (old(self).has_flag_ignored || exists|j: int|
                    0 <= j < i && #[trigger] xs[j] is FlagIgnored),
                self.has_prompt_denied == (old(self).has_prompt_denied || exists|j: int|
                    0 <= j < i && #[trigger] xs[j] is PromptDenied),
            decreases rest@.len(),
        {
            let item = rest.remove(0);
            assert(item == xs[i as int]);
            assert(rest@ =~= xs.skip(i + 1));
            assert(xs.take(i + 1).drop_last() =~= xs.take(i as int));
            assert(xs.take(i + 1).last() == item);
            self.insert(item);
            i = i + 1;
        }
        assert(xs.take(i as int) =~= xs);
    }
}

fn wrap_granted<A: AllowDescriptor>(v: Option<Vec<A>>) -> (r: Vec<UnaryPermissionDesc<A>>)
    ensures
        r@ == as_granted(list_items(v)),
{
    let items = match v {
        Some(x) => x,
        None => Vec::new(),
    };
    let ghost xs = items@;
    let mut out: Vec<UnaryPermissionDesc<A>> = Vec::new();
    let mut rest = items;
    let n = rest.len();
    let mut i: usize = 0;
    while rest.len() > 0
        invariant
            xs.len() == n,
            i + rest@.len() == xs.len(),
            rest@ == xs.skip(i as int),
            out@ == as_granted(xs.take(i as int)),
        decreases rest@.len(),
    {
        let item = rest.remove(0);
        assert(rest@ =~= xs.skip(i + 1));
        out.push(UnaryPermissionDesc::Granted(item));
        assert(as_granted(xs.take(i + 1)) =~= as_granted(xs.take(i as int)).push(UnaryPermissionDesc::Granted(xs[i as int])));
        i = i + 1;
    }
    assert(xs.take(i as int) =~= xs);
    out
}

fn wrap_denied<A: AllowDescriptor>(v: Option<Vec<A::DenyDesc>>, ignored: bool) -> (r: Vec<UnaryPermissionDesc<A>>)
    ensures
        r@ == (if ignored {
            as_flag_ignored::<A>(list_items(v))
        } else {
            as_flag_denied::<A>(list_items(v))
        }),
{
    let items = match v {
        Some(x) => x,
        None => Vec::new(),
    };
    let ghost xs = items@;
    let mut out: Vec<UnaryPermissionDesc<A>> = Vec::new();
    let mut rest = items;
    let n = rest.len();
    let mut i: usize = 0;
    while rest.len() > 0
        invariant
            xs.len() == n,
            i + rest@.len() == xs.len(),
            rest@ == xs.skip(i as int),
            out@ == (if ignored {
                as_flag_ignored::<A>(xs.take(i as int))
            } else {
                as_flag_denied::<A>(xs.take(i as int))
            }),
        decreases rest@.len(),
    {
        let item = rest.remove(0);
        assert(rest@ =~= xs.skip(i + 1));
        if ignored {
            out.push(UnaryPermissionDesc::FlagIgnored(item));
            assert(as_flag_ignored::<A>(xs.take(i + 1)) =~= as_flag_ignored::<A>(xs.take(i as int)).push(
                UnaryPermissionDesc::FlagIgnored(xs[i as int]),
            ));
        } else {
            out.push(UnaryPermissionDesc::FlagDenied(item));
            assert(as_flag_denied::<A>(xs.take(i + 1)) =~= as_flag_denied::<A>(xs.take(i as int)).push(
                UnaryPermissionDesc::FlagDenied(xs[i as int]),
            ));
        }
        i = i + 1;
    }
    assert(xs.take(i as int) =~= xs);
    out
}

pub open spec fn opt_items<T>(o: Option<Vec<T>>) -> Option<Seq<T>> {
    match o {
        Some(v) => Some(v@),
        None => None,
    }
}

pub open spec fn items_or_empty<T>(o: Option<Seq<T>>) -> Seq<T> {
    match o {
        Some(s) => s,
        None => Seq::empty(),
    }
}

/// A flag given with an empty list: it covers everything.
pub open spec fn everything<T>(o: Option<Seq<T>>) -> bool {
    o matches Some(s) && s.len() == 0
}

/// `r` is the permission that the lists of one kind of flag give: an empty
/// list grants, denies or ignores everything; the descriptors of the lists
/// are inserted grants first, then denials, then ignores.
pub open spec fn built_from<A: AllowDescriptor>(
    r: UnaryPermission<A>,
    allow: Option<Seq<A>>,
    deny: Option<Seq<A::DenyDesc>>,
    ignore: Option<Seq<A::DenyDesc>>,
    prompt: bool,
) -> bool {
    &&& r.granted_global == everything(allow)
    &&& r.flag_denied_global == everything(deny)
    &&& r.flag_ignored_global == everything(ignore)
    &&& !r.prompt_denied_global
    &&& r.prompt == prompt
    &&& r.descriptors.inner@ == inserted_all(
        Seq::empty(),
        as_granted(items_or_empty(allow)) + as_flag_denied::<A>(items_or_empty(deny)) + as_flag_ignored::<A>(
            items_or_empty(ignore),
        ),
    )
    &&& r.descriptors.has_flag_denied == (items_or_empty(deny).len() > 0)
    &&& r.descriptors.has_flag_ignored == (items_or_empty(ignore).len() > 0)
    &&& !r.descriptors.has_prompt_denied
}

/// The permission given by the command-line flags of one kind.
pub fn new_unary_with_ignore<A: AllowDescriptor>(
    allow_list: Option<Vec<A>>,
    deny_list: Option<Vec<A::DenyDesc>>,
    ignore_list: Option<Vec<A::DenyDesc>>,
    prompt: bool,
) -> (r: UnaryPermission<A>)
    ensures
        built_from(r, opt_items(allow_list), opt_items(deny_list), opt_items(ignore_list), prompt),
{
    let granted_global = match &allow_list {
        Some(v) => v.len() == 0,
        None => false,
    };
    let flag_denied_global = match &deny_list {
        Some(v) => v.len() == 0,
        None => false,
    };
    let flag_ignored_global = match &ignore_list {
        Some(v) => v.len() == 0,
        None => false,
    };
    let mut all = wrap_granted(allow_list);
    let mut denied = wrap_denied::<A>(deny_list, false);
    let mut ignored = wrap_denied::<A>(ignore_list, true);
    let ghost g = all@;
    let ghost d = denied@;
    let ghost ig = ignored@;
    all.append(&mut denied);
    all.append(&mut ignored);
    assert(all@ =~= g + d + ig);
    proof {
        assert forall|i: int| 0 <= i < all@.len() && #[trigger] all@[i] is FlagDenied implies d.len() > 0 by {
            if i < g.len() {
                assert(all@[i] == g[i]);
            } else if i >= g.len() + d.len() {
                assert(all@[i] == ig[i - g.len() - d.len()]);
            }
        }
        if d.len() > 0 {
            assert(all@[g.len() as int] is FlagDenied);
        }
        assert forall|i: int| 0 <= i < all@.len() && #[trigger] all@[i] is FlagIgnored implies ig.len() > 0 by {
            if i < g.len() {
                assert(all@[i] == g[i]);
            } else if i < g.len() + d.len() {
                assert(all@[i] == d[i - g.len()]);
            }
        }
        if ig.len() > 0 {
            assert(all@[(g.len() + d.len()) as int] is FlagIgnored);
        }
        assert forall|i: int| 0 <= i < all@.len() implies !(#[trigger] all@[i] is PromptDenied) by {
            if i < g.len() {
                assert(all@[i] == g[i]);
            } else if i < g.len() + d.len() {
                assert(all@[i] == d[i - g.len()]);
            } else {
                assert(all@[i] == ig[i - g.len() - d.len()]);
            }
        }
    }
    let mut descriptors = UnaryPermissionDescriptors::with_capacity(0);
    assert(descriptors.inner@ =~= Seq::<UnaryPermissionDesc<A>>::empty());
    descriptors.insert_each(all);
    UnaryPermission {
        granted_global,
        flag_denied_global,
        flag_ignored_global,
        prompt_denied_global: false,
        descriptors,
        prompt,
    }
}

/// Without prompts, a request answers what a query answers, a prompt
/// becoming a denial; it records the grant when the query grants, and
/// otherwise leaves the permission as it was.
pub proof fn lemma_request_without_prompt<A: AllowDescriptor, Q: QueryDescriptor<A>>(
    before: UnaryPermission<A>,
    after: UnaryPermission<A>,
    q: Option<Q::V>,
    r: PermissionState,
)
    requires
        !before.prompt,
        before.requested_spec::<Q>(&after, q, r),
    ensures
        ({
            let s = before.query_spec::<Q>(q, AllowPartial::TreatAsPartialGranted);
            &&& r == (if s == PermissionState::Prompt {
                PermissionState::Denied
            } else {
                s
            })
            &&& s == PermissionState::Granted ==> before.granted_spec::<Q>(&after, q)
            &&& s != PermissionState::Granted ==> before.same_state(&after)
        }),
{
    let answer = choose|answer: PromptResponse| #[trigger] before.request_answered::<Q>(&after, q, answer, r);
    assert(before.request_answered::<Q>(&after, q, answer, r));
}

} // verus!
