//! Authority handles: an attenuated capability bound to an unguessable id,
//! with cascade revocation through derived handles, and the possession
//! window that lets a handle's holder use exactly what the handle carries.
use vstd::prelude::*;
use vstd::string::*;

use crate::policy::{covers_spec, grants_view, Capability, Grant, Request};
use crate::text::{str_eq, to_owned};

verus! {

/// The longest parent chain that a liveness check follows; a longer one is
/// treated as revoked.
pub const MAX_HANDLE_CHAIN: u64 = 4096;

/// A minted authority handle.
#[derive(Debug)]
pub struct HandleEntry {
    /// The label of the principal that minted the handle; never consulted at
    /// use, which is possession-checked.
    pub minter: String,
    /// The attenuated capability the handle carries.
    pub grant: Grant,
    /// The canonical capability string, for audit.
    pub cap_str: String,
    /// The handle this one was scoped from, if any.
    pub parent: Option<u128>,
    /// Revoked directly or by a cascade from an ancestor.
    pub revoked: bool,
    /// The possessors that have already opened a use window.
    pub seen_by: Vec<String>,
}

/// The validity of a handle for a use, a narrowing or a revocation.
#[derive(Debug, PartialEq, Eq)]
pub enum HandleLookup {
    /// The id names nothing: fail closed.
    Unknown,
    /// The handle or an ancestor was revoked: fail closed.
    Revoked,
    /// The handle is live.
    Live { grant: Grant, cap_str: String, minter: String },
}

pub enum LookupView {
    Unknown,
    Revoked,
    Live { grant: Capability, cap_str: Seq<char>, minter: Seq<char> },
}

impl View for HandleLookup {
    type V = LookupView;

    open spec fn view(&self) -> LookupView {
        match self {
            HandleLookup::Unknown => LookupView::Unknown,
            HandleLookup::Revoked => LookupView::Revoked,
            HandleLookup::Live { grant, cap_str, minter } => LookupView::Live {
                grant: grant@,
                cap_str: cap_str@,
                minter: minter@,
            },
        }
    }
}

/// The table of minted handles, keyed by id.
pub struct HandleTable {
    pub entries: Vec<(u128, HandleEntry)>,
}

/// The position of `id` in the table.
pub open spec fn handle_index(es: Seq<(u128, HandleEntry)>, id: u128) -> Option<int>
    decreases es.len(),
{
    if es.len() == 0 {
        None
    } else if es.last().0 == id {
        Some(es.len() - 1)
    } else {
        handle_index(es.drop_last(), id)
    }
}

pub proof fn lemma_handle_index(es: Seq<(u128, HandleEntry)>, id: u128)
    ensures
        match handle_index(es, id) {
            Some(i) => 0 <= i < es.len() && es[i].0 == id,
            None => forall|j: int| 0 <= j < es.len() ==> es[j].0 != id,
        },
    decreases es.len(),
{
    if es.len() > 0 && es.last().0 != id {
        lemma_handle_index(es.drop_last(), id);
        assert forall|j: int| 0 <= j < es.len() - 1 implies es[j] == es.drop_last()[j] by {}
    }
}

/// With distinct ids, the entry at `k` is the one found under its id.
pub proof fn lemma_handle_index_unique(es: Seq<(u128, HandleEntry)>, k: int)
    requires
        0 <= k < es.len(),
        forall|a: int, b: int| 0 <= a < b < es.len() ==> es[a].0 != es[b].0,
    ensures
        handle_index(es, es[k].0) == Some(k),
{
    lemma_handle_index(es, es[k].0);
}

/// The entry filed under `id`.
pub open spec fn entry_of(es: Seq<(u128, HandleEntry)>, id: u128) -> Option<HandleEntry> {
    match handle_index(es, id) {
        Some(i) => Some(es[i].1),
        None => None,
    }
}

/// Following parent links from `id`, within `fuel` lookups, meets a revoked
/// handle, a vanished one, or runs out of fuel.
pub open spec fn chain_revoked(es: Seq<(u128, HandleEntry)>, id: u128, fuel: nat) -> bool
    decreases fuel,
{
    if fuel == 0 {
        true
    } else {
        match entry_of(es, id) {
            None => true,
            Some(e) => e.revoked || match e.parent {
                None => false,
                Some(p) => chain_revoked(es, p, (fuel - 1) as nat),
            },
        }
    }
}

/// Following parent links from `h`, within `fuel` steps, reaches `target`:
/// `h` is `target` or derived from it.
pub open spec fn reaches(es: Seq<(u128, HandleEntry)>, h: u128, target: u128, fuel: nat) -> bool
    decreases fuel,
{
    if h == target {
        true
    } else if fuel == 0 {
        false
    } else {
        match entry_of(es, h) {
            Some(e) => match e.parent {
                Some(p) => reaches(es, p, target, (fuel - 1) as nat),
                None => false,
            },
            None => false,
        }
    }
}

/// The ids a cascade from `root` revokes, in table order, leaving out
/// `root` itself and handles already revoked.
pub open spec fn cascade_rest(es: Seq<(u128, HandleEntry)>, all: Seq<(u128, HandleEntry)>, root: u128) -> Seq<(u128, Seq<char>)>
    decreases es.len(),
{
    if es.len() == 0 {
        Seq::empty()
    } else {
        let rest = cascade_rest(es.drop_last(), all, root);
        let e = es.last();
        if e.0 != root && !e.1.revoked && reaches(all, e.0, root, all.len() as nat) {
            rest.push((e.0, e.1.cap_str@))
        } else {
            rest
        }
    }
}

/// Two entries agree on everything but the revocation flag and possessors.
pub open spec fn same_handle(a: HandleEntry, b: HandleEntry) -> bool {
    &&& a.minter == b.minter
    &&& a.grant == b.grant
    &&& a.cap_str == b.cap_str
    &&& a.parent == b.parent
}

impl HandleTable {
    /// Ids are distinct.
    pub open spec fn wf(&self) -> bool {
        forall|a: int, b: int| 0 <= a < b < self.entries@.len() ==> self.entries@[a].0 != self.entries@[b].0
    }

    pub open spec fn entry(&self, id: u128) -> Option<HandleEntry> {
        entry_of(self.entries@, id)
    }

    /// What a lookup of `id` answers.
    pub open spec fn lookup_spec(&self, id: u128) -> LookupView {
        match self.entry(id) {
            None => LookupView::Unknown,
            Some(e) => if e.revoked || chain_revoked(self.entries@, id, MAX_HANDLE_CHAIN as nat) {
                LookupView::Revoked
            } else {
                LookupView::Live { grant: e.grant@, cap_str: e.cap_str@, minter: e.minter@ }
            },
        }
    }

    /// An empty table.
    pub fn new() -> (r: HandleTable)
        ensures
            r.wf(),
            r.entries@.len() == 0,
    {
        HandleTable { entries: Vec::new() }
    }

    fn find(&self, id: u128) -> (r: Option<usize>)
        ensures
            match r {
                Some(i) => handle_index(self.entries@, id) == Some(i as int),
                None => handle_index(self.entries@, id) is None,
            },
    {
        let mut i = self.entries.len();
        assert(self.entries@.take(i as int) =~= self.entries@);
        while i > 0
            invariant
                i <= self.entries@.len(),
                handle_index(self.entries@, id) == handle_index(self.entries@.take(i as int), id),
            decreases i,
        {
            assert(self.entries@.take(i as int).drop_last() =~= self.entries@.take(i - 1));
            if self.entries[i - 1].0 == id {
                return Some(i - 1);
            }
            i = i - 1;
        }
        None
    }

    /// Files a freshly minted or scoped handle under `id`, replacing an
    /// entry already filed there.
    pub fn insert(&mut self, id: u128, minter: String, grant: Grant, cap_str: String, parent: Option<u128>)
        requires
            old(self).wf(),
        ensures
            final(self).wf(),
            final(self).entry(id) == Some(
                HandleEntry { minter, grant, cap_str, parent, revoked: false, seen_by: final(self).entry(id)->0.seen_by },
            ),
            final(self).entry(id)->0.seen_by@.len() == 0,
            forall|other: u128| other != id ==> #[trigger] final(self).entry(other) == old(self).entry(other),
    {
        let ghost old_es = self.entries@;
        proof {
            lemma_handle_index(old_es, id);
        }
        let entry = HandleEntry { minter, grant, cap_str, parent, revoked: false, seen_by: Vec::new() };
        match self.find(id) {
            Some(i) => {
                self.entries.set(i, (id, entry));
                proof {
                    assert forall|a: int, b: int| 0 <= a < b < self.entries@.len() implies self.entries@[a].0
                        != self.entries@[b].0 by {}
                    lemma_handle_index_unique(self.entries@, i as int);
                    assert forall|other: u128| other != id implies #[trigger] entry_of(self.entries@, other)
                        == entry_of(old_es, other) by {
                        lemma_index_same_ids(self.entries@, old_es, other);
                        lemma_handle_index(old_es, other);
                    }
                }
            },
            None => {
                self.entries.push((id, entry));
                proof {
                    assert(self.entries@.drop_last() =~= old_es);
                    assert forall|other: u128| other != id implies #[trigger] entry_of(self.entries@, other)
                        == entry_of(old_es, other) by {
                        lemma_handle_index(old_es, other);
                        if handle_index(old_es, other) is Some {
                            assert(self.entries@[handle_index(old_es, other)->0] == old_es[handle_index(
                                old_es,
                                other,
                            )->0]);
                        }
                    }
                }
            },
        }
    }

    /// True when `id` or an ancestor is revoked or gone, or the chain is
    /// longer than `MAX_HANDLE_CHAIN`.
    fn any_ancestor_revoked(&self, id: u128) -> (r: bool)
        requires
            self.wf(),
        ensures
            r == chain_revoked(self.entries@, id, MAX_HANDLE_CHAIN as nat),
    {
        let mut cur = id;
        let mut fuel: u64 = MAX_HANDLE_CHAIN;
        while fuel > 0
            invariant
                fuel <= MAX_HANDLE_CHAIN,
                chain_revoked(self.entries@, id, MAX_HANDLE_CHAIN as nat) == chain_revoked(
                    self.entries@,
                    cur,
                    fuel as nat,
                ),
            decreases fuel,
        {
            proof {
                lemma_handle_index(self.entries@, cur);
            }
            match self.find(cur) {
                None => return true,
                Some(i) => {
                    if self.entries[i].1.revoked {
                        return true;
                    }
                    match self.entries[i].1.parent {
                        None => return false,
                        Some(p) => {
                            cur = p;
                        },
                    }
                },
            }
            fuel = fuel - 1;
        }
        true
    }

    /// Looks up a handle for use: its capability if it is live.
    pub fn lookup(&self, id: u128) -> (r: HandleLookup)
        requires
            self.wf(),
        ensures
            r@ == self.lookup_spec(id),
    {
        proof {
            lemma_handle_index(self.entries@, id);
        }
        match self.find(id) {
            None => HandleLookup::Unknown,
            Some(i) => {
                let e = &self.entries[i].1;
                if e.revoked || self.any_ancestor_revoked(id) {
                    HandleLookup::Revoked
                } else {
                    HandleLookup::Live {
                        grant: e.grant.duplicate(),
                        cap_str: e.cap_str.clone(),
                        minter: e.minter.clone(),
                    }
                }
            },
        }
    }

    /// The capability of `parent_id` if that handle is live, so that a
    /// scoped handle can be held to narrowing it.
    pub fn parent_grant_if_live(&self, parent_id: u128) -> (r: Option<Grant>)
        requires
            self.wf(),
        ensures
            match self.lookup_spec(parent_id) {
                LookupView::Live { grant, .. } => r is Some && r->0@ == grant,
                _ => r is None,
            },
    {
        match self.lookup(parent_id) {
            HandleLookup::Live { grant, .. } => Some(grant),
            _ => None,
        }
    }

    /// Records that `possessor` opened a use window on `id`. True exactly
    /// when this possessor is new to the handle and is not its minter: a
    /// boundary crossing worth one transfer record.
    pub fn note_possessor(&mut self, id: u128, possessor: &str) -> (r: bool)
        requires
            old(self).wf(),
        ensures
            final(self).wf(),
            r == (old(self).entry(id) matches Some(e) && !seen_in(e.seen_by@, possessor@) && possessor@
                != e.minter@),
            match old(self).entry(id) {
                None => final(self).entries@ == old(self).entries@,
                Some(e) => {
                    &&& final(self).entry(id) is Some
                    &&& same_handle(final(self).entry(id)->0, e)
                    &&& final(self).entry(id)->0.revoked == e.revoked
                    &&& seen_in(final(self).entry(id)->0.seen_by@, possessor@)
                    &&& forall|s: Seq<char>| #[trigger] seen_in(e.seen_by@, s) ==> seen_in(final(self).entry(id)->0.seen_by@, s)
                    &&& if seen_in(e.seen_by@, possessor@) {
                        final(self).entry(id)->0.seen_by@ == e.seen_by@
                    } else {
                        &&& final(self).entry(id)->0.seen_by@.len() == e.seen_by@.len() + 1
                        &&& final(self).entry(id)->0.seen_by@.drop_last() == e.seen_by@
                        &&& final(self).entry(id)->0.seen_by@.last()@ == possessor@
                    }
                },
            },
            forall|other: u128| other != id ==> #[trigger] final(self).entry(other) == old(self).entry(other),
    {
        let ghost old_es = self.entries@;
        proof {
            lemma_handle_index(old_es, id);
        }
        let i = match self.find(id) {
            None => return false,
            Some(i) => i,
        };
        let mut k: usize = 0;
        while k < self.entries[i].1.seen_by.len()
            invariant
                i < self.entries@.len(),
                self.entries@ == old_es,
                old_es == old(self).entries@,
                old(self).wf(),
                handle_index(old_es, id) == Some(i as int),
                k <= self.entries@[i as int].1.seen_by@.len(),
                forall|j: int| 0 <= j < k ==> (#[trigger] self.entries@[i as int].1.seen_by@[j])@ != possessor@,
            decreases self.entries@[i as int].1.seen_by@.len() - k,
        {
            if str_eq(self.entries[i].1.seen_by[k].as_str(), possessor) {
                assert(seen_in(self.entries@[i as int].1.seen_by@, possessor@));
                return false;
            }
            k = k + 1;
        }
        let mut pair = self.entries.remove(i);
        let ghost before = pair.1;
        pair.1.seen_by.push(to_owned(possessor));
        let crossing = !str_eq(possessor, pair.1.minter.as_str());
        self.entries.insert(i, pair);
        proof {
            assert(self.entries@ =~= old_es.update(i as int, self.entries@[i as int]));
            assert forall|a: int, b: int| 0 <= a < b < self.entries@.len() implies self.entries@[a].0
                != self.entries@[b].0 by {}
            lemma_handle_index_unique(self.entries@, i as int);
            let after = self.entries@[i as int].1;
            assert(after.seen_by@.last()@ == possessor@);
            assert(after.seen_by@.drop_last() =~= before.seen_by@);
            assert(seen_in(after.seen_by@, possessor@));
            assert forall|s: Seq<char>| #[trigger] seen_in(before.seen_by@, s) implies seen_in(after.seen_by@, s) by {
                let j = choose|j: int| 0 <= j < before.seen_by@.len() && before.seen_by@[j]@ == s;
                assert(after.seen_by@[j] == before.seen_by@[j]);
            }
            assert forall|other: u128| other != id implies #[trigger] entry_of(self.entries@, other) == entry_of(
                old_es,
                other,
            ) by {
                lemma_index_same_ids(self.entries@, old_es, other);
                lemma_handle_index(old_es, other);
            }
        }
        crossing
    }

    /// Whether `id` is marked revoked; an unknown id counts as revoked.
    pub fn is_revoked(&self, id: u128) -> (r: bool)
        ensures
            r == match self.entry(id) {
                Some(e) => e.revoked,
                None => true,
            },
    {
        proof {
            lemma_handle_index(self.entries@, id);
        }
        match self.find(id) {
            Some(i) => self.entries[i].1.revoked,
            None => true,
        }
    }
}

/// The view of a revocation report.
pub open spec fn report_view(v: Seq<(u128, String)>) -> Seq<(u128, Seq<char>)> {
    v.map_values(|p: (u128, String)| (p.0, p.1@))
}

/// Two tables agree on ids and parent links, position by position.
pub open spec fn same_links(a: Seq<(u128, HandleEntry)>, b: Seq<(u128, HandleEntry)>) -> bool {
    &&& a.len() == b.len()
    &&& forall|m: int| 0 <= m < b.len() ==> (#[trigger] a[m]).0 == b[m].0 && a[m].1.parent == b[m].1.parent
}

pub proof fn lemma_reaches_same_links(a: Seq<(u128, HandleEntry)>, b: Seq<(u128, HandleEntry)>, h: u128, t: u128, fuel: nat)
    requires
        same_links(a, b),
    ensures
        reaches(a, h, t, fuel) == reaches(b, h, t, fuel),
    decreases fuel,
{
    if h != t && fuel > 0 {
        lemma_index_same_ids(a, b, h);
        lemma_handle_index(b, h);
        match handle_index(b, h) {
            Some(i) => {
                match b[i].1.parent {
                    Some(p) => lemma_reaches_same_links(a, b, p, t, (fuel - 1) as nat),
                    None => {},
                }
            },
            None => {},
        }
    }
}

impl HandleTable {
    /// Whether following parent links from `h` reaches `target` within
    /// `fuel` steps.
    fn reaches_exec(&self, h: u128, target: u128, fuel: usize) -> (r: bool)
        ensures
            r == reaches(self.entries@, h, target, fuel as nat),
    {
        let mut cur = h;
        let mut left = fuel;
        while cur != target
            invariant
                left <= fuel,
                reaches(self.entries@, h, target, fuel as nat) == reaches(self.entries@, cur, target, left as nat),
            decreases left,
        {
            if left == 0 {
                return false;
            }
            proof {
                lemma_handle_index(self.entries@, cur);
            }
            match self.find(cur) {
                None => return false,
                Some(i) => match self.entries[i].1.parent {
                    None => return false,
                    Some(p) => {
                        cur = p;
                    },
                },
            }
            left = left - 1;
        }
        true
    }

    /// Marks the entry at `k` revoked.
    fn mark_revoked(&mut self, k: usize)
        requires
            k < old(self).entries@.len(),
        ensures
            final(self).entries@ == old(self).entries@.update(
                k as int,
                (old(self).entries@[k as int].0, HandleEntry { revoked: true, ..old(self).entries@[k as int].1 }),
            ),
    {
        let mut pair = self.entries.remove(k);
        pair.1.revoked = true;
        self.entries.insert(k, pair);
        assert(self.entries@ =~= old(self).entries@.update(
            k as int,
            (old(self).entries@[k as int].0, HandleEntry { revoked: true, ..old(self).entries@[k as int].1 }),
        ));
    }

    /// Revokes `id` and every handle derived from it, transitively. Reports
    /// each handle that this call revoked, `id` first, so that each gets one
    /// audit record; handles already revoked are not reported again.
    pub fn revoke_cascade(&mut self, id: u128) -> (r: Vec<(u128, String)>)
        requires
            old(self).wf(),
        ensures
            final(self).wf(),
            final(self).entries@.len() == old(self).entries@.len(),
            forall|k: int| 0 <= k < old(self).entries@.len() ==> {
                &&& (#[trigger] final(self).entries@[k]).0 == old(self).entries@[k].0
                &&& same_handle(final(self).entries@[k].1, old(self).entries@[k].1)
                &&& final(self).entries@[k].1.seen_by == old(self).entries@[k].1.seen_by
                &&& final(self).entries@[k].1.revoked == (old(self).entries@[k].1.revoked || (old(self).entry(
                    id,
                ) is Some && reaches(
                    old(self).entries@,
                    old(self).entries@[k].0,
                    id,
                    old(self).entries@.len() as nat,
                )))
            },
            report_view(r@) == match old(self).entry(id) {
                None => Seq::empty(),
                Some(e) => (if e.revoked {
                    Seq::empty()
                } else {
                    seq![(id, e.cap_str@)]
                }) + cascade_rest(old(self).entries@, old(self).entries@, id),
            },
            forall|h: u128|
                old(self).entry(id) is Some && #[trigger] old(self).entry(h) is Some && reaches(
                    old(self).entries@,
                    h,
                    id,
                    old(self).entries@.len() as nat,
                ) ==> final(self).lookup_spec(h) is Revoked,
    {
        let ghost old_es = self.entries@;
        let n = self.entries.len();
        proof {
            lemma_handle_index(old_es, id);
        }
        let ri = match self.find(id) {
            None => return Vec::new(),
            Some(i) => i,
        };
        let mut out: Vec<(u128, String)> = Vec::new();
        let ghost root_part: Seq<(u128, Seq<char>)> = if old_es[ri as int].1.revoked {
            Seq::empty()
        } else {
            seq![(id, old_es[ri as int].1.cap_str@)]
        };
        if !self.entries[ri].1.revoked {
            let cap = self.entries[ri].1.cap_str.clone();
            self.mark_revoked(ri);
            out.push((id, cap));
        }
        assert(report_view(out@) =~= root_part + cascade_rest(old_es.take(0), old_es, id));
        let mut k: usize = 0;
        while k < n
            invariant
                n == old_es.len(),
                ri < n,
                old_es[ri as int].0 == id,
                old(self).wf(),
                old_es == old(self).entries@,
                same_links(self.entries@, old_es),
                k <= n,
                forall|j: int| 0 <= j < n ==> {
                    &&& same_handle(#[trigger] self.entries@[j].1, old_es[j].1)
                    &&& self.entries@[j].1.seen_by == old_es[j].1.seen_by
                    &&& self.entries@[j].1.revoked == (old_es[j].1.revoked || ((j < k || j == ri) && reaches(
                        old_es,
                        old_es[j].0,
                        id,
                        n as nat,
                    )))
                },
                report_view(out@) == root_part + cascade_rest(old_es.take(k as int), old_es, id),
            decreases n - k,
        {
            assert(old_es.take(k + 1).drop_last() =~= old_es.take(k as int));
            assert(old_es.take(k + 1).last() == old_es[k as int]);
            if k != ri {
                let hid = self.entries[k].0;
                let already = self.entries[k].1.revoked;
                let derived = self.reaches_exec(hid, id, n);
                proof {
                    lemma_reaches_same_links(self.entries@, old_es, hid, id, n as nat);
                }
                if !already && derived {
                    let cap = self.entries[k].1.cap_str.clone();
                    self.mark_revoked(k);
                    let ghost before = report_view(out@);
                    out.push((hid, cap));
                    assert(report_view(out@) =~= before.push((hid, cap@)));
                }
            }
            k = k + 1;
        }
        assert(old_es.take(n as int) =~= old_es);
        proof {
            assert forall|a: int, b: int| 0 <= a < b < self.entries@.len() implies self.entries@[a].0
                != self.entries@[b].0 by {}
            assert forall|h: u128|
                entry_of(old_es, id) is Some && #[trigger] entry_of(old_es, h) is Some && reaches(old_es, h, id, n as nat)
                implies self.lookup_spec(h) is Revoked by {
                lemma_handle_index(old_es, h);
                let j = handle_index(old_es, h)->0;
                lemma_index_same_ids(self.entries@, old_es, h);
                assert(self.entries@[j].1.revoked);
            }
        }
        out
    }
}

/// A fresh 128-bit handle id from the operating system's CSPRNG, through
/// `rand::rngs::OsRng::fill_bytes` read little-endian. Nothing is stated of
/// the value: it is random. `fill_bytes` panics only when the operating
/// system cannot supply randomness.
#[verifier::external_body]
pub fn fresh_id() -> (id: u128) {
    let mut buf = [0u8; 16];
    rand::RngCore::fill_bytes(&mut rand::rngs::OsRng, &mut buf);
    u128::from_le_bytes(buf)
}

/// Mints a handle under a fresh id and files it in `table`.
pub fn insert_handle(
    table: &mut HandleTable,
    minter: String,
    grant: Grant,
    cap_str: String,
    parent: Option<u128>,
) -> (id: u128)
    requires
        old(table).wf(),
    ensures
        final(table).wf(),
        final(table).entry(id) matches Some(e) && e.minter == minter && e.grant == grant && e.cap_str == cap_str
            && e.parent == parent && !e.revoked && e.seen_by@.len() == 0,
        forall|other: u128| other != id ==> #[trigger] final(table).entry(other) == old(table).entry(other),
{
    let id = fresh_id();
    table.insert(id, minter, grant, cap_str, parent);
    id
}

/// The possession window: the capabilities of the handles whose holders
/// are inside a use callback, innermost last.
pub struct ActiveHandles {
    pub stack: Vec<Grant>,
}

impl ActiveHandles {
    /// An empty window.
    pub fn new() -> (r: ActiveHandles)
        ensures
            r.stack@.len() == 0,
    {
        ActiveHandles { stack: Vec::new() }
    }
}

/// Opens a use window on `grant`.
pub fn push_active(window: &mut ActiveHandles, grant: Grant)
    ensures
        final(window).stack@ == old(window).stack@.push(grant),
{
    window.stack.push(grant);
}

/// Closes the innermost use window, if any.
pub fn pop_active(window: &mut ActiveHandles)
    ensures
        final(window).stack@ == (if old(window).stack@.len() == 0 {
            old(window).stack@
        } else {
            old(window).stack@.drop_last()
        }),
{
    if window.stack.len() > 0 {
        window.stack.pop();
    }
}

/// Does a capability in the use window cover `req`? An operation that the
/// possessor's own grants would deny is allowed exactly when a handle it is
/// using covers it.
pub fn active_covers(window: &ActiveHandles, req: &Request) -> (r: bool)
    ensures
        r == covers_spec(grants_view(window.stack@), req@),
{
    crate::policy::covers(window.stack.as_slice(), req)
}

/// Some element of `v` reads `s`.
pub open spec fn seen_in(v: Seq<String>, s: Seq<char>) -> bool {
    exists|j: int| 0 <= j < v.len() && v[j]@ == s
}

/// Two tables with the same ids find an id at the same place.
pub proof fn lemma_index_same_ids(a: Seq<(u128, HandleEntry)>, b: Seq<(u128, HandleEntry)>, id: u128)
    requires
        a.len() == b.len(),
        forall|m: int| 0 <= m < b.len() ==> (#[trigger] a[m]).0 == b[m].0,
    ensures
        handle_index(a, id) == handle_index(b, id),
    decreases a.len(),
{
    if a.len() > 0 {
        assert forall|m: int| 0 <= m < b.len() - 1 implies (#[trigger] a.drop_last()[m]).0 == b.drop_last()[m].0 by {
            assert(a.drop_last()[m] == a[m]);
            assert(b.drop_last()[m] == b[m]);
        }
        lemma_index_same_ids(a.drop_last(), b.drop_last(), id);
    }
}

} // verus!
