//! The bounded, process-wide session overlay of dynamic grants and
//! revocations, keyed by principal selector and exact descriptor.
use vstd::prelude::*;
use vstd::string::*;
use vstd::utf8::encode_utf8;

use crate::dynamic::DynamicRequestCode;
use crate::policy::{grant_covers, grant_covers_exec, Capability, Grant, Request};
use crate::text::{str_eq, to_owned};

verus! {

pub const MAX_DYNAMIC_DESCRIPTOR_BYTES: usize = 4096;
pub const MAX_SESSION_PRINCIPALS: usize = 256;
pub const MAX_OVERLAY_ENTRIES_PER_PRINCIPAL: usize = 128;
pub const MAX_MEMO_ENTRIES_PER_PRINCIPAL: usize = 128;
pub const MAX_OVERLAY_ENTRIES_PER_PROCESS: usize = 4096;
pub const MAX_MEMO_ENTRIES_PER_PROCESS: usize = 4096;

/// The length in bytes of the UTF-8 encoding, as the runtime reports it.
pub open spec fn byte_len(s: Seq<char>) -> int {
    (encode_utf8(s).len() as usize) as int
}

/// A request can be keyed only when its action and target together fit in
/// the descriptor budget.
pub open spec fn key_fits(c: Capability) -> bool {
    byte_len(c.action) + byte_len(c.scope) <= MAX_DYNAMIC_DESCRIPTOR_BYTES
}

fn key_fits_exec(req: &Request) -> (r: bool)
    ensures
        r == key_fits(req@),
{
    let a = req.action.as_str().len();
    let t = req.target.as_str().len();
    a <= MAX_DYNAMIC_DESCRIPTOR_BYTES && t <= MAX_DYNAMIC_DESCRIPTOR_BYTES - a
}

/// One session decision about an exact descriptor.
pub struct OverlayEntry {
    pub grant: Grant,
    pub allow: bool,
    pub sequence: u64,
}

/// A memoized denial of an exact descriptor.
pub struct MemoEntry {
    pub key: Grant,
    pub code: DynamicRequestCode,
}

/// The session state of one principal.
pub struct PrincipalOverlay {
    pub entries: Vec<OverlayEntry>,
    pub memo: Vec<MemoEntry>,
    pub requests_blocked: bool,
    pub deny_all_effective: bool,
}

/// The session state of every principal of the process.
pub struct SessionOverlay {
    pub principals: Vec<(String, PrincipalOverlay)>,
    pub entry_count: usize,
    pub memo_count: usize,
    pub next_sequence: u64,
    pub process_requests_blocked: bool,
    pub deny_all_effective: bool,
}

// ---------------------------------------------------------------------------
// Abstract reading of the overlay.

pub open spec fn entry_index(es: Seq<OverlayEntry>, key: Capability) -> Option<int>
    decreases es.len(),
{
    if es.len() == 0 {
        None
    } else if es.last().grant@ == key {
        Some(es.len() - 1)
    } else {
        entry_index(es.drop_last(), key)
    }
}

pub open spec fn memo_index(ms: Seq<MemoEntry>, key: Capability) -> Option<int>
    decreases ms.len(),
{
    if ms.len() == 0 {
        None
    } else if ms.last().key@ == key {
        Some(ms.len() - 1)
    } else {
        memo_index(ms.drop_last(), key)
    }
}

pub open spec fn principal_index(ps: Seq<(String, PrincipalOverlay)>, sel: Seq<char>) -> Option<int>
    decreases ps.len(),
{
    if ps.len() == 0 {
        None
    } else if ps.last().0@ == sel {
        Some(ps.len() - 1)
    } else {
        principal_index(ps.drop_last(), sel)
    }
}

pub proof fn lemma_entry_index(es: Seq<OverlayEntry>, key: Capability)
    ensures
        match entry_index(es, key) {
            Some(i) => 0 <= i < es.len() && es[i].grant@ == key,
            None => forall|j: int| 0 <= j < es.len() ==> es[j].grant@ != key,
        },
    decreases es.len(),
{
    if es.len() > 0 && es.last().grant@ != key {
        lemma_entry_index(es.drop_last(), key);
        assert forall|j: int| 0 <= j < es.len() - 1 implies es[j] == es.drop_last()[j] by {}
    }
}

pub proof fn lemma_memo_index(ms: Seq<MemoEntry>, key: Capability)
    ensures
        match memo_index(ms, key) {
            Some(i) => 0 <= i < ms.len() && ms[i].key@ == key,
            None => forall|j: int| 0 <= j < ms.len() ==> ms[j].key@ != key,
        },
    decreases ms.len(),
{
    if ms.len() > 0 && ms.last().key@ != key {
        lemma_memo_index(ms.drop_last(), key);
        assert forall|j: int| 0 <= j < ms.len() - 1 implies ms[j] == ms.drop_last()[j] by {}
    }
}

pub proof fn lemma_principal_index(ps: Seq<(String, PrincipalOverlay)>, sel: Seq<char>)
    ensures
        match principal_index(ps, sel) {
            Some(i) => 0 <= i < ps.len() && ps[i].0@ == sel,
            None => forall|j: int| 0 <= j < ps.len() ==> ps[j].0@ != sel,
        },
    decreases ps.len(),
{
    if ps.len() > 0 && ps.last().0@ != sel {
        lemma_principal_index(ps.drop_last(), sel);
        assert forall|j: int| 0 <= j < ps.len() - 1 implies ps[j] == ps.drop_last()[j] by {}
    }
}

/// The index of the unique element satisfying the key, given distinctness.
pub proof fn lemma_entry_index_unique(es: Seq<OverlayEntry>, key: Capability, k: int)
    requires
        0 <= k < es.len(),
        es[k].grant@ == key,
        forall|a: int, b: int| 0 <= a < b < es.len() ==> es[a].grant@ != es[b].grant@,
    ensures
        entry_index(es, key) == Some(k),
{
    lemma_entry_index(es, key);
}

pub proof fn lemma_principal_index_unique(ps: Seq<(String, PrincipalOverlay)>, sel: Seq<char>, k: int)
    requires
        0 <= k < ps.len(),
        ps[k].0@ == sel,
        forall|a: int, b: int| 0 <= a < b < ps.len() ==> ps[a].0@ != ps[b].0@,
    ensures
        principal_index(ps, sel) == Some(k),
{
    lemma_principal_index(ps, sel);
}

/// The newest entry that decides `req`: the exact entry, unless a covering
/// entry carries a later sequence.
pub open spec fn scan_newest(es: Seq<OverlayEntry>, req: Capability, cur: Option<OverlayEntry>) -> Option<OverlayEntry>
    decreases es.len(),
{
    if es.len() == 0 {
        cur
    } else {
        let e = es[0];
        let next = if e.grant@ != req && grant_covers(e.grant@, req) && (cur is None
            || e.sequence > cur->0.sequence) {
            Some(e)
        } else {
            cur
        };
        scan_newest(es.drop_first(), req, next)
    }
}

pub open spec fn newest(es: Seq<OverlayEntry>, req: Capability) -> Option<OverlayEntry> {
    let exact = match entry_index(es, req) {
        Some(i) => Some(es[i]),
        None => None,
    };
    scan_newest(es, req, exact)
}

pub open spec fn sum_entries(ps: Seq<(String, PrincipalOverlay)>) -> int
    decreases ps.len(),
{
    if ps.len() == 0 {
        0
    } else {
        sum_entries(ps.drop_last()) + ps.last().1.entries@.len()
    }
}

pub open spec fn sum_memo(ps: Seq<(String, PrincipalOverlay)>) -> int
    decreases ps.len(),
{
    if ps.len() == 0 {
        0
    } else {
        sum_memo(ps.drop_last()) + ps.last().1.memo@.len()
    }
}

pub open spec fn has_allow(es: Seq<OverlayEntry>) -> bool {
    exists|j: int| 0 <= j < es.len() && es[j].allow
}

pub open spec fn any_allow(ps: Seq<(String, PrincipalOverlay)>) -> bool {
    exists|i: int| 0 <= i < ps.len() && has_allow(ps[i].1.entries@)
}

/// No two entries carry the same sequence number.
pub open spec fn distinct_sequences(es: Seq<OverlayEntry>) -> bool {
    forall|a: int, b: int| 0 <= a < b < es.len() ==> es[a].sequence != es[b].sequence
}

/// No two entries carry the same descriptor.
pub open spec fn distinct_grants(es: Seq<OverlayEntry>) -> bool {
    forall|a: int, b: int| 0 <= a < b < es.len() ==> es[a].grant@ != es[b].grant@
}

/// What the entries `es` answer for `q` when the static grants answer `floor`.
pub open spec fn entries_verdict(es: Seq<OverlayEntry>, q: Capability, floor: bool) -> bool {
    match newest(es, q) {
        Some(e) => e.allow,
        None => floor,
    }
}

/// Entry `k` covers `q` and no covering entry is newer.
pub open spec fn newest_at(es: Seq<OverlayEntry>, q: Capability, k: int) -> bool {
    &&& 0 <= k < es.len()
    &&& grant_covers(es[k].grant@, q)
    &&& forall|j: int| 0 <= j < es.len() && grant_covers(#[trigger] es[j].grant@, q) ==> es[j].sequence <= es[k].sequence
}

pub proof fn lemma_covers_itself(c: Capability)
    ensures
        grant_covers(c, c),
{
}

/// What the covering scan returns: its start or a later covering entry,
/// none older than any covering entry it passed.
pub proof fn lemma_scan_shape(es: Seq<OverlayEntry>, q: Capability, cur: Option<OverlayEntry>)
    ensures
        (scan_newest(es, q, cur) is None) == (cur is None && forall|j: int|
            0 <= j < es.len() ==> !(es[j].grant@ != q && grant_covers(#[trigger] es[j].grant@, q))),
        scan_newest(es, q, cur) matches Some(r) ==> (cur == Some(r) || exists|j: int|
            0 <= j < es.len() && es[j].grant@ != q && grant_covers(es[j].grant@, q) && #[trigger] es[j] == r),
        scan_newest(es, q, cur) matches Some(r) ==> (cur matches Some(c) ==> c.sequence <= r.sequence),
        scan_newest(es, q, cur) matches Some(r) ==> forall|j: int|
            0 <= j < es.len() && es[j].grant@ != q && grant_covers(#[trigger] es[j].grant@, q) ==> es[j].sequence
                <= r.sequence,
    decreases es.len(),
{
    if es.len() > 0 {
        let e = es[0];
        let next = if e.grant@ != q && grant_covers(e.grant@, q) && (cur is None || e.sequence > cur->0.sequence) {
            Some(e)
        } else {
            cur
        };
        let rest = es.drop_first();
        lemma_scan_shape(rest, q, next);
        assert forall|j: int| 0 < j < es.len() implies #[trigger] es[j] == rest[j - 1] by {}
        if let Some(r) = scan_newest(es, q, cur) {
            if next != cur {
                assert(es[0] == r || exists|j: int|
                    0 <= j < es.len() && es[j].grant@ != q && grant_covers(es[j].grant@, q) && #[trigger] es[j] == r) by {
                    if next != Some(r) {
                        let j = choose|j: int|
                            0 <= j < rest.len() && rest[j].grant@ != q && grant_covers(rest[j].grant@, q) && #[trigger] rest[j] == r;
                        assert(es[j + 1] == r);
                    }
                }
            } else if cur != Some(r) {
                let j = choose|j: int|
                    0 <= j < rest.len() && rest[j].grant@ != q && grant_covers(rest[j].grant@, q) && #[trigger] rest[j] == r;
                assert(es[j + 1] == r);
            }
        }
    }
}

/// The newest covering entry decides, and it is newest among all entries
/// covering `q`.
pub proof fn lemma_newest_shape(es: Seq<OverlayEntry>, q: Capability)
    requires
        distinct_grants(es),
    ensures
        (newest(es, q) is None) == (forall|j: int| 0 <= j < es.len() ==> !grant_covers(#[trigger] es[j].grant@, q)),
        newest(es, q) matches Some(r) ==> exists|k: int| newest_at(es, q, k) && #[trigger] es[k] == r,
{
    lemma_entry_index(es, q);
    let exact = match entry_index(es, q) {
        Some(i) => Some(es[i]),
        None => None::<OverlayEntry>,
    };
    lemma_scan_shape(es, q, exact);
    lemma_covers_itself(q);
    if let Some(i) = entry_index(es, q) {
        assert forall|j: int| 0 <= j < es.len() && es[j].grant@ == q implies j == i by {
            if j != i {
                if j < i {
                    assert(es[j].grant@ != es[i].grant@);
                } else {
                    assert(es[i].grant@ != es[j].grant@);
                }
            }
        }
    }
    if let Some(r) = newest(es, q) {
        if exact == Some(r) {
            let i = entry_index(es, q)->0;
            assert(newest_at(es, q, i));
        } else {
            let k = choose|k: int|
                0 <= k < es.len() && es[k].grant@ != q && grant_covers(es[k].grant@, q) && #[trigger] es[k] == r;
            assert(newest_at(es, q, k));
        }
    } else {
        assert forall|j: int| 0 <= j < es.len() implies !grant_covers(#[trigger] es[j].grant@, q) by {
            if es[j].grant@ == q {
                assert(entry_index(es, q) is Some);
            }
        }
    }
}

/// Two entries both newest for `q` are the same entry.
pub proof fn lemma_newest_at_unique(es: Seq<OverlayEntry>, q: Capability, k1: int, k2: int)
    requires
        distinct_sequences(es),
        newest_at(es, q, k1),
        newest_at(es, q, k2),
    ensures
        k1 == k2,
{
    assert(es[k1].sequence <= es[k2].sequence);
    assert(es[k2].sequence <= es[k1].sequence);
    if k1 < k2 {
        assert(es[k1].sequence != es[k2].sequence);
    } else if k2 < k1 {
        assert(es[k2].sequence != es[k1].sequence);
    }
}

/// Entry lists that hold the same entries covering `q` answer `q` alike.
pub proof fn lemma_same_covering_same_verdict(es1: Seq<OverlayEntry>, es2: Seq<OverlayEntry>, q: Capability, floor: bool)
    requires
        distinct_grants(es1),
        distinct_grants(es2),
        distinct_sequences(es1),
        forall|j: int| 0 <= j < es2.len() && grant_covers(#[trigger] es2[j].grant@, q) ==> exists|m: int|
            0 <= m < es1.len() && #[trigger] es1[m] == es2[j],
        forall|m: int| 0 <= m < es1.len() && grant_covers(#[trigger] es1[m].grant@, q) ==> exists|j: int|
            0 <= j < es2.len() && #[trigger] es2[j] == es1[m],
    ensures
        entries_verdict(es2, q, floor) == entries_verdict(es1, q, floor),
{
    lemma_newest_shape(es1, q);
    lemma_newest_shape(es2, q);
    match (newest(es1, q), newest(es2, q)) {
        (Some(r1), Some(r2)) => {
            let k1 = choose|k: int| newest_at(es1, q, k) && #[trigger] es1[k] == r1;
            let k2 = choose|k: int| newest_at(es2, q, k) && #[trigger] es2[k] == r2;
            let m = choose|m: int| 0 <= m < es1.len() && #[trigger] es1[m] == es2[k2];
            let j = choose|j: int| 0 <= j < es2.len() && #[trigger] es2[j] == es1[k1];
            assert(grant_covers(es1[m].grant@, q));
            assert(grant_covers(es2[j].grant@, q));
            assert(es1[m].sequence <= r1.sequence);
            assert(es2[j].sequence <= r2.sequence);
            assert(newest_at(es1, q, m));
            lemma_newest_at_unique(es1, q, k1, m);
        },
        (Some(r1), None) => {
            let k1 = choose|k: int| newest_at(es1, q, k) && #[trigger] es1[k] == r1;
            let j = choose|j: int| 0 <= j < es2.len() && #[trigger] es2[j] == es1[k1];
            assert(grant_covers(es2[j].grant@, q));
        },
        (None, Some(r2)) => {
            let k2 = choose|k: int| newest_at(es2, q, k) && #[trigger] es2[k] == r2;
            let m = choose|m: int| 0 <= m < es1.len() && #[trigger] es1[m] == es2[k2];
            assert(grant_covers(es1[m].grant@, q));
        },
        (None, None) => {},
    }
}

/// Dropping an allow entry never turns a denial into an allow.
pub proof fn lemma_remove_allow_narrows(es: Seq<OverlayEntry>, i: int, q: Capability, floor: bool)
    requires
        distinct_grants(es),
        distinct_sequences(es),
        0 <= i < es.len(),
        es[i].allow,
    ensures
        entries_verdict(es.remove(i), q, floor) ==> entries_verdict(es, q, floor),
{
    let es2 = es.remove(i);
    assert forall|j: int| 0 <= j < es2.len() implies #[trigger] es2[j] == es[if j < i { j } else { j + 1 }] by {}
    assert(distinct_grants(es2)) by {
        assert forall|a: int, b: int| 0 <= a < b < es2.len() implies es2[a].grant@ != es2[b].grant@ by {
            assert(es2[a] == es[if a < i { a } else { a + 1 }]);
            assert(es2[b] == es[if b < i { b } else { b + 1 }]);
        }
    }
    lemma_newest_shape(es, q);
    lemma_newest_shape(es2, q);
    if let Some(r1) = newest(es, q) {
        let k1 = choose|k: int| newest_at(es, q, k) && #[trigger] es[k] == r1;
        if k1 != i {
            let j = if k1 < i { k1 } else { k1 - 1 };
            assert(es2[j] == es[k1]);
            assert(grant_covers(es2[j].grant@, q));
            let r2 = newest(es2, q)->0;
            let k2 = choose|k: int| newest_at(es2, q, k) && #[trigger] es2[k] == r2;
            let m = if k2 < i { k2 } else { k2 + 1 };
            assert(es2[k2] == es[m]);
            assert(grant_covers(es[m].grant@, q));
            assert(es2[j].sequence <= r2.sequence);
            assert(newest_at(es, q, m));
            lemma_newest_at_unique(es, q, k1, m);
        }
    } else {
        assert forall|j: int| 0 <= j < es2.len() implies !grant_covers(#[trigger] es2[j].grant@, q) by {
            assert(es2[j] == es[if j < i { j } else { j + 1 }]);
        }
    }
}

/// Every request that `b` allows, `a` allowed too.
pub open spec fn narrows(a: SessionOverlay, b: SessionOverlay) -> bool {
    forall|sel: Seq<char>, q: Capability, floor: bool| #[trigger] b.effective_spec(sel, q, floor) ==> a.effective_spec(
        sel,
        q,
        floor,
    )
}

/// `b` allows only what `a` allowed, or what principal `sel` asks under a
/// descriptor that `g` covers.
pub open spec fn widens_at_most(a: SessionOverlay, b: SessionOverlay, sel: Seq<char>, g: Capability) -> bool {
    forall|s: Seq<char>, q: Capability, floor: bool| #[trigger] b.effective_spec(s, q, floor) ==> a.effective_spec(
        s,
        q,
        floor,
    ) || (s == sel && grant_covers(g, q))
}

/// Writing `entry` with the largest sequence, in place of the entry of
/// the same descriptor or appended: requests it covers get its answer,
/// every other request keeps its verdict.
pub proof fn lemma_written_entries_verdict(
    oe: Seq<OverlayEntry>,
    ne: Seq<OverlayEntry>,
    entry: OverlayEntry,
    placed: Option<int>,
    q: Capability,
    floor: bool,
)
    requires
        distinct_grants(oe),
        distinct_grants(ne),
        distinct_sequences(oe),
        distinct_sequences(ne),
        forall|j: int| 0 <= j < oe.len() ==> #[trigger] oe[j].sequence < entry.sequence,
        match placed {
            Some(k) => 0 <= k < oe.len() && oe[k].grant@ == entry.grant@ && ne == oe.update(k, entry),
            None => ne == oe.push(entry),
        },
    ensures
        entries_verdict(ne, q, floor) == if grant_covers(entry.grant@, q) {
            entry.allow
        } else {
            entries_verdict(oe, q, floor)
        },
{
    let ke = match placed {
        Some(k) => k,
        None => oe.len() as int,
    };
    assert(ne[ke] == entry);
    if grant_covers(entry.grant@, q) {
        lemma_newest_shape(ne, q);
        assert(grant_covers(ne[ke].grant@, q));
        let r = newest(ne, q)->0;
        let k = choose|k: int| newest_at(ne, q, k) && #[trigger] ne[k] == r;
        if k != ke {
            assert(ne[k] == oe[k]);
            assert(oe[k].sequence < entry.sequence);
        }
    } else {
        assert forall|j: int| 0 <= j < ne.len() && grant_covers(#[trigger] ne[j].grant@, q) implies exists|m: int|
            0 <= m < oe.len() && #[trigger] oe[m] == ne[j] by {
            assert(j != ke);
            assert(ne[j] == oe[j]);
        }
        assert forall|m: int| 0 <= m < oe.len() && grant_covers(#[trigger] oe[m].grant@, q) implies exists|j: int|
            0 <= j < ne.len() && #[trigger] ne[j] == oe[m] by {
            assert(m != ke);
            assert(ne[m] == oe[m]);
        }
        lemma_same_covering_same_verdict(oe, ne, q, floor);
    }
}

impl PrincipalOverlay {
    pub open spec fn wf(&self, next_sequence: u64) -> bool {
        &&& self.entries@.len() <= MAX_OVERLAY_ENTRIES_PER_PRINCIPAL
        &&& self.memo@.len() <= MAX_MEMO_ENTRIES_PER_PRINCIPAL
        &&& forall|a: int, b: int|
            0 <= a < b < self.entries@.len() ==> self.entries@[a].grant@ != self.entries@[b].grant@
        &&& forall|a: int, b: int|
            0 <= a < b < self.memo@.len() ==> self.memo@[a].key@ != self.memo@[b].key@
        &&& forall|j: int| 0 <= j < self.entries@.len() ==> self.entries@[j].sequence < next_sequence
        &&& distinct_sequences(self.entries@)
        &&& self.deny_all_effective ==> self.entries@.len() == 0
    }

    fn new() -> (r: PrincipalOverlay)
        ensures
            r.entries@.len() == 0,
            r.memo@.len() == 0,
            !r.requests_blocked,
            !r.deny_all_effective,
    {
        PrincipalOverlay {
            entries: Vec::new(),
            memo: Vec::new(),
            requests_blocked: false,
            deny_all_effective: false,
        }
    }
}

impl SessionOverlay {
    /// The well-formedness of the overlay: every quota holds, every count is
    /// exact, keys are distinct, sequences are fresh, and a process-wide
    /// deny-all also closes requests.
    pub open spec fn wf(&self) -> bool {
        &&& self.principals@.len() <= MAX_SESSION_PRINCIPALS
        &&& forall|a: int, b: int|
            0 <= a < b < self.principals@.len() ==> self.principals@[a].0@ != self.principals@[b].0@
        &&& forall|i: int|
            0 <= i < self.principals@.len() ==> (#[trigger] self.principals@[i]).1.wf(self.next_sequence)
        &&& self.entry_count == sum_entries(self.principals@)
        &&& self.memo_count == sum_memo(self.principals@)
        &&& self.entry_count <= MAX_OVERLAY_ENTRIES_PER_PROCESS
        &&& self.memo_count <= MAX_MEMO_ENTRIES_PER_PROCESS
        &&& self.deny_all_effective ==> self.process_requests_blocked
    }

    pub open spec fn principal_of(&self, sel: Seq<char>) -> Option<PrincipalOverlay> {
        match principal_index(self.principals@, sel) {
            Some(i) => Some(self.principals@[i].1),
            None => None,
        }
    }

    /// The session's verdict for `req` by principal `sel` whose static grants
    /// answer `floor`.
    pub open spec fn effective_spec(&self, sel: Seq<char>, req: Capability, floor: bool) -> bool {
        if self.deny_all_effective {
            false
        } else {
            match self.principal_of(sel) {
                None => floor,
                Some(p) => if p.deny_all_effective {
                    false
                } else if !key_fits(req) {
                    floor
                } else {
                    match newest(p.entries@, req) {
                        Some(e) => e.allow,
                        None => floor,
                    }
                },
            }
        }
    }

    /// The memoized denial or capacity block that answers a repeated request.
    pub open spec fn prior_spec(&self, sel: Seq<char>, req: Capability) -> Result<Option<DynamicRequestCode>, ()> {
        if !key_fits(req) {
            Err(())
        } else {
            match self.principal_of(sel) {
                Some(p) if memo_index(p.memo@, req) is Some => Ok(Some(p.memo@[memo_index(p.memo@, req)->0].code)),
                Some(p) if p.requests_blocked => Err(()),
                _ => if self.process_requests_blocked {
                    Err(())
                } else {
                    Ok(None)
                },
            }
        }
    }

    /// Whether a new principal can be admitted under `sel`.
    pub open spec fn admits_principal(&self, sel: Seq<char>) -> bool {
        self.principal_of(sel) is Some || (byte_len(sel) <= MAX_DYNAMIC_DESCRIPTOR_BYTES
            && self.principals@.len() < MAX_SESSION_PRINCIPALS)
    }

    /// Whether a session allow for `req` by `sel` will be recorded.
    pub open spec fn append_allow_succeeds(&self, sel: Seq<char>, req: Capability) -> bool {
        &&& !self.process_requests_blocked
        &&& key_fits(req)
        &&& !(self.principal_of(sel) matches Some(p) && p.requests_blocked)
        &&& self.admits_principal(sel)
        &&& match self.principal_of(sel) {
            None => self.entry_count < MAX_OVERLAY_ENTRIES_PER_PROCESS || any_allow(self.principals@),
            Some(p) => entry_index(p.entries@, req) is Some || (!p.deny_all_effective && if p.entries@.len()
                >= MAX_OVERLAY_ENTRIES_PER_PRINCIPAL {
                has_allow(p.entries@)
            } else {
                self.entry_count < MAX_OVERLAY_ENTRIES_PER_PROCESS || any_allow(self.principals@)
            }),
        }
        &&& self.next_sequence < u64::MAX
    }

    pub fn new() -> (r: SessionOverlay)
        ensures
            r.wf(),
            r.principals@.len() == 0,
            r.entry_count == 0,
            r.memo_count == 0,
            r.next_sequence == 0,
            !r.process_requests_blocked,
            !r.deny_all_effective,
    {
        SessionOverlay {
            principals: Vec::new(),
            entry_count: 0,
            memo_count: 0,
            next_sequence: 0,
            process_requests_blocked: false,
            deny_all_effective: false,
        }
    }

    fn find_principal(&self, sel: &str) -> (r: Option<usize>)
        ensures
            match r {
                Some(i) => principal_index(self.principals@, sel@) == Some(i as int),
                None => principal_index(self.principals@, sel@) is None,
            },
    {
        let mut i = self.principals.len();
        assert(self.principals@.take(i as int) =~= self.principals@);
        while i > 0
            invariant
                i <= self.principals@.len(),
                principal_index(self.principals@, sel@) == principal_index(self.principals@.take(i as int), sel@),
            decreases i,
        {
            let ghost pre = self.principals@.take(i as int);
            assert(pre.drop_last() =~= self.principals@.take(i - 1));
            if str_eq(self.principals[i - 1].0.as_str(), sel) {
                return Some(i - 1);
            }
            i = i - 1;
        }
        None
    }

    /// The session state of `selector`, if it has any.
    pub fn principal(&self, selector: &str) -> (r: Option<&PrincipalOverlay>)
        ensures
            match r {
                Some(p) => self.principal_of(selector@) == Some(*p),
                None => self.principal_of(selector@) is None,
            },
    {
        proof {
            lemma_principal_index(self.principals@, selector@);
        }
        match self.find_principal(selector) {
            Some(i) => Some(&self.principals[i].1),
            None => None,
        }
    }

    /// The number of principals with session state.
    pub fn principal_count(&self) -> (r: usize)
        ensures
            r == self.principals@.len(),
    {
        self.principals.len()
    }

    /// The session's verdict for a request, see `effective_spec`.
    pub fn effective(&self, selector: &str, req: &Request, floor: bool) -> (r: bool)
        requires
            self.wf(),
        ensures
            r == self.effective_spec(selector@, req@, floor),
    {
        self.effective_with_scan_count(selector, req, floor).0
    }

    /// The session verdict together with the number of non-exact entries it
    /// had to examine, which never exceeds the per-principal quota.
    pub fn effective_with_scan_count(&self, selector: &str, req: &Request, floor: bool) -> (r: (bool, usize))
        requires
            self.wf(),
        ensures
            r.0 == self.effective_spec(selector@, req@, floor),
            r.1 <= MAX_OVERLAY_ENTRIES_PER_PRINCIPAL,
    {
        if self.deny_all_effective {
            return (false, 0);
        }
        let pi = match self.find_principal(selector) {
            None => return (floor, 0),
            Some(i) => i,
        };
        proof {
            lemma_principal_index(self.principals@, selector@);
            assert(self.principals@[pi as int].1.wf(self.next_sequence));
        }
        let p = &self.principals[pi].1;
        if p.deny_all_effective {
            return (false, 0);
        }
        if !key_fits_exec(req) {
            return (floor, 0);
        }
        let exact = find_entry(&p.entries, req);
        proof {
            lemma_entry_index(p.entries@, req@);
        }
        let mut cur: Option<usize> = exact;
        let mut scanned: usize = 0;
        let mut i: usize = 0;
        let ghost es = p.entries@;
        let ghost init = match exact {
            Some(k) => Some(es[k as int]),
            None => None::<OverlayEntry>,
        };
        assert(es.skip(0) =~= es);
        while i < p.entries.len()
            invariant
                es == p.entries@,
                i <= es.len(),
                es.len() <= MAX_OVERLAY_ENTRIES_PER_PRINCIPAL,
                scanned <= i,
                match cur {
                    Some(k) => k < es.len(),
                    None => true,
                },
                scan_newest(es, req@, init) == scan_newest(
                    es.skip(i as int),
                    req@,
                    match cur {
                        Some(k) => Some(es[k as int]),
                        None => None,
                    },
                ),
            decreases es.len() - i,
        {
            let e = &p.entries[i];
            let ghost cur_e = match cur {
                Some(k) => Some(es[k as int]),
                None => None::<OverlayEntry>,
            };
            assert(es.skip(i as int).drop_first() =~= es.skip(i + 1));
            assert(es.skip(i as int)[0] == es[i as int]);
            if !grant_eq_request(&e.grant, req) {
                scanned = scanned + 1;
                if grant_covers_exec(&e.grant, req) {
                    let newer = match cur {
                        None => true,
                        Some(k) => e.sequence > p.entries[k].sequence,
                    };
                    if newer {
                        cur = Some(i);
                    }
                }
            }
            i = i + 1;
        }
        assert(es.skip(es.len() as int) =~= Seq::<OverlayEntry>::empty());
        match cur {
            Some(k) => (p.entries[k].allow, scanned),
            None => (floor, scanned),
        }
    }
}

/// Does the grant denote exactly the request's descriptor?
pub fn grant_eq_request(g: &Grant, r: &Request) -> (b: bool)
    ensures
        b == (g@ == r@),
{
    g.family == r.family && str_eq(g.action.as_str(), r.action.as_str()) && str_eq(
        g.scope.as_str(),
        r.target.as_str(),
    )
}

fn find_entry(es: &Vec<OverlayEntry>, req: &Request) -> (r: Option<usize>)
    ensures
        match r {
            Some(i) => entry_index(es@, req@) == Some(i as int),
            None => entry_index(es@, req@) is None,
        },
{
    let mut i = es.len();
    assert(es@.take(i as int) =~= es@);
    while i > 0
        invariant
            i <= es@.len(),
            entry_index(es@, req@) == entry_index(es@.take(i as int), req@),
        decreases i,
    {
        assert(es@.take(i as int).drop_last() =~= es@.take(i - 1));
        if grant_eq_request(&es[i - 1].grant, req) {
            return Some(i - 1);
        }
        i = i - 1;
    }
    None
}

fn find_memo(ms: &Vec<MemoEntry>, req: &Request) -> (r: Option<usize>)
    ensures
        match r {
            Some(i) => memo_index(ms@, req@) == Some(i as int),
            None => memo_index(ms@, req@) is None,
        },
{
    let mut i = ms.len();
    assert(ms@.take(i as int) =~= ms@);
    while i > 0
        invariant
            i <= ms@.len(),
            memo_index(ms@, req@) == memo_index(ms@.take(i as int), req@),
        decreases i,
    {
        assert(ms@.take(i as int).drop_last() =~= ms@.take(i - 1));
        if grant_eq_request(&ms[i - 1].key, req) {
            return Some(i - 1);
        }
        i = i - 1;
    }
    None
}


// ---------------------------------------------------------------------------
// Counting lemmas.

pub proof fn lemma_sum_push(ps: Seq<(String, PrincipalOverlay)>, x: (String, PrincipalOverlay))
    ensures
        sum_entries(ps.push(x)) == sum_entries(ps) + x.1.entries@.len(),
        sum_memo(ps.push(x)) == sum_memo(ps) + x.1.memo@.len(),
{
    assert(ps.push(x).drop_last() =~= ps);
}

pub proof fn lemma_sum_update(ps: Seq<(String, PrincipalOverlay)>, i: int, x: (String, PrincipalOverlay))
    requires
        0 <= i < ps.len(),
    ensures
        sum_entries(ps.update(i, x)) == sum_entries(ps) - ps[i].1.entries@.len() + x.1.entries@.len(),
        sum_memo(ps.update(i, x)) == sum_memo(ps) - ps[i].1.memo@.len() + x.1.memo@.len(),
    decreases ps.len(),
{
    if i == ps.len() - 1 {
        assert(ps.update(i, x).drop_last() =~= ps.drop_last());
    } else {
        lemma_sum_update(ps.drop_last(), i, x);
        assert(ps.update(i, x).drop_last() =~= ps.drop_last().update(i, x));
    }
}

pub proof fn lemma_sum_ge(ps: Seq<(String, PrincipalOverlay)>, i: int)
    requires
        0 <= i < ps.len(),
    ensures
        sum_entries(ps) >= ps[i].1.entries@.len(),
        sum_memo(ps) >= ps[i].1.memo@.len(),
        sum_entries(ps) >= 0,
        sum_memo(ps) >= 0,
    decreases ps.len(),
{
    lemma_sum_nonneg(ps.drop_last());
    if i < ps.len() - 1 {
        lemma_sum_ge(ps.drop_last(), i);
    }
}

pub proof fn lemma_sum_nonneg(ps: Seq<(String, PrincipalOverlay)>)
    ensures
        sum_entries(ps) >= 0,
        sum_memo(ps) >= 0,
    decreases ps.len(),
{
    if ps.len() > 0 {
        lemma_sum_nonneg(ps.drop_last());
    }
}

pub proof fn lemma_sum_entries_zero(ps: Seq<(String, PrincipalOverlay)>)
    requires
        forall|j: int| 0 <= j < ps.len() ==> (#[trigger] ps[j]).1.entries@.len() == 0,
    ensures
        sum_entries(ps) == 0,
    decreases ps.len(),
{
    if ps.len() > 0 {
        assert forall|j: int| 0 <= j < ps.len() - 1 implies (#[trigger] ps.drop_last()[j]).1.entries@.len() == 0 by {
            assert(ps.drop_last()[j] == ps[j]);
        }
        lemma_sum_entries_zero(ps.drop_last());
    }
}

pub proof fn lemma_sum_memo_zero(ps: Seq<(String, PrincipalOverlay)>)
    requires
        forall|j: int| 0 <= j < ps.len() ==> (#[trigger] ps[j]).1.memo@.len() == 0,
    ensures
        sum_memo(ps) == 0,
    decreases ps.len(),
{
    if ps.len() > 0 {
        assert forall|j: int| 0 <= j < ps.len() - 1 implies (#[trigger] ps.drop_last()[j]).1.memo@.len() == 0 by {
            assert(ps.drop_last()[j] == ps[j]);
        }
        lemma_sum_memo_zero(ps.drop_last());
    }
}

/// The scan keeps a starting entry that no other entry outdates.
pub proof fn lemma_scan_keeps_newest(es: Seq<OverlayEntry>, req: Capability, e: OverlayEntry)
    requires
        forall|j: int| 0 <= j < es.len() ==> (#[trigger] es[j]).sequence <= e.sequence,
    ensures
        scan_newest(es, req, Some(e)) == Some(e),
    decreases es.len(),
{
    if es.len() > 0 {
        assert forall|j: int| 0 <= j < es.drop_first().len() implies (#[trigger] es.drop_first()[j]).sequence <= e.sequence by {
            assert(es.drop_first()[j] == es[j + 1]);
        }
        lemma_scan_keeps_newest(es.drop_first(), req, e);
    }
}

/// After an entry for `req` was written with the largest sequence, that
/// entry alone decides `req`.
pub proof fn lemma_newest_is_last_written(es: Seq<OverlayEntry>, req: Capability, k: int)
    requires
        0 <= k < es.len(),
        es[k].grant@ == req,
        forall|a: int, b: int| 0 <= a < b < es.len() ==> es[a].grant@ != es[b].grant@,
        forall|j: int| 0 <= j < es.len() ==> (#[trigger] es[j]).sequence <= es[k].sequence,
    ensures
        newest(es, req) == Some(es[k]),
{
    lemma_entry_index_unique(es, req, k);
    lemma_scan_keeps_newest(es, req, es[k]);
}

impl SessionOverlay {
    /// The principal selectors the overlay tracks, in order.
    pub open spec fn selectors(&self) -> Seq<Seq<char>> {
        self.principals@.map_values(|p: (String, PrincipalOverlay)| p.0@)
    }

    /// Takes a fresh sequence number; running out closes requests.
    fn take_sequence(&mut self) -> (r: Option<u64>)
        requires
            old(self).wf(),
        ensures
            final(self).wf(),
            final(self).principals@ == old(self).principals@,
            final(self).deny_all_effective == old(self).deny_all_effective,
            final(self).entry_count == old(self).entry_count,
            final(self).memo_count == old(self).memo_count,
            old(self).next_sequence < u64::MAX ==> r == Some(old(self).next_sequence)
                && final(self).next_sequence == old(self).next_sequence + 1
                && final(self).process_requests_blocked == old(self).process_requests_blocked,
            old(self).next_sequence == u64::MAX ==> r is None && final(self).process_requests_blocked
                && final(self).next_sequence == old(self).next_sequence,
    {
        let sequence = self.next_sequence;
        if sequence == u64::MAX {
            self.process_requests_blocked = true;
            return None;
        }
        self.next_sequence = sequence + 1;
        proof {
            assert forall|i: int| 0 <= i < self.principals@.len() implies (#[trigger] self.principals@[i]).1.wf(self.next_sequence) by {
                assert(old(self).principals@[i].1.wf(old(self).next_sequence));
            }
        }
        Some(sequence)
    }

    /// Makes sure `selector` has a slot, admitting it when the quota allows;
    /// refusing a new principal closes requests process-wide.
    fn ensure_principal(&mut self, selector: &str) -> (r: bool)
        requires
            old(self).wf(),
        ensures
            final(self).wf(),
            r == old(self).admits_principal(selector@),
            r ==> final(self).principal_of(selector@) is Some,
            old(self).principal_of(selector@) is Some ==> final(self).principals@ == old(self).principals@,
            old(self).principal_of(selector@) is None && r ==> final(self).principals@ == old(
                self,
            ).principals@.push(final(self).principals@.last()) && final(self).principals@.last().1.entries@.len() == 0
                && final(self).principals@.last().1.memo@.len() == 0 && !final(self).principals@.last().1.requests_blocked
                && !final(self).principals@.last().1.deny_all_effective,
            !r ==> final(self).principals@ == old(self).principals@ && final(self).process_requests_blocked,
            r ==> final(self).process_requests_blocked == old(self).process_requests_blocked,
            final(self).deny_all_effective == old(self).deny_all_effective,
            final(self).next_sequence == old(self).next_sequence,
            final(self).entry_count == old(self).entry_count,
            final(self).memo_count == old(self).memo_count,
    {
        proof {
            lemma_principal_index(self.principals@, selector@);
        }
        if self.find_principal(selector).is_some() {
            return true;
        }
        if selector.len() > MAX_DYNAMIC_DESCRIPTOR_BYTES || self.principals.len() >= MAX_SESSION_PRINCIPALS {
            self.process_requests_blocked = true;
            return false;
        }
        let ghost old_ps = self.principals@;
        let entry = (to_owned(selector), PrincipalOverlay::new());
        self.principals.push(entry);
        proof {
            lemma_sum_push(old_ps, entry);
            assert(self.principals@.last() == entry);
            assert forall|a: int, b: int| 0 <= a < b < self.principals@.len() implies self.principals@[a].0@
                != self.principals@[b].0@ by {
                if b == self.principals@.len() - 1 {
                    assert(self.principals@[a] == old_ps[a]);
                }
            }
            assert forall|i: int| 0 <= i < self.principals@.len() implies (#[trigger] self.principals@[i]).1.wf(self.next_sequence) by {
                if i < old_ps.len() {
                    assert(self.principals@[i] == old_ps[i]);
                }
            }
            lemma_principal_index_unique(self.principals@, selector@, self.principals@.len() - 1);
        }
        true
    }
}

/// An allow entry that eviction may drop, restricted to `sel` when given.
pub open spec fn is_candidate(ps: Seq<(String, PrincipalOverlay)>, sel: Option<Seq<char>>, i: int, j: int) -> bool {
    &&& 0 <= i < ps.len()
    &&& 0 <= j < ps[i].1.entries@.len()
    &&& ps[i].1.entries@[j].allow
    &&& (sel matches Some(s) ==> ps[i].0@ == s)
}

/// The overlay after dropping entry `j` of principal `i`, field by field.
pub open spec fn removed_entry(old_ps: Seq<(String, PrincipalOverlay)>, new_ps: Seq<(String, PrincipalOverlay)>, i: int, j: int) -> bool {
    &&& new_ps.len() == old_ps.len()
    &&& forall|m: int| 0 <= m < old_ps.len() && m != i ==> new_ps[m] == old_ps[m]
    &&& new_ps[i].0 == old_ps[i].0
    &&& new_ps[i].1.entries@ == old_ps[i].1.entries@.remove(j)
    &&& new_ps[i].1.memo@ == old_ps[i].1.memo@
    &&& new_ps[i].1.requests_blocked == old_ps[i].1.requests_blocked
    &&& new_ps[i].1.deny_all_effective == old_ps[i].1.deny_all_effective
}

/// Whether a new entry fits for principal `i` (`allow` says which kind).
pub open spec fn room_spec(s: &SessionOverlay, i: int, allow: bool) -> bool {
    let p = s.principals@[i].1;
    if p.deny_all_effective {
        !allow
    } else if p.entries@.len() >= MAX_OVERLAY_ENTRIES_PER_PRINCIPAL {
        has_allow(p.entries@)
    } else {
        s.entry_count < MAX_OVERLAY_ENTRIES_PER_PROCESS || any_allow(s.principals@)
    }
}

/// What the overlay keeps across any mutation: the principals, in order,
/// with their memoized denials, and no entry key appears that was absent.
pub open spec fn keeps_shape(old_ps: Seq<(String, PrincipalOverlay)>, new_ps: Seq<(String, PrincipalOverlay)>) -> bool {
    &&& new_ps.len() == old_ps.len()
    &&& forall|m: int| 0 <= m < old_ps.len() ==> (#[trigger] new_ps[m]).0 == old_ps[m].0
    &&& forall|m: int| 0 <= m < old_ps.len() ==> (#[trigger] new_ps[m]).1.memo@ == old_ps[m].1.memo@
    &&& forall|m: int| 0 <= m < old_ps.len() ==> (#[trigger] new_ps[m]).1.entries@.len() <= old_ps[m].1.entries@.len()
    &&& forall|m: int, key: Capability|
        0 <= m < old_ps.len() && entry_index(old_ps[m].1.entries@, key) is None ==> (#[trigger] entry_index(
            new_ps[m].1.entries@,
            key,
        )) is None
}

impl SessionOverlay {
    fn oldest_allow(&self, selector: Option<&str>) -> (r: Option<(usize, usize)>)
        requires
            self.wf(),
        ensures
            match r {
                None => forall|i: int, j: int|
                    !is_candidate(self.principals@, opt_view(selector), i, j),
                Some((i, j)) => is_candidate(self.principals@, opt_view(selector), i as int, j as int)
                    && forall|a: int, b: int|
                    is_candidate(self.principals@, opt_view(selector), a, b)
                        ==> self.principals@[i as int].1.entries@[j as int].sequence
                        <= self.principals@[a].1.entries@[b].sequence,
            },
    {
        let mut best: Option<(usize, usize)> = None;
        let mut i: usize = 0;
        let ghost ps = self.principals@;
        let ghost sel = opt_view(selector);
        while i < self.principals.len()
            invariant
                ps == self.principals@,
                sel == opt_view(selector),
                i <= ps.len(),
                match best {
                    None => forall|a: int, b: int| 0 <= a < i ==> !is_candidate(ps, sel, a, b),
                    Some((bi, bj)) => is_candidate(ps, sel, bi as int, bj as int) && forall|a: int, b: int|
                        0 <= a < i && is_candidate(ps, sel, a, b) ==> ps[bi as int].1.entries@[bj as int].sequence
                            <= ps[a].1.entries@[b].sequence,
                },
            decreases ps.len() - i,
        {
            let wanted = match selector {
                None => true,
                Some(s) => str_eq(self.principals[i].0.as_str(), s),
            };
            if wanted {
                let es = &self.principals[i].1.entries;
                let mut j: usize = 0;
                while j < es.len()
                    invariant
                        ps == self.principals@,
                        sel == opt_view(selector),
                        i < ps.len(),
                        es == ps[i as int].1.entries,
                        j <= es@.len(),
                        sel matches Some(s) ==> ps[i as int].0@ == s,
                        match best {
                            None => forall|a: int, b: int|
                                (0 <= a < i || (a == i && 0 <= b < j)) ==> !is_candidate(ps, sel, a, b),
                            Some((bi, bj)) => is_candidate(ps, sel, bi as int, bj as int) && forall|a: int, b: int|
                                (0 <= a < i || (a == i && 0 <= b < j)) && is_candidate(ps, sel, a, b)
                                    ==> ps[bi as int].1.entries@[bj as int].sequence <= ps[a].1.entries@[b].sequence,
                        },
                    decreases es@.len() - j,
                {
                    if es[j].allow {
                        let better = match best {
                            None => true,
                            Some((bi, bj)) => es[j].sequence < self.principals[bi].1.entries[bj].sequence,
                        };
                        if better {
                            best = Some((i, j));
                        }
                    }
                    j = j + 1;
                }
            }
            i = i + 1;
        }
        best
    }

    fn remove_entry(&mut self, pi: usize, ei: usize)
        requires
            old(self).wf(),
            pi < old(self).principals@.len(),
            ei < old(self).principals@[pi as int].1.entries@.len(),
            old(self).principals@[pi as int].1.entries@[ei as int].allow,
        ensures
            final(self).wf(),
            narrows(*old(self), *final(self)),
            removed_entry(old(self).principals@, final(self).principals@, pi as int, ei as int),
            keeps_shape(old(self).principals@, final(self).principals@),
            final(self).entry_count == old(self).entry_count - 1,
            final(self).memo_count == old(self).memo_count,
            final(self).next_sequence == old(self).next_sequence,
            final(self).process_requests_blocked == old(self).process_requests_blocked,
            final(self).deny_all_effective == old(self).deny_all_effective,
    {
        let ghost old_ps = self.principals@;
        proof {
            lemma_sum_ge(old_ps, pi as int);
            assert(old_ps[pi as int].1.wf(self.next_sequence));
        }
        self.principals[pi].1.entries.remove(ei);
        self.entry_count = self.entry_count - 1;
        proof {
            let ne = self.principals@[pi as int].1.entries@;
            let oe = old_ps[pi as int].1.entries@;
            assert(ne == oe.remove(ei as int));
            lemma_sum_update(old_ps, pi as int, self.principals@[pi as int]);
            assert(self.principals@ == old_ps.update(pi as int, self.principals@[pi as int]));
            assert forall|i: int| 0 <= i < self.principals@.len() implies (#[trigger] self.principals@[i]).1.wf(self.next_sequence) by {
                if i != pi {
                    assert(self.principals@[i] == old_ps[i]);
                } else {
                    assert forall|a: int, b: int| 0 <= a < b < ne.len() implies ne[a].grant@ != ne[b].grant@ by {
                        let oa = if a < ei { a } else { a + 1 };
                        let ob = if b < ei { b } else { b + 1 };
                        assert(ne[a] == oe[oa]);
                        assert(ne[b] == oe[ob]);
                    }
                    assert forall|j: int| 0 <= j < ne.len() implies ne[j].sequence < self.next_sequence by {
                        let oj = if j < ei { j } else { j + 1 };
                        assert(ne[j] == oe[oj]);
                    }
                }
            }
            assert forall|a: int, b: int| 0 <= a < b < self.principals@.len() implies self.principals@[a].0@
                != self.principals@[b].0@ by {
                assert(self.principals@[a].0 == old_ps[a].0);
                assert(self.principals@[b].0 == old_ps[b].0);
            }
            assert forall|m: int, key: Capability|
                0 <= m < old_ps.len() && entry_index(old_ps[m].1.entries@, key) is None implies (#[trigger] entry_index(
                    self.principals@[m].1.entries@,
                    key,
                )) is None by {
                lemma_entry_index(old_ps[m].1.entries@, key);
                lemma_entry_index(self.principals@[m].1.entries@, key);
                if m == pi {
                    if entry_index(ne, key) is Some {
                        let k = entry_index(ne, key)->0;
                        let ok = if k < ei { k } else { k + 1 };
                        assert(ne[k] == oe[ok]);
                    }
                }
            }
            self.lemma_removed_allow_narrows(*old(self), pi as int, ei as int);
        }
    }

    /// Dropping an allow entry narrows every verdict.
    proof fn lemma_removed_allow_narrows(&self, before: SessionOverlay, pi: int, ei: int)
        requires
            before.wf(),
            0 <= pi < before.principals@.len(),
            0 <= ei < before.principals@[pi].1.entries@.len(),
            before.principals@[pi].1.entries@[ei].allow,
            removed_entry(before.principals@, self.principals@, pi, ei),
            self.deny_all_effective == before.deny_all_effective,
        ensures
            narrows(before, *self),
    {
        let ps = self.principals@;
        let s0 = before.principals@;
        assert(s0[pi].1.wf(before.next_sequence));
        assert forall|sel: Seq<char>, q: Capability, floor: bool| #[trigger] self.effective_spec(sel, q, floor)
            implies before.effective_spec(sel, q, floor) by {
            assert forall|m: int| 0 <= m < s0.len() implies (#[trigger] ps[m]).0@ == s0[m].0@ by {
                if m != pi {
                    assert(ps[m] == s0[m]);
                }
            }
            lemma_principal_index_same(ps, s0, sel);
            lemma_principal_index(s0, sel);
            if principal_index(s0, sel) == Some(pi) {
                lemma_remove_allow_narrows(s0[pi].1.entries@, ei, q, floor);
            } else if let Some(i) = principal_index(s0, sel) {
                assert(ps[i] == s0[i]);
            }
        }
    }

    /// Closing every request of principal `pi` narrows every verdict.
    proof fn lemma_principal_closed_narrows(&self, before: SessionOverlay, pi: int)
        requires
            before.wf(),
            0 <= pi < before.principals@.len(),
            self.principals@ == before.principals@.update(pi, self.principals@[pi]),
            self.principals@[pi].0 == before.principals@[pi].0,
            self.principals@[pi].1.deny_all_effective,
            self.deny_all_effective == before.deny_all_effective,
        ensures
            narrows(before, *self),
    {
        let ps = self.principals@;
        let s0 = before.principals@;
        assert forall|sel: Seq<char>, q: Capability, floor: bool| #[trigger] self.effective_spec(sel, q, floor)
            implies before.effective_spec(sel, q, floor) by {
            assert forall|m: int| 0 <= m < s0.len() implies (#[trigger] ps[m]).0@ == s0[m].0@ by {
                if m != pi {
                    assert(ps[m] == s0[m]);
                }
            }
            lemma_principal_index_same(ps, s0, sel);
            lemma_principal_index(s0, sel);
            if let Some(i) = principal_index(s0, sel) {
                if i != pi {
                    assert(ps[i] == s0[i]);
                }
            }
        }
    }

    /// Drops the allow entry with the lowest sequence, within `selector` if
    /// given; `None` when there is none.
    fn evict_oldest_allow(&mut self, selector: Option<&str>) -> (r: Option<(usize, usize)>)
        requires
            old(self).wf(),
        ensures
            final(self).wf(),
            narrows(*old(self), *final(self)),
            keeps_shape(old(self).principals@, final(self).principals@),
            final(self).memo_count == old(self).memo_count,
            final(self).next_sequence == old(self).next_sequence,
            final(self).process_requests_blocked == old(self).process_requests_blocked,
            final(self).deny_all_effective == old(self).deny_all_effective,
            match r {
                None => final(self).principals@ == old(self).principals@
                    && final(self).entry_count == old(self).entry_count
                    && forall|i: int, j: int| !is_candidate(old(self).principals@, opt_view(selector), i, j),
                Some((i, j)) => is_candidate(old(self).principals@, opt_view(selector), i as int, j as int)
                    && removed_entry(old(self).principals@, final(self).principals@, i as int, j as int)
                    && final(self).entry_count == old(self).entry_count - 1,
            },
    {
        match self.oldest_allow(selector) {
            None => None,
            Some((i, j)) => {
                self.remove_entry(i, j);
                Some((i, j))
            },
        }
    }
}

pub open spec fn opt_view(s: Option<&str>) -> Option<Seq<char>> {
    match s {
        Some(s) => Some(s@),
        None => None,
    }
}

pub proof fn lemma_sum_memo_same(a: Seq<(String, PrincipalOverlay)>, b: Seq<(String, PrincipalOverlay)>)
    requires
        a.len() == b.len(),
        forall|j: int| 0 <= j < a.len() ==> (#[trigger] a[j]).1.memo@.len() == b[j].1.memo@.len(),
    ensures
        sum_memo(a) == sum_memo(b),
    decreases a.len(),
{
    if a.len() > 0 {
        assert forall|j: int| 0 <= j < a.len() - 1 implies (#[trigger] a.drop_last()[j]).1.memo@.len() == b.drop_last()[j].1.memo@.len() by {
            assert(a.drop_last()[j] == a[j]);
            assert(b.drop_last()[j] == b[j]);
        }
        lemma_sum_memo_same(a.drop_last(), b.drop_last());
    }
}

pub proof fn lemma_sum_entries_same(a: Seq<(String, PrincipalOverlay)>, b: Seq<(String, PrincipalOverlay)>)
    requires
        a.len() == b.len(),
        forall|j: int| 0 <= j < a.len() ==> (#[trigger] a[j]).1.entries@.len() == b[j].1.entries@.len(),
    ensures
        sum_entries(a) == sum_entries(b),
    decreases a.len(),
{
    if a.len() > 0 {
        assert forall|j: int| 0 <= j < a.len() - 1 implies (#[trigger] a.drop_last()[j]).1.entries@.len() == b.drop_last()[j].1.entries@.len() by {
            assert(a.drop_last()[j] == a[j]);
            assert(b.drop_last()[j] == b[j]);
        }
        lemma_sum_entries_same(a.drop_last(), b.drop_last());
    }
}

impl SessionOverlay {
    /// Drops every entry of every principal and closes the process: the
    /// overlay then denies everything.
    fn clear_all_entries(&mut self)
        requires
            old(self).wf(),
        ensures
            final(self).wf(),
            narrows(*old(self), *final(self)),
            keeps_shape(old(self).principals@, final(self).principals@),
            forall|m: int| 0 <= m < final(self).principals@.len() ==>
                (#[trigger] final(self).principals@[m]).1.deny_all_effective == old(self).principals@[m].1.deny_all_effective
                && final(self).principals@[m].1.requests_blocked == old(self).principals@[m].1.requests_blocked,
            final(self).deny_all_effective,
            final(self).process_requests_blocked,
            final(self).entry_count == 0,
            final(self).memo_count == old(self).memo_count,
            final(self).next_sequence == old(self).next_sequence,
    {
        let ghost old_ps = self.principals@;
        self.process_requests_blocked = true;
        self.deny_all_effective = true;
        let mut i: usize = 0;
        while i < self.principals.len()
            invariant
                self.principals@.len() == old_ps.len(),
                old_ps == old(self).principals@,
                old(self).wf(),
                self.next_sequence == old(self).next_sequence,
                self.memo_count == old(self).memo_count,
                self.deny_all_effective,
                self.process_requests_blocked,
                i <= old_ps.len(),
                forall|j: int| 0 <= j < old_ps.len() ==> (#[trigger] self.principals@[j]).0 == old_ps[j].0
                    && self.principals@[j].1.memo == old_ps[j].1.memo
                    && self.principals@[j].1.requests_blocked == old_ps[j].1.requests_blocked
                    && self.principals@[j].1.deny_all_effective == old_ps[j].1.deny_all_effective,
                forall|j: int| 0 <= j < i ==> (#[trigger] self.principals@[j]).1.entries@.len() == 0,
                forall|j: int| i <= j < old_ps.len() ==> (#[trigger] self.principals@[j]) == old_ps[j],
            decreases old_ps.len() - i,
        {
            self.principals[i].1.entries = Vec::new();
            i = i + 1;
        }
        self.entry_count = 0;
        proof {
            lemma_sum_entries_zero(self.principals@);
            lemma_sum_memo_same(self.principals@, old_ps);
            assert forall|i: int| 0 <= i < self.principals@.len() implies (#[trigger] self.principals@[i]).1.wf(self.next_sequence) by {
                assert(old_ps[i].1.wf(self.next_sequence));
            }
            assert forall|a: int, b: int| 0 <= a < b < self.principals@.len() implies self.principals@[a].0@
                != self.principals@[b].0@ by {
                assert(self.principals@[a].0 == old_ps[a].0);
                assert(self.principals@[b].0 == old_ps[b].0);
            }
            assert forall|m: int, key: Capability|
                0 <= m < old_ps.len() && entry_index(old_ps[m].1.entries@, key) is None implies (#[trigger] entry_index(
                    self.principals@[m].1.entries@,
                    key,
                )) is None by {
                lemma_entry_index(self.principals@[m].1.entries@, key);
            }
        }
    }

    /// Makes room for one more entry of principal `pi`. An allow that does
    /// not fit is refused and blocks the principal's requests; a revocation
    /// that does not fit collapses to deny-all at the level that overflowed.
    fn make_entry_room(&mut self, pi: usize, allow: bool) -> (r: Option<()>)
        requires
            old(self).wf(),
            pi < old(self).principals@.len(),
        ensures
            final(self).wf(),
            narrows(*old(self), *final(self)),
            keeps_shape(old(self).principals@, final(self).principals@),
            final(self).memo_count == old(self).memo_count,
            final(self).next_sequence == old(self).next_sequence,
            r is Some == room_spec(old(self), pi as int, allow),
            r is Some ==> final(self).deny_all_effective == old(self).deny_all_effective
                && final(self).process_requests_blocked == old(self).process_requests_blocked
                && forall|m: int| 0 <= m < final(self).principals@.len() ==>
                    (#[trigger] final(self).principals@[m]).1.deny_all_effective == old(self).principals@[m].1.deny_all_effective
                    && final(self).principals@[m].1.requests_blocked == old(self).principals@[m].1.requests_blocked,
            r is Some && !old(self).principals@[pi as int].1.deny_all_effective ==>
                final(self).principals@[pi as int].1.entries@.len() < MAX_OVERLAY_ENTRIES_PER_PRINCIPAL
                && final(self).entry_count < MAX_OVERLAY_ENTRIES_PER_PROCESS,
            r is None && !allow ==> final(self).deny_all_effective || final(self).principals@[pi as int].1.deny_all_effective,
    {
        proof {
            assert(self.principals@[pi as int].1.wf(self.next_sequence));
            lemma_sum_ge(self.principals@, pi as int);
        }
        if self.principals[pi].1.deny_all_effective {
            return if allow { None } else { Some(()) };
        }
        let ghost s0 = self.principals@;
        let ghost c0 = self.entry_count;
        let ghost s_start = *self;
        if self.principals[pi].1.entries.len() >= MAX_OVERLAY_ENTRIES_PER_PRINCIPAL {
            let sel = self.principals[pi].0.clone();
            match self.evict_oldest_allow(Some(sel.as_str())) {
                Some((ei, ej)) => {
                    proof {
                        assert(ei == pi) by {
                            if ei != pi {
                                assert(s0[ei as int].0@ != s0[pi as int].0@);
                            }
                        }
                        assert(has_allow(s0[pi as int].1.entries@)) by {
                            assert(s0[pi as int].1.entries@[ej as int].allow);
                        }
                    }
                },
                None => {
                    proof {
                        assert(!has_allow(s0[pi as int].1.entries@)) by {
                            if has_allow(s0[pi as int].1.entries@) {
                                let j = choose|j: int| 0 <= j < s0[pi as int].1.entries@.len() && s0[pi as int].1.entries@[j].allow;
                                assert(is_candidate(s0, Some(sel@), pi as int, j));
                            }
                        }
                    }
                    if allow {
                        self.principals[pi].1.requests_blocked = true;
                        proof {
                            self.lemma_flag_update_wf(s0, c0, pi as int);
                            assert forall|m: int| 0 <= m < s0.len() implies (#[trigger] self.principals@[m]).0@ == s0[m].0@
                                && self.principals@[m].1.entries == s0[m].1.entries
                                && self.principals@[m].1.deny_all_effective == s0[m].1.deny_all_effective by {
                                if m != pi {
                                    assert(self.principals@[m] == s0[m]);
                                }
                            }
                            self.lemma_same_entries_effective(&s_start);
                        }
                    } else {
                        let n = self.principals[pi].1.entries.len();
                        self.principals[pi].1.entries = Vec::new();
                        self.entry_count = self.entry_count - n;
                        self.principals[pi].1.deny_all_effective = true;
                        self.principals[pi].1.requests_blocked = true;
                        proof {
                            lemma_sum_update(s0, pi as int, self.principals@[pi as int]);
                            assert(self.principals@ == s0.update(pi as int, self.principals@[pi as int]));
                            self.lemma_cleared_principal_wf(s0, pi as int);
                            self.lemma_principal_closed_narrows(s_start, pi as int);
                        }
                    }
                    return None;
                },
            }
        }
        let ghost s1 = self.principals@;
        if self.entry_count >= MAX_OVERLAY_ENTRIES_PER_PROCESS {
            match self.evict_oldest_allow(None) {
                Some((ei, ej)) => {
                    proof {
                        assert(any_allow(s0)) by {
                            assert(has_allow(s1[ei as int].1.entries@)) by {
                                assert(s1[ei as int].1.entries@[ej as int].allow);
                            }
                            assert(s0[ei as int].1.entries@ == s1[ei as int].1.entries@);
                        }
                    }
                },
                None => {
                    proof {
                        assert(!any_allow(s0)) by {
                            if any_allow(s0) {
                                let i = choose|i: int| 0 <= i < s0.len() && has_allow(s0[i].1.entries@);
                                let j = choose|j: int| 0 <= j < s0[i].1.entries@.len() && s0[i].1.entries@[j].allow;
                                assert(s1 == s0);
                                assert(is_candidate(s1, None, i, j));
                            }
                        }
                    }
                    if allow {
                        self.process_requests_blocked = true;
                    } else {
                        self.clear_all_entries();
                    }
                    return None;
                },
            }
        }
        Some(())
    }

    proof fn lemma_flag_update_wf(&self, s0: Seq<(String, PrincipalOverlay)>, c0: usize, pi: int)
        requires
            0 <= pi < s0.len(),
            self.principals@ == s0.update(pi, self.principals@[pi]),
            self.principals@[pi].0 == s0[pi].0,
            self.principals@[pi].1.entries == s0[pi].1.entries,
            self.principals@[pi].1.memo == s0[pi].1.memo,
            self.principals@[pi].1.deny_all_effective == s0[pi].1.deny_all_effective,
            self.entry_count == c0,
            c0 == sum_entries(s0),
            self.memo_count == sum_memo(s0),
            s0.len() <= MAX_SESSION_PRINCIPALS,
            forall|a: int, b: int| 0 <= a < b < s0.len() ==> s0[a].0@ != s0[b].0@,
            forall|i: int| 0 <= i < s0.len() ==> (#[trigger] s0[i]).1.wf(self.next_sequence),
            self.entry_count <= MAX_OVERLAY_ENTRIES_PER_PROCESS,
            self.memo_count <= MAX_MEMO_ENTRIES_PER_PROCESS,
            self.deny_all_effective ==> self.process_requests_blocked,
        ensures
            self.wf(),
            keeps_shape(s0, self.principals@),
    {
        lemma_sum_update(s0, pi, self.principals@[pi]);
        assert forall|i: int| 0 <= i < self.principals@.len() implies (#[trigger] self.principals@[i]).1.wf(self.next_sequence) by {
            assert(s0[i].1.wf(self.next_sequence));
        }
        assert forall|a: int, b: int| 0 <= a < b < self.principals@.len() implies self.principals@[a].0@
            != self.principals@[b].0@ by {
            assert(self.principals@[a].0 == s0[a].0);
            assert(self.principals@[b].0 == s0[b].0);
        }
    }

    proof fn lemma_cleared_principal_wf(&self, s0: Seq<(String, PrincipalOverlay)>, pi: int)
        requires
            0 <= pi < s0.len(),
            self.principals@ == s0.update(pi, self.principals@[pi]),
            self.principals@[pi].0 == s0[pi].0,
            self.principals@[pi].1.entries@.len() == 0,
            self.principals@[pi].1.memo == s0[pi].1.memo,
            self.entry_count == sum_entries(self.principals@),
            self.memo_count == sum_memo(s0),
            sum_entries(s0) <= MAX_OVERLAY_ENTRIES_PER_PROCESS,
            s0.len() <= MAX_SESSION_PRINCIPALS,
            forall|a: int, b: int| 0 <= a < b < s0.len() ==> s0[a].0@ != s0[b].0@,
            forall|i: int| 0 <= i < s0.len() ==> (#[trigger] s0[i]).1.wf(self.next_sequence),
            self.memo_count <= MAX_MEMO_ENTRIES_PER_PROCESS,
            self.deny_all_effective ==> self.process_requests_blocked,
        ensures
            self.wf(),
            keeps_shape(s0, self.principals@),
    {
        lemma_sum_update(s0, pi, self.principals@[pi]);
        lemma_sum_ge(s0, pi);
        assert forall|i: int| 0 <= i < self.principals@.len() implies (#[trigger] self.principals@[i]).1.wf(self.next_sequence) by {
            assert(s0[i].1.wf(self.next_sequence));
        }
        assert forall|a: int, b: int| 0 <= a < b < self.principals@.len() implies self.principals@[a].0@
            != self.principals@[b].0@ by {
            assert(self.principals@[a].0 == s0[a].0);
            assert(self.principals@[b].0 == s0[b].0);
        }
        assert forall|m: int, key: Capability|
            0 <= m < s0.len() && entry_index(s0[m].1.entries@, key) is None implies (#[trigger] entry_index(
                self.principals@[m].1.entries@,
                key,
            )) is None by {
            lemma_entry_index(self.principals@[m].1.entries@, key);
        }
    }
}

impl SessionOverlay {
    /// The memoized answer, or `Err` when requests from `selector` are closed.
    pub fn prior_denial_or_blocked(&self, selector: &str, req: &Request) -> (r: Result<Option<DynamicRequestCode>, ()>)
        requires
            self.wf(),
        ensures
            r == self.prior_spec(selector@, req@),
    {
        if !key_fits_exec(req) {
            return Err(());
        }
        if let Some(pi) = self.find_principal(selector) {
            proof {
                lemma_principal_index(self.principals@, selector@);
            }
            let p = &self.principals[pi].1;
            match find_memo(&p.memo, req) {
                Some(mi) => {
                    proof {
                        lemma_memo_index(p.memo@, req@);
                    }
                    return Ok(Some(p.memo[mi].code));
                },
                None => {},
            }
            if p.requests_blocked {
                return Err(());
            }
        }
        if self.process_requests_blocked {
            return Err(());
        }
        Ok(None)
    }

    /// Records a session allow of exactly `req` for `selector`, replacing an
    /// earlier decision about the same descriptor and forgetting a memoized
    /// denial of it.
    pub fn append_allow(&mut self, selector: &str, req: &Request) -> (r: Option<Grant>)
        requires
            old(self).wf(),
        ensures
            final(self).wf(),
            r is Some == old(self).append_allow_succeeds(selector@, req@),
            r matches Some(g) ==> g@ == req@ && forall|floor: bool|
                #[trigger] final(self).effective_spec(selector@, req@, floor),
            widens_at_most(*old(self), *final(self), selector@, req@),
    {
        let ghost s_first = *self;
        if self.process_requests_blocked {
            return None;
        }
        if !key_fits_exec(req) {
            return None;
        }
        proof {
            lemma_principal_index(self.principals@, selector@);
        }
        if let Some(pi) = self.find_principal(selector) {
            if self.principals[pi].1.requests_blocked {
                return None;
            }
        }
        let ghost s_old = *self;
        if !self.ensure_principal(selector) {
            return None;
        }
        proof {
            lemma_principal_index(self.principals@, selector@);
            self.lemma_ensure_keeps_effective(&s_old, selector@);
        }
        let ghost s_ens = *self;
        let pi = match self.find_principal(selector) {
            Some(i) => i,
            None => {
                return None;
            },
        };
        proof {
            assert(self.principals@[pi as int].1.wf(self.next_sequence));
            lemma_entry_index(self.principals@[pi as int].1.entries@, req@);
            if s_old.principal_of(selector@) is None {
                assert(pi == self.principals@.len() - 1);
                assert(!any_allow(s_old.principals@) ==> !any_allow(self.principals@)) by {
                    if any_allow(self.principals@) {
                        let i = choose|i: int| 0 <= i < self.principals@.len() && has_allow(self.principals@[i].1.entries@);
                        assert(i < s_old.principals@.len());
                        assert(self.principals@[i] == s_old.principals@[i]);
                    }
                }
                assert(any_allow(s_old.principals@) ==> any_allow(self.principals@)) by {
                    if any_allow(s_old.principals@) {
                        let i = choose|i: int| 0 <= i < s_old.principals@.len() && has_allow(s_old.principals@[i].1.entries@);
                        assert(self.principals@[i] == s_old.principals@[i]);
                    }
                }
            }
        }
        let existing = find_entry(&self.principals[pi].1.entries, req);
        if existing.is_none() {
            if self.make_entry_room(pi, true).is_none() {
                return None;
            }
        }
        proof {
            assert(self.principals@[pi as int].1.wf(self.next_sequence));
            lemma_entry_index(self.principals@[pi as int].1.entries@, req@);
        }
        let ghost s_mid = *self;
        assert(narrows(s_ens, s_mid));
        let sequence = match self.take_sequence() {
            Some(q) => q,
            None => {
                proof {
                    assert forall|s: Seq<char>, q: Capability, floor: bool| #[trigger] self.effective_spec(s, q, floor)
                        implies s_first.effective_spec(s, q, floor) by {
                        assert(self.effective_spec(s, q, floor) == s_mid.effective_spec(s, q, floor));
                        assert(s_mid.effective_spec(s, q, floor) ==> s_ens.effective_spec(s, q, floor));
                        assert(s_ens.effective_spec(s, q, floor) == s_old.effective_spec(s, q, floor));
                    }
                }
                return None;
            },
        };
        let grant = Grant::from_request(req);
        let entry = OverlayEntry { grant: grant.duplicate(), allow: true, sequence };
        let ghost eg = entry;
        let ghost s_seq = *self;
        self.write_entry(pi, existing, entry, req);
        let ghost s_written = *self;
        let mi = find_memo(&self.principals[pi].1.memo, req);
        proof {
            lemma_memo_index(self.principals@[pi as int].1.memo@, req@);
        }
        match mi {
            Some(m) => {
                self.drop_memo(pi, m);
                proof {
                    assert forall|m: int| 0 <= m < s_written.principals@.len() implies (#[trigger] self.principals@[m]).0@
                        == s_written.principals@[m].0@ && self.principals@[m].1.entries == s_written.principals@[m].1.entries
                        && self.principals@[m].1.deny_all_effective == s_written.principals@[m].1.deny_all_effective by {
                    }
                    self.lemma_same_entries_effective(&s_written);
                }
            },
            None => {},
        }
        proof {
            assert(s_seq.principals@[pi as int].0@ == selector@);
            assert forall|s: Seq<char>, q: Capability, floor: bool| #[trigger] self.effective_spec(s, q, floor) implies s_first.effective_spec(
                s,
                q,
                floor,
            ) || (s == selector@ && grant_covers(req@, q)) by {
                assert(s_written.effective_spec(s, q, floor) == self.effective_spec(s, q, floor));
                if !(s == selector@ && grant_covers(req@, q)) {
                    assert(s_seq.effective_spec(s, q, floor) == s_mid.effective_spec(s, q, floor));
                    assert(s_mid.effective_spec(s, q, floor) ==> s_ens.effective_spec(s, q, floor));
                    assert(s_ens.effective_spec(s, q, floor) == s_old.effective_spec(s, q, floor));
                }
            }
            let es = self.principals@[pi as int].1.entries@;
            let k = choose|k: int| 0 <= k < es.len() && es[k] == eg;
            assert(self.principals@[pi as int].1.wf(self.next_sequence));
            lemma_entry_index_unique(es, req@, k);
            self.lemma_written_entry_decides(pi as int, req@, selector@);
        }
        Some(grant)
    }

    /// Writes `entry` (whose key is `req`) into principal `pi`, in place of
    /// `existing` if given, else as a new entry.
    fn write_entry(&mut self, pi: usize, existing: Option<usize>, entry: OverlayEntry, req: &Request)
        requires
            old(self).wf(),
            pi < old(self).principals@.len(),
            entry.grant@ == req@,
            entry.sequence + 1 == old(self).next_sequence,
            forall|j: int| 0 <= j < old(self).principals@[pi as int].1.entries@.len()
                ==> #[trigger] old(self).principals@[pi as int].1.entries@[j].sequence < entry.sequence,
            !old(self).principals@[pi as int].1.deny_all_effective,
            match existing {
                Some(k) => entry_index(old(self).principals@[pi as int].1.entries@, req@) == Some(k as int),
                None => entry_index(old(self).principals@[pi as int].1.entries@, req@) is None
                    && old(self).principals@[pi as int].1.entries@.len() < MAX_OVERLAY_ENTRIES_PER_PRINCIPAL
                    && old(self).entry_count < MAX_OVERLAY_ENTRIES_PER_PROCESS,
            },
        ensures
            final(self).wf(),
            final(self).principals@.len() == old(self).principals@.len(),
            forall|m: int| 0 <= m < old(self).principals@.len() && m != pi ==> final(self).principals@[m] == old(
                self,
            ).principals@[m],
            final(self).principals@[pi as int].0 == old(self).principals@[pi as int].0,
            final(self).principals@[pi as int].1.memo == old(self).principals@[pi as int].1.memo,
            final(self).principals@[pi as int].1.requests_blocked == old(self).principals@[pi as int].1.requests_blocked,
            final(self).principals@[pi as int].1.deny_all_effective == old(self).principals@[pi as int].1.deny_all_effective,
            final(self).deny_all_effective == old(self).deny_all_effective,
            final(self).process_requests_blocked == old(self).process_requests_blocked,
            final(self).next_sequence == old(self).next_sequence,
            final(self).memo_count == old(self).memo_count,
            ({
                let es = final(self).principals@[pi as int].1.entries@;
                exists|k: int| 0 <= k < es.len() && es[k] == entry
            }),
            forall|s: Seq<char>, q: Capability, floor: bool| #[trigger] final(self).effective_spec(s, q, floor) == (
            if s == old(self).principals@[pi as int].0@ && grant_covers(entry.grant@, q) && key_fits(q)
                && !old(self).deny_all_effective {
                entry.allow
            } else {
                old(self).effective_spec(s, q, floor)
            }),
    {
        let ghost s0 = self.principals@;
        proof {
            assert(s0[pi as int].1.wf(self.next_sequence));
            lemma_sum_ge(s0, pi as int);
            lemma_entry_index(s0[pi as int].1.entries@, req@);
        }
        let ghost e_copy = entry;
        match existing {
            Some(k) => {
                self.principals[pi].1.entries.set(k, entry);
                proof {
                    assert(self.principals@[pi as int].1.entries@[k as int] == e_copy);
                }
            },
            None => {
                self.principals[pi].1.entries.push(entry);
                self.entry_count = self.entry_count + 1;
                proof {
                    let es = self.principals@[pi as int].1.entries@;
                    assert(es[es.len() - 1] == e_copy);
                }
            },
        }
        proof {
            lemma_sum_update(s0, pi as int, self.principals@[pi as int]);
            assert(self.principals@ == s0.update(pi as int, self.principals@[pi as int]));
            let ne = self.principals@[pi as int].1.entries@;
            let oe = s0[pi as int].1.entries@;
            assert forall|i: int| 0 <= i < self.principals@.len() implies (#[trigger] self.principals@[i]).1.wf(self.next_sequence) by {
                assert(s0[i].1.wf(self.next_sequence));
                if i == pi {
                    assert forall|a: int, b: int| 0 <= a < b < ne.len() implies ne[a].grant@ != ne[b].grant@ by {
                        if existing is None {
                            if b == ne.len() - 1 {
                                assert(ne[a] == oe[a]);
                            } else {
                                assert(ne[a] == oe[a]);
                                assert(ne[b] == oe[b]);
                            }
                        } else {
                            let k = existing->0 as int;
                            if a != k && b != k {
                                assert(ne[a] == oe[a]);
                                assert(ne[b] == oe[b]);
                            } else if a == k {
                                assert(ne[b] == oe[b]);
                            } else {
                                assert(ne[a] == oe[a]);
                            }
                        }
                    }
                    assert forall|j: int| 0 <= j < ne.len() implies ne[j].sequence < self.next_sequence by {
                        if existing is None {
                            if j < oe.len() {
                                assert(ne[j] == oe[j]);
                            }
                        } else if j != existing->0 {
                            assert(ne[j] == oe[j]);
                        }
                    }
                    assert forall|a: int, b: int| 0 <= a < b < ne.len() implies ne[a].sequence != ne[b].sequence by {
                        if existing is None {
                            if b == ne.len() - 1 {
                                assert(ne[a] == oe[a]);
                            } else {
                                assert(ne[a] == oe[a]);
                                assert(ne[b] == oe[b]);
                            }
                        } else {
                            let k = existing->0 as int;
                            if a != k && b != k {
                                assert(ne[a] == oe[a]);
                                assert(ne[b] == oe[b]);
                            } else if a == k {
                                assert(ne[b] == oe[b]);
                            } else {
                                assert(ne[a] == oe[a]);
                            }
                        }
                    }
                }
            }
            assert forall|a: int, b: int| 0 <= a < b < self.principals@.len() implies self.principals@[a].0@
                != self.principals@[b].0@ by {
                assert(self.principals@[a].0 == s0[a].0);
                assert(self.principals@[b].0 == s0[b].0);
            }
            let placed = match existing {
                Some(k) => Some(k as int),
                None => None::<int>,
            };
            self.lemma_written_entry_effect(*old(self), pi as int, e_copy, placed);
        }
    }

    /// What writing `entry` into principal `pi` does to every verdict.
    proof fn lemma_written_entry_effect(&self, before: SessionOverlay, pi: int, entry: OverlayEntry, placed: Option<int>)
        requires
            before.wf(),
            self.wf(),
            0 <= pi < before.principals@.len(),
            self.principals@.len() == before.principals@.len(),
            forall|m: int| 0 <= m < before.principals@.len() && m != pi ==> self.principals@[m] == before.principals@[m],
            self.principals@[pi].0 == before.principals@[pi].0,
            self.principals@[pi].1.deny_all_effective == before.principals@[pi].1.deny_all_effective,
            !before.principals@[pi].1.deny_all_effective,
            self.deny_all_effective == before.deny_all_effective,
            forall|j: int| 0 <= j < before.principals@[pi].1.entries@.len()
                ==> #[trigger] before.principals@[pi].1.entries@[j].sequence < entry.sequence,
            ({
                let ne = self.principals@[pi].1.entries@;
                let oe = before.principals@[pi].1.entries@;
                match placed {
                    Some(k) => 0 <= k < oe.len() && oe[k].grant@ == entry.grant@ && ne == oe.update(k, entry),
                    None => ne == oe.push(entry),
                }
            }),
        ensures
            forall|s: Seq<char>, q: Capability, floor: bool| #[trigger] self.effective_spec(s, q, floor) == (
            if s == before.principals@[pi].0@ && grant_covers(entry.grant@, q) && key_fits(q)
                && !before.deny_all_effective {
                entry.allow
            } else {
                before.effective_spec(s, q, floor)
            }),
    {
        let ps = self.principals@;
        let s0 = before.principals@;
        let ne = ps[pi].1.entries@;
        let oe = s0[pi].1.entries@;
        assert(ps[pi].1.wf(self.next_sequence));
        assert(s0[pi].1.wf(before.next_sequence));
        assert forall|m: int| 0 <= m < s0.len() implies (#[trigger] ps[m]).0@ == s0[m].0@ by {
            if m != pi {
                assert(ps[m] == s0[m]);
            }
        }
        assert forall|s: Seq<char>, q: Capability, floor: bool| #[trigger] self.effective_spec(s, q, floor) == (
            if s == s0[pi].0@ && grant_covers(entry.grant@, q) && key_fits(q) && !before.deny_all_effective {
                entry.allow
            } else {
                before.effective_spec(s, q, floor)
            }) by {
            lemma_principal_index_same(ps, s0, s);
            lemma_principal_index(s0, s);
            if principal_index(s0, s) == Some(pi) {
                lemma_written_entries_verdict(oe, ne, entry, placed, q, floor);
            } else {
                if s == s0[pi].0@ {
                    assert(false);
                }
                if let Some(i) = principal_index(s0, s) {
                    assert(ps[i] == s0[i]);
                }
            }
        }
    }

    /// Forgets memo entry `m` of principal `pi`.
    fn drop_memo(&mut self, pi: usize, m: usize)
        requires
            old(self).wf(),
            pi < old(self).principals@.len(),
            m < old(self).principals@[pi as int].1.memo@.len(),
        ensures
            final(self).wf(),
            final(self).principals@.len() == old(self).principals@.len(),
            forall|i: int| 0 <= i < old(self).principals@.len() && i != pi ==> final(self).principals@[i] == old(
                self,
            ).principals@[i],
            final(self).principals@[pi as int].0 == old(self).principals@[pi as int].0,
            final(self).principals@[pi as int].1.entries == old(self).principals@[pi as int].1.entries,
            final(self).principals@[pi as int].1.requests_blocked == old(self).principals@[pi as int].1.requests_blocked,
            final(self).principals@[pi as int].1.deny_all_effective == old(self).principals@[pi as int].1.deny_all_effective,
            final(self).principals@[pi as int].1.memo@ == old(self).principals@[pi as int].1.memo@.remove(m as int),
            final(self).deny_all_effective == old(self).deny_all_effective,
            final(self).process_requests_blocked == old(self).process_requests_blocked,
            final(self).next_sequence == old(self).next_sequence,
            final(self).entry_count == old(self).entry_count,
    {
        let ghost s0 = self.principals@;
        proof {
            assert(s0[pi as int].1.wf(self.next_sequence));
            lemma_sum_ge(s0, pi as int);
        }
        self.principals[pi].1.memo.remove(m);
        self.memo_count = self.memo_count - 1;
        proof {
            lemma_sum_update(s0, pi as int, self.principals@[pi as int]);
            assert(self.principals@ == s0.update(pi as int, self.principals@[pi as int]));
            let nm = self.principals@[pi as int].1.memo@;
            let om = s0[pi as int].1.memo@;
            assert forall|i: int| 0 <= i < self.principals@.len() implies (#[trigger] self.principals@[i]).1.wf(self.next_sequence) by {
                assert(s0[i].1.wf(self.next_sequence));
                if i == pi {
                    assert forall|a: int, b: int| 0 <= a < b < nm.len() implies nm[a].key@ != nm[b].key@ by {
                        let oa = if a < m { a } else { a + 1 };
                        let ob = if b < m { b } else { b + 1 };
                        assert(nm[a] == om[oa]);
                        assert(nm[b] == om[ob]);
                    }
                }
            }
            assert forall|a: int, b: int| 0 <= a < b < self.principals@.len() implies self.principals@[a].0@
                != self.principals@[b].0@ by {
                assert(self.principals@[a].0 == s0[a].0);
                assert(self.principals@[b].0 == s0[b].0);
            }
        }
    }

    /// An entry for `req` holding the largest sequence decides `req`.
    proof fn lemma_written_entry_decides(&self, pi: int, req: Capability, sel: Seq<char>)
        requires
            self.wf(),
            0 <= pi < self.principals@.len(),
            self.principals@[pi].0@ == sel,
            !self.deny_all_effective,
            !self.principals@[pi].1.deny_all_effective,
            key_fits(req),
            ({
                let es = self.principals@[pi].1.entries@;
                exists|k: int| 0 <= k < es.len() && es[k].grant@ == req && es[k].sequence + 1 == self.next_sequence
            }),
        ensures
            forall|floor: bool| #[trigger] self.effective_spec(sel, req, floor) == ({
                let es = self.principals@[pi].1.entries@;
                es[entry_index(es, req)->0].allow
            }),
            entry_index(self.principals@[pi].1.entries@, req) is Some,
    {
        let es = self.principals@[pi].1.entries@;
        let k = choose|k: int| 0 <= k < es.len() && es[k].grant@ == req && es[k].sequence + 1 == self.next_sequence;
        assert(self.principals@[pi].1.wf(self.next_sequence));
        lemma_principal_index_unique(self.principals@, sel, pi);
        lemma_newest_is_last_written(es, req, k);
        lemma_entry_index_unique(es, req, k);
    }
}

impl SessionOverlay {
    /// Whether `req` by `selector` already has a memoized denial.
    pub open spec fn memoized_spec(&self, sel: Seq<char>, req: Capability) -> bool {
        &&& key_fits(req)
        &&& (self.principal_of(sel) matches Some(p) && memo_index(p.memo@, req) is Some)
    }

    /// Records a session revocation of exactly `req` for `selector`. A
    /// revocation that cannot be recorded narrows instead: the principal, or
    /// the whole process, then denies everything.
    pub fn revoke(&mut self, selector: &str, req: &Request)
        requires
            old(self).wf(),
        ensures
            final(self).wf(),
            forall|floor: bool| !(#[trigger] final(self).effective_spec(selector@, req@, floor)),
            narrows(*old(self), *final(self)),
    {
        let ghost s_first = *self;
        if !key_fits_exec(req) {
            self.deny_all_effective = true;
            self.process_requests_blocked = true;
            return;
        }
        proof {
            lemma_principal_index(self.principals@, selector@);
        }
        if !self.ensure_principal(selector) {
            self.deny_all_effective = true;
            return;
        }
        proof {
            lemma_principal_index(self.principals@, selector@);
            self.lemma_ensure_keeps_effective(&s_first, selector@);
        }
        let ghost s_ens = *self;
        let pi = match self.find_principal(selector) {
            Some(i) => i,
            None => {
                return;
            },
        };
        proof {
            assert(self.principals@[pi as int].1.wf(self.next_sequence));
        }
        if self.deny_all_effective || self.principals[pi].1.deny_all_effective {
            return;
        }
        let existing = find_entry(&self.principals[pi].1.entries, req);
        proof {
            lemma_entry_index(self.principals@[pi as int].1.entries@, req@);
        }
        if existing.is_none() {
            if self.make_entry_room(pi, false).is_none() {
                proof {
                    lemma_principal_index_unique(self.principals@, selector@, pi as int);
                }
                return;
            }
        }
        let ghost s_mid = *self;
        assert(narrows(s_ens, s_mid));
        let sequence = match self.take_sequence() {
            Some(q) => q,
            None => {
                self.deny_all_effective = true;
                return;
            },
        };
        let entry = OverlayEntry { grant: Grant::from_request(req), allow: false, sequence };
        let ghost eg = entry;
        let ghost s_seq = *self;
        self.write_entry(pi, existing, entry, req);
        proof {
            assert forall|s: Seq<char>, q: Capability, floor: bool| #[trigger] self.effective_spec(s, q, floor)
                implies s_first.effective_spec(s, q, floor) by {
                assert(self.effective_spec(s, q, floor) ==> s_seq.effective_spec(s, q, floor));
                assert(s_seq.effective_spec(s, q, floor) == s_mid.effective_spec(s, q, floor));
                assert(s_mid.effective_spec(s, q, floor) ==> s_ens.effective_spec(s, q, floor));
                assert(s_ens.effective_spec(s, q, floor) == s_first.effective_spec(s, q, floor));
            }
            let es = self.principals@[pi as int].1.entries@;
            let k = choose|k: int| 0 <= k < es.len() && es[k] == eg;
            assert(self.principals@[pi as int].1.wf(self.next_sequence));
            lemma_entry_index_unique(es, req@, k);
            self.lemma_written_entry_decides(pi as int, req@, selector@);
        }
    }

    /// Memoizes a denial of `req` for `selector`; returns whether the denial
    /// was already memoized. A memo that overflows closes requests of the
    /// principal, or of the process, instead of forgetting silently.
    pub fn record_denial(&mut self, selector: &str, req: &Request, code: DynamicRequestCode) -> (r: bool)
        requires
            old(self).wf(),
        ensures
            final(self).wf(),
            r == old(self).memoized_spec(selector@, req@),
            r ==> final(self).prior_spec(selector@, req@) == old(self).prior_spec(selector@, req@),
            !r ==> final(self).prior_spec(selector@, req@) is Err || final(self).prior_spec(selector@, req@) == Ok::<Option<DynamicRequestCode>, ()>(
                Some(code),
            ),
            forall|sel: Seq<char>, q: Capability, floor: bool|
                #[trigger] final(self).effective_spec(sel, q, floor) == old(self).effective_spec(sel, q, floor),
    {
        let ghost s_old = *self;
        if !key_fits_exec(req) {
            return false;
        }
        proof {
            lemma_principal_index(self.principals@, selector@);
        }
        if let Some(pi) = self.find_principal(selector) {
            let p = &self.principals[pi].1;
            let mi = find_memo(&p.memo, req);
            proof {
                lemma_memo_index(p.memo@, req@);
            }
            if mi.is_some() {
                return true;
            }
            if p.requests_blocked {
                return false;
            }
        }
        if self.process_requests_blocked {
            return false;
        }
        if !self.ensure_principal(selector) {
            return false;
        }
        proof {
            lemma_principal_index(self.principals@, selector@);
            self.lemma_ensure_keeps_effective(&s_old, selector@);
        }
        let ghost s_ens = *self;
        let pi = match self.find_principal(selector) {
            Some(i) => i,
            None => {
                return false;
            },
        };
        proof {
            assert(self.principals@[pi as int].1.wf(self.next_sequence));
            lemma_sum_ge(self.principals@, pi as int);
            lemma_principal_index_unique(self.principals@, selector@, pi as int);
            lemma_memo_index(self.principals@[pi as int].1.memo@, req@);
        }
        let ghost s0 = self.principals@;
        if self.principals[pi].1.memo.len() >= MAX_MEMO_ENTRIES_PER_PRINCIPAL {
            let n = self.principals[pi].1.memo.len();
            self.memo_count = self.memo_count - n;
            self.principals[pi].1.memo = Vec::new();
            self.principals[pi].1.requests_blocked = true;
            proof {
                lemma_sum_update(s0, pi as int, self.principals@[pi as int]);
                assert(self.principals@ == s0.update(pi as int, self.principals@[pi as int]));
                self.lemma_memo_change_wf(s0, pi as int);
                lemma_principal_index_unique(self.principals@, selector@, pi as int);
                lemma_memo_index(self.principals@[pi as int].1.memo@, req@);
                self.lemma_same_entries_effective(&s_ens);
            }
            return false;
        }
        if self.memo_count >= MAX_MEMO_ENTRIES_PER_PROCESS {
            self.clear_all_memo();
            proof {
                lemma_principal_index_unique(self.principals@, selector@, pi as int);
                lemma_memo_index(self.principals@[pi as int].1.memo@, req@);
                self.lemma_same_entries_effective(&s_ens);
            }
            return false;
        }
        let key = Grant::from_request(req);
        self.principals[pi].1.memo.push(MemoEntry { key, code });
        self.memo_count = self.memo_count + 1;
        proof {
            lemma_sum_update(s0, pi as int, self.principals@[pi as int]);
            assert(self.principals@ == s0.update(pi as int, self.principals@[pi as int]));
            let nm = self.principals@[pi as int].1.memo@;
            let om = s0[pi as int].1.memo@;
            assert forall|a: int, b: int| 0 <= a < b < nm.len() implies nm[a].key@ != nm[b].key@ by {
                assert(nm[a] == om[a]);
                if b < om.len() {
                    assert(nm[b] == om[b]);
                }
            }
            self.lemma_memo_change_wf(s0, pi as int);
            lemma_principal_index_unique(self.principals@, selector@, pi as int);
            assert(nm.last().key@ == req@);
            self.lemma_same_entries_effective(&s_ens);
        }
        false
    }

    /// Forgets every memoized denial and closes requests process-wide.
    fn clear_all_memo(&mut self)
        requires
            old(self).wf(),
        ensures
            final(self).wf(),
            final(self).principals@.len() == old(self).principals@.len(),
            forall|m: int| 0 <= m < old(self).principals@.len() ==> (#[trigger] final(self).principals@[m]).0 == old(
                self,
            ).principals@[m].0 && final(self).principals@[m].1.entries == old(self).principals@[m].1.entries
                && final(self).principals@[m].1.requests_blocked == old(self).principals@[m].1.requests_blocked
                && final(self).principals@[m].1.deny_all_effective == old(self).principals@[m].1.deny_all_effective
                && final(self).principals@[m].1.memo@.len() == 0,
            final(self).process_requests_blocked,
            final(self).deny_all_effective == old(self).deny_all_effective,
            final(self).entry_count == old(self).entry_count,
            final(self).next_sequence == old(self).next_sequence,
    {
        let ghost old_ps = self.principals@;
        self.process_requests_blocked = true;
        let mut i: usize = 0;
        while i < self.principals.len()
            invariant
                self.principals@.len() == old_ps.len(),
                old_ps == old(self).principals@,
                old(self).wf(),
                self.next_sequence == old(self).next_sequence,
                self.entry_count == old(self).entry_count,
                self.deny_all_effective == old(self).deny_all_effective,
                self.process_requests_blocked,
                i <= old_ps.len(),
                forall|j: int| 0 <= j < old_ps.len() ==> (#[trigger] self.principals@[j]).0 == old_ps[j].0
                    && self.principals@[j].1.entries == old_ps[j].1.entries
                    && self.principals@[j].1.requests_blocked == old_ps[j].1.requests_blocked
                    && self.principals@[j].1.deny_all_effective == old_ps[j].1.deny_all_effective,
                forall|j: int| 0 <= j < i ==> (#[trigger] self.principals@[j]).1.memo@.len() == 0,
                forall|j: int| i <= j < old_ps.len() ==> (#[trigger] self.principals@[j]) == old_ps[j],
            decreases old_ps.len() - i,
        {
            self.principals[i].1.memo = Vec::new();
            i = i + 1;
        }
        self.memo_count = 0;
        proof {
            lemma_sum_memo_zero(self.principals@);
            lemma_sum_entries_same(self.principals@, old_ps);
            assert forall|i: int| 0 <= i < self.principals@.len() implies (#[trigger] self.principals@[i]).1.wf(self.next_sequence) by {
                assert(old_ps[i].1.wf(self.next_sequence));
            }
            assert forall|a: int, b: int| 0 <= a < b < self.principals@.len() implies self.principals@[a].0@
                != self.principals@[b].0@ by {
                assert(self.principals@[a].0 == old_ps[a].0);
                assert(self.principals@[b].0 == old_ps[b].0);
            }
        }
    }

    proof fn lemma_memo_change_wf(&self, s0: Seq<(String, PrincipalOverlay)>, pi: int)
        requires
            0 <= pi < s0.len(),
            self.principals@ == s0.update(pi, self.principals@[pi]),
            self.principals@[pi].0 == s0[pi].0,
            self.principals@[pi].1.entries == s0[pi].1.entries,
            self.principals@[pi].1.deny_all_effective == s0[pi].1.deny_all_effective,
            self.principals@[pi].1.memo@.len() <= MAX_MEMO_ENTRIES_PER_PRINCIPAL,
            forall|a: int, b: int| 0 <= a < b < self.principals@[pi].1.memo@.len() ==> self.principals@[pi].1.memo@[a].key@
                != self.principals@[pi].1.memo@[b].key@,
            self.entry_count == sum_entries(s0),
            self.memo_count == sum_memo(self.principals@),
            self.entry_count <= MAX_OVERLAY_ENTRIES_PER_PROCESS,
            self.memo_count <= MAX_MEMO_ENTRIES_PER_PROCESS,
            s0.len() <= MAX_SESSION_PRINCIPALS,
            forall|a: int, b: int| 0 <= a < b < s0.len() ==> s0[a].0@ != s0[b].0@,
            forall|i: int| 0 <= i < s0.len() ==> (#[trigger] s0[i]).1.wf(self.next_sequence),
            self.deny_all_effective ==> self.process_requests_blocked,
        ensures
            self.wf(),
    {
        lemma_sum_update(s0, pi, self.principals@[pi]);
        assert forall|i: int| 0 <= i < self.principals@.len() implies (#[trigger] self.principals@[i]).1.wf(self.next_sequence) by {
            assert(s0[i].1.wf(self.next_sequence));
        }
        assert forall|a: int, b: int| 0 <= a < b < self.principals@.len() implies self.principals@[a].0@
            != self.principals@[b].0@ by {
            assert(self.principals@[a].0 == s0[a].0);
            assert(self.principals@[b].0 == s0[b].0);
        }
    }

    /// Overlays that agree on principals' names, entries and deny flags give
    /// the same verdicts.
    proof fn lemma_same_entries_effective(&self, other: &SessionOverlay)
        requires
            self.principals@.len() == other.principals@.len(),
            forall|m: int| 0 <= m < other.principals@.len() ==> (#[trigger] self.principals@[m]).0@ == other.principals@[m].0@
                && self.principals@[m].1.entries == other.principals@[m].1.entries
                && self.principals@[m].1.deny_all_effective == other.principals@[m].1.deny_all_effective,
            self.deny_all_effective == other.deny_all_effective,
        ensures
            forall|sel: Seq<char>, q: Capability, floor: bool|
                #[trigger] self.effective_spec(sel, q, floor) == other.effective_spec(sel, q, floor),
    {
        assert forall|sel: Seq<char>, q: Capability, floor: bool|
            #[trigger] self.effective_spec(sel, q, floor) == other.effective_spec(sel, q, floor) by {
            lemma_principal_index_same(self.principals@, other.principals@, sel);
            lemma_principal_index(other.principals@, sel);
        }
    }

    /// Admitting a principal does not change any verdict.
    proof fn lemma_ensure_keeps_effective(&self, old_s: &SessionOverlay, selector: Seq<char>)
        requires
            old_s.principal_of(selector) is Some ==> self.principals@ == old_s.principals@,
            old_s.principal_of(selector) is None ==> self.principals@ == old_s.principals@.push(self.principals@.last())
                && self.principals@.last().1.entries@.len() == 0 && !self.principals@.last().1.deny_all_effective
                && self.principals@.last().0@ == selector,
            self.deny_all_effective == old_s.deny_all_effective,
        ensures
            forall|sel: Seq<char>, q: Capability, floor: bool|
                #[trigger] self.effective_spec(sel, q, floor) == old_s.effective_spec(sel, q, floor),
    {
        assert forall|sel: Seq<char>, q: Capability, floor: bool|
            #[trigger] self.effective_spec(sel, q, floor) == old_s.effective_spec(sel, q, floor) by {
            if old_s.principal_of(selector) is None {
                let ps = self.principals@;
                assert(ps.drop_last() =~= old_s.principals@);
                if ps.last().0@ != sel {
                    assert(principal_index(ps, sel) == principal_index(old_s.principals@, sel));
                    lemma_principal_index(old_s.principals@, sel);
                    if principal_index(old_s.principals@, sel) is Some {
                        let i = principal_index(old_s.principals@, sel)->0;
                        assert(ps[i] == old_s.principals@[i]);
                    }
                } else {
                    lemma_entry_index(ps.last().1.entries@, q);
                    assert(scan_newest(ps.last().1.entries@, q, None) == None::<OverlayEntry>);
                }
            }
        }
    }
}

/// Two principal lists with the same names find a selector at the same place.
pub proof fn lemma_principal_index_same(a: Seq<(String, PrincipalOverlay)>, b: Seq<(String, PrincipalOverlay)>, sel: Seq<char>)
    requires
        a.len() == b.len(),
        forall|m: int| 0 <= m < b.len() ==> (#[trigger] a[m]).0@ == b[m].0@,
    ensures
        principal_index(a, sel) == principal_index(b, sel),
    decreases a.len(),
{
    if a.len() > 0 {
        assert forall|m: int| 0 <= m < b.len() - 1 implies (#[trigger] a.drop_last()[m]).0@ == b.drop_last()[m].0@ by {
            assert(a.drop_last()[m] == a[m]);
            assert(b.drop_last()[m] == b[m]);
        }
        lemma_principal_index_same(a.drop_last(), b.drop_last(), sel);
    }
}
} // verus!
