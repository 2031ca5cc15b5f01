//! Which principal an operation is attributed to. The nearest live user
//! frame wins; with none, the nearest non-ambient scheduler, or root when
//! only root scheduled it; with neither, the Rust host actor when the host
//! itself acts, else the fail-closed no-user sentinel. The principal set
//! for stack intersection gathers every distinct live and scheduling
//! principal, the runtime left out.
use vstd::prelude::*;

use crate::dynamic::principal_views;
use crate::perms::opt_str;
use crate::policy::{Principal, PrincipalView};
use crate::text::starts_with;

verus! {

/// One frame of the live call chain.
pub struct AttributionFrame {
    /// The frame's locator and the principal the loader's principal index
    /// resolved it to, when the frame has a locator.
    pub located: Option<(Principal, String)>,
    /// The frame's display name.
    pub display_name: Option<String>,
    /// The frame belongs to a script.
    pub has_script: bool,
}

pub struct FrameView {
    pub located: Option<(PrincipalView, Seq<char>)>,
    pub display_name: Option<Seq<char>>,
    pub has_script: bool,
}

impl View for AttributionFrame {
    type V = FrameView;

    open spec fn view(&self) -> FrameView {
        FrameView {
            located: match self.located {
                Some((p, l)) => Some((p@, l@)),
                None => None,
            },
            display_name: match self.display_name {
                Some(d) => Some(d@),
                None => None,
            },
            has_script: self.has_script,
        }
    }
}

/// A display name of the runtime's own code.
pub open spec fn runtime_display(d: Option<Seq<char>>) -> bool {
    match d {
        Some(n) => "ext:"@.is_prefix_of(n) || "node:"@.is_prefix_of(n) || "deno:"@.is_prefix_of(n),
        None => false,
    }
}

pub fn oden_capsec_runtime_display(display_name: Option<&str>) -> (r: bool)
    ensures
        r == runtime_display(match display_name {
            Some(d) => Some(d@),
            None => None,
        }),
{
    match display_name {
        None => false,
        Some(d) => starts_with(d, "ext:") || starts_with(d, "node:") || starts_with(d, "deno:"),
    }
}

/// The principal a frame speaks for, with its locator: the resolved one
/// for a located frame, quarantine for an unlocated script frame that is
/// not the runtime's, none otherwise.
pub open spec fn frame_candidate(f: FrameView) -> Option<(PrincipalView, Option<Seq<char>>)> {
    match f.located {
        Some((p, l)) => Some((p, Some(l))),
        None => if runtime_display(f.display_name) {
            None
        } else if f.has_script {
            Some((PrincipalView::Quarantine, None))
        } else {
            None
        },
    }
}

/// The nearest frame that speaks for a principal other than the runtime.
pub open spec fn first_live(frames: Seq<FrameView>) -> Option<(PrincipalView, Option<Seq<char>>)>
    decreases frames.len(),
{
    if frames.len() == 0 {
        None
    } else {
        let earlier = first_live(frames.drop_last());
        if earlier is Some {
            earlier
        } else {
            match frame_candidate(frames.last()) {
                Some(c) => if c.0 == PrincipalView::Runtime {
                    None
                } else {
                    Some(c)
                },
                None => None,
            }
        }
    }
}

/// The first entry whose principal is not ambient.
pub open spec fn first_constrained(s: Seq<(PrincipalView, Seq<char>)>) -> Option<(PrincipalView, Seq<char>)>
    decreases s.len(),
{
    if s.len() == 0 {
        None
    } else {
        let earlier = first_constrained(s.drop_last());
        if earlier is Some {
            earlier
        } else if !s.last().0.is_ambient() {
            Some(s.last())
        } else {
            None
        }
    }
}

/// The first entry whose principal is root.
pub open spec fn first_root(s: Seq<(PrincipalView, Seq<char>)>) -> Option<(PrincipalView, Seq<char>)>
    decreases s.len(),
{
    if s.len() == 0 {
        None
    } else {
        let earlier = first_root(s.drop_last());
        if earlier is Some {
            earlier
        } else if s.last().0 == PrincipalView::Root {
            Some(s.last())
        } else {
            None
        }
    }
}

/// The scheduling principal: the nearest non-ambient scheduler, else the
/// nearest root one.
pub open spec fn scheduling_spec(s: Seq<(PrincipalView, Seq<char>)>) -> Option<(PrincipalView, Seq<char>)> {
    match first_constrained(s) {
        Some(x) => Some(x),
        None => first_root(s),
    }
}

pub open spec fn pair_views(v: Seq<(Principal, String)>) -> Seq<(PrincipalView, Seq<char>)> {
    v.map_values(|x: (Principal, String)| (x.0@, x.1@))
}

pub open spec fn opt_pair_view(o: Option<(Principal, String)>) -> Option<(PrincipalView, Seq<char>)> {
    match o {
        Some((p, l)) => Some((p@, l@)),
        None => None,
    }
}

/// Picks the scheduling principal among the resolved scheduling locators,
/// nearest first.
pub fn oden_capsec_scheduling_principal(principals: Vec<(Principal, String)>) -> (r: Option<(Principal, String)>)
    ensures
        opt_pair_view(r) == scheduling_spec(pair_views(principals@)),
{
    let ghost orig = principals@;
    let ghost s = pair_views(orig);
    let n = principals.len();
    let mut rest = principals;
    let mut root: Option<(Principal, String)> = None;
    let mut i: usize = 0;
    while rest.len() > 0
        invariant
            s == pair_views(orig),
            orig == principals@,
            orig.len() == n,
            i + rest@.len() == n,
            rest@ == orig.skip(i as int),
            first_constrained(s.take(i as int)) is None,
            opt_pair_view(root) == first_root(s.take(i as int)),
        decreases rest@.len(),
    {
        let item = rest.remove(0);
        assert(item == orig[i as int]);
        assert(rest@ =~= orig.skip(i + 1));
        assert(s.take(i + 1).drop_last() =~= s.take(i as int));
        assert(s[i as int] == (item.0@, item.1@));
        assert(s.take(i + 1).last() == (item.0@, item.1@));
        if !item.0.is_ambient() {
            assert(first_constrained(s.take(i + 1)) == Some((item.0@, item.1@)));
            proof {
                lemma_first_constrained_extends(s, i + 1);
            }
            assert(scheduling_spec(s) == Some((item.0@, item.1@)));
            let found = Some(item);
            assert(opt_pair_view(found) == Some((item.0@, item.1@)));
            return found;
        }
        let is_root = match &item.0 {
            Principal::Root => true,
            _ => false,
        };
        if is_root && root.is_none() {
            root = Some(item);
        }
        i = i + 1;
    }
    assert(s.take(i as int) =~= s);
    root
}

/// Once a prefix has a non-ambient entry, so has every longer prefix, and
/// the same one.
proof fn lemma_first_constrained_extends(s: Seq<(PrincipalView, Seq<char>)>, k: int)
    requires
        0 <= k <= s.len(),
        first_constrained(s.take(k)) is Some,
    ensures
        first_constrained(s) == first_constrained(s.take(k)),
    decreases s.len() - k,
{
    if k < s.len() {
        assert(s.take(k + 1).drop_last() =~= s.take(k));
        lemma_first_constrained_extends(s, k + 1);
    } else {
        assert(s.take(k) =~= s);
    }
}

/// The principal an unattributed operation falls back to.
pub open spec fn unattributed_spec(trusted_host_actor: bool) -> PrincipalView {
    if trusted_host_actor {
        PrincipalView::Runtime
    } else {
        PrincipalView::NoUser
    }
}

pub fn oden_capsec_unattributed_principal(trusted_host_actor: bool) -> (r: Principal)
    ensures
        r@ == unattributed_spec(trusted_host_actor),
{
    if trusted_host_actor {
        Principal::Runtime
    } else {
        Principal::NoUser
    }
}

/// Gives an empty principal set the fallback principal; a set that has a
/// principal is left as it is.
pub fn oden_capsec_apply_unattributed_fallback(principals: &mut Vec<Principal>, trusted_host_actor: bool)
    ensures
        old(principals)@.len() == 0 ==> final(principals)@.len() == 1 && final(principals)@[0]@ == unattributed_spec(
            trusted_host_actor,
        ),
        old(principals)@.len() > 0 ==> final(principals)@ == old(principals)@,
{
    if principals.len() == 0 {
        principals.push(oden_capsec_unattributed_principal(trusted_host_actor));
    }
}


pub open spec fn frame_views(v: Seq<AttributionFrame>) -> Seq<FrameView> {
    v.map_values(|f: AttributionFrame| f@)
}

/// The principal and locator an operation is attributed to.
pub open spec fn attributed_spec(
    frames: Seq<FrameView>,
    scheduling: Seq<(PrincipalView, Seq<char>)>,
    trusted_host_actor: bool,
) -> (PrincipalView, Option<Seq<char>>) {
    match first_live(frames) {
        Some(c) => c,
        None => match scheduling_spec(scheduling) {
            Some((p, l)) => (p, Some(l)),
            None => (unattributed_spec(trusted_host_actor), None),
        },
    }
}

/// Once a prefix of the frames has a live principal, so has every longer
/// prefix, and the same one.
proof fn lemma_first_live_extends(s: Seq<FrameView>, k: int)
    requires
        0 <= k <= s.len(),
        first_live(s.take(k)) is Some,
    ensures
        first_live(s) == first_live(s.take(k)),
    decreases s.len() - k,
{
    if k < s.len() {
        assert(s.take(k + 1).drop_last() =~= s.take(k));
        lemma_first_live_extends(s, k + 1);
    } else {
        assert(s.take(k) =~= s);
    }
}

fn opt_as_str(o: &Option<String>) -> (r: Option<&str>)
    ensures
        match r {
            Some(d) => *o matches Some(x) && d@ == x@,
            None => o is None,
        },
{
    match o {
        Some(d) => Some(d.as_str()),
        None => None,
    }
}

/// The principal a frame speaks for, and its locator.
fn frame_candidate_of(f: &AttributionFrame) -> (r: Option<(Principal, Option<String>)>)
    ensures
        match r {
            Some((p, l)) => frame_candidate(f@) == Some((p@, opt_str(l))),
            None => frame_candidate(f@) is None,
        },
{
    match &f.located {
        Some((p, l)) => Some((p.duplicate(), Some(l.clone()))),
        None => {
            let shown = opt_as_str(&f.display_name);
            if oden_capsec_runtime_display(shown) {
                None
            } else if f.has_script {
                Some((Principal::Quarantine, None))
            } else {
                None
            }
        },
    }
}

/// The principal an operation is attributed to, with its locator: the
/// nearest live frame that speaks for a principal other than the runtime;
/// else the scheduling principal among the resolved scheduling locators;
/// else the fallback.
pub fn oden_capsec_principal_with_locator(
    frames: &Vec<AttributionFrame>,
    scheduling: Vec<(Principal, String)>,
    trusted_host_actor: bool,
) -> (r: (Principal, Option<String>))
    ensures
        (r.0@, opt_str(r.1)) == attributed_spec(frame_views(frames@), pair_views(scheduling@), trusted_host_actor),
{
    let ghost fv = frame_views(frames@);
    let mut i: usize = 0;
    while i < frames.len()
        invariant
            fv == frame_views(frames@),
            i <= frames@.len(),
            first_live(fv.take(i as int)) is None,
        decreases frames@.len() - i,
    {
        assert(fv.take(i + 1).drop_last() =~= fv.take(i as int));
        assert(fv.take(i + 1).last() == frames@[i as int]@);
        match frame_candidate_of(&frames[i]) {
            Some((p, l)) => {
                let is_runtime = match &p {
                    Principal::Runtime => true,
                    _ => false,
                };
                if !is_runtime {
                    proof {
                        lemma_first_live_extends(fv, i + 1);
                    }
                    return (p, l);
                }
            },
            None => {},
        }
        i = i + 1;
    }
    assert(fv.take(i as int) =~= fv);
    match oden_capsec_scheduling_principal(scheduling) {
        Some((p, l)) => (p, Some(l)),
        None => (oden_capsec_unattributed_principal(trusted_host_actor), None),
    }
}


/// The principals the frames speak for, nearest first.
pub open spec fn frame_principals(frames: Seq<FrameView>) -> Seq<PrincipalView>
    decreases frames.len(),
{
    if frames.len() == 0 {
        Seq::empty()
    } else {
        let earlier = frame_principals(frames.drop_last());
        match frame_candidate(frames.last()) {
            Some(c) => earlier.push(c.0),
            None => earlier,
        }
    }
}

/// The distinct principals of `s` other than the runtime, in order of
/// first appearance.
pub open spec fn gathered(s: Seq<PrincipalView>) -> Seq<PrincipalView>
    decreases s.len(),
{
    if s.len() == 0 {
        Seq::empty()
    } else {
        let earlier = gathered(s.drop_last());
        if s.last() == PrincipalView::Runtime || earlier.contains(s.last()) {
            earlier
        } else {
            earlier.push(s.last())
        }
    }
}

/// The principal set for stack intersection: the live call chain's
/// principals, then the scheduling ones, each once and the runtime left
/// out; the fallback alone when that leaves none.
pub open spec fn principal_set_spec(
    frames: Seq<FrameView>,
    scheduled: Seq<PrincipalView>,
    trusted_host_actor: bool,
) -> Seq<PrincipalView> {
    let g = gathered(frame_principals(frames) + scheduled);
    if g.len() == 0 {
        seq![unattributed_spec(trusted_host_actor)]
    } else {
        g
    }
}

/// Adds `p` unless it is the runtime or already present.
fn push_distinct(out: &mut Vec<Principal>, p: Principal)
    ensures
        principal_views(final(out)@) == (if p@ == PrincipalView::Runtime || principal_views(old(out)@).contains(p@) {
            principal_views(old(out)@)
        } else {
            principal_views(old(out)@).push(p@)
        }),
{
    let is_runtime = match &p {
        Principal::Runtime => true,
        _ => false,
    };
    if is_runtime {
        return;
    }
    let ghost v = principal_views(out@);
    let mut k: usize = 0;
    while k < out.len()
        invariant
            v == principal_views(out@),
            k <= out@.len(),
            forall|j: int| 0 <= j < k ==> v[j] != p@,
        decreases out@.len() - k,
    {
        if out[k].same_as(&p) {
            assert(v[k as int] == p@);
            return;
        }
        k = k + 1;
    }
    assert(!v.contains(p@));
    out.push(p);
    assert(principal_views(out@) =~= v.push(p@));
}

/// The principal set for stack intersection, from the live frames, nearest
/// first, and the principals the scheduling locators resolved to.
pub fn oden_capsec_principal_set(
    frames: &Vec<AttributionFrame>,
    scheduled: Vec<Principal>,
    trusted_host_actor: bool,
) -> (r: Vec<Principal>)
    ensures
        principal_views(r@) == principal_set_spec(frame_views(frames@), principal_views(scheduled@), trusted_host_actor),
{
    let ghost fv = frame_views(frames@);
    let mut out: Vec<Principal> = Vec::new();
    assert(principal_views(out@) =~= Seq::<PrincipalView>::empty());
    let mut i: usize = 0;
    while i < frames.len()
        invariant
            fv == frame_views(frames@),
            i <= frames@.len(),
            principal_views(out@) == gathered(frame_principals(fv.take(i as int))),
        decreases frames@.len() - i,
    {
        assert(fv.take(i + 1).drop_last() =~= fv.take(i as int));
        assert(fv.take(i + 1).last() == frames@[i as int]@);
        match frame_candidate_of(&frames[i]) {
            Some((p, _)) => {
                let ghost e = frame_principals(fv.take(i as int));
                assert(e.push(p@).drop_last() =~= e);
                push_distinct(&mut out, p);
            },
            None => {},
        }
        i = i + 1;
    }
    assert(fv.take(i as int) =~= fv);
    let ghost fp = frame_principals(fv);
    let ghost sv = principal_views(scheduled@);
    let n = scheduled.len();
    let mut rest = scheduled;
    let mut j: usize = 0;
    assert(fp + sv.take(0) =~= fp);
    while rest.len() > 0
        invariant
            sv == principal_views(scheduled@),
            j + rest@.len() == n,
            sv.len() == n,
            rest@ == scheduled@.skip(j as int),
            principal_views(out@) == gathered(fp + sv.take(j as int)),
        decreases rest@.len(),
    {
        let p = rest.remove(0);
        assert(p == scheduled@[j as int]);
        assert(rest@ =~= scheduled@.skip(j + 1));
        assert((fp + sv.take(j + 1)).drop_last() =~= fp + sv.take(j as int));
        assert((fp + sv.take(j + 1)).last() == p@);
        push_distinct(&mut out, p);
        j = j + 1;
    }
    assert(sv.take(j as int) =~= sv);
    oden_capsec_apply_unattributed_fallback(&mut out, trusted_host_actor);
    proof {
        let g = gathered(fp + sv);
        if g.len() == 0 {
            assert(principal_views(out@) =~= seq![unattributed_spec(trusted_host_actor)]);
        }
    }
    out
}


proof fn lemma_first_live_not_runtime(frames: Seq<FrameView>)
    ensures
        first_live(frames) matches Some(c) ==> c.0 != PrincipalView::Runtime,
    decreases frames.len(),
{
    if frames.len() > 0 {
        lemma_first_live_not_runtime(frames.drop_last());
    }
}

proof fn lemma_first_constrained_not_ambient(s: Seq<(PrincipalView, Seq<char>)>)
    ensures
        first_constrained(s) matches Some(c) ==> !c.0.is_ambient(),
    decreases s.len(),
{
    if s.len() > 0 {
        lemma_first_constrained_not_ambient(s.drop_last());
    }
}

proof fn lemma_gathered_not_runtime(s: Seq<PrincipalView>)
    ensures
        !gathered(s).contains(PrincipalView::Runtime),
    decreases s.len(),
{
    if s.len() > 0 {
        lemma_gathered_not_runtime(s.drop_last());
        let e = gathered(s.drop_last());
        if !(s.last() == PrincipalView::Runtime || e.contains(s.last())) {
            assert forall|i: int| 0 <= i < e.push(s.last()).len() implies e.push(s.last())[i]
                != PrincipalView::Runtime by {
                if i < e.len() {
                    assert(e.push(s.last())[i] == e[i]);
                }
            }
        }
    }
}

/// The Rust host actor is a fallback only: when a live frame or a
/// scheduler speaks for a constrained principal, the operation is not
/// attributed to the runtime, and the principal set holds the runtime only
/// as its sole member, when nothing else is implicated.
pub proof fn lemma_host_actor_is_fallback_only(
    frames: Seq<FrameView>,
    scheduling: Seq<(PrincipalView, Seq<char>)>,
    scheduled: Seq<PrincipalView>,
    trusted_host_actor: bool,
)
    ensures
        (first_live(frames) is Some || first_constrained(scheduling) is Some) ==> attributed_spec(
            frames,
            scheduling,
            trusted_host_actor,
        ).0 != PrincipalView::Runtime,
        principal_set_spec(frames, scheduled, trusted_host_actor).contains(PrincipalView::Runtime) ==> principal_set_spec(
            frames,
            scheduled,
            trusted_host_actor,
        ) == seq![PrincipalView::Runtime],
{
    lemma_first_live_not_runtime(frames);
    lemma_first_constrained_not_ambient(scheduling);
    lemma_gathered_not_runtime(frame_principals(frames) + scheduled);
}

} // verus!
