//! One frame of the viewer: the updates received from the simulation since the frame before,
//! taken in the order they came.
use crate::bytes::F32Bits;
use crate::game_state::GameStateView;
use crate::render::{RenderMessage, RenderMessageView};
use crate::renderer::{applied, RenderGroups};
use crate::rocketsim::GameState;
use crate::udp::LastPacketTimesElapsed;
use vstd::prelude::*;

verus! {

/// What the simulation sent.
pub enum UdpUpdate {
    State(GameState),
    Render(RenderMessage),
    Speed(F32Bits),
    Paused(bool),
    Connection,
    Exit,
}

/// An update as values.
pub enum UdpUpdateView {
    State(GameStateView),
    Render(RenderMessageView),
    Speed(F32Bits),
    Paused(bool),
    Connection,
    Exit,
}

impl View for UdpUpdate {
    type V = UdpUpdateView;

    open spec fn view(&self) -> UdpUpdateView {
        match self {
            UdpUpdate::State(s) => UdpUpdateView::State(s@),
            UdpUpdate::Render(m) => UdpUpdateView::Render(m@),
            UdpUpdate::Speed(x) => UdpUpdateView::Speed(*x),
            UdpUpdate::Paused(p) => UdpUpdateView::Paused(*p),
            UdpUpdate::Connection => UdpUpdateView::Connection,
            UdpUpdate::Exit => UdpUpdateView::Exit,
        }
    }
}

/// The updates as values.
pub open spec fn update_views(v: Seq<UdpUpdate>) -> Seq<UdpUpdateView> {
    v.map_values(|u: UdpUpdate| u@)
}

/// What a frame's updates ask the viewer to pass on: a new speed, a pause or its end, or, for a
/// new connection, the current pause and speed.
#[derive(Clone, Copy, Debug, PartialEq, Eq, Structural)]
pub enum FrameRequest {
    Speed(F32Bits),
    Paused(bool),
    Connection,
}

/// The place of the first exit among the updates, or their number where there is none.
pub open spec fn first_exit(us: Seq<UdpUpdateView>) -> nat
    decreases us.len(),
{
    if us.len() == 0 {
        0
    } else if us[0] is Exit {
        0
    } else {
        1 + first_exit(us.drop_first())
    }
}

/// The render groups after the render updates among `us` are applied in order.
pub open spec fn groups_after(g: Map<i32, Seq<crate::render::RenderView>>, us: Seq<UdpUpdateView>) -> Map<
    i32,
    Seq<crate::render::RenderView>,
>
    decreases us.len(),
{
    if us.len() == 0 {
        g
    } else {
        let before = groups_after(g, us.drop_last());
        match us.last() {
            UdpUpdateView::Render(m) => applied(before, m),
            _ => before,
        }
    }
}

/// The requests that `us` make, in order.
pub open spec fn requests_of(us: Seq<UdpUpdateView>) -> Seq<FrameRequest>
    decreases us.len(),
{
    if us.len() == 0 {
        Seq::empty()
    } else {
        let before = requests_of(us.drop_last());
        match us.last() {
            UdpUpdateView::Speed(x) => before.push(FrameRequest::Speed(x)),
            UdpUpdateView::Paused(p) => before.push(FrameRequest::Paused(p)),
            UdpUpdateView::Connection => before.push(FrameRequest::Connection),
            _ => before,
        }
    }
}

/// The last game state among `us`.
pub open spec fn last_state(us: Seq<UdpUpdateView>) -> Option<GameStateView>
    decreases us.len(),
{
    if us.len() == 0 {
        None
    } else {
        match us.last() {
            UdpUpdateView::State(s) => Some(s),
            _ => last_state(us.drop_last()),
        }
    }
}

/// Whether a new speed is among `us`.
pub open spec fn speed_among(us: Seq<UdpUpdateView>) -> bool {
    exists|i: int| 0 <= i < us.len() && #[trigger] us[i] is Speed
}

/// What a frame's updates leave for the viewer to do.
pub struct FrameOutcome {
    /// Whether the simulation asked the viewer to close.
    pub exit: bool,
    /// The last game state received, which the kept states advance to.
    pub new_state: Option<GameState>,
    /// What is to be passed on, in order.
    pub requests: Vec<FrameRequest>,
}

/// Where no update before `i` is an exit and the one at `i` is, that is the first exit; where
/// none before `i` is, the first exit is not before `i`.
proof fn lemma_first_exit(us: Seq<UdpUpdateView>, i: int)
    requires
        0 <= i <= us.len(),
        forall|k: int| 0 <= k < i ==> !(#[trigger] us[k] is Exit),
    ensures
        i <= first_exit(us) <= us.len(),
        i < us.len() && us[i] is Exit ==> first_exit(us) == i,
    decreases i,
{
    if i > 0 {
        let rest = us.drop_first();
        assert forall|k: int| 0 <= k < i - 1 implies !(#[trigger] rest[k] is Exit) by {
            assert(rest[k] == us[k + 1]);
        }
        lemma_first_exit(rest, i - 1);
    } else {
        lemma_first_exit_bound(us);
    }
}

/// The first exit is at most the number of updates.
proof fn lemma_first_exit_bound(us: Seq<UdpUpdateView>)
    ensures
        first_exit(us) <= us.len(),
    decreases us.len(),
{
    if us.len() > 0 {
        lemma_first_exit_bound(us.drop_first());
    }
}

/// Takes a frame's updates in order, up to the first exit: render updates are applied to
/// `groups`, a new speed forgets the kept packet times, and the last game state, the requests
/// to pass on and whether to close are handed back.
pub fn apply_udp_updates(
    updates: Vec<UdpUpdate>,
    groups: &mut RenderGroups,
    times: &mut LastPacketTimesElapsed,
) -> (r: FrameOutcome)
    ensures
        ({
            let us = update_views(updates@);
            let taken = us.take(first_exit(us) as int);
            &&& r.exit == (first_exit(us) < us.len())
            &&& final(groups).contents() == groups_after(old(groups).contents(), taken)
            &&& r.requests@ == requests_of(taken)
            &&& (match last_state(taken) {
                Some(s) => r.new_state matches Some(n) && n@ == s,
                None => r.new_state is None,
            })
            &&& final(times).slots() == old(times).slots()
            &&& final(times).start() == old(times).start()
            &&& final(times).count() == if speed_among(taken) {
                0
            } else {
                old(times).count()
            }
        }),
{
    let ghost us = update_views(updates@);
    let n = updates.len();
    let mut rest = updates;
    let mut new_state: Option<GameState> = None;
    let mut requests: Vec<FrameRequest> = Vec::new();
    let mut i: usize = 0;
    proof {
        assert(update_views(rest@) =~= us.skip(0));
    }
    while i < n
        invariant
            i <= n,
            us == update_views(updates@),
            n == us.len(),
            update_views(rest@) == us.skip(i as int),
            forall|k: int| 0 <= k < i ==> !(#[trigger] us[k] is Exit),
            groups.contents() == groups_after(old(groups).contents(), us.take(i as int)),
            requests@ == requests_of(us.take(i as int)),
            match last_state(us.take(i as int)) {
                Some(s) => new_state matches Some(x) && x@ == s,
                None => new_state is None,
            },
            times.slots() == old(times).slots(),
            times.start() == old(times).start(),
            times.count() == if speed_among(us.take(i as int)) {
                0
            } else {
                old(times).count()
            },
        decreases n - i,
    {
        let ghost before = us.take(i as int);
        let ghost after = us.take(i + 1);
        let ghost old_rest = rest@;
        proof {
            assert(after.drop_last() =~= before);
            assert(update_views(old_rest).len() == us.skip(i as int).len());
            assert(old_rest.len() == n - i);
            assert(update_views(old_rest)[0] == us.skip(i as int)[0]);
            assert(after.last() == us[i as int]);
        }
        let u = rest.remove(0);
        proof {
            assert(rest@ == old_rest.remove(0));
            assert forall|k: int| 0 <= k < rest@.len() implies #[trigger] update_views(rest@)[k] == us.skip(i + 1)[k] by {
                assert(rest@[k] == old_rest[k + 1]);
                assert(update_views(old_rest)[k + 1] == us.skip(i as int)[k + 1]);
            }
            assert(update_views(rest@) =~= us.skip(i + 1));
            assert(u@ == us[i as int]);
        }
        match u {
            UdpUpdate::Exit => {
                proof {
                    assert(us[i as int] is Exit);
                    lemma_first_exit(us, i as int);
                }
                return FrameOutcome { exit: true, new_state, requests };
            },
            UdpUpdate::State(s) => {
                new_state = Some(s);
            },
            UdpUpdate::Render(m) => {
                groups.apply(m);
            },
            UdpUpdate::Speed(x) => {
                times.reset();
                requests.push(FrameRequest::Speed(x));
            },
            UdpUpdate::Paused(p) => {
                requests.push(FrameRequest::Paused(p));
            },
            UdpUpdate::Connection => {
                requests.push(FrameRequest::Connection);
            },
        }
        proof {
            if speed_among(before) {
                let k = choose|k: int| 0 <= k < before.len() && #[trigger] before[k] is Speed;
                assert(after[k] == before[k]);
            }
            if speed_among(after) && !(us[i as int] is Speed) {
                let k = choose|k: int| 0 <= k < after.len() && #[trigger] after[k] is Speed;
                assert(k < i);
                assert(before[k] == after[k]);
            }
            if us[i as int] is Speed {
                assert(after[i as int] is Speed);
            }
        }
        i += 1;
    }
    proof {
        lemma_first_exit(us, n as int);
        assert(us.take(n as int) =~= us);
    }
    FrameOutcome { exit: false, new_state, requests }
}

} // verus!
