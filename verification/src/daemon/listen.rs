//! Where the front ends listen.
use vstd::prelude::*;

use crate::ipc::ForwardView;
use crate::net::{IpAddr, SocketAddr};
use crate::proxy::Listen;
use crate::text;

verus! {

/// Addresses both front ends bind until an init script moves them.
pub open spec fn default_listening() -> Listen {
    Listen {
        http: SocketAddr { ip: IpAddr::V4(0x7f00_0001), port: 7890, scope: 0 },
        socks: SocketAddr { ip: IpAddr::V4(0x7f00_0001), port: 7891, scope: 0 },
    }
}

/// Returns the addresses both front ends bind until an init script moves them.
pub fn default_listen() -> (r: Listen)
    ensures
        r == default_listening(),
{
    Listen {
        http: SocketAddr { ip: IpAddr::V4(0x7f00_0001), port: 7890, scope: 0 },
        socks: SocketAddr { ip: IpAddr::V4(0x7f00_0001), port: 7891, scope: 0 },
    }
}

/// Whether a front end holds the address it is configured to bind.
#[derive(Debug, Clone, Copy, PartialEq, Eq, Structural)]
pub enum BindState {
    /// The front end holds the address.
    Bound,
    /// Nothing is listening on the address.
    Unbound,
}

impl BindState {
    /// Returns how the wire reports it.
    pub fn is_bound(self) -> (r: bool)
        ensures
            r == (self == BindState::Bound),
    {
        match self {
            Self::Bound => true,
            Self::Unbound => false,
        }
    }
}

/// What moving the front ends takes: the addresses that have to be bound anew.
#[derive(Debug, Clone, Copy, PartialEq, Eq, Structural)]
pub struct Rebind {
    /// Where the HTTP front end is to be bound, absent where it holds the address.
    pub http: Option<SocketAddr>,
    /// Where the SOCKS5 front end is to be bound, absent where it holds the address.
    pub socks: Option<SocketAddr>,
}

/// Returns which front ends have to be bound anew to move from the addresses held.
///
/// A front end already holding the requested address keeps its listener: binding a second socket to
/// a live address fails, so an init script that re-declares the current addresses would otherwise
/// fail every load it takes part in.
pub fn rebind(wanted: Listen, held: Listen) -> (r: Rebind)
    ensures
        r.http == if wanted.http == held.http {
            None
        } else {
            Some(wanted.http)
        },
        r.socks == if wanted.socks == held.socks {
            None
        } else {
            Some(wanted.socks)
        },
{
    Rebind {
        http: bind_unless_held(wanted.http, held.http),
        socks: bind_unless_held(wanted.socks, held.socks),
    }
}

fn bind_unless_held(addr: SocketAddr, held: SocketAddr) -> (r: Option<SocketAddr>)
    ensures
        r == if addr == held {
            None
        } else {
            Some(addr)
        },
{
    if addr == held {
        return None;
    }
    Some(addr)
}

/// Whether two forward front ends are one: the same address and the same destination behind it.
pub open spec fn same_forward(a: ForwardView, b: ForwardView) -> bool {
    a.listen == b.listen && a.host.0@ == b.host.0@ && a.port == b.port
}

/// Whether a forward front end is among these.
pub open spec fn is_among(forwards: Seq<ForwardView>, forward: ForwardView) -> bool {
    exists|i: int| 0 <= i < forwards.len() && same_forward(#[trigger] forwards[i], forward)
}

/// The forward front ends asked for that are not held, in order.
pub open spec fn missing(wanted: Seq<ForwardView>, held: Seq<ForwardView>) -> Seq<ForwardView>
    decreases wanted.len(),
{
    if wanted.len() == 0 {
        Seq::empty()
    } else {
        let before = missing(wanted.drop_last(), held);
        if is_among(held, wanted.last()) {
            before
        } else {
            before.push(wanted.last())
        }
    }
}

/// What holding other forward front ends takes.
#[derive(Debug, PartialEq, Eq)]
pub struct Reopen {
    /// Of each that is held, whether it stays.
    pub keep: Vec<bool>,
    /// Those that have to be opened.
    pub open: Vec<ForwardView>,
}

fn among(forwards: &Vec<ForwardView>, forward: &ForwardView) -> (r: bool)
    ensures
        r == is_among(forwards@, *forward),
{
    let mut i: usize = 0;
    while i < forwards.len()
        invariant
            i <= forwards.len(),
            forall|j: int| 0 <= j < i ==> !same_forward(#[trigger] forwards@[j], *forward),
        decreases forwards.len() - i,
    {
        let held = &forwards[i];
        if held.listen == forward.listen && text::same(
            held.host.0.as_str(),
            forward.host.0.as_str(),
        ) && held.port == forward.port {
            assert(same_forward(forwards@[i as int], *forward));
            return true;
        }
        i += 1;
    }
    false
}

/// Returns which forward front ends stay and which have to be opened for a committed run to hold
/// those it asked for.
///
/// One that is held already keeps its listener, for the reason [`rebind`] gives.
pub fn reopen(wanted: &Vec<ForwardView>, held: &Vec<ForwardView>) -> (r: Reopen)
    ensures
        r.keep.len() == held.len(),
        forall|i: int| 0 <= i < held.len() ==> #[trigger] r.keep@[i] == is_among(wanted@, held@[i]),
        r.open@ == missing(wanted@, held@),
{
    let mut keep: Vec<bool> = Vec::new();
    let mut i: usize = 0;
    while i < held.len()
        invariant
            i <= held.len(),
            keep.len() == i,
            forall|j: int| 0 <= j < i ==> #[trigger] keep@[j] == is_among(wanted@, held@[j]),
        decreases held.len() - i,
    {
        keep.push(among(wanted, &held[i]));
        i += 1;
    }
    let mut open: Vec<ForwardView> = Vec::new();
    let mut k: usize = 0;
    while k < wanted.len()
        invariant
            k <= wanted.len(),
            open@ == missing(wanted@.take(k as int), held@),
        decreases wanted.len() - k,
    {
        assert(wanted@.take(k + 1).drop_last() =~= wanted@.take(k as int));
        if !among(held, &wanted[k]) {
            open.push(wanted[k].clone());
        }
        k += 1;
    }
    assert(wanted@.take(k as int) =~= wanted@);
    Reopen { keep, open }
}

/// Every forward front end a run asks for is held once it has committed: it stays where it is held
/// already, otherwise it is opened, and none is opened that is held.
pub proof fn law_every_forward_asked_for_is_held(
    wanted: Seq<ForwardView>,
    held: Seq<ForwardView>,
    forward: ForwardView,
)
    requires
        is_among(wanted, forward),
    ensures
        is_among(held, forward) <==> !is_among(missing(wanted, held), forward),
    decreases wanted.len(),
{
    let last = wanted.last();
    let shorter = wanted.drop_last();
    let before = missing(shorter, held);
    let k = choose|k: int| 0 <= k < wanted.len() && same_forward(#[trigger] wanted[k], forward);
    if is_among(shorter, forward) {
        law_every_forward_asked_for_is_held(shorter, held, forward);
    } else {
        if k < shorter.len() {
            assert(same_forward(shorter[k], forward));
        }
        lemma_missing_is_wanted(shorter, held, forward);
    }
    if is_among(before, forward) {
        let j = choose|j: int| 0 <= j < before.len() && same_forward(#[trigger] before[j], forward);
        assert(same_forward(before.push(last)[j], forward));
    }
    if same_forward(last, forward) {
        lemma_same_is_among(held, last, forward);
        assert(same_forward(before.push(last)[before.len() as int], forward));
    }
    if is_among(missing(wanted, held), forward) && !is_among(before, forward) {
        let all = missing(wanted, held);
        let j = choose|j: int| 0 <= j < all.len() && same_forward(#[trigger] all[j], forward);
        if j < before.len() {
            assert(same_forward(before[j], forward));
        }
    }
}

proof fn lemma_same_is_among(forwards: Seq<ForwardView>, a: ForwardView, b: ForwardView)
    requires
        same_forward(a, b),
    ensures
        is_among(forwards, a) == is_among(forwards, b),
{
    if is_among(forwards, a) {
        let i = choose|i: int| 0 <= i < forwards.len() && same_forward(#[trigger] forwards[i], a);
        assert(same_forward(forwards[i], b));
    }
    if is_among(forwards, b) {
        let i = choose|i: int| 0 <= i < forwards.len() && same_forward(#[trigger] forwards[i], b);
        assert(same_forward(forwards[i], a));
    }
}

proof fn lemma_missing_is_wanted(
    wanted: Seq<ForwardView>,
    held: Seq<ForwardView>,
    forward: ForwardView,
)
    requires
        !is_among(wanted, forward),
    ensures
        !is_among(missing(wanted, held), forward),
    decreases wanted.len(),
{
    if wanted.len() > 0 {
        let shorter = wanted.drop_last();
        if is_among(shorter, forward) {
            let i = choose|i: int|
                0 <= i < shorter.len() && same_forward(#[trigger] shorter[i], forward);
            assert(same_forward(wanted[i], forward));
        }
        lemma_missing_is_wanted(shorter, held, forward);
        let all = missing(wanted, held);
        let before = missing(shorter, held);
        if is_among(all, forward) {
            let j = choose|j: int| 0 <= j < all.len() && same_forward(#[trigger] all[j], forward);
            if j < before.len() {
                assert(same_forward(before[j], forward));
            } else {
                assert(same_forward(wanted[wanted.len() - 1], forward));
            }
        }
    }
}

/// Until a script moves them the front ends listen on the loopback address, HTTP on port 7890 and
/// SOCKS5 on port 7891.
pub proof fn law_where_the_front_ends_listen_at_first()
    ensures
        default_listening().http.ip == IpAddr::V4((127 * 0x100_0000 + 1) as u32),
        default_listening().http.port == 7890,
        default_listening().socks.ip == IpAddr::V4((127 * 0x100_0000 + 1) as u32),
        default_listening().socks.port == 7891,
{
}

/// Two forward front ends are one where address, host and port are the same; one that is asked for
/// and not held is opened, in the order they were asked for.
pub proof fn law_which_forwards_are_opened(
    a: ForwardView,
    b: ForwardView,
    wanted: Seq<ForwardView>,
    held: Seq<ForwardView>,
)
    ensures
        same_forward(a, b) <==> a.listen == b.listen && a.host.0@ == b.host.0@ && a.port == b.port,
        is_among(held.push(a), a),
        !is_among(Seq::empty(), a),
        missing(Seq::empty(), held).len() == 0,
        missing(wanted.push(a), held) == if exists|i: int|
            0 <= i < held.len() && same_forward(#[trigger] held[i], a) {
            missing(wanted, held)
        } else {
            missing(wanted, held).push(a)
        },
{
    assert(held.push(a)[held.len() as int] == a);
    assert(same_forward(held.push(a)[held.len() as int], a));
    assert(wanted.push(a).drop_last() =~= wanted);
}

} // verus!
