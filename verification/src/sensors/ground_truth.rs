//! Which receivers can pick up which emitters: the pairs for which the
//! ground truth of a signal at a receiver is computed.

use vstd::prelude::*;

use crate::model::emitter::{Emitter, EmitterState};
use crate::model::interference::covers_channel;
use crate::model::receiver::Receiver;
use crate::model::world::World;

verus! {

/// Whether `rx` can pick up `em`: the emitter transmits, belongs to another
/// platform, and is on a channel that the receiver monitors.
pub open spec fn hears<R>(rx: Receiver<R>, em: Emitter<R>) -> bool {
    &&& em.state == EmitterState::Transmitting
    &&& em.owner_id != rx.owner_id
    &&& covers_channel(rx.monitored_channels@, em.channel)
}

/// The pairs (receiver index `r`, emitter index) for each emitter of `ems`
/// that `rx` hears, in emitter order.
pub open spec fn heard_by<R>(r: int, rx: Receiver<R>, ems: Seq<Emitter<R>>) -> Seq<(int, int)>
    decreases ems.len(),
{
    if ems.len() == 0 {
        Seq::empty()
    } else {
        let rest = heard_by(r, rx, ems.drop_last());
        if hears(rx, ems.last()) {
            rest.push((r, ems.len() - 1))
        } else {
            rest
        }
    }
}

/// Every (receiver index, emitter index) pair of a receiver of `rxs` that
/// hears an emitter of `ems`: receiver by receiver, and for each receiver
/// in emitter order.
pub open spec fn audible<R>(rxs: Seq<Receiver<R>>, ems: Seq<Emitter<R>>) -> Seq<(int, int)>
    decreases rxs.len(),
{
    if rxs.len() == 0 {
        Seq::empty()
    } else {
        audible(rxs.drop_last(), ems) + heard_by(rxs.len() - 1, rxs.last(), ems)
    }
}

/// Whether receiver `rx` monitors `channel`: an empty channel list
/// monitors every channel.
fn monitors<R>(rx: &Receiver<R>, channel: u32) -> (b: bool)
    ensures
        b == covers_channel(rx.monitored_channels@, channel),
{
    crate::model::interference::channel_listed(&rx.monitored_channels, channel)
}

/// The (receiver index, emitter index) pairs of the world for which a
/// signal reaches a receiver, in the order in which their ground truth is
/// computed: receiver by receiver, and for each receiver in emitter order.
pub fn audible_pairs<R>(world: &World<R>) -> (pairs: Vec<(usize, usize)>)
    ensures
        pairs@.map_values(|p: (usize, usize)| (p.0 as int, p.1 as int)) == audible(
            world.receivers@,
            world.emitters@,
        ),
{
    let rxs = &world.receivers;
    let ems = &world.emitters;
    let mut pairs: Vec<(usize, usize)> = Vec::new();
    let mut r: usize = 0;
    while r < rxs.len()
        invariant
            r <= rxs@.len(),
            pairs@.map_values(|p: (usize, usize)| (p.0 as int, p.1 as int)) == audible(
                rxs@.take(r as int),
                ems@,
            ),
        decreases rxs@.len() - r,
    {
        let rx = &rxs[r];
        let ghost before = pairs@.map_values(|p: (usize, usize)| (p.0 as int, p.1 as int));
        let mut e: usize = 0;
        while e < ems.len()
            invariant
                r < rxs@.len(),
                *rx == rxs@[r as int],
                e <= ems@.len(),
                pairs@.map_values(|p: (usize, usize)| (p.0 as int, p.1 as int)) == before
                    + heard_by(r as int, *rx, ems@.take(e as int)),
            decreases ems@.len() - e,
        {
            proof {
                assert(ems@.take(e as int + 1).drop_last() =~= ems@.take(e as int));
                assert(ems@.take(e as int + 1).last() == ems@[e as int]);
            }
            let em = &ems[e];
            if em.is_transmitting() && em.owner_id != rx.owner_id && monitors(rx, em.channel) {
                let ghost old_pairs = pairs@;
                pairs.push((r, e));
                proof {
                    assert(hears(*rx, ems@[e as int]));
                    assert(heard_by(r as int, *rx, ems@.take(e as int + 1)) == heard_by(
                        r as int,
                        *rx,
                        ems@.take(e as int),
                    ).push((r as int, e as int)));
                    assert(pairs@ == old_pairs.push((r, e)));
                    assert(pairs@.map_values(|p: (usize, usize)| (p.0 as int, p.1 as int))
                        =~= old_pairs.map_values(|p: (usize, usize)| (p.0 as int, p.1 as int)).push(
                        (r as int, e as int),
                    ));
                    assert(pairs@.map_values(|p: (usize, usize)| (p.0 as int, p.1 as int))
                        =~= before + heard_by(r as int, *rx, ems@.take(e as int + 1)));
                }
            }
            e = e + 1;
        }
        proof {
            assert(ems@.take(ems@.len() as int) =~= ems@);
            assert(rxs@.take(r as int + 1).drop_last() =~= rxs@.take(r as int));
            assert(rxs@.take(r as int + 1).last() == rxs@[r as int]);
        }
        r = r + 1;
    }
    proof {
        assert(rxs@.take(rxs@.len() as int) =~= rxs@);
    }
    pairs
}

proof fn lemma_heard_by_sound<R>(r: int, rx: Receiver<R>, ems: Seq<Emitter<R>>)
    ensures
        forall|k: int|
            0 <= k < heard_by(r, rx, ems).len() ==> {
                let p = #[trigger] heard_by(r, rx, ems)[k];
                &&& p.0 == r
                &&& 0 <= p.1 < ems.len()
                &&& hears(rx, ems[p.1])
            },
    decreases ems.len(),
{
    if ems.len() > 0 {
        lemma_heard_by_sound(r, rx, ems.drop_last());
        let rest = heard_by(r, rx, ems.drop_last());
        assert forall|k: int| 0 <= k < heard_by(r, rx, ems).len() implies {
            let p = #[trigger] heard_by(r, rx, ems)[k];
            &&& p.0 == r
            &&& 0 <= p.1 < ems.len()
            &&& hears(rx, ems[p.1])
        } by {
            if k < rest.len() {
                assert(heard_by(r, rx, ems)[k] == rest[k]);
                assert(ems[rest[k].1] == ems.drop_last()[rest[k].1]);
            }
        }
    }
}

/// Every pair for which ground truth is computed names a receiver and an
/// emitter of the world, and that receiver hears that emitter: a platform
/// never picks up its own emitters, silent emitters are never picked up,
/// and neither are channels that the receiver does not monitor.
pub proof fn lemma_audible_pairs_hear<R>(rxs: Seq<Receiver<R>>, ems: Seq<Emitter<R>>)
    ensures
        forall|k: int|
            0 <= k < audible(rxs, ems).len() ==> {
                let p = #[trigger] audible(rxs, ems)[k];
                &&& 0 <= p.0 < rxs.len()
                &&& 0 <= p.1 < ems.len()
                &&& hears(rxs[p.0], ems[p.1])
            },
    decreases rxs.len(),
{
    if rxs.len() > 0 {
        let front = rxs.drop_last();
        lemma_audible_pairs_hear(front, ems);
        let last = rxs.len() - 1;
        lemma_heard_by_sound(last, rxs.last(), ems);
        let a = audible(front, ems);
        let h = heard_by(last, rxs.last(), ems);
        assert forall|k: int| 0 <= k < audible(rxs, ems).len() implies {
            let p = #[trigger] audible(rxs, ems)[k];
            &&& 0 <= p.0 < rxs.len()
            &&& 0 <= p.1 < ems.len()
            &&& hears(rxs[p.0], ems[p.1])
        } by {
            if k < a.len() {
                assert(audible(rxs, ems)[k] == a[k]);
                assert(rxs[a[k].0] == front[a[k].0]);
            } else {
                assert(audible(rxs, ems)[k] == h[k - a.len()]);
            }
        }
    }
}

} // verus!
