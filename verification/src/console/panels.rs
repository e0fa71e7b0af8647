//! What the console's panels show: quality codes, faction strengths, the
//! error log, and the bounded logs they keep.

use vstd::prelude::*;
use vstd::string::*;

use crate::ai::decision::DecisionError;
use crate::model::entity::{ActivityState, Entity};
use crate::model::observation::{Observation, ObservationQuality};
use crate::model::world::{of_faction, Faction, World};

verus! {

/// The three-letter code under which the observation log shows `q`.
pub open spec fn quality_label(q: ObservationQuality) -> Seq<char> {
    match q {
        ObservationQuality::Clear => "CLR"@,
        ObservationQuality::Noisy => "NOS"@,
        ObservationQuality::Degraded => "DGR"@,
        ObservationQuality::Unreliable => "UNR"@,
    }
}

/// The three-letter code under which the observation log shows `q`.
pub fn quality_code(q: ObservationQuality) -> (s: &'static str)
    ensures
        s@ == quality_label(q),
{
    match q {
        ObservationQuality::Clear => "CLR",
        ObservationQuality::Noisy => "NOS",
        ObservationQuality::Degraded => "DGR",
        ObservationQuality::Unreliable => "UNR",
    }
}

/// The active entities of `s`.
pub open spec fn active_of<R>(s: Seq<Entity<R>>) -> Seq<Entity<R>> {
    s.filter(|e: Entity<R>| e.state == ActivityState::Active)
}

/// How many entities of `faction` are active, and how many there are.
pub fn faction_strength<R>(world: &World<R>, faction: Faction) -> (counts: (usize, usize))
    ensures
        counts.0 == active_of(of_faction(world.entities@, faction)).len(),
        counts.1 == of_faction(world.entities@, faction).len(),
{
    let ents = &world.entities;
    let mut active: usize = 0;
    let mut total: usize = 0;
    let mut i: usize = 0;
    while i < ents.len()
        invariant
            i <= ents@.len(),
            total == of_faction(ents@.take(i as int), faction).len(),
            active == active_of(of_faction(ents@.take(i as int), faction)).len(),
            total <= i,
            active <= total,
        decreases ents@.len() - i,
    {
        proof {
            assert(ents@.take(i as int + 1).drop_last() =~= ents@.take(i as int));
            reveal_with_fuel(Seq::<_>::filter, 1);
            let before = of_faction(ents@.take(i as int), faction);
            let after = of_faction(ents@.take(i as int + 1), faction);
            if ents@[i as int].faction == faction {
                assert(after == before.push(ents@[i as int]));
                before.lemma_filter_len_push(
                    |e: Entity<R>| e.state == ActivityState::Active,
                    ents@[i as int],
                );
            } else {
                assert(after == before);
            }
        }
        if ents[i].faction == faction {
            total = total + 1;
            if ents[i].is_active() {
                active = active + 1;
            }
        }
        i = i + 1;
    }
    proof {
        assert(ents@.take(ents@.len() as int) =~= ents@);
    }
    (active, total)
}

/// Keeps the last `n` entries of `log`, dropping the oldest ones.
pub fn keep_last<T>(log: &mut Vec<T>, n: usize)
    ensures
        old(log)@.len() > n ==> final(log)@ == old(log)@.skip(old(log)@.len() - n),
        old(log)@.len() <= n ==> final(log)@ == old(log)@,
{
    if log.len() > n {
        let at = log.len() - n;
        let tail = log.split_off(at);
        *log = tail;
    }
}

/// The entry that the error log gains at `tick`: the description of the
/// latest error, if that error was made at `tick`.
pub open spec fn error_entry(errors: Seq<DecisionError>, tick: u64) -> Option<Seq<char>> {
    if errors.len() > 0 && errors.last().spec_tick() == tick {
        Some(errors.last().message())
    } else {
        None
    }
}

/// The entry that the error log gains at `tick`.
pub fn latest_error_at(errors: &[DecisionError], tick: u64) -> (entry: Option<String>)
    ensures
        match entry {
            Some(s) => error_entry(errors@, tick) == Some(s@),
            None => error_entry(errors@, tick) is None,
        },
{
    if errors.len() > 0 && errors[errors.len() - 1].tick() == tick {
        Some(errors[errors.len() - 1].to_string())
    } else {
        None
    }
}

/// One line of the observation log.
#[derive(Clone, Debug)]
pub struct ObsEntry<R> {
    pub tick: u64,
    pub quality: String,
    pub confidence: R,
    pub channel: Option<u32>,
    pub freq: Option<R>,
}

/// What a line of the observation log says: tick, quality code,
/// confidence, channel and frequency.
pub open spec fn entry_view<R>(e: ObsEntry<R>) -> (u64, Seq<char>, R, Option<u32>, Option<R>) {
    (e.tick, e.quality@, e.confidence, e.channel, e.freq)
}

/// What the line logged at `tick` for observation `o` says.
pub open spec fn entry_for<R>(o: Observation<R>, tick: u64) -> (u64, Seq<char>, R, Option<u32>, Option<R>) {
    (tick, quality_label(o.quality), o.confidence, o.estimated_channel, o.estimated_frequency_mhz)
}

/// The observations among the first `n` of `obs` that `usable` marks, in order.
pub open spec fn usable_prefix<R>(obs: Seq<Observation<R>>, usable: Seq<bool>, n: nat) -> Seq<Observation<R>>
    decreases n,
{
    if n == 0 {
        Seq::empty()
    } else {
        let rest = usable_prefix(obs, usable, (n - 1) as nat);
        if usable[n - 1] {
            rest.push(obs[n - 1])
        } else {
            rest
        }
    }
}

/// The last `n` items of `s`, or all of them where there are fewer.
pub open spec fn last_n<T>(s: Seq<T>, n: nat) -> Seq<T> {
    if s.len() > n {
        s.skip(s.len() - n)
    } else {
        s
    }
}

/// The observation log after a tick: the lines it had, then one line per
/// usable observation, in order, of which the last 50 are kept.
pub open spec fn observation_log_after<R>(
    log: Seq<(u64, Seq<char>, R, Option<u32>, Option<R>)>,
    obs: Seq<Observation<R>>,
    usable: Seq<bool>,
    tick: u64,
) -> Seq<(u64, Seq<char>, R, Option<u32>, Option<R>)> {
    last_n(log + usable_prefix(obs, usable, obs.len()).map_values(|o: Observation<R>| entry_for(o, tick)), 50)
}

/// The error log after a tick: the messages it had, then the latest error
/// if it was made at `tick`, of which the last 20 are kept.
pub open spec fn error_log_after(log: Seq<Seq<char>>, errors: Seq<DecisionError>, tick: u64) -> Seq<Seq<char>> {
    let grown = match error_entry(errors, tick) {
        Some(m) => log.push(m),
        None => log,
    };
    last_n(grown, 20)
}

/// A tick of the console leaves at most 50 lines in the observation log,
/// as many as it had plus the usable observations when that is no more;
/// and at most 20 entries in the error log, at most one more than it had.
pub proof fn lemma_logs_stay_bounded<R>(
    log: Seq<(u64, Seq<char>, R, Option<u32>, Option<R>)>,
    obs: Seq<Observation<R>>,
    usable: Seq<bool>,
    tick: u64,
    elog: Seq<Seq<char>>,
    errors: Seq<DecisionError>,
)
    ensures
        observation_log_after(log, obs, usable, tick).len() == if log.len() + usable_prefix(
            obs,
            usable,
            obs.len(),
        ).len() > 50 {
            50
        } else {
            log.len() + usable_prefix(obs, usable, obs.len()).len()
        },
        error_log_after(elog, errors, tick).len() <= 20,
        error_log_after(elog, errors, tick).len() <= elog.len() + 1,
{
}

/// Logs one tick of the console: a line per usable observation (those that
/// `usable` marks) and the error the AI made at `tick`, keeping the last 50
/// lines and the last 20 errors.
pub fn log_tick<R: Copy>(
    obs_log: &mut Vec<ObsEntry<R>>,
    error_log: &mut Vec<String>,
    observations: &[Observation<R>],
    usable: &[bool],
    errors: &[DecisionError],
    tick: u64,
)
    requires
        usable@.len() == observations@.len(),
    ensures
        final(obs_log)@.map_values(|e: ObsEntry<R>| entry_view(e)) == observation_log_after(
            old(obs_log)@.map_values(|e: ObsEntry<R>| entry_view(e)),
            observations@,
            usable@,
            tick,
        ),
        final(error_log)@.map_values(|s: String| s@) == error_log_after(
            old(error_log)@.map_values(|s: String| s@),
            errors@,
            tick,
        ),
{
    let ghost log0 = obs_log@.map_values(|e: ObsEntry<R>| entry_view(e));
    let mut i: usize = 0;
    while i < observations.len()
        invariant
            i <= observations@.len(),
            usable@.len() == observations@.len(),
            obs_log@.map_values(|e: ObsEntry<R>| entry_view(e)) == log0 + usable_prefix(
                observations@,
                usable@,
                i as nat,
            ).map_values(|o: Observation<R>| entry_for(o, tick)),
        decreases observations@.len() - i,
    {
        let ghost before = obs_log@;
        if usable[i] {
            let o = observations[i];
            let q = quality_code(o.quality);
            let entry = ObsEntry {
                tick,
                quality: String::from_str(q),
                confidence: o.confidence,
                channel: o.estimated_channel,
                freq: o.estimated_frequency_mhz,
            };
            obs_log.push(entry);
            proof {
                assert(obs_log@.map_values(|e: ObsEntry<R>| entry_view(e)) =~= before.map_values(
                    |e: ObsEntry<R>| entry_view(e),
                ).push(entry_for(o, tick)));
                let p = usable_prefix(observations@, usable@, i as nat);
                assert(usable_prefix(observations@, usable@, i as nat + 1) == p.push(o));
                assert(p.push(o).map_values(|x: Observation<R>| entry_for(x, tick)) =~= p.map_values(
                    |x: Observation<R>| entry_for(x, tick),
                ).push(entry_for(o, tick)));
            }
        }
        i = i + 1;
    }
    let ghost mid = obs_log@;
    keep_last(obs_log, 50);
    proof {
        if mid.len() > 50 {
            assert(obs_log@.map_values(|e: ObsEntry<R>| entry_view(e)) =~= mid.map_values(
                |e: ObsEntry<R>| entry_view(e),
            ).skip(mid.len() - 50));
        }
    }

    let ghost elog0 = error_log@;
    let entry = latest_error_at(errors, tick);
    match entry {
        Some(m) => {
            error_log.push(m);
        },
        None => {},
    }
    let ghost emid = error_log@;
    proof {
        assert(emid.map_values(|s: String| s@) =~= match error_entry(errors@, tick) {
            Some(m) => elog0.map_values(|s: String| s@).push(m),
            None => elog0.map_values(|s: String| s@),
        });
    }
    keep_last(error_log, 20);
    proof {
        if emid.len() > 20 {
            assert(error_log@.map_values(|s: String| s@) =~= emid.map_values(|s: String| s@).skip(
                emid.len() - 20,
            ));
        }
    }
}

} // verus!
