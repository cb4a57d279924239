//! The statistics of an `AWARD_STATS`, each renumbered in the id space its
//! category names.

use vstd::prelude::*;
use crate::api::TranslateError;
use crate::api::rewriter::item::{map_id, mapped_id};
use crate::api::rewriter::particle::var_at;
use crate::api::types::{WireType, FixedBytesT, VAR_INT};
use crate::api::wrapper::{PacketWrapper, WrapperView};
use crate::data::mappings::{ComposedMappings, IdMapping};
use crate::packet::chunk_legacy::{field, read_field, run_count};

verus! {

/// The id space a statistic's second field belongs to: mined blocks, the
/// five item categories, killed and killed by entities, and the custom
/// statistics.
pub open spec fn stat_space(category: i32, ids: &ComposedMappings) -> IdMapping {
    if category == 0 {
        ids.blocks
    } else if 1 <= category <= 5 {
        ids.items
    } else if category == 6 || category == 7 {
        ids.entities
    } else {
        ids.statistics
    }
}

/// The id space a statistic's second field belongs to.
pub fn space(category: i32, ids: &ComposedMappings) -> (r: &IdMapping)
    ensures
        *r == stat_space(category, ids),
{
    if category == 0 {
        &ids.blocks
    } else if 1 <= category && category <= 5 {
        &ids.items
    } else if category == 6 || category == 7 {
        &ids.entities
    } else {
        &ids.statistics
    }
}

/// `acc` with the statistic `statistic` of `category` and its value
/// appended, renumbered, where the client has the statistic.
pub open spec fn kept_after(acc: Seq<(i32, i32, i32)>, category: i32, statistic: i32, value: i32, ids: &ComposedMappings)
    -> Seq<(i32, i32, i32)>
{
    match map_id(stat_space(category, ids), statistic) {
        Some(m) => acc.push((category, m, value)),
        None => acc,
    }
}

/// The statistic at `pos`, a category, a statistic and a value, taken into
/// `acc`; with the position after it.
pub open spec fn stat_at(b: Seq<u8>, pos: int, ids: &ComposedMappings, acc: Seq<(i32, i32, i32)>)
    -> Option<(Seq<(i32, i32, i32)>, int)>
{
    match field(VAR_INT, b, pos) {
        Some((category, p1)) => match field(VAR_INT, b, p1) {
            Some((statistic, p2)) => match field(VAR_INT, b, p2) {
                Some((value, p3)) => Some((kept_after(acc, category, statistic, value, ids), p3)),
                None => None,
            },
            None => None,
        },
        None => None,
    }
}

/// The `n` statistics from `pos` taken into `acc`, with the position after them.
pub open spec fn stats_kept(
    b: Seq<u8>,
    pos: int,
    n: nat,
    ids: &ComposedMappings,
    acc: Seq<(i32, i32, i32)>,
) -> Option<(Seq<(i32, i32, i32)>, int)>
    decreases n,
{
    if n == 0 {
        if 0 <= pos <= b.len() { Some((acc, pos)) } else { None }
    } else {
        match stat_at(b, pos, ids, acc) {
            Some((next, p)) => stats_kept(b, p, (n - 1) as nat, ids, next),
            None => None,
        }
    }
}

fn read_stat(b: &[u8], pos: usize, ids: &ComposedMappings, kept: &mut Vec<(i32, i32, i32)>) -> (r: Option<usize>)
    requires
        pos <= b@.len(),
    ensures
        match stat_at(b@, pos as int, ids, old(kept)@) {
            Some((next, p)) => r matches Some(q) && q == p && final(kept)@ == next && pos <= q <= b@.len(),
            None => r is None,
        },
{
    let (category, q1) = match read_field(&VAR_INT, b, pos) {
        Some(found) => found,
        None => return None,
    };
    let (statistic, q2) = match read_field(&VAR_INT, b, q1) {
        Some(found) => found,
        None => return None,
    };
    let (value, q3) = match read_field(&VAR_INT, b, q2) {
        Some(found) => found,
        None => return None,
    };
    let mapping = space(category, ids);
    match mapped_id(mapping, statistic) {
        Some(m) => kept.push((category, m, value)),
        None => {},
    }
    Some(q3)
}

/// Statistics as written: each as three `VarInt`s.
pub open spec fn stats_bytes(s: Seq<(i32, i32, i32)>) -> Seq<u8>
    decreases s.len(),
{
    if s.len() == 0 {
        Seq::empty()
    } else {
        let (category, statistic, value) = s.last();
        stats_bytes(s.drop_last()) + VAR_INT.encode(category) + VAR_INT.encode(statistic) + VAR_INT.encode(value)
    }
}

/// What `award_stats` does to a wrapper: the statistics are read, and the
/// ones the client has are written renumbered, after their count.
pub open spec fn award_stats_view(w: WrapperView, ids: &ComposedMappings) -> (Result<(), TranslateError>, WrapperView) {
    match var_at(w.remaining(), 0) {
        Ok((count, p1)) => match stats_kept(w.remaining(), p1, run_count(count), ids, Seq::empty()) {
            Some((kept, end)) => (
                Ok(()),
                w.consumed(end as nat).written(VAR_INT.encode(kept.len() as i32) + stats_bytes(kept)),
            ),
            None => (Err(TranslateError::Read), w),
        },
        Err(e) => (Err(e), w),
    }
}

fn read_stats(b: &[u8], ids: &ComposedMappings) -> (r: Result<(Vec<(i32, i32, i32)>, usize), TranslateError>)
    ensures
        match var_at(b@, 0) {
            Ok((count, p1)) => match stats_kept(b@, p1, run_count(count), ids, Seq::empty()) {
                Some((kept, end)) => r matches Ok((v, q)) && v@ == kept && q == end && q <= b@.len()
                    && kept.len() <= i32::MAX,
                None => r == Err::<(Vec<(i32, i32, i32)>, usize), TranslateError>(TranslateError::Read),
            },
            Err(e) => r matches Err(x) && x == e,
        },
{
    let (count, p1) = match read_field(&VAR_INT, b, 0) {
        Some(found) => found,
        None => return Err(TranslateError::Read),
    };
    let n: i32 = if count < 0 { 0 } else { count };
    let mut left: i32 = n;
    let mut p = p1;
    let mut kept: Vec<(i32, i32, i32)> = Vec::new();
    while left > 0
        invariant
            p1 <= p <= b@.len(),
            0 <= left <= n,
            n as nat == run_count(count),
            var_at(b@, 0) == Ok::<(i32, int), TranslateError>((count, p1 as int)),
            kept@.len() <= n - left,
            stats_kept(b@, p1 as int, run_count(count), ids, Seq::empty())
                == stats_kept(b@, p as int, left as nat, ids, kept@),
        decreases left,
    {
        let ghost before = kept@;
        let q3 = match read_stat(b, p, ids, &mut kept) {
            Some(q) => q,
            None => {
                assert(stats_kept(b@, p as int, left as nat, ids, before) is None);
                return Err(TranslateError::Read);
            },
        };
        assert(kept@.len() <= before.len() + 1);
        p = q3;
        left = left - 1;
    }
    Ok((kept, p))
}

/// Renumbers every statistic of an `AWARD_STATS` and leaves out the ones the
/// client has no id for.
pub fn award_stats(wrapper: &mut PacketWrapper, ids: &ComposedMappings) -> (r: Result<(), TranslateError>)
    ensures
        final(wrapper)@.wf(),
        match award_stats_view(old(wrapper)@, ids) {
            (Ok(_), w) => r is Ok && final(wrapper)@ == w,
            (Err(e), w) => r matches Err(x) && x == e && final(wrapper)@ == w,
        },
{
    let (kept, end) = match read_stats(wrapper.remaining(), ids) {
        Ok(found) => found,
        Err(e) => return Err(e),
    };
    let _ = wrapper.read(&FixedBytesT(end));
    let mut out: Vec<u8> = Vec::new();
    VAR_INT.write(&mut out, &(kept.len() as i32));
    let mut i: usize = 0;
    while i < kept.len()
        invariant
            i <= kept@.len(),
            out@ == VAR_INT.encode(kept@.len() as i32) + stats_bytes(kept@.take(i as int)),
        decreases kept@.len() - i,
    {
        let (category, statistic, value) = kept[i];
        VAR_INT.write(&mut out, &category);
        VAR_INT.write(&mut out, &statistic);
        VAR_INT.write(&mut out, &value);
        proof {
            assert(kept@.take(i + 1).drop_last() =~= kept@.take(i as int));
        }
        i = i + 1;
    }
    proof {
        assert(kept@.take(kept@.len() as int) =~= kept@);
    }
    wrapper.write_bytes(out.as_slice());
    Ok(())
}


/// Each statistic is renumbered in the id space of what it counts: a mined
/// block through the block ids, the five item categories (crafted, used,
/// broken, picked up, dropped) through the item ids, killed and killed by
/// through the entity type ids, and a custom statistic through the custom
/// statistic ids; one with no counterpart is left out.
pub proof fn law_statistics_keep_their_id_space(acc: Seq<(i32, i32, i32)>, category: i32, statistic: i32, value: i32,
    ids: &ComposedMappings)
    ensures
        kept_after(acc, category, statistic, value, ids) == match map_id(
            if category == 0 {
                ids.blocks
            } else if 1 <= category <= 5 {
                ids.items
            } else if category == 6 || category == 7 {
                ids.entities
            } else {
                ids.statistics
            },
            statistic,
        ) {
            Some(m) => acc.push((category, m, value)),
            None => acc,
        },
        category == 6 ==> stat_space(category, ids) == ids.entities,
        category == 7 ==> stat_space(category, ids) == ids.entities,
        category == 0 ==> stat_space(category, ids) == ids.blocks,
        1 <= category <= 5 ==> stat_space(category, ids) == ids.items,
        (category < 0 || category > 7) ==> stat_space(category, ids) == ids.statistics,
{
}

} // verus!
