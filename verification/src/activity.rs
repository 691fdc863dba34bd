use vstd::prelude::*;

verus! {

/// A reflog entry together with its time in milliseconds.
pub struct Timed<A> {
    pub timestamp_ms: u128,
    pub item: A,
}

/// Whether an entry with time `timestamp_ms` is recent enough: every entry when
/// no start is given, otherwise those strictly after the start.
pub open spec fn is_recent(timestamp_ms: u128, start_time_ms: Option<u128>) -> bool {
    match start_time_ms {
        Some(start) => timestamp_ms > start,
        None => true,
    }
}

/// The activity that a reflog yields: in order, the entries that parsed and are
/// recent enough.
pub open spec fn recent_activity<A>(parsed: Seq<Option<Timed<A>>>, start_time_ms: Option<u128>) -> Seq<A>
    decreases parsed.len(),
{
    if parsed.len() == 0 {
        Seq::empty()
    } else {
        let rest = recent_activity(parsed.drop_last(), start_time_ms);
        match parsed.last() {
            Some(t) => if is_recent(t.timestamp_ms, start_time_ms) {
                rest.push(t.item)
            } else {
                rest
            },
            None => rest,
        }
    }
}

/// Keeps the reflog entries that parsed (`Some`) and, when a start time is
/// given, those after it, in their order.
pub fn select_activity<A>(parsed: Vec<Option<Timed<A>>>, start_time_ms: Option<u128>) -> (r: Vec<A>)
    ensures
        r@ == recent_activity(parsed@, start_time_ms),
{
    let ghost all = parsed@;
    let mut rest = parsed;
    let mut picked: Vec<A> = Vec::new();
    // Walk from the front by reversing once, so that items can be moved out.
    let mut reversed: Vec<Option<Timed<A>>> = Vec::new();
    while rest.len() > 0
        invariant
            reversed@.len() + rest@.len() == all.len(),
            rest@ == all.take(rest@.len() as int),
            forall|k: int| 0 <= k < reversed@.len() ==> reversed@[k] == all[all.len() - 1 - k],
        decreases rest@.len(),
    {
        let x = rest.pop().unwrap();
        reversed.push(x);
    }
    while reversed.len() > 0
        invariant
            reversed@.len() <= all.len(),
            forall|k: int| 0 <= k < reversed@.len() ==> reversed@[k] == all[all.len() - 1 - k],
            picked@ == recent_activity(all.take(all.len() - reversed@.len()), start_time_ms),
        decreases reversed@.len(),
    {
        let ghost done = all.len() - reversed@.len();
        let x = reversed.pop().unwrap();
        proof {
            assert(all.take(done + 1).drop_last() =~= all.take(done));
            assert(all.take(done + 1).last() == x);
        }
        match x {
            Some(t) => {
                if match start_time_ms {
                    Some(start) => t.timestamp_ms > start,
                    None => true,
                } {
                    picked.push(t.item);
                }
            },
            None => {},
        }
    }
    proof {
        assert(all.take(all.len() as int) =~= all);
    }
    picked
}

/// Without a start time, every entry that parsed is kept, in order.
pub proof fn law_no_start_keeps_every_parsed_entry<A>(parsed: Seq<Option<Timed<A>>>)
    requires
        forall|i: int| 0 <= i < parsed.len() ==> #[trigger] parsed[i] is Some,
    ensures
        recent_activity(parsed, None) == parsed.map_values(|e: Option<Timed<A>>| e->0.item),
    decreases parsed.len(),
{
    if parsed.len() > 0 {
        let pre = parsed.drop_last();
        assert forall|i: int| 0 <= i < pre.len() implies #[trigger] pre[i] is Some by {
            assert(parsed[i] is Some);
        }
        law_no_start_keeps_every_parsed_entry(pre);
        assert(parsed[parsed.len() - 1] is Some);
        assert(parsed.map_values(|e: Option<Timed<A>>| e->0.item) =~= pre.map_values(
            |e: Option<Timed<A>>| e->0.item,
        ).push(parsed.last()->0.item));
    } else {
        assert(parsed.map_values(|e: Option<Timed<A>>| e->0.item) =~= Seq::<A>::empty());
    }
}

/// With a start time, an entry at or before it is never kept: adding one to the
/// end of a reflog leaves the activity unchanged.
pub proof fn law_old_entry_is_dropped<A>(parsed: Seq<Option<Timed<A>>>, entry: Timed<A>, start: u128)
    requires
        entry.timestamp_ms <= start,
    ensures
        recent_activity(parsed.push(Some(entry)), Some(start)) == recent_activity(parsed, Some(start)),
{
    assert(parsed.push(Some(entry)).drop_last() =~= parsed);
}

/// An empty reflog has no activity.
pub proof fn law_empty_reflog_has_no_activity<A>(start_time_ms: Option<u128>)
    ensures
        recent_activity(Seq::<Option<Timed<A>>>::empty(), start_time_ms) == Seq::<A>::empty(),
{
}

/// A reflog line that did not parse adds no activity.
pub proof fn law_unparsed_entry_is_dropped<A>(parsed: Seq<Option<Timed<A>>>, start_time_ms: Option<u128>)
    ensures
        recent_activity(parsed.push(None), start_time_ms) == recent_activity(parsed, start_time_ms),
{
    assert(parsed.push(None).drop_last() =~= parsed);
}

/// A parsed entry after the start time (or any parsed entry, without a start
/// time) adds its item at the end of the activity, after all earlier ones.
pub proof fn law_recent_entry_is_appended<A>(
    parsed: Seq<Option<Timed<A>>>,
    entry: Timed<A>,
    start_time_ms: Option<u128>,
)
    requires
        match start_time_ms {
            Some(start) => entry.timestamp_ms > start,
            None => true,
        },
    ensures
        recent_activity(parsed.push(Some(entry)), start_time_ms) == recent_activity(
            parsed,
            start_time_ms,
        ).push(entry.item),
{
    assert(parsed.push(Some(entry)).drop_last() =~= parsed);
}

} // verus!
