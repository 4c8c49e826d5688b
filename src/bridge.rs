use vstd::prelude::*;

verus! {

/// A change in the state of the asset `id`.
#[derive(Debug, PartialEq, Eq)]
pub enum AssetEvent<I> {
    Added { id: I },
    Modified { id: I },
    Removed { id: I },
    Unused { id: I },
    LoadedWithDependencies { id: I },
}

/// The asset `asset_id` and everything it depends on have finished loading.
#[derive(Debug, PartialEq, Eq)]
pub struct AssetLoadedEvent<I> {
    pub asset_id: I,
}

/// One completion event for each event of `events` that reports an asset as
/// loaded with its dependencies, in the same order.
pub open spec fn loaded_events<I>(events: Seq<AssetEvent<I>>) -> Seq<AssetLoadedEvent<I>>
    decreases events.len(),
{
    if events.len() == 0 {
        Seq::empty()
    } else {
        let rest = loaded_events(events.drop_last());
        match events.last() {
            AssetEvent::LoadedWithDependencies { id } => rest.push(AssetLoadedEvent { asset_id: id }),
            _ => rest,
        }
    }
}

/// Turns a tick's asset events into completion events.
pub fn bridge_asset_events<I: Copy>(events: &Vec<AssetEvent<I>>) -> (r: Vec<AssetLoadedEvent<I>>)
    ensures
        r@ == loaded_events(events@),
{
    let mut r: Vec<AssetLoadedEvent<I>> = Vec::new();
    let mut i: usize = 0;
    while i < events.len()
        invariant
            i <= events@.len(),
            r@ == loaded_events(events@.subrange(0, i as int)),
        decreases events@.len() - i,
    {
        assert(events@.subrange(0, i as int + 1).drop_last() =~= events@.subrange(0, i as int));
        match &events[i] {
            AssetEvent::LoadedWithDependencies { id } => {
                r.push(AssetLoadedEvent { asset_id: *id });
            },
            _ => {},
        }
        i += 1;
    }
    assert(events@.subrange(0, events@.len() as int) =~= events@);
    r
}

} // verus!
