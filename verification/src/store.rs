use vstd::prelude::*;

use crate::structs::DataType;
use crate::structs::SENSOR_TYPE_COUNT;
use crate::structs::SensorData;

verus! {

/// Latest-value cache: at most one reading per sensor type. Entries begin
/// absent and become present only after a first successful parse; an update
/// replaces the whole entry, so a read never observes a partially written
/// reading. The store itself is a plain value; callers that share it across
/// execution contexts put it behind a critical section.
pub struct LatestValueStore {
    slots: Vec<Option<SensorData>>,
}

/// One update step of the store: the entry for `t` now holds `reading` and
/// every other entry is untouched.
pub open spec fn store_updated(
    pre: LatestValueStore,
    post: LatestValueStore,
    t: DataType,
    reading: SensorData,
) -> bool {
    &&& post.entry(t) == Some(reading)
    &&& forall|u: DataType| u != t ==> post.entry(u) == pre.entry(u)
}

impl LatestValueStore {
    pub closed spec fn well_formed(self) -> bool {
        self.slots@.len() == SENSOR_TYPE_COUNT
    }

    /// The reading currently retained for sensor type `t`, if any.
    pub closed spec fn entry(self, t: DataType) -> Option<SensorData> {
        self.slots@[t.index_spec()]
    }

    /// A store with every entry absent.
    pub fn new() -> (s: Self)
        ensures
            s.well_formed(),
            forall|t: DataType| s.entry(t) is None,
    {
        let mut slots: Vec<Option<SensorData>> = Vec::new();
        let mut i: usize = 0;
        while i < SENSOR_TYPE_COUNT
            invariant
                i <= SENSOR_TYPE_COUNT,
                slots@.len() == i,
                forall|j: int| 0 <= j < i ==> slots@[j] is None,
            decreases SENSOR_TYPE_COUNT - i,
        {
            slots.push(None);
            i += 1;
        }
        LatestValueStore { slots }
    }

    /// Replace the entry for `t`. Always succeeds; last write wins.
    pub fn update(&mut self, t: DataType, reading: SensorData)
        requires
            old(self).well_formed(),
        ensures
            final(self).well_formed(),
            store_updated(*old(self), *final(self), t, reading),
    {
        let i = t.index();
        self.slots[i] = Some(reading);
    }

    /// The current reading for `t`, or `None` when no successful parse has
    /// happened for that type yet.
    pub fn read(&self, t: DataType) -> (r: Option<SensorData>)
        requires
            self.well_formed(),
        ensures
            r == self.entry(t),
    {
        self.slots[t.index()]
    }
}

/// Read idempotence: a read has no effect on the store, so two reads of the
/// same type with no update in between return identical results.
pub proof fn lemma_read_idempotent(
    s: LatestValueStore,
    t: DataType,
    r1: Option<SensorData>,
    r2: Option<SensorData>,
)
    requires
        r1 == s.entry(t),
        r2 == s.entry(t),
    ensures
        r1 == r2,
{
}

/// Last write wins: after two updates for the same sensor type, the store
/// retains exactly the second reading, never the first.
pub proof fn lemma_last_write_wins(
    s0: LatestValueStore,
    s1: LatestValueStore,
    s2: LatestValueStore,
    t: DataType,
    r1: SensorData,
    r2: SensorData,
)
    requires
        store_updated(s0, s1, t, r1),
        store_updated(s1, s2, t, r2),
    ensures
        s2.entry(t) == Some(r2),
{
}

} // verus!
