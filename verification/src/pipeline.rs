use vstd::prelude::*;

use crate::store::LatestValueStore;
use crate::store::store_updated;
use crate::structs::BarometerData;
use crate::structs::DataType;
use crate::structs::SensorData;
use crate::structs::UltrasonicData;
use crate::structs::barometer_parse_spec;
use crate::structs::now_millis;
use crate::structs::reading_type;
use crate::structs::ultrasonic_parse_spec;

verus! {

/// The reading that one frame yields, stamped with the given capture
/// timestamp: the discriminant byte selects the decoder, and a frame that
/// is empty, carries an unknown or decoder-less discriminant, or is too
/// short yields nothing.
pub open spec fn frame_reading(frame: Seq<u8>, received_time: i64) -> Option<SensorData> {
    if frame.len() == 0 {
        None
    } else if frame[0] == DataType::Ultrasonic.code_spec() {
        match ultrasonic_parse_spec(frame, received_time) {
            Some(d) => Some(SensorData::Ultrasonic(d)),
            None => None,
        }
    } else if frame[0] == DataType::Barometer.code_spec() {
        match barometer_parse_spec(frame, received_time) {
            Some(d) => Some(SensorData::Barometer(d)),
            None => None,
        }
    } else {
        None
    }
}

/// One pipeline step over the store: a frame that parses replaces exactly
/// its type's entry, and a dropped frame leaves every entry unchanged.
pub open spec fn frame_processed(
    pre: LatestValueStore,
    post: LatestValueStore,
    frame: Seq<u8>,
    received_time: i64,
) -> bool {
    match frame_reading(frame, received_time) {
        Some(r) => store_updated(pre, post, reading_type(r), r),
        None => forall|t: DataType| post.entry(t) == pre.entry(t),
    }
}

/// Parse one frame with the given capture timestamp and hand a successful
/// reading to the latest-value store; errors are recoverable at frame
/// granularity and leave the store untouched.
pub fn process_frame_at(
    store: &mut LatestValueStore,
    frame: &Vec<u8>,
    received_time: i64,
) -> (r: Option<SensorData>)
    requires
        old(store).well_formed(),
    ensures
        final(store).well_formed(),
        r == frame_reading(frame@, received_time),
        frame_processed(*old(store), *final(store), frame@, received_time),
{
    if frame.len() == 0 {
        return None;
    }
    let code = frame[0];
    if code == DataType::Ultrasonic.code() {
        match UltrasonicData::parse_at(frame, received_time) {
            Some(d) => {
                let r = SensorData::Ultrasonic(d);
                store.update(DataType::Ultrasonic, r);
                Some(r)
            },
            None => None,
        }
    } else if code == DataType::Barometer.code() {
        match BarometerData::parse_at(frame, received_time) {
            Some(d) => {
                let r = SensorData::Barometer(d);
                store.update(DataType::Barometer, r);
                Some(r)
            },
            None => None,
        }
    } else {
        None
    }
}

/// Parse one frame, stamping it with the host wall-clock time at the moment
/// decoding completes, and hand a successful reading to the store.
pub fn process_frame(store: &mut LatestValueStore, frame: &Vec<u8>) -> (r: Option<SensorData>)
    requires
        old(store).well_formed(),
    ensures
        final(store).well_formed(),
        exists|rt: i64|
            r == #[trigger] frame_reading(frame@, rt) && frame_processed(
                *old(store),
                *final(store),
                frame@,
                rt,
            ),
{
    let received_time = now_millis();
    let r = process_frame_at(store, frame, received_time);
    proof {
        assert(r == frame_reading(frame@, received_time) && frame_processed(
            *old(store),
            *final(store),
            frame@,
            received_time,
        ));
    }
    r
}

/// Unknown-discriminant safety: a frame whose discriminant the closed table
/// does not know yields no reading, and processing it leaves every entry of
/// the latest-value store unchanged.
pub proof fn lemma_unknown_discriminant_preserves_store(
    pre: LatestValueStore,
    post: LatestValueStore,
    frame: Seq<u8>,
    received_time: i64,
)
    requires
        frame_processed(pre, post, frame, received_time),
        frame.len() > 0,
        DataType::from_code_spec(frame[0]) is None,
    ensures
        frame_reading(frame, received_time) is None,
        forall|t: DataType| post.entry(t) == pre.entry(t),
{
}

/// Last write wins across the pipeline: when two frames for the same sensor
/// type are processed in sequence, the store afterwards holds exactly the
/// second frame's reading.
pub proof fn lemma_pipeline_last_write_wins(
    s0: LatestValueStore,
    s1: LatestValueStore,
    s2: LatestValueStore,
    frame1: Seq<u8>,
    frame2: Seq<u8>,
    rt1: i64,
    rt2: i64,
    r1: SensorData,
    r2: SensorData,
)
    requires
        frame_processed(s0, s1, frame1, rt1),
        frame_processed(s1, s2, frame2, rt2),
        frame_reading(frame1, rt1) == Some(r1),
        frame_reading(frame2, rt2) == Some(r2),
        reading_type(r1) == reading_type(r2),
    ensures
        s2.entry(reading_type(r2)) == Some(r2),
{
}

} // verus!
