use vstd::prelude::*;

verus! {

/// Number of sensor kinds in the closed discriminant table.
pub const SENSOR_TYPE_COUNT: usize = 10;

/// Minimum frame length demanded by the fixed wire layout: one discriminant
/// byte, three reserved bytes, a 32-bit device timestamp and two 32-bit
/// measurements.
pub const MIN_FRAME_LEN: usize = 16;

/// Closed enumeration of the device message kinds, each bound to a fixed
/// wire discriminant (see [`DataType::code_spec`]).
#[derive(Clone, Copy, Debug, PartialEq, Eq, Structural)]
pub enum DataType {
    MainBoard,
    ServoController,
    Tachometer,
    Thrustmeter,
    Pitot,
    IMU,
    Ultrasonic,
    GPS,
    Vane,
    Barometer,
}

impl DataType {
    /// Wire discriminant bound to this sensor type.
    pub open spec fn code_spec(self) -> u8 {
        match self {
            DataType::MainBoard => 0x00,
            DataType::ServoController => 0x10,
            DataType::Tachometer => 0x20,
            DataType::Thrustmeter => 0x21,
            DataType::Pitot => 0x30,
            DataType::IMU => 0x40,
            DataType::Ultrasonic => 0x50,
            DataType::GPS => 0x60,
            DataType::Vane => 0x70,
            DataType::Barometer => 0x90,
        }
    }

    pub fn code(self) -> (c: u8)
        ensures
            c == self.code_spec(),
    {
        match self {
            DataType::MainBoard => 0x00,
            DataType::ServoController => 0x10,
            DataType::Tachometer => 0x20,
            DataType::Thrustmeter => 0x21,
            DataType::Pitot => 0x30,
            DataType::IMU => 0x40,
            DataType::Ultrasonic => 0x50,
            DataType::GPS => 0x60,
            DataType::Vane => 0x70,
            DataType::Barometer => 0x90,
        }
    }

    /// The sensor type bound to a wire discriminant, if the table knows it.
    pub open spec fn from_code_spec(c: u8) -> Option<DataType> {
        if c == 0x00 {
            Some(DataType::MainBoard)
        } else if c == 0x10 {
            Some(DataType::ServoController)
        } else if c == 0x20 {
            Some(DataType::Tachometer)
        } else if c == 0x21 {
            Some(DataType::Thrustmeter)
        } else if c == 0x30 {
            Some(DataType::Pitot)
        } else if c == 0x40 {
            Some(DataType::IMU)
        } else if c == 0x50 {
            Some(DataType::Ultrasonic)
        } else if c == 0x60 {
            Some(DataType::GPS)
        } else if c == 0x70 {
            Some(DataType::Vane)
        } else if c == 0x90 {
            Some(DataType::Barometer)
        } else {
            None
        }
    }

    /// Resolve a wire discriminant against the closed table.
    pub fn from_code(c: u8) -> (t: Option<DataType>)
        ensures
            t == Self::from_code_spec(c),
            t matches Some(dt) ==> dt.code_spec() == c,
    {
        match c {
            0x00 => Some(DataType::MainBoard),
            0x10 => Some(DataType::ServoController),
            0x20 => Some(DataType::Tachometer),
            0x21 => Some(DataType::Thrustmeter),
            0x30 => Some(DataType::Pitot),
            0x40 => Some(DataType::IMU),
            0x50 => Some(DataType::Ultrasonic),
            0x60 => Some(DataType::GPS),
            0x70 => Some(DataType::Vane),
            0x90 => Some(DataType::Barometer),
            _ => None,
        }
    }

    /// Dense index of this sensor type, used to key the latest-value store.
    pub open spec fn index_spec(self) -> int {
        match self {
            DataType::MainBoard => 0,
            DataType::ServoController => 1,
            DataType::Tachometer => 2,
            DataType::Thrustmeter => 3,
            DataType::Pitot => 4,
            DataType::IMU => 5,
            DataType::Ultrasonic => 6,
            DataType::GPS => 7,
            DataType::Vane => 8,
            DataType::Barometer => 9,
        }
    }

    pub fn index(self) -> (i: usize)
        ensures
            i as int == self.index_spec(),
            i < SENSOR_TYPE_COUNT,
    {
        match self {
            DataType::MainBoard => 0,
            DataType::ServoController => 1,
            DataType::Tachometer => 2,
            DataType::Thrustmeter => 3,
            DataType::Pitot => 4,
            DataType::IMU => 5,
            DataType::Ultrasonic => 6,
            DataType::GPS => 7,
            DataType::Vane => 8,
            DataType::Barometer => 9,
        }
    }
}

/// Value of four bytes read as a little-endian 32-bit unsigned integer.
pub open spec fn le32_spec(b0: u8, b1: u8, b2: u8, b3: u8) -> u32 {
    (b0 + b1 * 0x100 + b2 * 0x10000 + b3 * 0x1000000) as u32
}

pub fn le32(b0: u8, b1: u8, b2: u8, b3: u8) -> (v: u32)
    ensures
        v == le32_spec(b0, b1, b2, b3),
{
    (b0 as u32) + (b1 as u32) * 0x100 + (b2 as u32) * 0x10000 + (b3 as u32) * 0x1000000
}

/// Decoded fields of one ultrasonic altimeter message. The two measurements
/// are retained as the raw bits of their little-endian IEEE-754 wire encoding;
/// `received_time` is the host-observed capture timestamp in milliseconds,
/// independent of the device timestamp.
#[derive(Clone, Copy, Debug, PartialEq, Eq, Structural)]
pub struct UltrasonicRawData {
    pub id: u8,
    pub timestamp: u32,
    pub altitude_bits: u32,
    pub temperature_bits: u32,
    pub received_time: i64,
}

/// One typed ultrasonic reading: the resolved sensor type plus its fields.
#[derive(Clone, Copy, Debug, PartialEq, Eq, Structural)]
pub struct UltrasonicData {
    pub id: DataType,
    pub raw: UltrasonicRawData,
}

/// Decoded fields of one barometer message, laid out as in
/// [`UltrasonicRawData`] with pressure as the primary measurement.
#[derive(Clone, Copy, Debug, PartialEq, Eq, Structural)]
pub struct BarometerRawData {
    pub id: u8,
    pub timestamp: u32,
    pub pressure_bits: u32,
    pub temperature_bits: u32,
    pub received_time: i64,
}

/// One typed barometer reading: the resolved sensor type plus its fields.
#[derive(Clone, Copy, Debug, PartialEq, Eq, Structural)]
pub struct BarometerData {
    pub id: DataType,
    pub raw: BarometerRawData,
}

/// Tagged union over the sensor types whose wire layout has a decoder.
#[derive(Clone, Copy, Debug, PartialEq, Eq, Structural)]
pub enum SensorData {
    Ultrasonic(UltrasonicData),
    Barometer(BarometerData),
}

/// The sensor type a reading belongs to.
pub open spec fn reading_type(r: SensorData) -> DataType {
    match r {
        SensorData::Ultrasonic(_) => DataType::Ultrasonic,
        SensorData::Barometer(_) => DataType::Barometer,
    }
}

/// The ultrasonic reading that a frame decodes to under the fixed wire
/// layout, or `None` when the frame is too short or carries the wrong
/// discriminant.
pub open spec fn ultrasonic_parse_spec(data: Seq<u8>, received_time: i64) -> Option<UltrasonicData> {
    if data.len() >= MIN_FRAME_LEN && data[0] == DataType::Ultrasonic.code_spec() {
        Some(UltrasonicData {
            id: DataType::Ultrasonic,
            raw: UltrasonicRawData {
                id: data[0],
                timestamp: le32_spec(data[4], data[5], data[6], data[7]),
                altitude_bits: le32_spec(data[8], data[9], data[10], data[11]),
                temperature_bits: le32_spec(data[12], data[13], data[14], data[15]),
                received_time,
            },
        })
    } else {
        None
    }
}

/// The barometer reading that a frame decodes to, or `None` when the frame
/// is too short or carries the wrong discriminant.
pub open spec fn barometer_parse_spec(data: Seq<u8>, received_time: i64) -> Option<BarometerData> {
    if data.len() >= MIN_FRAME_LEN && data[0] == DataType::Barometer.code_spec() {
        Some(BarometerData {
            id: DataType::Barometer,
            raw: BarometerRawData {
                id: data[0],
                timestamp: le32_spec(data[4], data[5], data[6], data[7]),
                pressure_bits: le32_spec(data[8], data[9], data[10], data[11]),
                temperature_bits: le32_spec(data[12], data[13], data[14], data[15]),
                received_time,
            },
        })
    } else {
        None
    }
}

/// Relies on chrono's conversion from std::time::SystemTime (read as
/// timestamp_millis) for the host-observed capture timestamp; unlike
/// chrono::Utc::now, the conversion handles a clock that reads before the
/// Unix epoch without panicking. Nothing is assumed about the clock's
/// reading.
#[verifier::external_body]
pub(crate) fn now_millis() -> i64 {
    chrono::DateTime::<chrono::Utc>::from(std::time::SystemTime::now()).timestamp_millis()
}

impl UltrasonicData {
    pub fn new(id: u8, timestamp: u32, altitude_bits: u32, temperature_bits: u32, received_time: i64) -> (d: Self)
        ensures
            d == (UltrasonicData {
                id: DataType::Ultrasonic,
                raw: UltrasonicRawData { id, timestamp, altitude_bits, temperature_bits, received_time },
            }),
    {
        let raw = UltrasonicRawData { id, timestamp, altitude_bits, temperature_bits, received_time };
        UltrasonicData { id: DataType::Ultrasonic, raw }
    }

    /// Decode a frame under the fixed ultrasonic wire layout, stamping the
    /// reading with the given capture timestamp.
    pub fn parse_at(data: &Vec<u8>, received_time: i64) -> (r: Option<Self>)
        ensures
            r == ultrasonic_parse_spec(data@, received_time),
    {
        if data.len() < MIN_FRAME_LEN {
            return None;
        }
        let id = data[0];
        if id != DataType::Ultrasonic.code() {
            return None;
        }
        let timestamp = le32(data[4], data[5], data[6], data[7]);
        let altitude_bits = le32(data[8], data[9], data[10], data[11]);
        let temperature_bits = le32(data[12], data[13], data[14], data[15]);
        Some(Self::new(id, timestamp, altitude_bits, temperature_bits, received_time))
    }

    /// Decode a frame and stamp it with the host wall-clock time at the
    /// moment decoding completes. Success depends on the frame alone; only
    /// the capture timestamp comes from the clock.
    pub fn parse(data: Vec<u8>) -> (r: Option<Self>)
        ensures
            r is Some <==> data@.len() >= MIN_FRAME_LEN && data@[0] == DataType::Ultrasonic.code_spec(),
            r matches Some(d) ==> r == ultrasonic_parse_spec(data@, d.raw.received_time),
    {
        let received_time = now_millis();
        Self::parse_at(&data, received_time)
    }
}

impl BarometerData {
    pub fn new(id: u8, timestamp: u32, pressure_bits: u32, temperature_bits: u32, received_time: i64) -> (d: Self)
        ensures
            d == (BarometerData {
                id: DataType::Barometer,
                raw: BarometerRawData { id, timestamp, pressure_bits, temperature_bits, received_time },
            }),
    {
        BarometerData {
            id: DataType::Barometer,
            raw: BarometerRawData { id, timestamp, pressure_bits, temperature_bits, received_time },
        }
    }

    /// Decode a frame under the fixed barometer wire layout, stamping the
    /// reading with the given capture timestamp.
    pub fn parse_at(data: &Vec<u8>, received_time: i64) -> (r: Option<Self>)
        ensures
            r == barometer_parse_spec(data@, received_time),
    {
        if data.len() < MIN_FRAME_LEN {
            return None;
        }
        let id = data[0];
        if id != DataType::Barometer.code() {
            return None;
        }
        let timestamp = le32(data[4], data[5], data[6], data[7]);
        let pressure_bits = le32(data[8], data[9], data[10], data[11]);
        let temperature_bits = le32(data[12], data[13], data[14], data[15]);
        Some(Self::new(id, timestamp, pressure_bits, temperature_bits, received_time))
    }

    /// Decode a frame and stamp it with the host wall-clock time at the
    /// moment decoding completes. Success depends on the frame alone; only
    /// the capture timestamp comes from the clock.
    pub fn parse(data: Vec<u8>) -> (r: Option<Self>)
        ensures
            r is Some <==> data@.len() >= MIN_FRAME_LEN && data@[0] == DataType::Barometer.code_spec(),
            r matches Some(d) ==> r == barometer_parse_spec(data@, d.raw.received_time),
    {
        let received_time = now_millis();
        Self::parse_at(&data, received_time)
    }
}

} // verus!
