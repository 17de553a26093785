//! The survey record and the values it carries.
//!
//! Measurements are floating-point numbers in the spreadsheets; the library
//! carries each as its IEEE 754 binary64 bit pattern (what `f64::to_bits`
//! gives), so that the rules on them are stated and checked exactly.
use vstd::prelude::*;

verus! {

/// Bit pattern of -99999.0, the value that marks a measurement as missing.
pub const MISSING: u64 = 0xC0F8_69F0_0000_0000;
/// Bit pattern of 0.0.
pub const ZERO: u64 = 0x0000_0000_0000_0000;
/// Bit pattern of 0.9, the default emissivity.
pub const DEFAULT_EMISSIVITY: u64 = 0x3FEC_CCCC_CCCC_CCCD;
/// Bit pattern of 3.0 (metres).
pub const DISTANCE_3: u64 = 0x4008_0000_0000_0000;
/// Bit pattern of 6.0 (metres).
pub const DISTANCE_6: u64 = 0x4018_0000_0000_0000;
/// Bit pattern of 9.0 (metres).
pub const DISTANCE_9: u64 = 0x4022_0000_0000_0000;

/// One line of an inspection sheet: where a measurement was taken and what
/// was measured. Floating-point fields hold binary64 bit patterns.
pub struct ExcelData {
    pub id: u64,
    pub interval_name: String,
    pub device_name: String,
    pub device_id: String,
    pub voltage_level: String,
    pub detection_point_id: String,
    pub measurement_image: String,
    pub thermal: u64,
    pub normal_corresponding_point_temperature: u64,
    pub emissivity: u64,
    pub ambient_temperature: u64,
    pub temperature_rise: u64,
    pub distance: u64,
    pub load_current: u64,
}

/// Records that found a reference line, and those that did not.
pub struct MatchedData {
    pub matched: Vec<ExcelData>,
    pub unmatched: Vec<ExcelData>,
}

impl ExcelData {
    /// A copy of the record, field for field.
    pub fn duplicate(&self) -> (r: ExcelData)
        ensures
            r == *self,
    {
        ExcelData {
            id: self.id,
            interval_name: self.interval_name.clone(),
            device_name: self.device_name.clone(),
            device_id: self.device_id.clone(),
            voltage_level: self.voltage_level.clone(),
            detection_point_id: self.detection_point_id.clone(),
            measurement_image: self.measurement_image.clone(),
            thermal: self.thermal,
            normal_corresponding_point_temperature: self.normal_corresponding_point_temperature,
            emissivity: self.emissivity,
            ambient_temperature: self.ambient_temperature,
            temperature_rise: self.temperature_rise,
            distance: self.distance,
            load_current: self.load_current,
        }
    }
}

} // verus!
