//! Completing, matching and laying out inspection records.
use vstd::prelude::*;
use crate::record::{
    ExcelData, DEFAULT_EMISSIVITY, DISTANCE_3, DISTANCE_6, DISTANCE_9, MISSING, ZERO,
};
use crate::text::{str_eq, str_starts_with};

verus! {

/// The measuring distance that a voltage level calls for: 9 m for direct
/// current and for 1000 kV alternating current, 6 m for 500 kV, 3 m otherwise.
pub open spec fn distance_for_voltage(voltage_level: Seq<char>) -> u64 {
    if "直流"@.is_prefix_of(voltage_level) {
        DISTANCE_9
    } else if voltage_level == "交流1000kV"@ {
        DISTANCE_9
    } else if voltage_level == "交流500kV"@ {
        DISTANCE_6
    } else {
        DISTANCE_3
    }
}

/// Computes the measuring distance for a voltage level.
pub fn measuring_distance(voltage_level: &str) -> (r: u64)
    ensures
        r == distance_for_voltage(voltage_level@),
{
    if str_starts_with(voltage_level, "直流") {
        DISTANCE_9
    } else if str_eq(voltage_level, "交流1000kV") {
        DISTANCE_9
    } else if str_eq(voltage_level, "交流500kV") {
        DISTANCE_6
    } else {
        DISTANCE_3
    }
}

/// A record with its missing values completed: the distance follows the
/// voltage level; a missing normal-point temperature takes the measured
/// temperature; a missing temperature rise becomes `thermal_minus_ambient`
/// when both temperatures are present; a missing emissivity becomes 0.9 and
/// a missing load current 0. Every other field is kept.
pub open spec fn completed_record(d: ExcelData, thermal_minus_ambient: u64) -> ExcelData {
    ExcelData {
        id: d.id,
        interval_name: d.interval_name,
        device_name: d.device_name,
        device_id: d.device_id,
        voltage_level: d.voltage_level,
        detection_point_id: d.detection_point_id,
        measurement_image: d.measurement_image,
        thermal: d.thermal,
        normal_corresponding_point_temperature:
            if d.normal_corresponding_point_temperature == MISSING && d.thermal != MISSING {
                d.thermal
            } else {
                d.normal_corresponding_point_temperature
            },
        emissivity: if d.emissivity == MISSING {
            DEFAULT_EMISSIVITY
        } else {
            d.emissivity
        },
        ambient_temperature: d.ambient_temperature,
        temperature_rise: if d.temperature_rise == MISSING && d.ambient_temperature != MISSING
            && d.thermal != MISSING {
            thermal_minus_ambient
        } else {
            d.temperature_rise
        },
        distance: distance_for_voltage(d.voltage_level@),
        load_current: if d.load_current == MISSING {
            ZERO
        } else {
            d.load_current
        },
    }
}

/// Completes the missing values of a record (see [`completed_record`]).
/// `thermal_minus_ambient` is the bit pattern of `thermal - ambient_temperature`
/// as a binary64 subtraction, which the caller computes.
pub fn process_excel_data(data: ExcelData, thermal_minus_ambient: u64) -> (r: ExcelData)
    ensures
        r == completed_record(data, thermal_minus_ambient),
{
    let distance = measuring_distance(data.voltage_level.as_str());
    let normal_corresponding_point_temperature = if data.normal_corresponding_point_temperature
        == MISSING && data.thermal != MISSING {
        data.thermal
    } else {
        data.normal_corresponding_point_temperature
    };
    let temperature_rise = if data.temperature_rise == MISSING && data.ambient_temperature
        != MISSING && data.thermal != MISSING {
        thermal_minus_ambient
    } else {
        data.temperature_rise
    };
    let emissivity = if data.emissivity == MISSING {
        DEFAULT_EMISSIVITY
    } else {
        data.emissivity
    };
    let load_current = if data.load_current == MISSING {
        ZERO
    } else {
        data.load_current
    };
    ExcelData {
        id: data.id,
        interval_name: data.interval_name,
        device_name: data.device_name,
        device_id: data.device_id,
        voltage_level: data.voltage_level,
        detection_point_id: data.detection_point_id,
        measurement_image: data.measurement_image,
        thermal: data.thermal,
        normal_corresponding_point_temperature,
        emissivity,
        ambient_temperature: data.ambient_temperature,
        temperature_rise,
        distance,
        load_current,
    }
}

/// Completing a record a second time changes nothing: no completed field is
/// left at the missing value unless its inputs are missing too.
pub proof fn completion_is_idempotent(d: ExcelData, thermal_minus_ambient: u64)
    ensures
        completed_record(completed_record(d, thermal_minus_ambient), thermal_minus_ambient)
            == completed_record(d, thermal_minus_ambient),
{
}

/// After completion the emissivity and the load current are never missing,
/// and the distance is one of 3, 6 or 9 metres.
pub proof fn completion_fills_defaults(d: ExcelData, thermal_minus_ambient: u64)
    ensures
        completed_record(d, thermal_minus_ambient).emissivity != MISSING,
        completed_record(d, thermal_minus_ambient).load_current != MISSING,
        completed_record(d, thermal_minus_ambient).distance == DISTANCE_3
            || completed_record(d, thermal_minus_ambient).distance == DISTANCE_6
            || completed_record(d, thermal_minus_ambient).distance == DISTANCE_9,
{
}

/// Completion replaces only what is missing: every present measurement is
/// kept as it was, each missing one gets its rule's value, and the
/// identification, the measured and the ambient temperature are untouched.
pub proof fn completion_replaces_only_missing_values(d: ExcelData, thermal_minus_ambient: u64)
    ensures
        ({
            let c = completed_record(d, thermal_minus_ambient);
            &&& d.load_current != MISSING ==> c.load_current == d.load_current
            &&& d.load_current == MISSING ==> c.load_current == ZERO
            &&& d.emissivity != MISSING ==> c.emissivity == d.emissivity
            &&& d.emissivity == MISSING ==> c.emissivity == DEFAULT_EMISSIVITY
            &&& d.normal_corresponding_point_temperature != MISSING
                ==> c.normal_corresponding_point_temperature
                == d.normal_corresponding_point_temperature
            &&& d.normal_corresponding_point_temperature == MISSING ==> c.normal_corresponding_point_temperature
                == d.thermal
            &&& d.temperature_rise != MISSING ==> c.temperature_rise == d.temperature_rise
            &&& d.temperature_rise == MISSING && d.thermal != MISSING && d.ambient_temperature
                != MISSING ==> c.temperature_rise == thermal_minus_ambient
            &&& (d.thermal == MISSING || d.ambient_temperature == MISSING) ==> c.temperature_rise
                == d.temperature_rise
            &&& c.thermal == d.thermal
            &&& c.ambient_temperature == d.ambient_temperature
            &&& c.id == d.id
            &&& c.interval_name == d.interval_name
            &&& c.device_name == d.device_name
            &&& c.device_id == d.device_id
            &&& c.voltage_level == d.voltage_level
            &&& c.detection_point_id == d.detection_point_id
            &&& c.measurement_image == d.measurement_image
        }),
{
}

} // verus!
