//! Matching measured records against a reference sheet.
//!
//! The reference lines are indexed by a key (the device name or the device
//! id); a later line with the same key replaces an earlier one. Each measured
//! record whose key has a reference line takes the identifying fields of that
//! line and keeps its own measurements; the others are returned unchanged.
use vstd::prelude::*;
use vstd::hash_map::StringHashMap;
use crate::record::{ExcelData, MatchedData};

verus! {

/// Which field of a record identifies its device.
#[derive(Clone, Copy)]
pub enum MatchKey {
    DeviceName,
    DeviceId,
}

/// The key of a record.
pub open spec fn key_of(key: MatchKey, r: ExcelData) -> Seq<char> {
    match key {
        MatchKey::DeviceName => r.device_name@,
        MatchKey::DeviceId => r.device_id@,
    }
}

/// The reference lines by key, the later of two lines with one key winning.
pub open spec fn reference_index(source: Seq<ExcelData>, key: MatchKey) -> Map<
    Seq<char>,
    ExcelData,
>
    decreases source.len(),
{
    if source.len() == 0 {
        Map::empty()
    } else {
        reference_index(source.drop_last(), key).insert(key_of(key, source.last()), source.last())
    }
}

/// The identifying fields of `reference` with the measurements of `measured`.
pub open spec fn merged_record(reference: ExcelData, measured: ExcelData) -> ExcelData {
    ExcelData {
        id: reference.id,
        interval_name: reference.interval_name,
        device_name: reference.device_name,
        device_id: reference.device_id,
        voltage_level: reference.voltage_level,
        detection_point_id: reference.detection_point_id,
        measurement_image: measured.measurement_image,
        thermal: measured.thermal,
        normal_corresponding_point_temperature: measured.normal_corresponding_point_temperature,
        emissivity: measured.emissivity,
        ambient_temperature: measured.ambient_temperature,
        temperature_rise: measured.temperature_rise,
        distance: measured.distance,
        load_current: measured.load_current,
    }
}

/// The records whose key is in `index`, each merged with its reference line, in order.
pub open spec fn matched_part(
    index: Map<Seq<char>, ExcelData>,
    records: Seq<ExcelData>,
    key: MatchKey,
) -> Seq<ExcelData>
    decreases records.len(),
{
    if records.len() == 0 {
        Seq::empty()
    } else {
        let rest = matched_part(index, records.drop_last(), key);
        let r = records.last();
        if index.contains_key(key_of(key, r)) {
            rest.push(merged_record(index[key_of(key, r)], r))
        } else {
            rest
        }
    }
}

/// The records whose key is not in `index`, unchanged, in order.
pub open spec fn unmatched_part(
    index: Map<Seq<char>, ExcelData>,
    records: Seq<ExcelData>,
    key: MatchKey,
) -> Seq<ExcelData>
    decreases records.len(),
{
    if records.len() == 0 {
        Seq::empty()
    } else {
        let rest = unmatched_part(index, records.drop_last(), key);
        let r = records.last();
        if index.contains_key(key_of(key, r)) {
            rest
        } else {
            rest.push(r)
        }
    }
}

fn record_key(r: &ExcelData, key: MatchKey) -> (s: &str)
    ensures
        s@ == key_of(key, *r),
{
    match key {
        MatchKey::DeviceName => r.device_name.as_str(),
        MatchKey::DeviceId => r.device_id.as_str(),
    }
}

fn merge(reference: &ExcelData, measured: &ExcelData) -> (r: ExcelData)
    ensures
        r == merged_record(*reference, *measured),
{
    ExcelData {
        id: reference.id,
        interval_name: reference.interval_name.clone(),
        device_name: reference.device_name.clone(),
        device_id: reference.device_id.clone(),
        voltage_level: reference.voltage_level.clone(),
        detection_point_id: reference.detection_point_id.clone(),
        measurement_image: measured.measurement_image.clone(),
        thermal: measured.thermal,
        normal_corresponding_point_temperature: measured.normal_corresponding_point_temperature,
        emissivity: measured.emissivity,
        ambient_temperature: measured.ambient_temperature,
        temperature_rise: measured.temperature_rise,
        distance: measured.distance,
        load_current: measured.load_current,
    }
}

/// Matches `records` against the reference lines in `source` by `key`.
pub fn match_records(source: &Vec<ExcelData>, records: &Vec<ExcelData>, key: MatchKey) -> (r:
    MatchedData)
    ensures
        r.matched@ == matched_part(reference_index(source@, key), records@, key),
        r.unmatched@ == unmatched_part(reference_index(source@, key), records@, key),
{
    let mut index: StringHashMap<ExcelData> = StringHashMap::new();
    let mut i: usize = 0;
    while i < source.len()
        invariant
            i <= source.len(),
            index@ == reference_index(source@.take(i as int), key),
        decreases source.len() - i,
    {
        let line = source[i].duplicate();
        let k = record_key(&source[i], key).to_owned();
        index.insert(k, line);
        assert(source@.take(i + 1).drop_last() =~= source@.take(i as int));
        i += 1;
    }
    assert(source@.take(source.len() as int) =~= source@);
    let ghost idx = reference_index(source@, key);
    let mut matched: Vec<ExcelData> = Vec::new();
    let mut unmatched: Vec<ExcelData> = Vec::new();
    let mut j: usize = 0;
    while j < records.len()
        invariant
            j <= records.len(),
            index@ == idx,
            matched@ == matched_part(idx, records@.take(j as int), key),
            unmatched@ == unmatched_part(idx, records@.take(j as int), key),
        decreases records.len() - j,
    {
        assert(records@.take(j + 1).drop_last() =~= records@.take(j as int));
        match index.get(record_key(&records[j], key)) {
            Some(reference) => {
                let m = merge(reference, &records[j]);
                matched.push(m);
            },
            None => {
                unmatched.push(records[j].duplicate());
            },
        }
        j += 1;
    }
    assert(records@.take(records.len() as int) =~= records@);
    MatchedData { matched, unmatched }
}

/// Completes records whose identifying fields are missing from the
/// reference lines with the same device name.
pub fn fix_missing_field(source: Vec<ExcelData>, missing_field_data: Vec<ExcelData>) -> (r:
    MatchedData)
    ensures
        r.matched@ == matched_part(
            reference_index(source@, MatchKey::DeviceName),
            missing_field_data@,
            MatchKey::DeviceName,
        ),
        r.unmatched@ == unmatched_part(
            reference_index(source@, MatchKey::DeviceName),
            missing_field_data@,
            MatchKey::DeviceName,
        ),
{
    match_records(&source, &missing_field_data, MatchKey::DeviceName)
}

/// Re-attaches records to the reference lines with the same device id.
pub fn rematch_excel_data(source: Vec<ExcelData>, rematch_data: Vec<ExcelData>) -> (r:
    MatchedData)
    ensures
        r.matched@ == matched_part(
            reference_index(source@, MatchKey::DeviceId),
            rematch_data@,
            MatchKey::DeviceId,
        ),
        r.unmatched@ == unmatched_part(
            reference_index(source@, MatchKey::DeviceId),
            rematch_data@,
            MatchKey::DeviceId,
        ),
{
    match_records(&source, &rematch_data, MatchKey::DeviceId)
}

/// Every record lands in exactly one of the two parts.
pub proof fn matching_partitions_records(
    index: Map<Seq<char>, ExcelData>,
    records: Seq<ExcelData>,
    key: MatchKey,
)
    ensures
        matched_part(index, records, key).len() + unmatched_part(index, records, key).len()
            == records.len(),
    decreases records.len(),
{
    if records.len() > 0 {
        matching_partitions_records(index, records.drop_last(), key);
    }
}

/// A key is indexed exactly when some reference line has it, and it then
/// stands for the last such line.
pub proof fn reference_index_keeps_last_line(source: Seq<ExcelData>, key: MatchKey, k: Seq<char>)
    ensures
        reference_index(source, key).contains_key(k) <==> (exists|i: int|
            0 <= i < source.len() && key_of(key, #[trigger] source[i]) == k),
        forall|i: int|
            0 <= i < source.len() && key_of(key, #[trigger] source[i]) == k && (forall|j: int|
                i < j < source.len() ==> key_of(key, #[trigger] source[j]) != k) ==> reference_index(
                source,
                key,
            )[k] == source[i],
    decreases source.len(),
{
    if source.len() > 0 {
        let init = source.drop_last();
        reference_index_keeps_last_line(init, key, k);
        if reference_index(source, key).contains_key(k) && key_of(key, source.last()) != k {
            let i = choose|i: int| 0 <= i < init.len() && key_of(key, #[trigger] init[i]) == k;
            assert(source[i] == init[i]);
        }
        if exists|i: int| 0 <= i < source.len() && key_of(key, #[trigger] source[i]) == k {
            let i = choose|i: int| 0 <= i < source.len() && key_of(key, #[trigger] source[i]) == k;
            if i < init.len() {
                assert(init[i] == source[i]);
            }
        }
        assert forall|i: int|
            0 <= i < source.len() && key_of(key, #[trigger] source[i]) == k && (forall|j: int|
                i < j < source.len() ==> key_of(key, #[trigger] source[j]) != k) implies reference_index(
            source,
            key,
        )[k] == source[i] by {
            if i < init.len() {
                assert(key_of(key, source[source.len() - 1]) != k);
                assert(init[i] == source[i]);
                assert forall|j: int| i < j < init.len() implies key_of(key, #[trigger] init[j])
                    != k by {
                    assert(init[j] == source[j]);
                }
            }
        }
    }
}

/// Every indexed key stands for a reference line that carries that key.
pub proof fn reference_index_is_keyed(source: Seq<ExcelData>, key: MatchKey)
    ensures
        forall|k: Seq<char>|
            #[trigger] reference_index(source, key).contains_key(k) ==> key_of(
                key,
                reference_index(source, key)[k],
            ) == k,
    decreases source.len(),
{
    if source.len() > 0 {
        let prev = reference_index(source.drop_last(), key);
        reference_index_is_keyed(source.drop_last(), key);
        assert forall|k: Seq<char>| #[trigger]
            reference_index(source, key).contains_key(k) implies key_of(
            key,
            reference_index(source, key)[k],
        ) == k by {
            if k != key_of(key, source.last()) {
                assert(prev.contains_key(k));
            }
        }
    }
}

proof fn matched_records_match_again(
    index: Map<Seq<char>, ExcelData>,
    records: Seq<ExcelData>,
    key: MatchKey,
)
    requires
        forall|k: Seq<char>| #[trigger] index.contains_key(k) ==> key_of(key, index[k]) == k,
    ensures
        matched_part(index, matched_part(index, records, key), key) == matched_part(
            index,
            records,
            key,
        ),
        unmatched_part(index, matched_part(index, records, key), key) == Seq::<ExcelData>::empty(),
    decreases records.len(),
{
    if records.len() > 0 {
        let init = records.drop_last();
        matched_records_match_again(index, init, key);
        let r = records.last();
        if index.contains_key(key_of(key, r)) {
            let m = merged_record(index[key_of(key, r)], r);
            let out = matched_part(index, records, key);
            assert(out.drop_last() =~= matched_part(index, init, key));
            assert(key_of(key, m) == key_of(key, r));
            assert(merged_record(index[key_of(key, m)], m) == m);
        }
    }
}

/// Matching the matched records once more against the same reference lines
/// gives them back unchanged, and leaves none unmatched.
pub proof fn matching_is_stable(source: Seq<ExcelData>, records: Seq<ExcelData>, key: MatchKey)
    ensures
        matched_part(
            reference_index(source, key),
            matched_part(reference_index(source, key), records, key),
            key,
        ) == matched_part(reference_index(source, key), records, key),
        unmatched_part(
            reference_index(source, key),
            matched_part(reference_index(source, key), records, key),
            key,
        ) == Seq::<ExcelData>::empty(),
{
    reference_index_is_keyed(source, key);
    matched_records_match_again(reference_index(source, key), records, key);
}

/// The records whose key is in `index`, unchanged, in order.
pub open spec fn keyed_records(
    index: Map<Seq<char>, ExcelData>,
    records: Seq<ExcelData>,
    key: MatchKey,
) -> Seq<ExcelData>
    decreases records.len(),
{
    if records.len() == 0 {
        Seq::empty()
    } else {
        let rest = keyed_records(index, records.drop_last(), key);
        if index.contains_key(key_of(key, records.last())) {
            rest.push(records.last())
        } else {
            rest
        }
    }
}

/// Each matched record pairs one measured record that has a reference line
/// with that line, in order: the id, interval name, device name, device id,
/// voltage level and detection point are the reference line's; the photo
/// and every measurement are the measured record's.
pub proof fn matched_records_combine_reference_and_measurement(
    index: Map<Seq<char>, ExcelData>,
    records: Seq<ExcelData>,
    key: MatchKey,
)
    ensures
        matched_part(index, records, key).len() == keyed_records(index, records, key).len(),
        forall|i: int|
            0 <= i < matched_part(index, records, key).len() ==> {
                let m = #[trigger] matched_part(index, records, key)[i];
                let r = keyed_records(index, records, key)[i];
                let s = index[key_of(key, r)];
                &&& index.contains_key(key_of(key, r))
                &&& m.id == s.id
                &&& m.interval_name == s.interval_name
                &&& m.device_name == s.device_name
                &&& m.device_id == s.device_id
                &&& m.voltage_level == s.voltage_level
                &&& m.detection_point_id == s.detection_point_id
                &&& m.measurement_image == r.measurement_image
                &&& m.thermal == r.thermal
                &&& m.normal_corresponding_point_temperature
                    == r.normal_corresponding_point_temperature
                &&& m.emissivity == r.emissivity
                &&& m.ambient_temperature == r.ambient_temperature
                &&& m.temperature_rise == r.temperature_rise
                &&& m.distance == r.distance
                &&& m.load_current == r.load_current
            },
    decreases records.len(),
{
    if records.len() > 0 {
        let init = records.drop_last();
        matched_records_combine_reference_and_measurement(index, init, key);
        let mp = matched_part(index, records, key);
        let kp = keyed_records(index, records, key);
        let mi = matched_part(index, init, key);
        let ki = keyed_records(index, init, key);
        assert forall|i: int| 0 <= i < mi.len() implies mp[i] == mi[i] && kp[i] == ki[i] by {}
    }
}

/// The records without a reference line are left out of the matched ones
/// and returned unchanged, in order; those with one never are.
pub proof fn unmatched_records_lack_reference(
    index: Map<Seq<char>, ExcelData>,
    records: Seq<ExcelData>,
    key: MatchKey,
)
    ensures
        forall|i: int|
            0 <= i < unmatched_part(index, records, key).len() ==> !index.contains_key(
                key_of(key, #[trigger] unmatched_part(index, records, key)[i]),
            ) && records.contains(unmatched_part(index, records, key)[i]),
    decreases records.len(),
{
    if records.len() > 0 {
        let init = records.drop_last();
        unmatched_records_lack_reference(index, init, key);
        let up = unmatched_part(index, records, key);
        let ui = unmatched_part(index, init, key);
        assert forall|i: int| 0 <= i < up.len() implies !index.contains_key(key_of(key, #[trigger] up[i]))
            && records.contains(up[i]) by {
            if i < ui.len() {
                assert(up[i] == ui[i]);
                let k = choose|k: int| 0 <= k < init.len() && init[k] == ui[i];
                assert(records[k] == init[k]);
            } else {
                assert(up[i] == records.last());
                assert(records[records.len() - 1] == records.last());
            }
        }
    }
}

} // verus!
