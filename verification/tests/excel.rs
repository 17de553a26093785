use itmpc::data::{import_data, Data, JsonData};
use itmpc::excel::{measuring_distance, process_excel_data};
use itmpc::matching::{fix_missing_field, rematch_excel_data};
use itmpc::record::{
    ExcelData, DEFAULT_EMISSIVITY, DISTANCE_3, DISTANCE_6, DISTANCE_9, MISSING, ZERO,
};
use itmpc::sheet::{
    excel_lines_from_rows, image_name_for_device, image_names_from_sheet, write_excel_line,
    CellValue, SheetCell,
};

fn b(x: f64) -> u64 {
    x.to_bits()
}

fn record(
    id: f64,
    interval_name: &str,
    device_name: &str,
    device_id: &str,
    detection_point_id: &str,
    temperature_rise: f64,
    distance: f64,
) -> ExcelData {
    ExcelData {
        id: b(id),
        interval_name: interval_name.to_string(),
        device_name: device_name.to_string(),
        device_id: device_id.to_string(),
        voltage_level: "交流220kV".to_string(),
        detection_point_id: detection_point_id.to_string(),
        measurement_image: "todo!()".to_string(),
        thermal: b(10.0),
        normal_corresponding_point_temperature: b(-99999f64),
        emissivity: b(0.9),
        ambient_temperature: b(20.0),
        temperature_rise: b(temperature_rise),
        distance: b(distance),
        load_current: b(0.0),
    }
}

fn same(a: &ExcelData, c: &ExcelData) -> bool {
    a.id == c.id
        && a.interval_name == c.interval_name
        && a.device_name == c.device_name
        && a.device_id == c.device_id
        && a.voltage_level == c.voltage_level
        && a.detection_point_id == c.detection_point_id
        && a.measurement_image == c.measurement_image
        && a.thermal == c.thermal
        && a.normal_corresponding_point_temperature == c.normal_corresponding_point_temperature
        && a.emissivity == c.emissivity
        && a.ambient_temperature == c.ambient_temperature
        && a.temperature_rise == c.temperature_rise
        && a.distance == c.distance
        && a.load_current == c.load_current
}

#[test]
fn test_rematch_excel_data() {
    let s_data_1 = record(1.0, "todo!()", "todo!()", "todo!()", "todo!()", -99999f64, -99999f64);
    let s_data_2 = record(2.0, "todo!()", "todo!()3", "todo!()", "todo!()", -99999f64, -99999f64);
    let r_data_1 = record(1.0, "todo!()", "todo!()", "todo!()", "todo!()4", -99999f64, -99999f64);
    let r_data_2 = record(3.0, "todo!()2", "todo!()3", "", "", -99999f64, -99999f64);
    let source = vec![s_data_1, s_data_2];
    let rematch_data = vec![r_data_1, r_data_2];
    let data = rematch_excel_data(source, rematch_data);
    // Both reference lines have the device id "todo!()"; the later one wins.
    assert_eq!(data.matched.len(), 1);
    assert_eq!(data.unmatched.len(), 1);
    let m = &data.matched[0];
    assert_eq!(m.id, b(2.0));
    assert_eq!(m.device_name, "todo!()3");
    assert_eq!(m.detection_point_id, "todo!()");
    assert_eq!(m.thermal, b(10.0));
    assert_eq!(data.unmatched[0].id, b(3.0));
    assert_eq!(data.unmatched[0].device_id, "");
}

#[test]
fn test_fix_missing_field() {
    let s_data_1 = record(1.0, "todo!()", "todo!()", "todo!()", "todo!()", -99999f64, -99999f64);
    let s_data_2 = record(2.0, "todo!()", "todo!()3", "todo!()", "todo!()", -99999f64, -99999f64);
    let r_data_1 = record(1.0, "todo!()", "todo!()", "todo!()", "todo!()4", -99999f64, -99999f64);
    let r_data_2 = record(3.0, "todo!()2", "todo!()3", "", "", 1f64, 3f64);
    let source = vec![s_data_1, s_data_2];
    let rematch_data = vec![r_data_1, r_data_2];
    let data = fix_missing_field(source, rematch_data);
    assert_eq!(data.matched.len(), 2);
    assert_eq!(data.unmatched.len(), 0);
    let first = &data.matched[0];
    assert_eq!(first.id, b(1.0));
    assert_eq!(first.detection_point_id, "todo!()");
    let second = &data.matched[1];
    assert_eq!(second.id, b(2.0));
    assert_eq!(second.interval_name, "todo!()");
    assert_eq!(second.device_id, "todo!()");
    assert_eq!(second.detection_point_id, "todo!()");
    assert_eq!(second.temperature_rise, b(1.0));
    assert_eq!(second.distance, b(3.0));
}

fn text(s: &str) -> SheetCell {
    SheetCell::Text(s.to_string())
}

fn number(x: f64) -> SheetCell {
    SheetCell::Float { value: b(x), shown: format!("{}", x) }
}

fn empty() -> SheetCell {
    SheetCell::Other(String::new())
}

fn sheet_row(id: SheetCell, device: &str, photo: Option<&str>) -> Vec<SheetCell> {
    let mut row = vec![
        id,
        text("间隔一"),
        text(device),
        text("D-01"),
        text("交流500kV"),
        empty(),
        empty(),
        text("P-7"),
        empty(),
        empty(),
        match photo {
            Some(p) => text(p),
            None => empty(),
        },
    ];
    while row.len() < 14 {
        row.push(empty());
    }
    row.push(number(5.0));
    row.push(number(36.5));
    row.push(empty());
    row.push(empty());
    row.push(number(12.25));
    row.push(number(24.0));
    row.push(empty());
    row.push(number(100.0));
    row
}

#[test]
fn test_excel_reader() {
    // A header row, two record rows, and a row too short to hold a record.
    let mut header = vec![text("序号"), text("间隔名称"), text("设备名称")];
    while header.len() < 22 {
        header.push(empty());
    }
    let rows = vec![
        header,
        sheet_row(number(1.0), "主变/A?*相", None),
        sheet_row(number(2.0), "开关", Some("photo.jpg")),
        vec![number(3.0), text("short")],
    ];
    let lines = excel_lines_from_rows(&rows);
    assert_eq!(lines.len(), 2);
    assert_eq!(lines[0].id, b(1.0));
    assert_eq!(lines[0].device_name, "主变/A?*相");
    assert_eq!(lines[0].measurement_image, "主变A相.jpg");
    assert_eq!(lines[0].detection_point_id, "P-7");
    assert_eq!(lines[0].distance, b(5.0));
    assert_eq!(lines[0].thermal, b(36.5));
    assert_eq!(lines[0].normal_corresponding_point_temperature, MISSING);
    assert_eq!(lines[0].temperature_rise, b(12.25));
    assert_eq!(lines[0].ambient_temperature, b(24.0));
    assert_eq!(lines[0].emissivity, MISSING);
    assert_eq!(lines[0].load_current, b(100.0));
    assert_eq!(lines[1].measurement_image, "photo.jpg");
}

#[test]
fn test_excel_merger() {
    // Records measured without identification take it from the reference sheet.
    let source = vec![record(7.0, "间隔", "母线", "M-1", "上部", -99999f64, -99999f64)];
    let measured = vec![
        record(0.0, "", "母线", "", "", 3.5, 6.0),
        record(0.0, "", "未知设备", "", "", 1.0, 3.0),
    ];
    let merged = fix_missing_field(source, measured);
    assert_eq!(merged.matched.len(), 1);
    assert_eq!(merged.matched[0].id, b(7.0));
    assert_eq!(merged.matched[0].device_id, "M-1");
    assert_eq!(merged.matched[0].detection_point_id, "上部");
    assert_eq!(merged.matched[0].temperature_rise, b(3.5));
    assert_eq!(merged.unmatched.len(), 1);
    assert_eq!(merged.unmatched[0].device_name, "未知设备");
}

#[test]
fn constants_are_the_documented_values() {
    assert_eq!(MISSING, (-99999f64).to_bits());
    assert_eq!(ZERO, 0f64.to_bits());
    assert_eq!(DEFAULT_EMISSIVITY, 0.9f64.to_bits());
    assert_eq!(DISTANCE_3, 3f64.to_bits());
    assert_eq!(DISTANCE_6, 6f64.to_bits());
    assert_eq!(DISTANCE_9, 9f64.to_bits());
}

#[test]
fn distance_follows_voltage_level() {
    assert_eq!(measuring_distance("直流±800kV"), b(9.0));
    assert_eq!(measuring_distance("交流1000kV"), b(9.0));
    assert_eq!(measuring_distance("交流500kV"), b(6.0));
    assert_eq!(measuring_distance("交流220kV"), b(3.0));
    assert_eq!(measuring_distance(""), b(3.0));
}

#[test]
fn processing_fills_missing_values() {
    let d = record(1.0, "i", "n", "d", "p", -99999f64, -99999f64);
    let diff = (10.0f64 - 20.0f64).to_bits();
    let r = process_excel_data(d, diff);
    assert_eq!(r.normal_corresponding_point_temperature, b(10.0));
    assert_eq!(r.temperature_rise, b(-10.0));
    assert_eq!(r.emissivity, b(0.9));
    assert_eq!(r.load_current, b(0.0));
    assert_eq!(r.distance, b(3.0));
    // A second pass changes nothing.
    let again = process_excel_data(record(1.0, "i", "n", "d", "p", -99999f64, -99999f64), diff);
    let twice = process_excel_data(again, diff);
    assert!(same(&twice, &r));
}

#[test]
fn processing_keeps_present_values_and_missing_inputs() {
    let mut d = record(1.0, "i", "n", "d", "p", 4.0, 1.0);
    d.ambient_temperature = MISSING;
    d.emissivity = b(0.95);
    d.load_current = MISSING;
    d.voltage_level = "直流500kV".to_string();
    let r = process_excel_data(d, b(123.0));
    assert_eq!(r.temperature_rise, b(4.0));
    assert_eq!(r.emissivity, b(0.95));
    assert_eq!(r.load_current, ZERO);
    assert_eq!(r.distance, DISTANCE_9);
    let mut e = record(1.0, "i", "n", "d", "p", -99999f64, 1.0);
    e.thermal = MISSING;
    let r = process_excel_data(e, b(5.0));
    assert_eq!(r.normal_corresponding_point_temperature, MISSING);
    assert_eq!(r.temperature_rise, MISSING);
}

#[test]
fn output_row_layout() {
    let d = record(4.0, "间隔", "设备", "ID", "点", 2.0, 3.0);
    let cells = write_excel_line(d);
    let columns: Vec<u16> = cells.iter().map(|c| c.column).collect();
    assert_eq!(columns, vec![0, 1, 2, 3, 4, 7, 9, 10, 14, 15, 16, 18, 19, 20, 21, 23]);
    match &cells[0].value {
        CellValue::Number(n) => assert_eq!(*n, b(4.0)),
        _ => panic!("id is a number"),
    }
    match &cells[6].value {
        CellValue::Text(t) => assert_eq!(t, "整体"),
        _ => panic!("part is a text"),
    }
    match &cells[15].value {
        CellValue::Text(t) => assert_eq!(t, "正常"),
        _ => panic!("verdict is a text"),
    }
    match &cells[11].value {
        CellValue::Number(n) => assert_eq!(*n, b(2.0)),
        _ => panic!("rise is a number"),
    }
}

#[test]
fn image_names_come_from_numbered_rows() {
    let rows = vec![
        vec![text("序号"), text("x"), text("名称")],
        vec![number(1.0), text("x"), text("a.jpg")],
        vec![number(2.0), text("x"), number(3.5)],
        vec![empty()],
    ];
    let names = image_names_from_sheet(Some(rows)).unwrap();
    assert_eq!(names, vec!["a.jpg".to_string(), "3.5".to_string()]);
    assert_eq!(image_names_from_sheet(None).unwrap_err(), "cannot get sheets");
}

#[test]
fn photo_name_drops_path_characters() {
    assert_eq!(image_name_for_device(r"a/b\c?d*e"), "abcde.jpg");
    assert_eq!(image_name_for_device(""), ".jpg");
}

#[test]
fn import_appends_or_starts_a_store() {
    let store = JsonData { datas: vec![Data { image_path: "old.jpg".to_string(), excel_datas: vec![] }] };
    let r = import_data(Ok(store), "new.jpg".to_string(), vec![record(1.0, "", "", "", "", 0.0, 0.0)]);
    assert_eq!(r.datas.len(), 2);
    assert_eq!(r.datas[0].image_path, "old.jpg");
    assert_eq!(r.datas[1].image_path, "new.jpg");
    assert_eq!(r.datas[1].excel_datas.len(), 1);
    let fresh = import_data(Err(()), "first.jpg".to_string(), vec![]);
    assert_eq!(fresh.datas.len(), 1);
    assert_eq!(fresh.datas[0].image_path, "first.jpg");
}

#[test]
fn push_stores_path_text() {
    let mut store = JsonData { datas: vec![] };
    store.push(std::path::PathBuf::from("dir/img.jpg"), vec![]);
    assert_eq!(store.datas.len(), 1);
    assert_eq!(store.datas[0].image_path, "dir/img.jpg");
}

#[test]
fn written_row_reads_back_as_the_record() {
    let d = record(5.0, "间隔", "设备/1", "ID-5", "点", 2.5, 6.0);
    let expected = record(5.0, "间隔", "设备/1", "ID-5", "点", 2.5, 6.0);
    let cells = write_excel_line(d);
    let mut row: Vec<SheetCell> = (0..24).map(|_| empty()).collect();
    for c in cells {
        row[c.column as usize] = match c.value {
            CellValue::Number(n) => SheetCell::Float { value: n, shown: String::new() },
            CellValue::Text(t) => SheetCell::Text(t),
        };
    }
    let back = excel_lines_from_rows(&vec![row]);
    assert_eq!(back.len(), 1);
    assert!(same(&back[0], &expected));
}

#[test]
fn matching_partitions_and_is_stable() {
    let source = vec![
        record(1.0, "a", "n1", "k1", "p1", -99999f64, -99999f64),
        record(2.0, "b", "n2", "k2", "p2", -99999f64, -99999f64),
        record(3.0, "c", "n3", "k1", "p3", -99999f64, -99999f64),
    ];
    let copy = |v: &Vec<ExcelData>| v.iter().map(|r| r.duplicate()).collect::<Vec<_>>();
    let measured = vec![
        record(0.0, "", "", "k1", "", 1.0, 3.0),
        record(0.0, "", "", "zz", "", 2.0, 3.0),
        record(0.0, "", "", "k2", "", 3.0, 3.0),
    ];
    let first = rematch_excel_data(copy(&source), measured);
    assert_eq!(first.matched.len() + first.unmatched.len(), 3);
    // The later reference line with key "k1" wins.
    assert_eq!(first.matched[0].id, b(3.0));
    assert_eq!(first.matched[0].detection_point_id, "p3");
    let again = rematch_excel_data(copy(&source), copy(&first.matched));
    assert_eq!(again.unmatched.len(), 0);
    assert_eq!(again.matched.len(), first.matched.len());
    for (x, y) in again.matched.iter().zip(first.matched.iter()) {
        assert!(same(x, y));
    }
}
