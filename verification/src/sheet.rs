//! Reading inspection records from spreadsheet rows, and laying a record
//! out as a row of an output sheet.
use vstd::prelude::*;
use crate::record::{ExcelData, MISSING};
use crate::text::string_push;

verus! {

/// A cell as read from a spreadsheet.
pub enum SheetCell {
    /// A floating-point number: its binary64 bit pattern and how it displays.
    Float { value: u64, shown: String },
    /// A text cell.
    Text(String),
    /// Any other cell (integer, boolean, date, error, empty), by how it displays.
    Other(String),
}

/// The number in a cell, if it holds a floating-point number.
pub open spec fn cell_float(c: SheetCell) -> Option<u64> {
    match c {
        SheetCell::Float { value, .. } => Some(value),
        _ => None,
    }
}

/// The text in a cell, if it is a text cell.
pub open spec fn cell_text(c: SheetCell) -> Option<Seq<char>> {
    match c {
        SheetCell::Text(s) => Some(s@),
        _ => None,
    }
}

/// How a cell displays.
pub open spec fn cell_shown(c: SheetCell) -> Seq<char> {
    match c {
        SheetCell::Float { shown, .. } => shown@,
        SheetCell::Text(s) => s@,
        SheetCell::Other(s) => s@,
    }
}

/// The text of a cell, or the empty string.
pub open spec fn text_or_empty(c: SheetCell) -> Seq<char> {
    match cell_text(c) {
        Some(t) => t,
        None => Seq::empty(),
    }
}

/// The number of a cell, or the missing-value marker.
pub open spec fn float_or_missing(c: SheetCell) -> u64 {
    match cell_float(c) {
        Some(v) => v,
        None => MISSING,
    }
}

/// Characters that cannot stand in a file name here.
pub open spec fn is_path_char(c: char) -> bool {
    c == '/' || c == '\\' || c == '?' || c == '*'
}

/// `name` without the characters that cannot stand in a file name.
pub open spec fn without_path_chars(name: Seq<char>) -> Seq<char>
    decreases name.len(),
{
    if name.len() == 0 {
        Seq::empty()
    } else {
        let rest = without_path_chars(name.drop_last());
        if is_path_char(name.last()) {
            rest
        } else {
            rest.push(name.last())
        }
    }
}

/// The photo file name that a device name gives: the name without path
/// characters, followed by `.jpg`.
pub open spec fn image_file_name(device_name: Seq<char>) -> Seq<char> {
    without_path_chars(device_name) + ".jpg"@
}

/// A row holds a record when its first cell is a number and it has at least 22 cells.
pub open spec fn is_record_row(row: Seq<SheetCell>) -> bool {
    cell_float(row[0]) is Some && row.len() >= 22
}

/// `d` is the record that `row` holds: text columns 1, 2, 3, 4, 7, the photo
/// in column 10 (or the name made from column 2), numbers in columns 0, 14,
/// 15, 16, 18, 19, 20, 21 (missing where the cell holds no number).
pub open spec fn record_of_row(row: Seq<SheetCell>, d: ExcelData) -> bool {
    &&& Some(d.id) == cell_float(row[0])
    &&& d.interval_name@ == text_or_empty(row[1])
    &&& d.device_name@ == text_or_empty(row[2])
    &&& d.device_id@ == text_or_empty(row[3])
    &&& d.voltage_level@ == text_or_empty(row[4])
    &&& d.detection_point_id@ == text_or_empty(row[7])
    &&& d.measurement_image@ == match cell_text(row[10]) {
        Some(t) => t,
        None => image_file_name(text_or_empty(row[2])),
    }
    &&& d.distance == float_or_missing(row[14])
    &&& d.thermal == float_or_missing(row[15])
    &&& d.normal_corresponding_point_temperature == float_or_missing(row[16])
    &&& d.temperature_rise == float_or_missing(row[18])
    &&& d.ambient_temperature == float_or_missing(row[19])
    &&& d.emissivity == float_or_missing(row[20])
    &&& d.load_current == float_or_missing(row[21])
}

/// The rows that hold records, in order.
pub open spec fn record_rows(rows: Seq<Seq<SheetCell>>) -> Seq<Seq<SheetCell>>
    decreases rows.len(),
{
    if rows.len() == 0 {
        Seq::empty()
    } else {
        let rest = record_rows(rows.drop_last());
        if is_record_row(rows.last()) {
            rest.push(rows.last())
        } else {
            rest
        }
    }
}

/// Every row has a first cell.
pub open spec fn rows_are_nonempty(rows: Seq<Vec<SheetCell>>) -> bool {
    forall|i: int| 0 <= i < rows.len() ==> #[trigger] rows[i]@.len() >= 1
}

/// The cell contents of each row.
pub open spec fn row_cells(rows: Seq<Vec<SheetCell>>) -> Seq<Seq<SheetCell>> {
    rows.map_values(|r: Vec<SheetCell>| r@)
}

fn text_of(c: &SheetCell) -> (r: String)
    ensures
        r@ == text_or_empty(*c),
{
    match c {
        SheetCell::Text(s) => s.clone(),
        _ => String::new(),
    }
}

fn float_of(c: &SheetCell) -> (r: u64)
    ensures
        r == float_or_missing(*c),
{
    match c {
        SheetCell::Float { value, .. } => *value,
        _ => MISSING,
    }
}

/// The photo file name for a device name (see [`image_file_name`]).
pub fn image_name_for_device(device_name: &str) -> (r: String)
    ensures
        r@ == image_file_name(device_name@),
{
    let n = device_name.unicode_len();
    let mut out = String::new();
    let mut i: usize = 0;
    while i < n
        invariant
            i <= n,
            n == device_name@.len(),
            out@ == without_path_chars(device_name@.take(i as int)),
        decreases n - i,
    {
        let c = device_name.get_char(i);
        assert(device_name@.take(i + 1).drop_last() =~= device_name@.take(i as int));
        if !(c == '/' || c == '\\' || c == '?' || c == '*') {
            string_push(&mut out, c);
        }
        i += 1;
    }
    assert(device_name@.take(n as int) =~= device_name@);
    out.append(".jpg");
    out
}

/// The record that a record row holds (see [`record_of_row`]).
pub fn excel_data_from_row(row: &Vec<SheetCell>) -> (r: ExcelData)
    requires
        is_record_row(row@),
    ensures
        record_of_row(row@, r),
{
    let id = match &row[0] {
        SheetCell::Float { value, .. } => *value,
        _ => 0,
    };
    let device_name = text_of(&row[2]);
    let measurement_image = match &row[10] {
        SheetCell::Text(s) => s.clone(),
        _ => image_name_for_device(device_name.as_str()),
    };
    ExcelData {
        id,
        interval_name: text_of(&row[1]),
        device_name,
        device_id: text_of(&row[3]),
        voltage_level: text_of(&row[4]),
        detection_point_id: text_of(&row[7]),
        measurement_image,
        thermal: float_of(&row[15]),
        normal_corresponding_point_temperature: float_of(&row[16]),
        emissivity: float_of(&row[20]),
        ambient_temperature: float_of(&row[19]),
        temperature_rise: float_of(&row[18]),
        distance: float_of(&row[14]),
        load_current: float_of(&row[21]),
    }
}

/// The records held by the rows of a sheet, in order: one for each row whose
/// first cell is a number and which has at least 22 cells.
pub fn excel_lines_from_rows(rows: &Vec<Vec<SheetCell>>) -> (r: Vec<ExcelData>)
    requires
        rows_are_nonempty(rows@),
    ensures
        r.len() == record_rows(row_cells(rows@)).len(),
        forall|i: int|
            0 <= i < r.len() ==> record_of_row(record_rows(row_cells(rows@))[i], #[trigger] r[i]),
{
    let mut data: Vec<ExcelData> = Vec::new();
    let mut i: usize = 0;
    while i < rows.len()
        invariant
            i <= rows.len(),
            rows_are_nonempty(rows@),
            data.len() == record_rows(row_cells(rows@.take(i as int))).len(),
            forall|k: int|
                0 <= k < data.len() ==> record_of_row(
                    record_rows(row_cells(rows@.take(i as int)))[k],
                    #[trigger] data[k],
                ),
        decreases rows.len() - i,
    {
        let ghost before = row_cells(rows@.take(i as int));
        let ghost after = row_cells(rows@.take(i + 1));
        assert(after.drop_last() =~= before);
        assert(after.last() == rows@[i as int]@);
        let row = &rows[i];
        assert(row@.len() >= 1);
        let is_float = match &row[0] {
            SheetCell::Float { .. } => true,
            _ => false,
        };
        if is_float && row.len() >= 22 {
            let d = excel_data_from_row(row);
            data.push(d);
        }
        i += 1;
    }
    assert(rows@.take(rows.len() as int) =~= rows@);
    data
}

/// The rows whose first cell is a number.
pub open spec fn numbered_rows(rows: Seq<Seq<SheetCell>>) -> Seq<Seq<SheetCell>>
    decreases rows.len(),
{
    if rows.len() == 0 {
        Seq::empty()
    } else {
        let rest = numbered_rows(rows.drop_last());
        if cell_float(rows.last()[0]) is Some {
            rest.push(rows.last())
        } else {
            rest
        }
    }
}

/// Every row has a first cell, and a row whose first cell is a number has a third.
pub open spec fn rows_have_name_column(rows: Seq<Vec<SheetCell>>) -> bool {
    forall|i: int|
        0 <= i < rows.len() ==> #[trigger] rows[i]@.len() >= 1 && (cell_float(rows[i]@[0]) is Some
            ==> rows[i]@.len() >= 3)
}

fn shown_of(c: &SheetCell) -> (r: String)
    ensures
        r@ == cell_shown(*c),
{
    match c {
        SheetCell::Float { shown, .. } => shown.clone(),
        SheetCell::Text(s) => s.clone(),
        SheetCell::Other(s) => s.clone(),
    }
}

/// The photo names listed in a sheet: the third cell, as displayed, of every
/// row whose first cell is a number, in order.
pub fn image_names_from_rows(rows: &Vec<Vec<SheetCell>>) -> (r: Vec<String>)
    requires
        rows_have_name_column(rows@),
    ensures
        r.len() == numbered_rows(row_cells(rows@)).len(),
        forall|i: int|
            0 <= i < r.len() ==> #[trigger] r[i]@ == cell_shown(
                numbered_rows(row_cells(rows@))[i][2],
            ),
{
    let mut names: Vec<String> = Vec::new();
    let mut i: usize = 0;
    while i < rows.len()
        invariant
            i <= rows.len(),
            rows_have_name_column(rows@),
            names.len() == numbered_rows(row_cells(rows@.take(i as int))).len(),
            forall|k: int|
                0 <= k < names.len() ==> #[trigger] names[k]@ == cell_shown(
                    numbered_rows(row_cells(rows@.take(i as int)))[k][2],
                ),
        decreases rows.len() - i,
    {
        let ghost before = row_cells(rows@.take(i as int));
        let ghost after = row_cells(rows@.take(i + 1));
        assert(after.drop_last() =~= before);
        assert(after.last() == rows@[i as int]@);
        let row = &rows[i];
        assert(row@.len() >= 1);
        let is_float = match &row[0] {
            SheetCell::Float { .. } => true,
            _ => false,
        };
        if is_float {
            let name = shown_of(&row[2]);
            names.push(name);
        }
        i += 1;
    }
    assert(rows@.take(rows.len() as int) =~= rows@);
    names
}

/// The photo names of the second sheet of a workbook; an error when the
/// workbook has no readable second sheet.
pub fn image_names_from_sheet(sheet: Option<Vec<Vec<SheetCell>>>) -> (r: Result<
    Vec<String>,
    String,
>)
    requires
        sheet matches Some(rows) ==> rows_have_name_column(rows@),
    ensures
        sheet is None <==> r is Err,
        r matches Err(e) ==> e@ == "cannot get sheets"@,
        sheet matches Some(rows) ==> (r matches Ok(names) && names.len() == numbered_rows(
            row_cells(rows@),
        ).len() && forall|i: int|
            0 <= i < names.len() ==> #[trigger] names[i]@ == cell_shown(
                numbered_rows(row_cells(rows@))[i][2],
            )),
{
    match sheet {
        Some(rows) => Ok(image_names_from_rows(&rows)),
        None => Err("cannot get sheets".to_owned()),
    }
}

/// The value written to an output cell.
pub enum CellValue {
    /// A number, by its binary64 bit pattern.
    Number(u64),
    /// A text.
    Text(String),
}

/// An output cell: its column and its value.
pub struct WrittenCell {
    pub column: u16,
    pub value: CellValue,
}

/// What an output cell holds, as a mathematical value.
pub enum CellContent {
    Number(u64),
    Text(Seq<char>),
}

impl View for WrittenCell {
    type V = (u16, CellContent);

    open spec fn view(&self) -> (u16, CellContent) {
        (
            self.column,
            match self.value {
                CellValue::Number(n) => CellContent::Number(n),
                CellValue::Text(s) => CellContent::Text(s@),
            },
        )
    }
}

/// The cells of the output row for a record: identification in columns 0 to
/// 4 and 7, the part "整体" in column 9, the photo in column 10, the
/// measurements in columns 14 to 16 and 18 to 21, and the verdict "正常" in
/// column 23.
pub open spec fn output_row(d: ExcelData) -> Seq<(u16, CellContent)> {
    seq![
        (0u16, CellContent::Number(d.id)),
        (1u16, CellContent::Text(d.interval_name@)),
        (2u16, CellContent::Text(d.device_name@)),
        (3u16, CellContent::Text(d.device_id@)),
        (4u16, CellContent::Text(d.voltage_level@)),
        (7u16, CellContent::Text(d.detection_point_id@)),
        (9u16, CellContent::Text("整体"@)),
        (10u16, CellContent::Text(d.measurement_image@)),
        (14u16, CellContent::Number(d.distance)),
        (15u16, CellContent::Number(d.thermal)),
        (16u16, CellContent::Number(d.normal_corresponding_point_temperature)),
        (18u16, CellContent::Number(d.temperature_rise)),
        (19u16, CellContent::Number(d.ambient_temperature)),
        (20u16, CellContent::Number(d.emissivity)),
        (21u16, CellContent::Number(d.load_current)),
        (23u16, CellContent::Text("正常"@)),
    ]
}

fn number_cell(column: u16, value: u64) -> (r: WrittenCell)
    ensures
        r@ == (column, CellContent::Number(value)),
{
    WrittenCell { column, value: CellValue::Number(value) }
}

fn text_cell(column: u16, value: String) -> (r: WrittenCell)
    ensures
        r@ == (column, CellContent::Text(value@)),
{
    WrittenCell { column, value: CellValue::Text(value) }
}

/// The cells to write for a record (see [`output_row`]).
pub fn write_excel_line(data: ExcelData) -> (r: Vec<WrittenCell>)
    ensures
        r.len() == output_row(data).len(),
        forall|i: int| 0 <= i < r.len() ==> #[trigger] r[i]@ == output_row(data)[i],
{
    let cells = vec![
        number_cell(0, data.id),
        text_cell(1, data.interval_name),
        text_cell(2, data.device_name),
        text_cell(3, data.device_id),
        text_cell(4, data.voltage_level),
        text_cell(7, data.detection_point_id),
        text_cell(9, "整体".to_owned()),
        text_cell(10, data.measurement_image),
        number_cell(14, data.distance),
        number_cell(15, data.thermal),
        number_cell(16, data.normal_corresponding_point_temperature),
        number_cell(18, data.temperature_rise),
        number_cell(19, data.ambient_temperature),
        number_cell(20, data.emissivity),
        number_cell(21, data.load_current),
        text_cell(23, "正常".to_owned()),
    ];
    assert(cells@.len() == 16);
    cells
}

/// A read cell holds what was written to it.
pub open spec fn holds_content(c: SheetCell, v: CellContent) -> bool {
    match v {
        CellContent::Number(n) => cell_float(c) == Some(n),
        CellContent::Text(t) => cell_text(c) == Some(t),
    }
}

/// What is written for a record reads back as that record: a row of at
/// least 22 cells in which every written column holds what was written is a
/// record row, and holds exactly that record.
pub proof fn written_row_reads_back(d: ExcelData, row: Seq<SheetCell>)
    requires
        row.len() >= 22,
        forall|i: int|
            0 <= i < output_row(d).len() && (output_row(d)[i].0 as int) < row.len() ==> holds_content(
                #[trigger] row[output_row(d)[i].0 as int],
                output_row(d)[i].1,
            ),
    ensures
        is_record_row(row),
        record_of_row(row, d),
{
    let o = output_row(d);
    assert(holds_content(row[o[0].0 as int], o[0].1));
    assert(holds_content(row[o[1].0 as int], o[1].1));
    assert(holds_content(row[o[2].0 as int], o[2].1));
    assert(holds_content(row[o[3].0 as int], o[3].1));
    assert(holds_content(row[o[4].0 as int], o[4].1));
    assert(holds_content(row[o[5].0 as int], o[5].1));
    assert(holds_content(row[o[7].0 as int], o[7].1));
    assert(holds_content(row[o[8].0 as int], o[8].1));
    assert(holds_content(row[o[9].0 as int], o[9].1));
    assert(holds_content(row[o[10].0 as int], o[10].1));
    assert(holds_content(row[o[11].0 as int], o[11].1));
    assert(holds_content(row[o[12].0 as int], o[12].1));
    assert(holds_content(row[o[13].0 as int], o[13].1));
    assert(holds_content(row[o[14].0 as int], o[14].1));
}

/// The inspection template, column by column: a record row is read with
/// the id from column 0, the interval name from column 1, the device name
/// from 2, the device id from 3, the voltage level from 4, the detection
/// point from 7, the photo from 10 (or named after the device), the
/// distance from 14, the temperature from 15, the normal-point temperature
/// from 16, the rise from 18, the ambient temperature from 19, the
/// emissivity from 20 and the load current from 21; and a record is written
/// back into those same columns, with "整体" in column 9 and "正常" in 23.
pub proof fn template_columns(row: Seq<SheetCell>, d: ExcelData, e: ExcelData)
    requires
        record_of_row(row, d),
    ensures
        Some(d.id) == cell_float(row[0]),
        d.interval_name@ == text_or_empty(row[1]),
        d.device_name@ == text_or_empty(row[2]),
        d.device_id@ == text_or_empty(row[3]),
        d.voltage_level@ == text_or_empty(row[4]),
        d.detection_point_id@ == text_or_empty(row[7]),
        cell_text(row[10]) matches Some(t) ==> d.measurement_image@ == t,
        cell_text(row[10]) is None ==> d.measurement_image@ == without_path_chars(
            text_or_empty(row[2]),
        ) + ".jpg"@,
        d.distance == float_or_missing(row[14]),
        d.thermal == float_or_missing(row[15]),
        d.normal_corresponding_point_temperature == float_or_missing(row[16]),
        d.temperature_rise == float_or_missing(row[18]),
        d.ambient_temperature == float_or_missing(row[19]),
        d.emissivity == float_or_missing(row[20]),
        d.load_current == float_or_missing(row[21]),
        output_row(e).len() == 16,
        output_row(e)[0] == (0u16, CellContent::Number(e.id)),
        output_row(e)[1] == (1u16, CellContent::Text(e.interval_name@)),
        output_row(e)[2] == (2u16, CellContent::Text(e.device_name@)),
        output_row(e)[3] == (3u16, CellContent::Text(e.device_id@)),
        output_row(e)[4] == (4u16, CellContent::Text(e.voltage_level@)),
        output_row(e)[5] == (7u16, CellContent::Text(e.detection_point_id@)),
        output_row(e)[6] == (9u16, CellContent::Text("整体"@)),
        output_row(e)[7] == (10u16, CellContent::Text(e.measurement_image@)),
        output_row(e)[8] == (14u16, CellContent::Number(e.distance)),
        output_row(e)[9] == (15u16, CellContent::Number(e.thermal)),
        output_row(e)[10] == (16u16, CellContent::Number(e.normal_corresponding_point_temperature)),
        output_row(e)[11] == (18u16, CellContent::Number(e.temperature_rise)),
        output_row(e)[12] == (19u16, CellContent::Number(e.ambient_temperature)),
        output_row(e)[13] == (20u16, CellContent::Number(e.emissivity)),
        output_row(e)[14] == (21u16, CellContent::Number(e.load_current)),
        output_row(e)[15] == (23u16, CellContent::Text("正常"@)),
{
}

} // verus!
