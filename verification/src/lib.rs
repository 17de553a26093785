//! Inspection-record processing for infrared thermal surveys: spreadsheet
//! rows become measurement records, records are completed and matched
//! against a reference sheet, and OCR output is reduced to a temperature.
use vstd::prelude::*;

pub mod text;
pub mod record;
pub mod excel;
pub mod matching;
pub mod sheet;
pub mod data;
pub mod ocr;
pub mod number;
pub mod files;

verus! {

} // verus!
