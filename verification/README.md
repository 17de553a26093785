# itmpc

Verified core of an infrared-thermography survey tool. Inspection sheets
list the devices of a substation and the temperatures measured on them;
the library turns sheet rows into records, completes missing values, matches
measured records against a reference sheet, lays records out for export,
and reads the temperature from the OCR engine's answer for a thermal image.

- `src/` — the library: its functions are proved against their contracts, apart from the small wrappers around outside calls, whose contracts are trusted. Floating-point measurements are
  carried as IEEE 754 binary64 bit patterns.
  - `record`: the record types and the values used for missing data.
  - `excel`: completing a record's missing values.
  - `matching`: matching records against reference lines by device name or id.
  - `sheet`: reading records from sheet rows, laying a record out as an output row.
  - `data`: the store of imported records.
  - `number`: decimal numbers in recognised text and the greatest of them.
  - `ocr`: locating the OCR engine, reading its answer, image orientation,
    archive entries.
  - `files`: choosing photo files.
- `app/` — command-line front end: workbook I/O (calamine, rust_xlsxwriter),
  the JSON store, downloading and unpacking the OCR engine, image preparation
  and the OCR process.
- `tests/` — tests of the library.
