//! The store of imported records: each import pairs a thermal image with the
//! records read for it.
use vstd::prelude::*;
use std::path::PathBuf;
use crate::record::ExcelData;

verus! {

/// `std::path::PathBuf`, carried through unchanged.
#[verifier::external_type_specification]
#[verifier::external_body]
pub struct ExPathBuf(PathBuf);

/// One import: an image and the records that belong to it.
pub struct Data {
    pub image_path: String,
    pub excel_datas: Vec<ExcelData>,
}

/// All imports, oldest first.
pub struct JsonData {
    pub datas: Vec<Data>,
}

/// The UTF-8 text of a path, `None` when the path is not valid UTF-8: what
/// `Path::to_str` gives, which depends on the path alone.
pub uninterp spec fn path_utf8(path: PathBuf) -> Option<Seq<char>>;

/// `Path::to_str`, as an owned string: the path's UTF-8 text, `None` when
/// it is not valid UTF-8.
#[verifier::external_body]
fn path_text(path: &PathBuf) -> (r: Option<String>)
    ensures
        r is Some <==> path_utf8(*path) is Some,
        r matches Some(s) ==> path_utf8(*path) == Some(s@),
{
    match path.to_str() {
        Some(s) => Some(s.to_string()),
        None => None,
    }
}

impl JsonData {
    /// Appends an import with the given image path and records.
    pub fn push_str(&mut self, image_path: String, excel_datas: Vec<ExcelData>)
        ensures
            final(self).datas@ == old(self).datas@.push(Data { image_path, excel_datas }),
    {
        self.datas.push(Data { image_path, excel_datas });
    }

    /// Appends an import whose image is given as a path; a path that is not
    /// UTF-8 text is stored as the empty string.
    pub fn push(&mut self, image_path: PathBuf, excel_datas: Vec<ExcelData>)
        ensures
            final(self).datas.len() == old(self).datas.len() + 1,
            final(self).datas@.drop_last() == old(self).datas@,
            final(self).datas@.last().excel_datas == excel_datas,
            final(self).datas@.last().image_path@ == match path_utf8(image_path) {
                Some(t) => t,
                None => Seq::<char>::empty(),
            },
    {
        let text = match path_text(&image_path) {
            Some(t) => t,
            None => String::new(),
        };
        self.push_str(text, excel_datas);
    }
}

/// The store after an import: the loaded store with the import appended, or,
/// when no store could be loaded, a store holding just this import.
pub open spec fn store_after_import(
    loaded: Option<Seq<Data>>,
    image_path: String,
    excel_datas: Vec<ExcelData>,
) -> Seq<Data> {
    match loaded {
        Some(datas) => datas.push(Data { image_path, excel_datas }),
        None => seq![Data { image_path, excel_datas }],
    }
}

/// Adds an import to the store that was loaded, or starts a new store when
/// loading failed.
pub fn import_data(loaded: Result<JsonData, ()>, image_path: String, excel_datas: Vec<ExcelData>) -> (r:
    JsonData)
    ensures
        r.datas@ == store_after_import(
            match loaded {
                Ok(store) => Some(store.datas@),
                Err(_) => None,
            },
            image_path,
            excel_datas,
        ),
{
    match loaded {
        Ok(store) => {
            let mut store = store;
            store.push_str(image_path, excel_datas);
            store
        },
        Err(_) => {
            let mut datas: Vec<Data> = Vec::new();
            datas.push(Data { image_path, excel_datas });
            JsonData { datas }
        },
    }
}

/// An import is kept: afterwards the store ends with it, and what was loaded
/// before is still there, in order.
pub proof fn import_keeps_history(
    loaded: Option<Seq<Data>>,
    image_path: String,
    excel_datas: Vec<ExcelData>,
)
    ensures
        store_after_import(loaded, image_path, excel_datas).last() == (Data {
            image_path,
            excel_datas,
        }),
        store_after_import(loaded, image_path, excel_datas).drop_last() == match loaded {
            Some(datas) => datas,
            None => Seq::<Data>::empty(),
        },
{
    match loaded {
        Some(datas) => {
            assert(datas.push(Data { image_path, excel_datas }).drop_last() =~= datas);
        },
        None => {
            assert(seq![Data { image_path, excel_datas }].drop_last() =~= Seq::<Data>::empty());
        },
    }
}

} // verus!
