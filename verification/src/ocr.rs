//! Locating the OCR engine, and reading its answer.
use vstd::prelude::*;
use std::path::PathBuf;
use directories::{ProjectDirs, UserDirs};
use regex::Regex;
use crate::number::{
    decimal_less, digits_only, greatest_decimal_is_greatest, is_decimal, is_number_char,
    greatest_candidate, greatest_decimal, lemma_greatest_ignores_empty, lemma_nonempty_parts_concat,
    nonempty_parts, number_runs, texts,
};
use crate::text::str_ends_with;

verus! {

/// Why no temperature could be read.
#[derive(Debug, Clone, Copy, PartialEq, Eq, Structural)]
pub enum OcrError {
    NotFound,
    NotSupportPlatform,
    NotDetectd,
}

/// `directories::ProjectDirs`, carried through unchanged.
#[verifier::external_type_specification]
#[verifier::external_body]
pub struct ExProjectDirs(ProjectDirs);

/// `directories::UserDirs`, carried through unchanged.
#[verifier::external_type_specification]
#[verifier::external_body]
pub struct ExUserDirs(UserDirs);

/// File name of the OCR engine's executable.
pub const OCR_EXECUTABLE: &'static str = "PaddleOCR_json.exe";
/// File name under which the OCR engine's archive is downloaded.
pub const OCR_ARCHIVE: &'static str = "PaddleOCR-json.v1.2.1.zip";

/// The project path fragment that `ProjectDirs::from` derives from a
/// qualifier, an organization and an application name: a function of the
/// three alone, under the conventions of the platform the library is built for.
pub uninterp spec fn project_path_for(
    qualifier: Seq<char>,
    organization: Seq<char>,
    application: Seq<char>,
) -> PathBuf;

/// The project path fragment held by a set of project directories: what
/// `ProjectDirs::project_path` reads, a field of the value alone.
pub uninterp spec fn project_path_of(dirs: ProjectDirs) -> PathBuf;

/// `ProjectDirs::from`: the project's directories, when the home directory
/// is known; their project path is the one derived from the three names.
/// Whether a home directory is known comes from the environment.
#[verifier::external_body]
fn project_dirs_from(qualifier: &str, organization: &str, application: &str) -> (r: Option<
    ProjectDirs,
>)
    ensures
        r matches Some(d) ==> project_path_of(d) == project_path_for(
            qualifier@,
            organization@,
            application@,
        ),
{
    ProjectDirs::from(qualifier, organization, application)
}

/// The local data directory held by a set of project directories: what
/// `ProjectDirs::data_local_dir` reads, a field of the value alone.
pub uninterp spec fn local_data_dir_of(dirs: ProjectDirs) -> PathBuf;

/// `ProjectDirs::data_local_dir`, as an owned path.
#[verifier::external_body]
fn project_data_local_dir(dirs: &ProjectDirs) -> (r: PathBuf)
    ensures
        r == local_data_dir_of(*dirs),
{
    dirs.data_local_dir().to_path_buf()
}

/// `UserDirs::new`: the user's directories, when the home directory is
/// known. The answer comes from the environment, so nothing is stated.
#[verifier::external_body]
fn user_dirs() -> Option<UserDirs> {
    UserDirs::new()
}

/// The download directory held by a set of user directories: what
/// `UserDirs::download_dir` reads, a field of the value alone.
pub uninterp spec fn download_dir_of(dirs: UserDirs) -> Option<PathBuf>;

/// `UserDirs::download_dir`, as an owned path: `None` when the user
/// directories hold no download directory.
#[verifier::external_body]
fn user_download_dir(dirs: &UserDirs) -> (r: Option<PathBuf>)
    ensures
        r == download_dir_of(*dirs),
{
    match dirs.download_dir() {
        Some(p) => Some(p.to_path_buf()),
        None => None,
    }
}

/// The path `name` inside the directory `dir`, as `Path::join` forms it:
/// a function of the two alone, under the path conventions of the platform
/// the library is built for.
pub uninterp spec fn joined_path(dir: PathBuf, name: Seq<char>) -> PathBuf;

/// `Path::join`.
#[verifier::external_body]
fn path_join(dir: &PathBuf, name: &str) -> (r: PathBuf)
    ensures
        r == joined_path(*dir, name@),
{
    dir.join(name)
}

/// `Path::exists`: whether the file system holds the path at the time of
/// the call. The answer comes from the disk, so nothing is stated.
#[verifier::external_body]
fn path_exists(path: &PathBuf) -> bool {
    path.exists()
}

/// The installation directory of the OCR engine, given the project's
/// directories: their local data directory, or `Err("Error")` when there are
/// none.
pub fn ocr_path_from(dirs: Option<ProjectDirs>) -> (r: Result<PathBuf, String>)
    ensures
        r is Ok <==> dirs is Some,
        dirs matches Some(d) ==> r == Ok::<PathBuf, String>(local_data_dir_of(d)),
        r matches Err(e) ==> e@ == "Error"@,
{
    match dirs {
        Some(dirs) => Ok(project_data_local_dir(&dirs)),
        None => Err("Error".to_owned()),
    }
}

/// Where the OCR engine's archive goes, given the user's download
/// directory: the archive's name in it, or `Err("Error")` when there is none.
pub fn download_path_from(download_dir: Option<PathBuf>) -> (r: Result<PathBuf, String>)
    ensures
        r is Ok <==> download_dir is Some,
        download_dir matches Some(d) ==> r == Ok::<PathBuf, String>(joined_path(d, OCR_ARCHIVE@)),
        r matches Err(e) ==> e@ == "Error"@,
{
    match download_dir {
        Some(dir) => Ok(path_join(&dir, OCR_ARCHIVE)),
        None => Err("Error".to_owned()),
    }
}

/// Where the OCR engine's executable stands in its installation directory.
pub fn ocr_executable_path(dir: &PathBuf) -> (r: PathBuf)
    ensures
        r == joined_path(*dir, OCR_EXECUTABLE@),
{
    path_join(dir, OCR_EXECUTABLE)
}

/// The path to probe for the OCR engine, given where it would be installed:
/// its executable inside the installation directory; none without a directory.
pub fn ocr_probe_path(ocr_path: &Result<PathBuf, String>) -> (r: Option<PathBuf>)
    ensures
        match ocr_path {
            Ok(dir) => r == Some(joined_path(*dir, OCR_EXECUTABLE@)),
            Err(_) => r is None,
        },
{
    match ocr_path {
        Ok(dir) => Some(ocr_executable_path(dir)),
        Err(_) => None,
    }
}

/// Whether the OCR engine is installed, given where it would be: never when
/// there is no installation directory, else whether the path that
/// [`ocr_probe_path`] gives exists on disk.
pub fn ocr_lib_present(ocr_path: Result<PathBuf, String>) -> (r: bool)
    ensures
        ocr_path is Err ==> !r,
{
    match ocr_probe_path(&ocr_path) {
        Some(exe) => path_exists(&exe),
        None => false,
    }
}

/// The directory where the OCR engine is installed: the local data
/// directory of the project directories for "com", "com.miaostay.itmpc",
/// "PaddleOCR-json"; `Err("Error")` when the environment gives no home
/// directory.
pub fn get_ocr_path() -> (r: Result<PathBuf, String>)
    ensures
        r matches Ok(p) ==> exists|d: ProjectDirs|
            project_path_of(d) == project_path_for("com"@, "com.miaostay.itmpc"@, "PaddleOCR-json"@)
                && p == local_data_dir_of(d),
        r matches Err(e) ==> e@ == "Error"@,
{
    let dirs = project_dirs_from("com", "com.miaostay.itmpc", "PaddleOCR-json");
    let ghost given = dirs;
    let r = ocr_path_from(dirs);
    proof {
        if let Some(d) = given {
            assert(project_path_of(d) == project_path_for(
                "com"@,
                "com.miaostay.itmpc"@,
                "PaddleOCR-json"@,
            ) && r == Ok::<PathBuf, String>(local_data_dir_of(d)));
        }
    }
    r
}

/// Where the OCR engine's archive is downloaded to: the archive's name in
/// the user's download directory; `Err("Error")` when there is none.
pub fn get_download_path() -> (r: Result<PathBuf, String>)
    ensures
        r matches Ok(p) ==> exists|u: UserDirs, d: PathBuf|
            download_dir_of(u) == Some(d) && p == joined_path(d, OCR_ARCHIVE@),
        r matches Err(e) ==> e@ == "Error"@,
{
    match user_dirs() {
        Some(dirs) => {
            let dir = user_download_dir(&dirs);
            let ghost given = dir;
            let r = download_path_from(dir);
            proof {
                if let Some(d) = given {
                    assert(download_dir_of(dirs) == Some(d) && r == Ok::<PathBuf, String>(
                        joined_path(d, OCR_ARCHIVE@),
                    ));
                }
            }
            r
        },
        None => Err("Error".to_owned()),
    }
}

/// Whether the OCR engine's executable is installed: `false` when there is
/// no installation directory, else whether the executable is found there.
/// It is only ever `true` when the project directories for the engine's
/// names were found.
pub fn check_if_ocr_lib_downloaded() -> (r: bool)
    ensures
        r ==> exists|d: ProjectDirs|
            project_path_of(d) == project_path_for("com"@, "com.miaostay.itmpc"@, "PaddleOCR-json"@),
{
    let found = get_ocr_path();
    let ghost was_found = found is Ok;
    let r = ocr_lib_present(found);
    assert(r ==> was_found);
    r
}

/// One piece of text the OCR engine found: its box (corner points), its
/// confidence (binary32 bit pattern) and the text.
pub struct OcrData {
    pub bounding_box: Vec<Vec<i32>>,
    pub score: u32,
    pub text: String,
}

/// The OCR engine's answer: a status code (100 when text was found) and the
/// pieces of text.
pub struct OcrResult {
    pub code: i32,
    pub data: Vec<OcrData>,
}

/// The status code of an answer in which text was found.
pub const OCR_FOUND: i32 = 100;

/// What the search for the pattern `[0-9.]*` finds in a text: the
/// successive non-overlapping matches, in order, as `Regex::find_iter`
/// yields them.
pub uninterp spec fn number_pattern_matches(text: Seq<char>) -> Seq<Seq<char>>;

/// `Regex::find_iter` with the pattern `[0-9.]*`: the matched texts, in
/// order. Its non-empty matches are exactly the maximal runs of digits and
/// points, since each search matches greedily from where it starts and a
/// run can only be entered at its first character. The pattern is valid,
/// so compiling it does not fail.
#[verifier::external_body]
fn number_candidates(text: &str) -> (r: Vec<String>)
    ensures
        texts(r@) == number_pattern_matches(text@),
        nonempty_parts(texts(r@)) == number_runs(text@),
{
    let re = Regex::new(r"[0-9.]*").unwrap();
    re.find_iter(text).map(|m| m.as_str().to_string()).collect()
}

/// The maximal runs of digits and points of all pieces of text, piece after piece.
pub open spec fn all_runs(data: Seq<OcrData>) -> Seq<Seq<char>>
    decreases data.len(),
{
    if data.len() == 0 {
        Seq::empty()
    } else {
        all_runs(data.drop_last()) + number_runs(data.last().text@)
    }
}

/// What the number pattern finds in all pieces of text, piece after piece.
pub open spec fn all_candidates(data: Seq<OcrData>) -> Seq<Seq<char>>
    decreases data.len(),
{
    if data.len() == 0 {
        Seq::empty()
    } else {
        all_candidates(data.drop_last()) + number_pattern_matches(data.last().text@)
    }
}

fn collect_candidates(data: &Vec<OcrData>) -> (r: Vec<String>)
    ensures
        texts(r@) == all_candidates(data@),
        nonempty_parts(texts(r@)) == all_runs(data@),
{
    let mut out: Vec<String> = Vec::new();
    let mut i: usize = 0;
    while i < data.len()
        invariant
            i <= data.len(),
            texts(out@) == all_candidates(data@.take(i as int)),
            nonempty_parts(texts(out@)) == all_runs(data@.take(i as int)),
        decreases data.len() - i,
    {
        assert(data@.take(i + 1).drop_last() =~= data@.take(i as int));
        let found = number_candidates(data[i].text.as_str());
        let ghost start = out@;
        let mut j: usize = 0;
        while j < found.len()
            invariant
                j <= found.len(),
                out@ == start + found@.take(j as int),
            decreases found.len() - j,
        {
            out.push(found[j].clone());
            assert(start + found@.take(j + 1) =~= (start + found@.take(j as int)).push(found@[j as int]));
            j += 1;
        }
        assert(found@.take(found.len() as int) =~= found@);
        assert(texts(out@) =~= texts(start) + texts(found@));
        proof {
            lemma_nonempty_parts_concat(texts(start), texts(found@));
        }
        i += 1;
    }
    assert(data@.take(data.len() as int) =~= data@);
    out
}

/// The temperature read from an OCR answer, as the text of the greatest
/// number among the runs of digits and points of its texts (see
/// [`greatest_decimal`]); `None` when no run reads as a number.
pub fn detect_number(v: &OcrResult) -> (r: Option<String>)
    ensures
        r is None <==> greatest_decimal(all_runs(v.data@)) is None,
        r matches Some(s) ==> greatest_decimal(all_runs(v.data@)) == Some(s@),
{
    let candidates = collect_candidates(&v.data);
    proof {
        lemma_greatest_ignores_empty(texts(candidates@));
    }
    greatest_candidate(&candidates)
}

/// What an OCR answer tells: no temperature when the answer could not be
/// parsed or found no text, else the greatest number in it.
pub open spec fn ocr_outcome(parsed: Option<OcrResult>) -> Result<Option<Seq<char>>, OcrError> {
    match parsed {
        None => Err(OcrError::NotFound),
        Some(v) => if v.code != OCR_FOUND {
            Err(OcrError::NotFound)
        } else {
            Ok(greatest_decimal(all_runs(v.data@)))
        },
    }
}

/// Reads the temperature from an OCR answer, `None` standing for an answer
/// that could not be parsed (see [`ocr_outcome`]).
pub fn read_ocr_result(parsed: Option<OcrResult>) -> (r: Result<Option<String>, OcrError>)
    ensures
        match (r, ocr_outcome(parsed)) {
            (Err(e), Err(f)) => e == f,
            (Ok(None), Ok(None)) => true,
            (Ok(Some(s)), Ok(Some(t))) => s@ == t,
            _ => false,
        },
{
    match parsed {
        None => Err(OcrError::NotFound),
        Some(v) => {
            if v.code != OCR_FOUND {
                return Err(OcrError::NotFound);
            }
            Ok(detect_number(&v))
        },
    }
}

/// How a photo must be turned to stand upright.
#[derive(Debug, Clone, Copy, PartialEq, Eq, Structural)]
pub enum Rotation {
    Keep,
    Quarter,
    Half,
    ThreeQuarters,
}

/// The turn that an EXIF orientation calls for: 3 a half turn, 6 a quarter
/// turn clockwise, 8 three quarters; anything else, or no orientation, none.
pub open spec fn rotation_spec(orientation: Option<u32>) -> Rotation {
    match orientation {
        Some(3) => Rotation::Half,
        Some(6) => Rotation::Quarter,
        Some(8) => Rotation::ThreeQuarters,
        _ => Rotation::Keep,
    }
}

/// The turn for a photo's EXIF orientation (see [`rotation_spec`]).
pub fn rotation_for_orientation(orientation: Option<u32>) -> (r: Rotation)
    ensures
        r == rotation_spec(orientation),
{
    match orientation {
        Some(1) => Rotation::Keep,
        Some(3) => Rotation::Half,
        Some(6) => Rotation::Quarter,
        Some(8) => Rotation::ThreeQuarters,
        _ => Rotation::Keep,
    }
}

/// What to do with an entry of the OCR engine's archive.
#[derive(Debug, Clone, Copy, PartialEq, Eq, Structural)]
pub enum ZipEntryKind {
    /// The entry's name would leave the target directory.
    Skip,
    Directory,
    File,
}

/// An entry is skipped when it has no safe name, is a directory when its
/// name ends with `/`, and is a file otherwise.
pub fn zip_entry_kind(has_enclosed_name: bool, name: &str) -> (r: ZipEntryKind)
    ensures
        !has_enclosed_name ==> r == ZipEntryKind::Skip,
        has_enclosed_name && "/"@.is_suffix_of(name@) ==> r == ZipEntryKind::Directory,
        has_enclosed_name && !"/"@.is_suffix_of(name@) ==> r == ZipEntryKind::File,
{
    if !has_enclosed_name {
        ZipEntryKind::Skip
    } else if str_ends_with(name, "/") {
        ZipEntryKind::Directory
    } else {
        ZipEntryKind::File
    }
}

/// A text made only of digits and points is a single run.
pub proof fn lemma_whole_text_is_one_run(t: Seq<char>)
    requires
        t.len() > 0,
        forall|i: int| 0 <= i < t.len() ==> is_number_char(#[trigger] t[i]),
    ensures
        number_runs(t) == seq![t],
    decreases t.len(),
{
    if t.len() == 1 {
        assert(t.drop_last() =~= Seq::<char>::empty());
        assert(number_runs(t.drop_last()) =~= Seq::<Seq<char>>::empty());
        assert(is_number_char(t.last()));
        assert(seq![t.last()] =~= t);
        assert(number_runs(t) == Seq::<Seq<char>>::empty().push(seq![t.last()]));
        assert(Seq::<Seq<char>>::empty().push(seq![t.last()]) =~= seq![t]);
    } else {
        let init = t.drop_last();
        assert forall|i: int| 0 <= i < init.len() implies is_number_char(#[trigger] init[i]) by {
            assert(init[i] == t[i]);
        }
        lemma_whole_text_is_one_run(init);
        assert(is_number_char(t[t.len() - 2]));
        assert(init.push(t.last()) =~= t);
        assert(is_number_char(t.last()));
        let rest = number_runs(init);
        assert(rest == seq![init]);
        assert(rest.len() > 0);
        assert(number_runs(t) == rest.drop_last().push(rest.last().push(t.last())));
        assert(seq![init].drop_last().push(init.push(t.last())) =~= seq![t]);
    }
}

/// Every run of every piece of text is among the runs searched.
pub proof fn lemma_every_piece_is_searched(data: Seq<OcrData>, i: int, j: int)
    requires
        0 <= i < data.len(),
        0 <= j < number_runs(data[i].text@).len(),
    ensures
        all_runs(data).contains(number_runs(data[i].text@)[j]),
    decreases data.len(),
{
    let init = data.drop_last();
    let last_runs = number_runs(data.last().text@);
    let before = all_runs(init);
    if i < init.len() {
        assert(init[i] == data[i]);
        lemma_every_piece_is_searched(init, i, j);
        let k = choose|k: int| 0 <= k < before.len() && before[k] == number_runs(data[i].text@)[j];
        assert((before + last_runs)[k] == before[k]);
    } else {
        assert((before + last_runs)[before.len() + j] == last_runs[j]);
    }
}

/// Every piece of the answer counts: a piece whose text is a number yields a
/// reading, and the reading is never below that number. So an answer whose
/// only piece reads "36.5" yields 36.5, and one with pieces "25.4" and
/// "31.2" yields 31.2.
pub proof fn reading_covers_every_piece(data: Seq<OcrData>, i: int)
    requires
        0 <= i < data.len(),
        is_decimal(data[i].text@),
    ensures
        greatest_decimal(all_runs(data)) is Some,
        greatest_decimal(all_runs(data)) matches Some(b) ==> !decimal_less(b, data[i].text@),
{
    let t = data[i].text@;
    if t.len() == 0 {
        assert(digits_only(t) =~= Seq::<char>::empty());
    }
    lemma_whole_text_is_one_run(t);
    lemma_every_piece_is_searched(data, i, 0);
    let runs = all_runs(data);
    let k = choose|k: int| 0 <= k < runs.len() && runs[k] == t;
    greatest_decimal_is_greatest(runs);
    assert(is_decimal(runs[k]));
}

} // verus!
