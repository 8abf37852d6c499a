//! The whole conversion, from sheets and dataset lines to the document.
use vstd::prelude::*;
use crate::config::{assembled_from, build_config_from_races, Config};
use crate::error::ConvertError;
use crate::point_types::{fallback_catalog, get_point_types, line_views, parse_dataset_spec, PointTypeView};
use crate::sheet::{scan_workbook, workbook_races, Sheet};
use crate::text::{chars_of, index_of, index_of_from, string_of, sub_chars};

verus! {

/// The waypoint types of a run: from the dataset lines where the file could be read,
/// else the built-in catalog; `Err(i)` where line `i` does not parse.
pub open spec fn run_types(dataset: Option<Seq<Seq<char>>>) -> Result<Seq<PointTypeView>, nat> {
    match dataset {
        None => Ok(fallback_catalog()),
        Some(lines) => parse_dataset_spec(lines),
    }
}

/// What a conversion owes: the first error on the way, or the assembled document.
pub open spec fn convert_ok(
    r: Result<Config, ConvertError>,
    sheets: Seq<Sheet>,
    dataset: Option<Seq<Seq<char>>>,
    event_name: Seq<char>,
) -> bool {
    match run_types(dataset) {
        Err(i) => r == Err::<Config, ConvertError>(ConvertError::BadDatasetLine(i as usize)),
        Ok(types) => match workbook_races(sheets, types, event_name) {
            Err(e) => r == Err::<Config, ConvertError>(e),
            Ok(races) => if races.len() == 0 {
                r == Err::<Config, ConvertError>(ConvertError::NoRaces)
            } else {
                r is Ok && assembled_from(r->Ok_0, races)
            },
        },
    }
}

pub open spec fn dataset_view(dataset: Option<&Vec<String>>) -> Option<Seq<Seq<char>>> {
    match dataset {
        None => None,
        Some(lines) => Some(line_views(lines@)),
    }
}

/// Converts the sheets of a workbook into the configuration document. `dataset` holds
/// the dataset file's lines, or `None` where the file could not be read; `event_name`
/// is the workbook's file stem.
pub fn convert(sheets: &Vec<Sheet>, dataset: Option<&Vec<String>>, event_name: &String) -> (r: Result<
    Config,
    ConvertError,
>)
    ensures
        convert_ok(r, sheets@, dataset_view(dataset), event_name@),
{
    let types = match get_point_types(dataset) {
        Ok(t) => t,
        Err(e) => {
            return Err(e);
        },
    };
    let races = match scan_workbook(sheets, &types, event_name) {
        Ok(r) => r,
        Err(e) => {
            return Err(e);
        },
    };
    build_config_from_races(races)
}

/// The part of a file name before its first `.`.
pub open spec fn before_dot(s: Seq<char>) -> Seq<char> {
    s.subrange(0, index_of(s, '.', 0))
}

/// Where the document goes: `<dir>/config_<dataset name up to its first dot>_<input stem>.ini`.
pub fn config_file_name(dir: &str, dataset_file: &str, input_stem: &str) -> (r: String)
    ensures
        r@ == dir@ + "/config_"@ + before_dot(dataset_file@) + "_"@ + input_stem@ + ".ini"@,
{
    let d = chars_of(dataset_file);
    let k = index_of_from(&d, '.', 0);
    let base = sub_chars(&d, 0, k);
    let base_s = string_of(base.as_slice());
    let mut r = String::from_str(dir);
    r.append("/config_");
    r.append(base_s.as_str());
    r.append("_");
    r.append(input_stem);
    r.append(".ini");
    r
}

} // verus!
