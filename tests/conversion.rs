use race_config::config::build_config_from_races;
use race_config::coords::decode_coordinate;
use race_config::dialect::apply_dialect;
use race_config::error::ConvertError;
use race_config::pipeline::{config_file_name, convert};
use race_config::point_types::{fallback_point_types, get_point_types, PointType};
use race_config::sheet::{resolve_speed, type_code, Cell, CellValue, Sheet};
use race_config::text::parse_u16;

fn lines(v: &[&str]) -> Vec<String> {
    v.iter().map(|s| s.to_string()).collect()
}

fn text(row: usize, col: usize, s: &str) -> Cell {
    Cell { row, col, value: CellValue::Text(s.to_string()) }
}

fn number(row: usize, col: usize, x: f64) -> Cell {
    Cell {
        row,
        col,
        value: CellValue::Number { whole: x.trunc() as i64, thousandths: (x * 1000.0).trunc() as i64 },
    }
}

fn waypoint_row(row: usize, num: f64, name: &str, code: &str, odo: f64) -> Vec<Cell> {
    vec![
        number(row, 0, num),
        text(row, 1, name),
        text(row, 2, code),
        text(row, 3, "45°30,5"),
        text(row, 4, "N"),
        text(row, 5, "7°15,25"),
        text(row, 6, "W"),
        number(row, 7, odo),
    ]
}

fn sheet(name: &str, title: &str, rows: &[(f64, &str, &str, f64)]) -> Sheet {
    let mut cells = vec![text(0, 0, "header"), text(1, 0, title), text(2, 0, "No")];
    for (k, r) in rows.iter().enumerate() {
        cells.extend(waypoint_row(3 + k, r.0, r.1, r.2, r.3));
    }
    Sheet { name: name.to_string(), height: 3 + rows.len(), cells }
}

fn find<'a>(types: &'a [PointType], caption: &str) -> &'a PointType {
    types.iter().find(|t| t.caption == caption).unwrap()
}

#[test]
fn fallback_catalog_when_dataset_missing() {
    let types = get_point_types(None).unwrap();
    assert_eq!(types.len(), 10);
    let captions: Vec<&str> = types.iter().map(|t| t.caption.as_str()).collect();
    assert_eq!(captions, vec!["WPV", "WPM", "WPS", "WPE", "DSS", "FZ", "DZ", "WPC", "ASS", "default"]);
    let wpv = find(&types, "WPV");
    assert_eq!((wpv.default_rad, wpv.is_open, wpv.in_game, wpv.arrow_threshold, wpv.max_speed, wpv.is_ghost), (200, true, false, 800, 140, false));
    let wpe = find(&types, "WPE");
    assert_eq!((wpe.default_rad, wpe.is_open, wpe.in_game, wpe.arrow_threshold, wpe.max_speed), (90, false, true, 5000, 90));
    let fz = find(&types, "FZ");
    assert_eq!((fz.default_rad, fz.is_open, fz.max_speed), (90, true, 40));
    let wpc = find(&types, "WPC");
    assert!(wpc.is_ghost && wpc.is_open);
    assert_eq!(wpc.max_speed, 90);
    let dz = find(&types, "DZ");
    assert_eq!((dz.default_rad, dz.is_open, dz.in_game, dz.arrow_threshold, dz.max_speed), (90, false, true, 800, 140));
    assert_eq!(fallback_point_types().len(), 10);
}

#[test]
fn off_race_speed_for_wpv_section() {
    let l = lines(&["off_race=120", "[point_types.WPV]", "default_rad=200", "-"]);
    let types = get_point_types(Some(&l)).unwrap();
    assert_eq!(types.len(), 1);
    assert_eq!(types[0].caption, "WPV");
    assert_eq!(types[0].max_speed, 120);
    assert_eq!(types[0].default_rad, 200);
}

#[test]
fn on_race_default_for_other_section() {
    let l = lines(&["[point_types.FOO]", "-"]);
    let types = get_point_types(Some(&l)).unwrap();
    assert_eq!(types.len(), 1);
    assert_eq!(types[0].caption, "FOO");
    assert_eq!(types[0].max_speed, 80);
    assert_eq!((types[0].default_rad, types[0].is_open, types[0].in_game, types[0].arrow_threshold), (90, false, false, 800));
}

#[test]
fn dataset_fields_and_reset() {
    let l = lines(&[
        "on_race=70",
        "[point_types.WPM]",
        "is_open=true",
        "in_game=true",
        "arrow_threshold=1000",
        "max_speed=55",
        "-",
        "[point_types.DSS]",
        "-",
    ]);
    let types = get_point_types(Some(&l)).unwrap();
    assert_eq!(types.len(), 2);
    assert_eq!((types[0].is_open, types[0].in_game, types[0].arrow_threshold, types[0].max_speed), (true, true, 1000, 55));
    assert_eq!(types[1].caption, "DSS");
    assert_eq!((types[1].is_open, types[1].in_game, types[1].arrow_threshold, types[1].max_speed), (false, false, 800, 110));
}

#[test]
fn dataset_bad_value_fails() {
    let l = lines(&["[point_types.WPV]", "default_rad=big", "-"]);
    assert_eq!(get_point_types(Some(&l)).unwrap_err(), ConvertError::BadDatasetLine(1));
    let l = lines(&["is_open=yes"]);
    assert_eq!(get_point_types(Some(&l)).unwrap_err(), ConvertError::BadDatasetLine(0));
    let l = lines(&["off_race"]);
    assert_eq!(get_point_types(Some(&l)).unwrap_err(), ConvertError::BadDatasetLine(0));
}

#[test]
fn coordinate_north_and_south() {
    let token: Vec<char> = "45°30,5".chars().collect();
    let n = decode_coordinate(&token, "N", 'N').unwrap();
    assert!(!n.negative);
    assert_eq!(n.degrees, "45");
    assert_eq!(n.minutes, "30.5");
    let value: f64 = n.degrees.parse::<f64>().unwrap() + n.minutes.parse::<f64>().unwrap() / 60.0;
    assert!((value - 45.5083).abs() < 0.0001);
    let s = decode_coordinate(&token, "S", 'N').unwrap();
    assert!(s.negative);
    let w = decode_coordinate(&token, "W", 'E').unwrap();
    assert!(w.negative);
}

#[test]
fn coordinate_without_degree_sign_fails() {
    let token: Vec<char> = "45 30,5".chars().collect();
    assert_eq!(decode_coordinate(&token, "N", 'N').unwrap_err(), ConvertError::InvalidFormat);
    let token: Vec<char> = "45°30°5".chars().collect();
    assert_eq!(decode_coordinate(&token, "N", 'N').unwrap_err(), ConvertError::InvalidFormat);
}

#[test]
fn malformed_coordinate_aborts_conversion() {
    let mut s = sheet("D1", "Stage", &[(1.0, "start", "DSS", 0.0)]);
    s.cells[6] = text(3, 3, "45-30,5");
    assert_eq!(convert(&vec![s], None, &"event".to_string()).unwrap_err(), ConvertError::InvalidFormat);
}

#[test]
fn type_codes() {
    let r = type_code(&"FZ50".to_string()).unwrap();
    assert_eq!((r.0.as_str(), r.1), ("FZ", 50));
    let r = type_code(&"FZ".to_string()).unwrap();
    assert_eq!((r.0.as_str(), r.1), ("FZ", 0));
    let r = type_code(&"DZ3".to_string()).unwrap();
    assert_eq!((r.0.as_str(), r.1), ("DZ", 0));
    let r = type_code(&"WPM".to_string()).unwrap();
    assert_eq!((r.0.as_str(), r.1), ("WPM", 0));
    assert!(type_code(&"FZx".to_string()).is_none());
}

#[test]
fn speed_lookup_takes_last_match_or_default() {
    let mut types = fallback_point_types();
    assert_eq!(resolve_speed(&types, &"WPM".to_string(), 110), 90);
    assert_eq!(resolve_speed(&types, &"XYZ".to_string(), 110), 110);
    let mut extra = types[1].clone();
    extra.max_speed = 33;
    types.push(extra);
    assert_eq!(resolve_speed(&types, &"WPM".to_string(), 110), 33);
}

#[test]
fn two_sheets_end_to_end() {
    let s1 = sheet("D1", "Stage one", &[(1.0, "start", "DSS", 0.0), (2.0, "fz", "FZ60", 1.5), (3.0, "end", "WPM", 12.3456)]);
    let s2 = sheet("D2", "Stage two", &[(1.9, "a", "DZ", 0.25), (2.0, "b", "XYZ", 3.0)]);
    let c = convert(&vec![s1, s2], None, &"event".to_string()).unwrap();
    assert_eq!(c.days.len(), 2);
    assert_eq!(c.days[0].code, "D1");
    assert_eq!(c.days[0].points.len(), 4);
    assert_eq!(c.days[1].points.len(), 3);
    let p = &c.days[0].points;
    assert_eq!((p[0].num, p[0].odo, p[0].max_speed, p[0].point_type.as_str()), (1, 0, 140, "DSS"));
    assert_eq!((p[1].num, p[1].odo, p[1].max_speed, p[1].point_type.as_str()), (2, 1500, 60, "FZ"));
    assert_eq!((p[2].num, p[2].odo, p[2].max_speed), (3, 12345, 90));
    assert_eq!((p[3].num, p[3].name.as_str()), (3, "end"));
    assert!(!p[0].lat.negative && p[0].lon.negative);
    let q = &c.days[1].points;
    assert_eq!((q[0].num, q[0].odo, q[0].max_speed, q[0].point_type.as_str()), (1, 250, 140, "DZ"));
    assert_eq!((q[1].max_speed, q[2].max_speed), (110, 110));
    assert_eq!(c.races.info.event_name, "event");
    assert_eq!(c.races.info.race_name, "Stage one");
    assert_eq!((c.races.sets.total, c.races.sets.max_speed), (0, 110));
}

#[test]
fn catalog_deduplicated_and_sorted() {
    let s1 = sheet("D1", "Stage one", &[(1.0, "start", "WPV", 0.0)]);
    let s2 = sheet("D2", "Stage two", &[(1.0, "start", "WPV", 0.0)]);
    let c = convert(&vec![s1, s2], None, &"event".to_string()).unwrap();
    let captions: Vec<&str> = c.point_types.types.iter().map(|t| t.caption.as_str()).collect();
    assert_eq!(captions, vec!["ASS", "DSS", "DZ", "FZ", "WPC", "WPE", "WPM", "WPS", "WPV", "default"]);
    assert_eq!(captions.iter().filter(|c| **c == "WPV").count(), 1);
}

#[test]
fn no_races_is_an_error() {
    assert_eq!(convert(&vec![], None, &"e".to_string()).unwrap_err(), ConvertError::NoRaces);
    let s = Sheet { name: "D1".to_string(), height: 2, cells: vec![text(0, 0, "h"), text(1, 0, "t")] };
    assert_eq!(convert(&vec![s], None, &"e".to_string()).unwrap_err(), ConvertError::NoRaces);
    assert_eq!(build_config_from_races(vec![]).unwrap_err(), ConvertError::NoRaces);
}

#[test]
fn cell_errors() {
    let mut s = sheet("D1", "Stage", &[(1.0, "start", "DSS", 0.0)]);
    s.cells[3] = number(3, 0, -1.0);
    assert_eq!(convert(&vec![s], None, &"e".to_string()).unwrap_err(), ConvertError::OutOfRange { row: 3, col: 0 });
    let mut s = sheet("D1", "Stage", &[(1.0, "start", "DSS", 0.0)]);
    s.cells[4] = number(3, 1, 2.0);
    assert_eq!(convert(&vec![s], None, &"e".to_string()).unwrap_err(), ConvertError::NotText { row: 3, col: 1 });
    let mut s = sheet("D1", "Stage", &[(1.0, "start", "DSS", 0.0)]);
    s.cells[10] = text(3, 7, "far");
    assert_eq!(convert(&vec![s], None, &"e".to_string()).unwrap_err(), ConvertError::NotNumber { row: 3, col: 7 });
    let s = sheet("D1", "Stage", &[(1.0, "start", "FZ9x", 0.0)]);
    assert_eq!(convert(&vec![s], None, &"e".to_string()).unwrap_err(), ConvertError::InvalidSpeed { row: 3 });
    let l = lines(&["max_speed=x"]);
    let s = sheet("D1", "Stage", &[(1.0, "start", "DSS", 0.0)]);
    assert_eq!(convert(&vec![s], Some(&l), &"e".to_string()).unwrap_err(), ConvertError::BadDatasetLine(0));
}

#[test]
fn dialect_rewrites() {
    let generic = "[[days]]\ncode = \"D1\"\n\n[[days.points]]\nnum = 1\n\n[races.info]\nevent_name = \"e\"\n\n[[point_types.types]]\ncaption = \"WPV\"\n";
    let out = apply_dialect(generic);
    assert!(!out.contains(" = "));
    assert!(out.contains("[[races.points]]") && !out.contains("[[days.points]]"));
    assert!(out.contains("[[races.types]]") && !out.contains("[[point_types.types]]"));
    assert!(out.contains("[[RACE_PARAMS]]\n[INFO]\nevent_name=\"e\""));
    assert_eq!(apply_dialect("a = b"), "a=b");
    assert_eq!(apply_dialect("a  =  b"), "a = b");
}

#[test]
fn output_file_name() {
    assert_eq!(config_file_name("out", "data.set.txt", "race"), "out/config_data_race.ini");
    assert_eq!(config_file_name("/tmp", "plain", "x"), "/tmp/config_plain_x.ini");
}

#[test]
fn u16_parsing() {
    let p = |s: &str| parse_u16(&s.chars().collect());
    assert_eq!(p("+7"), Some(7));
    assert_eq!(p("65535"), Some(65535));
    assert_eq!(p("65536"), None);
    assert_eq!(p(""), None);
    assert_eq!(p("+"), None);
    assert_eq!(p("1 "), None);
}
