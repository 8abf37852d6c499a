//! Spreadsheet rows to waypoints: one race per sheet.
use vstd::prelude::*;
use crate::coords::{decode_coordinate, decode_coordinate_spec, zero_coordinate, Coordinate, CoordinateView};
use crate::error::ConvertError;
use crate::point_types::{type_views, PointType, PointTypeView};
use crate::text::{chars_of, has_prefix, parse_u16, parse_u16_spec, starts_with, sub_chars};

verus! {

/// The content of a used cell. A number comes as its value truncated toward zero, and
/// as its value times 1000 truncated toward zero.
#[derive(Debug, Clone)]
pub enum CellValue {
    Text(String),
    Number { whole: i64, thousandths: i64 },
    Other,
}

/// A used cell, at its row and column (both 0-based).
#[derive(Debug, Clone)]
pub struct Cell {
    pub row: usize,
    pub col: usize,
    pub value: CellValue,
}

/// A sheet: its name, its number of rows, and its used cells in row-major order.
#[derive(Debug, Clone)]
pub struct Sheet {
    pub name: String,
    pub height: usize,
    pub cells: Vec<Cell>,
}

#[derive(Debug, Clone, Copy, PartialEq, Eq, Structural)]
pub struct Settings {
    pub total: u16,
    pub max_speed: u16,
}

/// The settings every race starts with.
pub open spec fn default_settings() -> Settings {
    Settings { total: 0, max_speed: 110 }
}

#[derive(Debug, Clone)]
pub struct Point {
    pub num: u16,
    pub name: String,
    pub point_type: String,
    pub odo: u32,
    pub lat: Coordinate,
    pub lon: Coordinate,
    pub max_speed: u16,
}

pub struct PointView {
    pub num: u16,
    pub name: Seq<char>,
    pub point_type: Seq<char>,
    pub odo: u32,
    pub lat: CoordinateView,
    pub lon: CoordinateView,
    pub max_speed: u16,
}

impl View for Point {
    type V = PointView;

    open spec fn view(&self) -> PointView {
        PointView {
            num: self.num,
            name: self.name@,
            point_type: self.point_type@,
            odo: self.odo,
            lat: self.lat@,
            lon: self.lon@,
            max_speed: self.max_speed,
        }
    }
}

pub open spec fn point_views(v: Seq<Point>) -> Seq<PointView> {
    v.map_values(|p: Point| p@)
}

/// The waypoint accumulator before any row has been read.
pub open spec fn initial_point() -> PointView {
    PointView {
        num: 0,
        name: "default"@,
        point_type: "DEF"@,
        odo: 0,
        lat: zero_coordinate(),
        lon: zero_coordinate(),
        max_speed: 0,
    }
}

impl Point {
    pub fn initial() -> (r: Point)
        ensures
            r@ == initial_point(),
    {
        Point {
            num: 0,
            name: String::from_str("default"),
            point_type: String::from_str("DEF"),
            odo: 0,
            lat: Coordinate::zero(),
            lon: Coordinate::zero(),
            max_speed: 0,
        }
    }

    pub fn duplicate(&self) -> (r: Point)
        ensures
            r@ == self@,
    {
        Point {
            num: self.num,
            name: self.name.clone(),
            point_type: self.point_type.clone(),
            odo: self.odo,
            lat: self.lat.duplicate(),
            lon: self.lon.duplicate(),
            max_speed: self.max_speed,
        }
    }
}

/// One sheet's race.
#[derive(Debug, Clone)]
pub struct Race {
    pub code: String,
    pub event_name: String,
    pub race_name: String,
    pub sets: Settings,
    pub types: Vec<PointType>,
    pub points: Vec<Point>,
}

pub struct RaceView {
    pub code: Seq<char>,
    pub event_name: Seq<char>,
    pub race_name: Seq<char>,
    pub sets: Settings,
    pub types: Seq<PointTypeView>,
    pub points: Seq<PointView>,
}

impl View for Race {
    type V = RaceView;

    open spec fn view(&self) -> RaceView {
        RaceView {
            code: self.code@,
            event_name: self.event_name@,
            race_name: self.race_name@,
            sets: self.sets,
            types: type_views(self.types@),
            points: point_views(self.points@),
        }
    }
}

pub open spec fn race_views(v: Seq<Race>) -> Seq<RaceView> {
    v.map_values(|r: Race| r@)
}

/// The speed limit of the last type in `types` whose caption is `caption`, else `dflt`.
pub open spec fn lookup_speed(types: Seq<PointTypeView>, caption: Seq<char>, dflt: u16) -> u16
    decreases types.len(),
{
    if types.len() == 0 {
        dflt
    } else if types.last().caption == caption {
        types.last().max_speed
    } else {
        lookup_speed(types.drop_last(), caption, dflt)
    }
}

/// What the scan of one sheet carries from one cell to the next.
pub struct ScanView {
    pub point: PointView,
    pub cords: Seq<char>,
    pub race_name: Seq<char>,
    pub points: Seq<PointView>,
    pub complete: bool,
}

pub open spec fn cell_text(c: Cell) -> Option<Seq<char>> {
    match c.value {
        CellValue::Text(s) => Some(s@),
        _ => None,
    }
}

/// The type caption and explicit speed limit (0 for none) that a type-code cell gives,
/// or `None` where the digits after `FZ` do not form a speed.
pub open spec fn type_code_spec(t: Seq<char>) -> Option<(Seq<char>, u16)> {
    if has_prefix(t, "FZ"@) {
        if t.len() > 2 {
            match parse_u16_spec(t.subrange(2, t.len() as int)) {
                Some(v) => Some(("FZ"@, v)),
                None => None,
            }
        } else {
            Some(("FZ"@, 0))
        }
    } else if has_prefix(t, "DZ"@) {
        Some(("DZ"@, 0))
    } else {
        Some((t, 0))
    }
}

/// One used cell applied to the scan of a sheet with `height` rows, whose races know
/// the waypoint types `types` and the default speed limit `dflt`.
pub open spec fn cell_step(
    st: ScanView,
    c: Cell,
    height: usize,
    types: Seq<PointTypeView>,
    dflt: u16,
) -> Result<ScanView, ConvertError> {
    let text = cell_text(c);
    let p = st.point;
    if c.row == 1 {
        match text {
            Some(t) => Ok(ScanView { race_name: t, ..st }),
            None => Err(ConvertError::NotText { row: c.row, col: c.col }),
        }
    } else if c.row <= 2 || c.col > 7 {
        Ok(st)
    } else if c.col == 0 {
        match c.value {
            CellValue::Number { whole, thousandths: _ } => if 0 <= whole <= 65535 {
                Ok(ScanView { point: PointView { num: whole as u16, ..p }, ..st })
            } else {
                Err(ConvertError::OutOfRange { row: c.row, col: c.col })
            },
            _ => Err(ConvertError::NotNumber { row: c.row, col: c.col }),
        }
    } else if c.col == 7 {
        match c.value {
            CellValue::Number { whole: _, thousandths } => if 0 <= thousandths <= u32::MAX {
                let speed = if p.max_speed == 0 {
                    lookup_speed(types, p.point_type, dflt)
                } else {
                    p.max_speed
                };
                let q = PointView { odo: thousandths as u32, max_speed: speed, ..p };
                let last = c.row + 1 == height;
                Ok(
                    ScanView {
                        point: q,
                        points: if last {
                            st.points.push(q).push(q)
                        } else {
                            st.points.push(q)
                        },
                        complete: st.complete || last,
                        ..st
                    },
                )
            } else {
                Err(ConvertError::OutOfRange { row: c.row, col: c.col })
            },
            _ => Err(ConvertError::NotNumber { row: c.row, col: c.col }),
        }
    } else {
        match text {
            None => Err(ConvertError::NotText { row: c.row, col: c.col }),
            Some(t) => if c.col == 1 {
                Ok(ScanView { point: PointView { name: t, ..p }, ..st })
            } else if c.col == 2 {
                match type_code_spec(t) {
                    Some((caption, speed)) => Ok(
                        ScanView { point: PointView { point_type: caption, max_speed: speed, ..p }, ..st },
                    ),
                    None => Err(ConvertError::InvalidSpeed { row: c.row }),
                }
            } else if c.col == 3 || c.col == 5 {
                Ok(ScanView { cords: t, ..st })
            } else if c.col == 4 {
                match decode_coordinate_spec(st.cords, t, 'N') {
                    Ok(v) => Ok(ScanView { point: PointView { lat: v, ..p }, ..st }),
                    Err(e) => Err(e),
                }
            } else {
                match decode_coordinate_spec(st.cords, t, 'E') {
                    Ok(v) => Ok(ScanView { point: PointView { lon: v, ..p }, ..st }),
                    Err(e) => Err(e),
                }
            },
        }
    }
}

/// The scan state at the start of a sheet.
pub open spec fn scan_start(point: PointView) -> ScanView {
    ScanView { point, cords: Seq::empty(), race_name: Seq::empty(), points: Seq::empty(), complete: false }
}

/// The scan of the given cells, from the waypoint accumulator `point`.
pub open spec fn sheet_run(
    cells: Seq<Cell>,
    height: usize,
    types: Seq<PointTypeView>,
    dflt: u16,
    point: PointView,
) -> Result<ScanView, ConvertError>
    decreases cells.len(),
{
    if cells.len() == 0 {
        Ok(scan_start(point))
    } else {
        match sheet_run(cells.drop_last(), height, types, dflt, point) {
            Ok(st) => cell_step(st, cells.last(), height, types, dflt),
            Err(e) => Err(e),
        }
    }
}

/// The race a sheet yields once scanned (`None` where no waypoint stood on its last row),
/// and the waypoint accumulator after it.
pub open spec fn sheet_race(
    s: Sheet,
    types: Seq<PointTypeView>,
    event_name: Seq<char>,
    point: PointView,
) -> Result<(Option<RaceView>, PointView), ConvertError> {
    match sheet_run(s.cells@, s.height, types, default_settings().max_speed, point) {
        Ok(st) => Ok(
            (
                if st.complete {
                    Some(
                        RaceView {
                            code: s.name@,
                            event_name,
                            race_name: st.race_name,
                            sets: default_settings(),
                            types,
                            points: st.points,
                        },
                    )
                } else {
                    None
                },
                st.point,
            ),
        ),
        Err(e) => Err(e),
    }
}

/// The races of the given sheets, in order, with the waypoint accumulator after them.
pub open spec fn workbook_run(
    sheets: Seq<Sheet>,
    types: Seq<PointTypeView>,
    event_name: Seq<char>,
) -> Result<(Seq<RaceView>, PointView), ConvertError>
    decreases sheets.len(),
{
    if sheets.len() == 0 {
        Ok((Seq::empty(), initial_point()))
    } else {
        match workbook_run(sheets.drop_last(), types, event_name) {
            Ok((races, point)) => match sheet_race(sheets.last(), types, event_name, point) {
                Ok((Some(r), q)) => Ok((races.push(r), q)),
                Ok((None, q)) => Ok((races, q)),
                Err(e) => Err(e),
            },
            Err(e) => Err(e),
        }
    }
}

/// The races that the sheets of a workbook yield.
pub open spec fn workbook_races(
    sheets: Seq<Sheet>,
    types: Seq<PointTypeView>,
    event_name: Seq<char>,
) -> Result<Seq<RaceView>, ConvertError> {
    match workbook_run(sheets, types, event_name) {
        Ok((races, _)) => Ok(races),
        Err(e) => Err(e),
    }
}

struct SheetScan {
    point: Point,
    cords: Vec<char>,
    race_name: String,
    points: Vec<Point>,
    complete: bool,
}

impl SheetScan {
    spec fn view_of(&self) -> ScanView {
        ScanView {
            point: self.point@,
            cords: self.cords@,
            race_name: self.race_name@,
            points: point_views(self.points@),
            complete: self.complete,
        }
    }
}

/// The effective speed limit of a waypoint of type `caption`.
pub fn resolve_speed(types: &Vec<PointType>, caption: &String, dflt: u16) -> (r: u16)
    ensures
        r == lookup_speed(type_views(types@), caption@, dflt),
{
    let mut r = dflt;
    let mut i: usize = 0;
    while i < types.len()
        invariant
            i <= types@.len(),
            r == lookup_speed(type_views(types@.subrange(0, i as int)), caption@, dflt),
        decreases types@.len() - i,
    {
        let ghost pre = types@.subrange(0, i as int);
        let ghost next = types@.subrange(0, i + 1);
        assert(type_views(next).drop_last() =~= type_views(pre));
        assert(type_views(next).last() == types@[i as int]@);
        if types[i].caption == *caption {
            r = types[i].max_speed;
        }
        i = i + 1;
    }
    assert(types@.subrange(0, i as int) == types@);
    r
}

/// Reads a type-code cell.
pub fn type_code(t: &String) -> (r: Option<(String, u16)>)
    ensures
        match type_code_spec(t@) {
            Some((caption, speed)) => match r {
                Some((c2, s2)) => c2@ == caption && s2 == speed,
                None => false,
            },
            None => r is None,
        },
{
    let c = chars_of(t.as_str());
    if starts_with(&c, "FZ") {
        if c.len() > 2 {
            let digits = sub_chars(&c, 2, c.len());
            match parse_u16(&digits) {
                Some(v) => Some((String::from_str("FZ"), v)),
                None => None,
            }
        } else {
            Some((String::from_str("FZ"), 0))
        }
    } else if starts_with(&c, "DZ") {
        Some((String::from_str("DZ"), 0))
    } else {
        Some((t.clone(), 0))
    }
}

fn apply_cell(st: &mut SheetScan, c: &Cell, height: usize, types: &Vec<PointType>, dflt: u16) -> (r: Result<(), ConvertError>)
    ensures
        match cell_step(old(st).view_of(), *c, height, type_views(types@), dflt) {
            Ok(v) => r is Ok && final(st).view_of() == v,
            Err(e) => r == Err::<(), ConvertError>(e),
        },
{
    if c.row == 1 {
        return match &c.value {
            CellValue::Text(t) => {
                st.race_name = t.clone();
                Ok(())
            },
            _ => Err(ConvertError::NotText { row: c.row, col: c.col }),
        };
    }
    if c.row <= 2 || c.col > 7 {
        return Ok(());
    }
    if c.col == 0 {
        return match &c.value {
            CellValue::Number { whole, thousandths: _ } => {
                if 0 <= *whole && *whole <= 65535 {
                    st.point.num = *whole as u16;
                    Ok(())
                } else {
                    Err(ConvertError::OutOfRange { row: c.row, col: c.col })
                }
            },
            _ => Err(ConvertError::NotNumber { row: c.row, col: c.col }),
        };
    }
    if c.col == 7 {
        return match &c.value {
            CellValue::Number { whole: _, thousandths } => {
                if 0 <= *thousandths && *thousandths <= u32::MAX as i64 {
                    st.point.odo = *thousandths as u32;
                    if st.point.max_speed == 0 {
                        st.point.max_speed = resolve_speed(types, &st.point.point_type, dflt);
                    }
                    let ghost before = st.points@;
                    st.points.push(st.point.duplicate());
                    assert(point_views(st.points@) =~= point_views(before).push(st.point@));
                    if height > 0 && c.row == height - 1 {
                        let ghost mid = st.points@;
                        st.points.push(st.point.duplicate());
                        assert(point_views(st.points@) =~= point_views(mid).push(st.point@));
                        st.complete = true;
                    }
                    Ok(())
                } else {
                    Err(ConvertError::OutOfRange { row: c.row, col: c.col })
                }
            },
            _ => Err(ConvertError::NotNumber { row: c.row, col: c.col }),
        };
    }
    let t = match &c.value {
        CellValue::Text(t) => t,
        _ => {
            return Err(ConvertError::NotText { row: c.row, col: c.col });
        },
    };
    if c.col == 1 {
        st.point.name = t.clone();
        Ok(())
    } else if c.col == 2 {
        match type_code(t) {
            Some((caption, speed)) => {
                st.point.point_type = caption;
                st.point.max_speed = speed;
                Ok(())
            },
            None => Err(ConvertError::InvalidSpeed { row: c.row }),
        }
    } else if c.col == 3 || c.col == 5 {
        st.cords = chars_of(t.as_str());
        Ok(())
    } else if c.col == 4 {
        match decode_coordinate(&st.cords, t.as_str(), 'N') {
            Ok(v) => {
                st.point.lat = v;
                Ok(())
            },
            Err(e) => Err(e),
        }
    } else {
        match decode_coordinate(&st.cords, t.as_str(), 'E') {
            Ok(v) => {
                st.point.lon = v;
                Ok(())
            },
            Err(e) => Err(e),
        }
    }
}

/// Copies a list of waypoint types.
pub fn copy_types(types: &Vec<PointType>) -> (r: Vec<PointType>)
    ensures
        type_views(r@) == type_views(types@),
{
    let mut r: Vec<PointType> = Vec::new();
    let mut i: usize = 0;
    while i < types.len()
        invariant
            i <= types@.len(),
            type_views(r@) == type_views(types@.subrange(0, i as int)),
        decreases types@.len() - i,
    {
        let ghost before = r@;
        r.push(types[i].duplicate());
        assert(type_views(r@) =~= type_views(before).push(types@[i as int]@));
        assert(type_views(types@.subrange(0, i + 1)) =~= type_views(types@.subrange(0, i as int)).push(
            types@[i as int]@,
        ));
        i = i + 1;
    }
    assert(types@.subrange(0, i as int) == types@);
    r
}

/// Scans one sheet. `point` is the waypoint accumulator, carried from sheet to sheet.
/// Returns the sheet's race where a waypoint stood on its last row.
pub fn scan_sheet(sheet: &Sheet, types: &Vec<PointType>, event_name: &String, point: &mut Point) -> (r:
    Result<Option<Race>, ConvertError>)
    ensures
        match sheet_race(*sheet, type_views(types@), event_name@, old(point)@) {
            Ok((race, q)) => r is Ok && final(point)@ == q && match race {
                Some(rv) => r->Ok_0 is Some && r->Ok_0->0@ == rv,
                None => r->Ok_0 is None,
            },
            Err(e) => r == Err::<Option<Race>, ConvertError>(e),
        },
{
    let sets = Settings { total: 0, max_speed: 110 };
    let mut st = SheetScan {
        point: point.duplicate(),
        cords: Vec::new(),
        race_name: String::new(),
        points: Vec::new(),
        complete: false,
    };
    assert(point_views(st.points@) =~= Seq::<PointView>::empty());
    assert(st.view_of() =~= scan_start(old(point)@));
    let ghost cells = sheet.cells@;
    let mut i: usize = 0;
    while i < sheet.cells.len()
        invariant
            i <= cells.len(),
            cells == sheet.cells@,
            sets == default_settings(),
            sheet_run(cells.subrange(0, i as int), sheet.height, type_views(types@), 110, old(point)@)
                == Ok::<ScanView, ConvertError>(st.view_of()),
        decreases cells.len() - i,
    {
        let ghost next = cells.subrange(0, i + 1);
        assert(next.drop_last() == cells.subrange(0, i as int));
        assert(next.last() == cells[i as int]);
        match apply_cell(&mut st, &sheet.cells[i], sheet.height, types, sets.max_speed) {
            Ok(()) => {},
            Err(e) => {
                proof {
                    lemma_sheet_fails_later(cells, i as int + 1, sheet.height, type_views(types@), 110, old(point)@);
                }
                return Err(e);
            },
        }
        i = i + 1;
    }
    assert(cells.subrange(0, i as int) == cells);
    *point = st.point.duplicate();
    if st.complete {
        Ok(
            Some(
                Race {
                    code: sheet.name.clone(),
                    event_name: event_name.clone(),
                    race_name: st.race_name,
                    sets,
                    types: copy_types(types),
                    points: st.points,
                },
            ),
        )
    } else {
        Ok(None)
    }
}

proof fn lemma_sheet_fails_later(
    cells: Seq<Cell>,
    k: int,
    height: usize,
    types: Seq<PointTypeView>,
    dflt: u16,
    point: PointView,
)
    requires
        0 <= k <= cells.len(),
        sheet_run(cells.subrange(0, k), height, types, dflt, point) is Err,
    ensures
        sheet_run(cells, height, types, dflt, point) == sheet_run(cells.subrange(0, k), height, types, dflt, point),
    decreases cells.len() - k,
{
    if k < cells.len() {
        assert(cells.subrange(0, k + 1).drop_last() == cells.subrange(0, k));
        lemma_sheet_fails_later(cells, k + 1, height, types, dflt, point);
    } else {
        assert(cells.subrange(0, k) == cells);
    }
}

proof fn lemma_workbook_fails_later(sheets: Seq<Sheet>, k: int, types: Seq<PointTypeView>, event_name: Seq<char>)
    requires
        0 <= k <= sheets.len(),
        workbook_run(sheets.subrange(0, k), types, event_name) is Err,
    ensures
        workbook_run(sheets, types, event_name) == workbook_run(sheets.subrange(0, k), types, event_name),
    decreases sheets.len() - k,
{
    if k < sheets.len() {
        assert(sheets.subrange(0, k + 1).drop_last() == sheets.subrange(0, k));
        lemma_workbook_fails_later(sheets, k + 1, types, event_name);
    } else {
        assert(sheets.subrange(0, k) == sheets);
    }
}

/// Scans every sheet of a workbook, in order, into the races they complete.
pub fn scan_workbook(sheets: &Vec<Sheet>, types: &Vec<PointType>, event_name: &String) -> (r: Result<
    Vec<Race>,
    ConvertError,
>)
    ensures
        match workbook_races(sheets@, type_views(types@), event_name@) {
            Ok(races) => r is Ok && race_views(r->Ok_0@) == races,
            Err(e) => r == Err::<Vec<Race>, ConvertError>(e),
        },
{
    let mut races: Vec<Race> = Vec::new();
    let mut point = Point::initial();
    let mut i: usize = 0;
    assert(race_views(races@) =~= Seq::empty());
    while i < sheets.len()
        invariant
            i <= sheets@.len(),
            workbook_run(sheets@.subrange(0, i as int), type_views(types@), event_name@) == Ok::<
                (Seq<RaceView>, PointView),
                ConvertError,
            >((race_views(races@), point@)),
        decreases sheets@.len() - i,
    {
        let ghost next = sheets@.subrange(0, i + 1);
        assert(next.drop_last() == sheets@.subrange(0, i as int));
        assert(next.last() == sheets@[i as int]);
        match scan_sheet(&sheets[i], types, event_name, &mut point) {
            Ok(Some(race)) => {
                let ghost before = races@;
                races.push(race);
                assert(race_views(races@) =~= race_views(before).push(race@));
            },
            Ok(None) => {},
            Err(e) => {
                proof {
                    lemma_workbook_fails_later(sheets@, i as int + 1, type_views(types@), event_name@);
                }
                return Err(e);
            },
        }
        i = i + 1;
    }
    assert(sheets@.subrange(0, i as int) == sheets@);
    Ok(races)
}

} // verus!
