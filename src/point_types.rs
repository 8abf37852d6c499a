//! Waypoint types: the fixed fallback catalog and the dataset-file parser.
use vstd::prelude::*;
use crate::error::ConvertError;
use crate::text::{
    chars_of, equals_str, has_prefix, index_of, index_of_from, parse_bool, parse_bool_spec, parse_u16,
    parse_u16_spec, remove_char, starts_with, string_of, sub_chars, without_char,
};

verus! {

/// A named category of race point with its default attributes.
#[derive(Debug, Clone)]
pub struct PointType {
    pub caption: String,
    pub default_rad: u16,
    pub is_open: bool,
    pub is_ghost: bool,
    pub in_game: bool,
    pub arrow_threshold: u16,
    pub max_speed: u16,
}

pub struct PointTypeView {
    pub caption: Seq<char>,
    pub default_rad: u16,
    pub is_open: bool,
    pub is_ghost: bool,
    pub in_game: bool,
    pub arrow_threshold: u16,
    pub max_speed: u16,
}

impl View for PointType {
    type V = PointTypeView;

    open spec fn view(&self) -> PointTypeView {
        PointTypeView {
            caption: self.caption@,
            default_rad: self.default_rad,
            is_open: self.is_open,
            is_ghost: self.is_ghost,
            in_game: self.in_game,
            arrow_threshold: self.arrow_threshold,
            max_speed: self.max_speed,
        }
    }
}

impl PartialEq for PointType {
    fn eq(&self, o: &PointType) -> (r: bool) {
        self.caption == o.caption && self.default_rad == o.default_rad && self.is_open == o.is_open
            && self.is_ghost == o.is_ghost && self.in_game == o.in_game && self.arrow_threshold
            == o.arrow_threshold && self.max_speed == o.max_speed
    }
}

impl vstd::std_specs::cmp::PartialEqSpecImpl for PointType {
    open spec fn obeys_eq_spec() -> bool {
        true
    }

    open spec fn eq_spec(&self, o: &PointType) -> bool {
        self@ == o@
    }
}

impl Eq for PointType {
}

impl PointType {
    pub fn duplicate(&self) -> (r: PointType)
        ensures
            r@ == self@,
    {
        PointType {
            caption: self.caption.clone(),
            default_rad: self.default_rad,
            is_open: self.is_open,
            is_ghost: self.is_ghost,
            in_game: self.in_game,
            arrow_threshold: self.arrow_threshold,
            max_speed: self.max_speed,
        }
    }
}

pub open spec fn type_views(v: Seq<PointType>) -> Seq<PointTypeView> {
    v.map_values(|p: PointType| p@)
}

pub open spec fn type_view(
    caption: Seq<char>,
    default_rad: u16,
    is_open: bool,
    is_ghost: bool,
    in_game: bool,
    arrow_threshold: u16,
    max_speed: u16,
) -> PointTypeView {
    PointTypeView { caption, default_rad, is_open, is_ghost, in_game, arrow_threshold, max_speed }
}

/// The catalog used when no dataset file can be read.
pub open spec fn fallback_catalog() -> Seq<PointTypeView> {
    seq![
        type_view("WPV"@, 200, true, false, false, 800, 140),
        type_view("WPM"@, 50, false, false, true, 800, 90),
        type_view("WPS"@, 50, false, false, true, 1000, 90),
        type_view("WPE"@, 90, false, false, true, 5000, 90),
        type_view("DSS"@, 200, true, false, false, 800, 140),
        type_view("FZ"@, 90, true, false, true, 800, 40),
        type_view("DZ"@, 90, false, false, true, 800, 140),
        type_view("WPC"@, 90, true, true, true, 800, 90),
        type_view("ASS"@, 90, false, false, true, 1000, 90),
        type_view("default"@, 90, false, false, true, 800, 140),
    ]
}

fn make_type(
    caption: &str,
    default_rad: u16,
    is_open: bool,
    is_ghost: bool,
    in_game: bool,
    arrow_threshold: u16,
    max_speed: u16,
) -> (r: PointType)
    ensures
        r@ == type_view(caption@, default_rad, is_open, is_ghost, in_game, arrow_threshold, max_speed),
{
    PointType {
        caption: String::from_str(caption),
        default_rad,
        is_open,
        is_ghost,
        in_game,
        arrow_threshold,
        max_speed,
    }
}

/// The ten built-in waypoint types.
pub fn fallback_point_types() -> (r: Vec<PointType>)
    ensures
        type_views(r@) == fallback_catalog(),
{
    let mut r: Vec<PointType> = Vec::new();
    r.push(make_type("WPV", 200, true, false, false, 800, 140));
    r.push(make_type("WPM", 50, false, false, true, 800, 90));
    r.push(make_type("WPS", 50, false, false, true, 1000, 90));
    r.push(make_type("WPE", 90, false, false, true, 5000, 90));
    r.push(make_type("DSS", 200, true, false, false, 800, 140));
    r.push(make_type("FZ", 90, true, false, true, 800, 40));
    r.push(make_type("DZ", 90, false, false, true, 800, 140));
    r.push(make_type("WPC", 90, true, true, true, 800, 90));
    r.push(make_type("ASS", 90, false, false, true, 1000, 90));
    r.push(make_type("default", 90, false, false, true, 800, 140));
    assert(type_views(r@) =~= fallback_catalog());
    r
}

/// What the dataset parser carries from one line to the next.
pub struct DatasetState {
    pub off_race: u16,
    pub on_race: u16,
    pub name: Seq<char>,
    pub default_rad: u16,
    pub is_open: bool,
    pub in_game: bool,
    pub arrow_threshold: u16,
    pub max_speed: u16,
    pub types: Seq<PointTypeView>,
}

pub open spec fn initial_dataset_state() -> DatasetState {
    DatasetState {
        off_race: 110,
        on_race: 80,
        name: Seq::empty(),
        default_rad: 90,
        is_open: false,
        in_game: false,
        arrow_threshold: 800,
        max_speed: 140,
        types: Seq::empty(),
    }
}

/// The text between the first `=` of a line and the next `=` (or the end).
pub open spec fn field_value(line: Seq<char>) -> Option<Seq<char>> {
    let i = index_of(line, '=', 0);
    if i < line.len() {
        Some(line.subrange(i + 1, index_of(line, '=', i + 1)))
    } else {
        None
    }
}

pub open spec fn field_u16(line: Seq<char>) -> Option<u16> {
    match field_value(line) {
        Some(v) => parse_u16_spec(v),
        None => None,
    }
}

pub open spec fn field_bool(line: Seq<char>) -> Option<bool> {
    match field_value(line) {
        Some(v) => parse_bool_spec(v),
        None => None,
    }
}

/// The section name of a `[point_types.<NAME>]` line: the second `.`-separated part,
/// with every `]` taken out.
pub open spec fn section_name(line: Seq<char>) -> Seq<char> {
    let i = index_of(line, '.', 0);
    without_char(line.subrange(i + 1, index_of(line, '.', i + 1)), ']')
}

/// Types whose section takes the off-race speed limit.
pub open spec fn is_off_race(name: Seq<char>) -> bool {
    name == "WPV"@ || name == "DSS"@
}

/// One dataset line applied to the parser state; `None` where a value does not parse.
pub open spec fn dataset_step(st: DatasetState, line: Seq<char>) -> Option<DatasetState> {
    if has_prefix(line, "off_race"@) {
        match field_u16(line) {
            Some(v) => Some(DatasetState { off_race: v, ..st }),
            None => None,
        }
    } else if has_prefix(line, "on_race"@) {
        match field_u16(line) {
            Some(v) => Some(DatasetState { on_race: v, ..st }),
            None => None,
        }
    } else if has_prefix(line, "[point_types."@) {
        let name = if index_of(line, '.', 0) < line.len() {
            section_name(line)
        } else {
            st.name
        };
        Some(
            DatasetState {
                name,
                max_speed: if is_off_race(name) {
                    st.off_race
                } else {
                    st.on_race
                },
                ..st
            },
        )
    } else if has_prefix(line, "default_rad"@) {
        match field_u16(line) {
            Some(v) => Some(DatasetState { default_rad: v, ..st }),
            None => None,
        }
    } else if has_prefix(line, "is_open"@) {
        match field_bool(line) {
            Some(v) => Some(DatasetState { is_open: v, ..st }),
            None => None,
        }
    } else if has_prefix(line, "in_game"@) {
        match field_bool(line) {
            Some(v) => Some(DatasetState { in_game: v, ..st }),
            None => None,
        }
    } else if has_prefix(line, "arrow_threshold"@) {
        match field_u16(line) {
            Some(v) => Some(DatasetState { arrow_threshold: v, ..st }),
            None => None,
        }
    } else if has_prefix(line, "max_speed"@) {
        match field_u16(line) {
            Some(v) => Some(DatasetState { max_speed: v, ..st }),
            None => None,
        }
    } else if has_prefix(line, "-"@) {
        let t = type_view(
            st.name,
            st.default_rad,
            st.is_open,
            false,
            st.in_game,
            st.arrow_threshold,
            st.max_speed,
        );
        Some(
            DatasetState {
                name: Seq::empty(),
                default_rad: 90,
                is_open: false,
                in_game: false,
                arrow_threshold: 800,
                max_speed: 140,
                types: st.types.push(t),
                ..st
            },
        )
    } else {
        Some(st)
    }
}

/// The state after the given lines, or `Err(i)` where line `i` is the first that fails.
pub open spec fn dataset_run(lines: Seq<Seq<char>>) -> Result<DatasetState, nat>
    decreases lines.len(),
{
    if lines.len() == 0 {
        Ok(initial_dataset_state())
    } else {
        match dataset_run(lines.drop_last()) {
            Ok(st) => match dataset_step(st, lines.last()) {
                Some(next) => Ok(next),
                None => Err((lines.len() - 1) as nat),
            },
            Err(i) => Err(i),
        }
    }
}

/// The waypoint types that a dataset file's lines define.
pub open spec fn parse_dataset_spec(lines: Seq<Seq<char>>) -> Result<Seq<PointTypeView>, nat> {
    match dataset_run(lines) {
        Ok(st) => Ok(st.types),
        Err(i) => Err(i),
    }
}

pub open spec fn line_views(lines: Seq<String>) -> Seq<Seq<char>> {
    lines.map_values(|l: String| l@)
}

struct DatasetParser {
    off_race: u16,
    on_race: u16,
    name: Vec<char>,
    default_rad: u16,
    is_open: bool,
    in_game: bool,
    arrow_threshold: u16,
    max_speed: u16,
    types: Vec<PointType>,
}

impl DatasetParser {
    spec fn state(&self) -> DatasetState {
        DatasetState {
            off_race: self.off_race,
            on_race: self.on_race,
            name: self.name@,
            default_rad: self.default_rad,
            is_open: self.is_open,
            in_game: self.in_game,
            arrow_threshold: self.arrow_threshold,
            max_speed: self.max_speed,
            types: type_views(self.types@),
        }
    }

    fn new() -> (r: DatasetParser)
        ensures
            r.state() == initial_dataset_state(),
    {
        let r = DatasetParser {
            off_race: 110,
            on_race: 80,
            name: Vec::new(),
            default_rad: 90,
            is_open: false,
            in_game: false,
            arrow_threshold: 800,
            max_speed: 140,
            types: Vec::new(),
        };
        assert(r.state().types =~= Seq::empty());
        r
    }

    fn read_value(line: &Vec<char>) -> (r: Option<Vec<char>>)
        ensures
            match field_value(line@) {
                Some(v) => r is Some && r->0@ == v,
                None => r is None,
            },
    {
        let i = index_of_from(line, '=', 0);
        if i >= line.len() {
            return None;
        }
        let j = index_of_from(line, '=', i + 1);
        Some(sub_chars(line, i + 1, j))
    }

    fn read_u16(line: &Vec<char>) -> (r: Option<u16>)
        ensures
            r == field_u16(line@),
    {
        match Self::read_value(line) {
            Some(v) => parse_u16(&v),
            None => None,
        }
    }

    fn read_bool(line: &Vec<char>) -> (r: Option<bool>)
        ensures
            r == field_bool(line@),
    {
        match Self::read_value(line) {
            Some(v) => parse_bool(&v),
            None => None,
        }
    }

    fn feed(&mut self, line: &Vec<char>) -> (ok: bool)
        ensures
            ok == dataset_step(old(self).state(), line@) is Some,
            ok ==> final(self).state() == dataset_step(old(self).state(), line@)->0,
    {
        if starts_with(line, "off_race") {
            match Self::read_u16(line) {
                Some(v) => { self.off_race = v; true },
                None => false,
            }
        } else if starts_with(line, "on_race") {
            match Self::read_u16(line) {
                Some(v) => { self.on_race = v; true },
                None => false,
            }
        } else if starts_with(line, "[point_types.") {
            let i = index_of_from(line, '.', 0);
            if i < line.len() {
                let j = index_of_from(line, '.', i + 1);
                let part = sub_chars(line, i + 1, j);
                self.name = remove_char(&part, ']');
            }
            if equals_str(&self.name, "WPV") || equals_str(&self.name, "DSS") {
                self.max_speed = self.off_race;
            } else {
                self.max_speed = self.on_race;
            }
            true
        } else if starts_with(line, "default_rad") {
            match Self::read_u16(line) {
                Some(v) => { self.default_rad = v; true },
                None => false,
            }
        } else if starts_with(line, "is_open") {
            match Self::read_bool(line) {
                Some(v) => { self.is_open = v; true },
                None => false,
            }
        } else if starts_with(line, "in_game") {
            match Self::read_bool(line) {
                Some(v) => { self.in_game = v; true },
                None => false,
            }
        } else if starts_with(line, "arrow_threshold") {
            match Self::read_u16(line) {
                Some(v) => { self.arrow_threshold = v; true },
                None => false,
            }
        } else if starts_with(line, "max_speed") {
            match Self::read_u16(line) {
                Some(v) => { self.max_speed = v; true },
                None => false,
            }
        } else if starts_with(line, "-") {
            let pt = PointType {
                caption: string_of(self.name.as_slice()),
                default_rad: self.default_rad,
                is_open: self.is_open,
                is_ghost: false,
                in_game: self.in_game,
                arrow_threshold: self.arrow_threshold,
                max_speed: self.max_speed,
            };
            let ghost before = self.types@;
            self.types.push(pt);
            assert(type_views(self.types@) =~= type_views(before).push(pt@));
            self.name = Vec::new();
            self.default_rad = 90;
            self.is_open = false;
            self.in_game = false;
            self.arrow_threshold = 800;
            self.max_speed = 140;
            assert(self.name@ =~= Seq::<char>::empty());
            true
        } else {
            true
        }
    }
}

/// Parses the lines of a dataset file into its waypoint types.
pub fn parse_dataset(lines: &Vec<String>) -> (r: Result<Vec<PointType>, ConvertError>)
    ensures
        match parse_dataset_spec(line_views(lines@)) {
            Ok(types) => r is Ok && type_views(r->Ok_0@) == types,
            Err(i) => r == Err::<Vec<PointType>, ConvertError>(ConvertError::BadDatasetLine(i as usize)),
        },
{
    let mut p = DatasetParser::new();
    let mut k: usize = 0;
    while k < lines.len()
        invariant
            k <= lines@.len(),
            dataset_run(line_views(lines@).subrange(0, k as int)) == Ok::<DatasetState, nat>(p.state()),
        decreases lines@.len() - k,
    {
        let line = chars_of(lines[k].as_str());
        let ghost pre = line_views(lines@).subrange(0, k as int);
        let ghost next = line_views(lines@).subrange(0, k + 1);
        assert(next.drop_last() == pre);
        assert(next.last() == line@);
        if !p.feed(&line) {
            proof {
                lemma_run_fails_later(line_views(lines@), k as int + 1);
            }
            return Err(ConvertError::BadDatasetLine(k));
        }
        k = k + 1;
    }
    assert(line_views(lines@).subrange(0, k as int) == line_views(lines@));
    Ok(p.types)
}

proof fn lemma_run_fails_later(lines: Seq<Seq<char>>, k: int)
    requires
        0 <= k <= lines.len(),
        dataset_run(lines.subrange(0, k)) is Err,
    ensures
        dataset_run(lines) == dataset_run(lines.subrange(0, k)),
    decreases lines.len() - k,
{
    if k < lines.len() {
        let next = lines.subrange(0, k + 1);
        assert(next.drop_last() == lines.subrange(0, k));
        lemma_run_fails_later(lines, k + 1);
    } else {
        assert(lines.subrange(0, k) == lines);
    }
}

/// The waypoint types of a run: those of the dataset file's lines where it could be
/// read, else the built-in catalog.
pub fn get_point_types(dataset: Option<&Vec<String>>) -> (r: Result<Vec<PointType>, ConvertError>)
    ensures
        match dataset {
            None => r is Ok && type_views(r->Ok_0@) == fallback_catalog(),
            Some(lines) => match parse_dataset_spec(line_views(lines@)) {
                Ok(types) => r is Ok && type_views(r->Ok_0@) == types,
                Err(i) => r == Err::<Vec<PointType>, ConvertError>(ConvertError::BadDatasetLine(i as usize)),
            },
        },
{
    match dataset {
        None => Ok(fallback_point_types()),
        Some(lines) => parse_dataset(lines),
    }
}

} // verus!
