//! The configuration document assembled from the races of a workbook.
use vstd::prelude::*;
use crate::error::ConvertError;
use crate::point_types::{type_views, PointType, PointTypeView};
use crate::sheet::{point_views, race_views, Point, PointView, Race, RaceView, Settings};
use crate::text::chars_of;

verus! {

/// One day of the event: a race's code and its waypoints.
#[derive(Debug, Clone)]
pub struct Day {
    pub code: String,
    pub points: Vec<Point>,
}

#[derive(Debug, Clone)]
pub struct Info {
    pub event_name: String,
    pub race_name: String,
}

#[derive(Debug, Clone)]
pub struct RaceParams {
    pub info: Info,
    pub sets: Settings,
}

#[derive(Debug, Clone)]
pub struct PointTypes {
    pub types: Vec<PointType>,
}

#[derive(Debug, Clone)]
pub struct Config {
    pub days: Vec<Day>,
    pub races: RaceParams,
    pub point_types: PointTypes,
}

/// Byte order of UTF-8 strings, which is the lexicographic order of their characters.
pub open spec fn caption_le(a: Seq<char>, b: Seq<char>) -> bool
    decreases a.len(),
{
    if a.len() == 0 {
        true
    } else if b.len() == 0 {
        false
    } else if a[0] != b[0] {
        a[0] < b[0]
    } else {
        caption_le(a.drop_first(), b.drop_first())
    }
}

pub proof fn lemma_caption_le_total(a: Seq<char>, b: Seq<char>)
    ensures
        caption_le(a, b) || caption_le(b, a),
    decreases a.len(),
{
    if a.len() > 0 && b.len() > 0 && a[0] == b[0] {
        lemma_caption_le_total(a.drop_first(), b.drop_first());
    }
}

pub proof fn lemma_caption_le_trans(a: Seq<char>, b: Seq<char>, c: Seq<char>)
    requires
        caption_le(a, b),
        caption_le(b, c),
    ensures
        caption_le(a, c),
    decreases a.len(),
{
    if a.len() > 0 && b.len() > 0 && c.len() > 0 && a[0] == b[0] && b[0] == c[0] {
        lemma_caption_le_trans(a.drop_first(), b.drop_first(), c.drop_first());
    }
}

pub open spec fn sorted_by_caption(v: Seq<PointTypeView>) -> bool {
    forall|i: int, j: int| 0 <= i < j < v.len() ==> caption_le(#[trigger] v[i].caption, #[trigger] v[j].caption)
}

pub open spec fn no_repeats(v: Seq<PointTypeView>) -> bool {
    forall|i: int, j: int| 0 <= i < j < v.len() ==> #[trigger] v[i] != #[trigger] v[j]
}

/// Every waypoint type of every race, in order.
pub open spec fn all_race_types(races: Seq<RaceView>) -> Seq<PointTypeView>
    decreases races.len(),
{
    if races.len() == 0 {
        Seq::empty()
    } else {
        all_race_types(races.drop_last()) + races.last().types
    }
}

pub struct DayView {
    pub code: Seq<char>,
    pub points: Seq<PointView>,
}

impl View for Day {
    type V = DayView;

    open spec fn view(&self) -> DayView {
        DayView { code: self.code@, points: point_views(self.points@) }
    }
}

pub open spec fn day_views(v: Seq<Day>) -> Seq<DayView> {
    v.map_values(|d: Day| d@)
}

/// Whether `c` is the document that `races` assemble into.
pub open spec fn assembled_from(c: Config, races: Seq<RaceView>) -> bool {
    &&& races.len() > 0
    &&& day_views(c.days@) == races.map_values(|r: RaceView| DayView { code: r.code, points: r.points })
    &&& c.races.info.event_name@ == races[0].event_name
    &&& c.races.info.race_name@ == races[0].race_name
    &&& c.races.sets == races[0].sets
    &&& catalog_of(type_views(c.point_types.types@), races)
}

/// `v` is the catalog of the races' types: each type once, sorted by caption.
pub open spec fn catalog_of(v: Seq<PointTypeView>, races: Seq<RaceView>) -> bool {
    &&& sorted_by_caption(v)
    &&& no_repeats(v)
    &&& forall|t: PointTypeView| v.contains(t) <==> all_race_types(races).contains(t)
}

pub fn caption_precedes(a: &String, b: &String) -> (r: bool)
    ensures
        r == caption_le(a@, b@),
{
    let x = chars_of(a.as_str());
    let y = chars_of(b.as_str());
    let mut i: usize = 0;
    assert(x@.subrange(0, x@.len() as int) == x@);
    assert(y@.subrange(0, y@.len() as int) == y@);
    while i < x.len() && i < y.len() && x[i] == y[i]
        invariant
            i <= x@.len(),
            i <= y@.len(),
            caption_le(x@, y@) == caption_le(x@.subrange(i as int, x@.len() as int), y@.subrange(i as int, y@.len() as int)),
        decreases x@.len() - i,
    {
        let ghost xs = x@.subrange(i as int, x@.len() as int);
        let ghost ys = y@.subrange(i as int, y@.len() as int);
        assert(xs.drop_first() == x@.subrange(i + 1, x@.len() as int));
        assert(ys.drop_first() == y@.subrange(i + 1, y@.len() as int));
        i = i + 1;
    }
    let ghost xs = x@.subrange(i as int, x@.len() as int);
    let ghost ys = y@.subrange(i as int, y@.len() as int);
    if i == x.len() {
        true
    } else if i == y.len() {
        false
    } else {
        assert(xs[0] == x@[i as int] && ys[0] == y@[i as int]);
        x[i] < y[i]
    }
}

/// Adds `t` to a sorted catalog without repeats, unless it is there already.
fn add_to_catalog(out: &mut Vec<PointType>, t: &PointType)
    requires
        sorted_by_caption(type_views(old(out)@)),
        no_repeats(type_views(old(out)@)),
    ensures
        sorted_by_caption(type_views(final(out)@)),
        no_repeats(type_views(final(out)@)),
        forall|u: PointTypeView| type_views(final(out)@).contains(u) <==> (type_views(old(out)@).contains(u) || u == t@),
{
    let ghost v0 = type_views(out@);
    let mut i: usize = 0;
    while i < out.len()
        invariant
            i <= out@.len(),
            out@ == old(out)@,
            sorted_by_caption(type_views(old(out)@)),
            no_repeats(type_views(old(out)@)),
            forall|m: int| 0 <= m < i ==> type_views(out@)[m] != t@,
        decreases out@.len() - i,
    {
        if out[i] == *t {
            assert(type_views(out@)[i as int] == t@);
            assert forall|u: PointTypeView| type_views(out@).contains(u) <==> (type_views(old(out)@).contains(u) || u == t@) by {
                if u == t@ {
                    assert(type_views(out@)[i as int] == u);
                }
            }
            return;
        }
        i = i + 1;
    }
    assert(!v0.contains(t@));
    let mut k: usize = 0;
    while k < out.len() && caption_precedes(&out[k].caption, &t.caption)
        invariant
            k <= out@.len(),
            out@ == old(out)@,
            v0 == type_views(out@),
            sorted_by_caption(v0),
            no_repeats(v0),
            !v0.contains(t@),
            forall|m: int| 0 <= m < k ==> caption_le(#[trigger] v0[m].caption, t@.caption),
        decreases out@.len() - k,
    {
        k = k + 1;
    }
    let ghost before = out@;
    out.insert(k, t.duplicate());
    let ghost v1 = type_views(out@);
    assert(v1 =~= v0.insert(k as int, t@));
    assert forall|a: int, b: int| 0 <= a < b < v1.len() implies caption_le(#[trigger] v1[a].caption, #[trigger] v1[b].caption) by {
        if b == k {
            assert(v1[a] == v0[a]);
        } else if a == k {
            assert(v1[b] == v0[b - 1]);
            assert(!caption_le(v0[k as int].caption, t@.caption));
            lemma_caption_le_total(v0[k as int].caption, t@.caption);
            if b - 1 > k {
                lemma_caption_le_trans(t@.caption, v0[k as int].caption, v0[b - 1].caption);
            }
        } else if a < k && b < k {
            assert(v1[a] == v0[a] && v1[b] == v0[b]);
        } else if a < k {
            assert(v1[a] == v0[a] && v1[b] == v0[b - 1]);
        } else {
            assert(v1[a] == v0[a - 1] && v1[b] == v0[b - 1]);
        }
    }
    assert forall|a: int, b: int| 0 <= a < b < v1.len() implies #[trigger] v1[a] != #[trigger] v1[b] by {
        if a == k {
            assert(v1[b] == v0[b - 1]);
        } else if b == k {
            assert(v1[a] == v0[a]);
        } else if b < k {
            assert(v1[a] == v0[a] && v1[b] == v0[b]);
        } else if a < k {
            assert(v1[a] == v0[a] && v1[b] == v0[b - 1]);
        } else {
            assert(v1[a] == v0[a - 1] && v1[b] == v0[b - 1]);
        }
    }
    assert forall|u: PointTypeView| v1.contains(u) <==> (v0.contains(u) || u == t@) by {
        if v0.contains(u) {
            let m = choose|m: int| 0 <= m < v0.len() && v0[m] == u;
            if m < k {
                assert(v1[m] == u);
            } else {
                assert(v1[m + 1] == u);
            }
        }
        if u == t@ {
            assert(v1[k as int] == u);
        }
    }
}

/// Assembles the document: one day per race, the parameters of the first race, and
/// the waypoint types of all races, each once, sorted by caption.
pub fn build_config_from_races(races: Vec<Race>) -> (r: Result<Config, ConvertError>)
    ensures
        races@.len() == 0 ==> r == Err::<Config, ConvertError>(ConvertError::NoRaces),
        races@.len() > 0 ==> r is Ok && assembled_from(r->Ok_0, race_views(races@)),
{
    if races.len() == 0 {
        return Err(ConvertError::NoRaces);
    }
    let ghost rv = race_views(races@);
    let mut days: Vec<Day> = Vec::new();
    let mut types: Vec<PointType> = Vec::new();
    let mut i: usize = 0;
    while i < races.len()
        invariant
            i <= races@.len(),
            rv == race_views(races@),
            day_views(days@) == rv.subrange(0, i as int).map_values(|r: RaceView| DayView { code: r.code, points: r.points }),
            catalog_of(type_views(types@), rv.subrange(0, i as int)),
        decreases races@.len() - i,
    {
        let race = &races[i];
        let ghost d0 = days@;
        let day = Day { code: race.code.clone(), points: copy_points(&race.points) };
        days.push(day);
        assert(rv[i as int] == race@);
        assert(day_views(days@) =~= day_views(d0).push(day@));
        assert(rv.subrange(0, i + 1).map_values(|r: RaceView| DayView { code: r.code, points: r.points })
            =~= rv.subrange(0, i as int).map_values(|r: RaceView| DayView { code: r.code, points: r.points }).push(day@));
        let ghost prefix = rv.subrange(0, i + 1);
        assert(prefix.drop_last() == rv.subrange(0, i as int));
        assert(prefix.last() == race@);
        let mut j: usize = 0;
        while j < race.types.len()
            invariant
                j <= race.types@.len(),
                i < races@.len(),
                rv == race_views(races@),
                race == &races@[i as int],
                sorted_by_caption(type_views(types@)),
                no_repeats(type_views(types@)),
                forall|u: PointTypeView| type_views(types@).contains(u) <==> (all_race_types(rv.subrange(0, i as int)).contains(u)
                    || type_views(race.types@).subrange(0, j as int).contains(u)),
            decreases race.types@.len() - j,
        {
            let ghost tv = type_views(race.types@);
            let ghost before = type_views(types@);
            assert(tv[j as int] == race.types@[j as int]@);
            add_to_catalog(&mut types, &race.types[j]);
            proof {
                let one = seq![tv[j as int]];
                assert(tv.subrange(0, j + 1) =~= tv.subrange(0, j as int) + one);
                lemma_concat_contains(tv.subrange(0, j as int), one);
                assert(one[0] == tv[j as int]);
                assert forall|u: PointTypeView| type_views(types@).contains(u) <==> (all_race_types(
                    rv.subrange(0, i as int),
                ).contains(u) || tv.subrange(0, j + 1).contains(u)) by {
                    assert(type_views(types@).contains(u) <==> (before.contains(u) || u == tv[j as int]));
                    assert(before.contains(u) <==> (all_race_types(rv.subrange(0, i as int)).contains(u)
                        || tv.subrange(0, j as int).contains(u)));
                    assert(one.contains(u) <==> u == tv[j as int]);
                }
            }
            j = j + 1;
        }
        proof {
            let tv = type_views(race.types@);
            assert(tv.subrange(0, j as int) == tv);
            lemma_concat_contains(all_race_types(rv.subrange(0, i as int)), tv);
        }
        i = i + 1;
    }
    assert(rv.subrange(0, i as int) == rv);
    let first = &races[0];
    Ok(
        Config {
            days,
            races: RaceParams {
                info: Info { event_name: first.event_name.clone(), race_name: first.race_name.clone() },
                sets: first.sets,
            },
            point_types: PointTypes { types },
        },
    )
}

proof fn lemma_concat_contains(a: Seq<PointTypeView>, b: Seq<PointTypeView>)
    ensures
        forall|u: PointTypeView| (a + b).contains(u) <==> (a.contains(u) || b.contains(u)),
{
    assert forall|u: PointTypeView| (a + b).contains(u) <==> (a.contains(u) || b.contains(u)) by {
        if (a + b).contains(u) {
            let m = choose|m: int| 0 <= m < (a + b).len() && (a + b)[m] == u;
            if m < a.len() {
                assert(a[m] == u);
            } else {
                assert(b[m - a.len()] == u);
            }
        }
        if a.contains(u) {
            let m = choose|m: int| 0 <= m < a.len() && a[m] == u;
            assert((a + b)[m] == u);
        }
        if b.contains(u) {
            let m = choose|m: int| 0 <= m < b.len() && b[m] == u;
            assert((a + b)[m + a.len()] == u);
        }
    }
}

/// Copies a list of waypoints.
pub fn copy_points(points: &Vec<Point>) -> (r: Vec<Point>)
    ensures
        point_views(r@) == point_views(points@),
{
    let mut r: Vec<Point> = Vec::new();
    let mut i: usize = 0;
    while i < points.len()
        invariant
            i <= points@.len(),
            point_views(r@) == point_views(points@.subrange(0, i as int)),
        decreases points@.len() - i,
    {
        let ghost before = r@;
        r.push(points[i].duplicate());
        assert(point_views(r@) =~= point_views(before).push(points@[i as int]@));
        assert(point_views(points@.subrange(0, i + 1)) =~= point_views(points@.subrange(0, i as int)).push(
            points@[i as int]@,
        ));
        i = i + 1;
    }
    assert(points@.subrange(0, i as int) == points@);
    r
}

/// A waypoint type that any race holds, however many races hold it, stands exactly once
/// in the assembled catalog, and the catalog is ordered by caption.
pub proof fn lemma_catalog_holds_each_type_once(c: Config, races: Seq<RaceView>, t: PointTypeView)
    requires
        assembled_from(c, races),
        all_race_types(races).contains(t),
    ensures
        exists|i: int|
            0 <= i < c.point_types.types@.len() && #[trigger] type_views(c.point_types.types@)[i] == t
                && forall|j: int| 0 <= j < c.point_types.types@.len() && j != i ==> type_views(c.point_types.types@)[j] != t,
        sorted_by_caption(type_views(c.point_types.types@)),
{
    let v = type_views(c.point_types.types@);
    assert(v.contains(t));
    let i = choose|i: int| 0 <= i < v.len() && v[i] == t;
    assert forall|j: int| 0 <= j < v.len() && j != i implies v[j] != t by {
        if j < i {
            assert(v[j] != v[i]);
        } else {
            assert(v[i] != v[j]);
        }
    }
}

} // verus!
