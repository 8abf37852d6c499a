//! Coordinate cells: a `D°M,m` token and a hemisphere cell.
use vstd::prelude::*;
use crate::error::ConvertError;
use crate::text::{
    chars_of, contains_char, index_of, index_of_from, replace_char, string_of,
    sub_chars, swap_char,
};

verus! {

/// A coordinate as written: its sign, and the degree and minute numbers as decimal
/// text with `.` as the decimal separator. The value is `±(degrees + minutes / 60)`.
#[derive(Debug, Clone)]
pub struct Coordinate {
    pub negative: bool,
    pub degrees: String,
    pub minutes: String,
}

pub struct CoordinateView {
    pub negative: bool,
    pub degrees: Seq<char>,
    pub minutes: Seq<char>,
}

impl View for Coordinate {
    type V = CoordinateView;

    open spec fn view(&self) -> CoordinateView {
        CoordinateView { negative: self.negative, degrees: self.degrees@, minutes: self.minutes@ }
    }
}

impl Coordinate {
    /// The coordinate of a waypoint that no row has set yet.
    pub fn zero() -> (r: Coordinate)
        ensures
            r@ == zero_coordinate(),
    {
        Coordinate {
            negative: false,
            degrees: String::from_str("0"),
            minutes: String::from_str("0"),
        }
    }

    pub fn duplicate(&self) -> (r: Coordinate)
        ensures
            r@ == self@,
    {
        Coordinate {
            negative: self.negative,
            degrees: self.degrees.clone(),
            minutes: self.minutes.clone(),
        }
    }
}

pub open spec fn zero_coordinate() -> CoordinateView {
    CoordinateView { negative: false, degrees: "0"@, minutes: "0"@ }
}

/// A token splits on `°` into exactly two parts when it holds exactly one `°`.
pub open spec fn decode_coordinate_spec(token: Seq<char>, hemisphere: Seq<char>, positive: char) -> Result<
    CoordinateView,
    ConvertError,
> {
    let i = index_of(token, '°', 0);
    if i < token.len() && index_of(token, '°', i + 1) == token.len() {
        Ok(
            CoordinateView {
                negative: !hemisphere.contains(positive),
                degrees: token.subrange(0, i),
                minutes: swap_char(token.subrange(i + 1, token.len() as int), ',', '.'),
            },
        )
    } else {
        Err(ConvertError::InvalidFormat)
    }
}

/// Splits a coordinate token at its degree sign and reads the sign from the hemisphere
/// cell: positive where that cell holds `positive` (`N` or `E`).
pub fn decode_coordinate(token: &Vec<char>, hemisphere: &str, positive: char) -> (r: Result<
    Coordinate,
    ConvertError,
>)
    ensures
        match decode_coordinate_spec(token@, hemisphere@, positive) {
            Ok(v) => r is Ok && r->Ok_0@ == v,
            Err(e) => r == Err::<Coordinate, ConvertError>(e),
        },
{
    let i = index_of_from(token, '°', 0);
    if i >= token.len() {
        return Err(ConvertError::InvalidFormat);
    }
    let j = index_of_from(token, '°', i + 1);
    if j < token.len() {
        return Err(ConvertError::InvalidFormat);
    }
    let h = chars_of(hemisphere);
    let negative = !contains_char(&h, positive);
    let degrees = sub_chars(token, 0, i);
    let rest = sub_chars(token, i + 1, token.len());
    let minutes = replace_char(&rest, ',', '.');
    Ok(
        Coordinate {
            negative,
            degrees: string_of(degrees.as_slice()),
            minutes: string_of(minutes.as_slice()),
        },
    )
}

} // verus!
