//! Geodetic and Cartesian points, the spherical transform and recentering.

use vstd::prelude::*;
use vstd::arithmetic::div_mod::*;
use vstd::string::*;
use chrono::format::ParseError;
use chrono::{Datelike, NaiveDate};
use crate::densify::{
    densified_by, densified_len, densify, lookup_fails, lookups_needed, some_lookup_must_fail,
    waypoint_views,
    DensifiedPoint, DensifiedPointView, Waypoint,
};
use crate::error::GeomError;
use crate::units::{floor_div, EARTH_RADIUS, LENGTH_LIMIT, TRIG_ONE, UNITS_PER_DEGREE};

verus! {

/// A position on or above the Earth's surface: latitude and longitude in
/// angle units, elevation in length units.
#[derive(Clone, Copy, Debug, PartialEq, Eq)]
pub struct GeoPoint {
    pub latitude: i64,
    pub longitude: i64,
    pub elevation: i64,
}

/// The mathematical value of a `GeoPoint`.
pub ghost struct GeoPointView {
    pub latitude: int,
    pub longitude: int,
    pub elevation: int,
}

impl View for GeoPoint {
    type V = GeoPointView;

    open spec fn view(&self) -> GeoPointView {
        GeoPointView {
            latitude: self.latitude as int,
            longitude: self.longitude as int,
            elevation: self.elevation as int,
        }
    }
}

/// A point of three-dimensional space, in length units.
#[derive(Clone, Copy, Debug, PartialEq, Eq)]
pub struct CartesianPoint {
    pub x: i64,
    pub y: i64,
    pub z: i64,
}

/// The mathematical value of a `CartesianPoint`.
pub ghost struct CartesianPointView {
    pub x: int,
    pub y: int,
    pub z: int,
}

impl View for CartesianPoint {
    type V = CartesianPointView;

    open spec fn view(&self) -> CartesianPointView {
        CartesianPointView { x: self.x as int, y: self.y as int, z: self.z as int }
    }
}

/// The values of a sequence of Cartesian points.
pub open spec fn cartesian_views(s: Seq<CartesianPoint>) -> Seq<CartesianPointView> {
    Seq::new(s.len(), |i: int| s[i]@)
}

/// Largest magnitude of an elevation that the transform accepts: the Earth's
/// radius below `LENGTH_LIMIT`.
pub const ELEVATION_LIMIT: i64 = LENGTH_LIMIT - EARTH_RADIUS;

impl GeoPoint {
    /// The elevation is one that the transform accepts.
    pub open spec fn transformable(self) -> bool {
        -ELEVATION_LIMIT <= self.elevation <= ELEVATION_LIMIT
    }

    /// Tests `transformable`.
    pub fn is_transformable(&self) -> (b: bool)
        ensures
            b == self.transformable(),
    {
        -ELEVATION_LIMIT <= self.elevation && self.elevation <= ELEVATION_LIMIT
    }
}

impl CartesianPoint {
    /// Each coordinate is at most `LENGTH_LIMIT` in magnitude.
    pub open spec fn in_range(self) -> bool {
        &&& -LENGTH_LIMIT <= self.x <= LENGTH_LIMIT
        &&& -LENGTH_LIMIT <= self.y <= LENGTH_LIMIT
        &&& -LENGTH_LIMIT <= self.z <= LENGTH_LIMIT
    }

    /// Tests `in_range`.
    pub fn is_in_range(&self) -> (b: bool)
        ensures
            b == self.in_range(),
    {
        -LENGTH_LIMIT <= self.x && self.x <= LENGTH_LIMIT && -LENGTH_LIMIT <= self.y && self.y
            <= LENGTH_LIMIT && -LENGTH_LIMIT <= self.z && self.z <= LENGTH_LIMIT
    }
}

/// The sine and cosine of an angle, each as a multiple of `1 / TRIG_ONE`.
#[derive(Clone, Copy, Debug, PartialEq, Eq)]
pub struct SinCos {
    pub sin: i64,
    pub cos: i64,
}

impl SinCos {
    /// Neither value exceeds 1 in magnitude.
    pub open spec fn wf(self) -> bool {
        &&& -TRIG_ONE <= self.sin <= TRIG_ONE
        &&& -TRIG_ONE <= self.cos <= TRIG_ONE
    }
}

/// The Cartesian position of `p` on a sphere of radius `EARTH_RADIUS`, given
/// the sine and cosine of its latitude and of its longitude. With
/// `r = EARTH_RADIUS + elevation`: `x = r cos(lat) cos(lon)`,
/// `y = r cos(lat) sin(lon)`, `z = r sin(lat)`, each rounded towards negative
/// infinity.
pub open spec fn cartesian_of(p: GeoPointView, lat: SinCos, lon: SinCos) -> CartesianPointView {
    let r = EARTH_RADIUS + p.elevation;
    CartesianPointView {
        x: (r * lat.cos * lon.cos) / (TRIG_ONE * TRIG_ONE),
        y: (r * lat.cos * lon.sin) / (TRIG_ONE * TRIG_ONE),
        z: (r * lat.sin) / (TRIG_ONE as int),
    }
}

/// `(r * a * b) / (t * t)` is at most `|r|` in magnitude where `a` and `b` are
/// at most `t`.
proof fn lemma_scaled_product_bound(r: int, a: int, b: int, t: int, bound: int)
    requires
        0 < t,
        -t <= a <= t,
        -t <= b <= t,
        -bound <= r <= bound,
    ensures
        -((bound * t) * t) <= r * a * b <= (bound * t) * t,
        -bound <= (r * a * b) / (t * t) <= bound,
        -(bound * t) <= r * a <= bound * t,
        -bound <= (r * a) / t <= bound,
{
    let ra = r * a;
    let bt = bound * t;
    let tt = t * t;
    assert(-bt <= ra <= bt) by (nonlinear_arith)
        requires
            0 < t,
            -t <= a <= t,
            -bound <= r <= bound,
            ra == r * a,
            bt == bound * t,
    ;
    assert(-(bt * t) <= ra * b <= bt * t) by (nonlinear_arith)
        requires
            0 < t,
            -t <= b <= t,
            -bt <= ra <= bt,
    ;
    assert(tt > 0 && bt * t == tt * bound && -(bt * t) == tt * (-bound) && bt == t * bound && -bt
        == t * (-bound)) by (nonlinear_arith)
        requires
            t > 0,
            bt == bound * t,
            tt == t * t,
    ;
    lemma_div_multiples_vanish(bound, tt);
    lemma_div_multiples_vanish(-bound, tt);
    lemma_div_is_ordered(tt * (-bound), ra * b, tt);
    lemma_div_is_ordered(ra * b, tt * bound, tt);
    lemma_div_multiples_vanish(bound, t);
    lemma_div_multiples_vanish(-bound, t);
    lemma_div_is_ordered(t * (-bound), ra, t);
    lemma_div_is_ordered(ra, t * bound, t);
}

/// Computes `cartesian_of` on machine integers.
pub fn cartesian_from_trig(p: &GeoPoint, lat: SinCos, lon: SinCos) -> (c: CartesianPoint)
    requires
        p.transformable(),
        lat.wf(),
        lon.wf(),
    ensures
        c@ == cartesian_of(p@, lat, lon),
        c.in_range(),
{
    let r: i64 = EARTH_RADIUS + p.elevation;
    proof {
        lemma_scaled_product_bound(
            r as int,
            lat.cos as int,
            lon.cos as int,
            TRIG_ONE as int,
            LENGTH_LIMIT as int,
        );
        lemma_scaled_product_bound(
            r as int,
            lat.cos as int,
            lon.sin as int,
            TRIG_ONE as int,
            LENGTH_LIMIT as int,
        );
        lemma_scaled_product_bound(
            r as int,
            lat.sin as int,
            lon.sin as int,
            TRIG_ONE as int,
            LENGTH_LIMIT as int,
        );
        assert((LENGTH_LIMIT * TRIG_ONE) * TRIG_ONE < 0x4000_0000_0000_0000_0000_0000_0000_0000)
        ;
        assert(LENGTH_LIMIT * TRIG_ONE < 0x4000_0000_0000_0000_0000_0000);
    }
    let one: u128 = TRIG_ONE as u128;
    let flat: i128 = (r as i128) * (lat.cos as i128);
    let x: i128 = floor_div(flat * (lon.cos as i128), one * one);
    let y: i128 = floor_div(flat * (lon.sin as i128), one * one);
    let z: i128 = floor_div((r as i128) * (lat.sin as i128), one);
    CartesianPoint { x: x as i64, y: y as i64, z: z as i64 }
}

/// `c` is the Cartesian position of `p` for some sine and cosine that
/// `sin_cos` gives of `p`'s latitude and of its longitude.
pub open spec fn is_transform_of<T: Fn(i64) -> SinCos>(
    sin_cos: T,
    p: GeoPoint,
    c: CartesianPoint,
) -> bool {
    exists|lat: SinCos, lon: SinCos|
        {
            &&& #[trigger] sin_cos.ensures((p.latitude,), lat)
            &&& #[trigger] sin_cos.ensures((p.longitude,), lon)
            &&& c@ == cartesian_of(p@, lat, lon)
        }
}

/// Converts each point to Cartesian coordinates, in order, asking `sin_cos`
/// for the sine and cosine of each latitude and longitude.
pub fn to_cartesian<T: Fn(i64) -> SinCos>(points: &Vec<GeoPoint>, sin_cos: &T) -> (out: Vec<
    CartesianPoint,
>)
    requires
        forall|angle: i64| sin_cos.requires((angle,)),
        forall|angle: i64, t: SinCos| sin_cos.ensures((angle,), t) ==> t.wf(),
        forall|i: int| 0 <= i < points.len() ==> (#[trigger] points[i]).transformable(),
    ensures
        out.len() == points.len(),
        forall|i: int|
            0 <= i < out.len() ==> is_transform_of(*sin_cos, points[i], #[trigger] out[i]),
        forall|i: int| 0 <= i < out.len() ==> (#[trigger] out[i]).in_range(),
{
    let mut out: Vec<CartesianPoint> = Vec::new();
    let mut i: usize = 0;
    while i < points.len()
        invariant
            i <= points.len(),
            out.len() == i,
            forall|angle: i64| sin_cos.requires((angle,)),
            forall|angle: i64, t: SinCos| sin_cos.ensures((angle,), t) ==> t.wf(),
            forall|j: int| 0 <= j < points.len() ==> (#[trigger] points[j]).transformable(),
            forall|j: int|
                0 <= j < out.len() ==> is_transform_of(*sin_cos, points[j], #[trigger] out[j]),
            forall|j: int| 0 <= j < out.len() ==> (#[trigger] out[j]).in_range(),
        decreases points.len() - i,
    {
        let p = points[i];
        let lat = sin_cos(p.latitude);
        let lon = sin_cos(p.longitude);
        let c = cartesian_from_trig(&p, lat, lon);
        assert(is_transform_of(*sin_cos, p, c));
        out.push(c);
        i = i + 1;
    }
    out
}

/// Squared distance of a point from the origin.
pub open spec fn magnitude(p: CartesianPointView) -> int {
    p.x * p.x + p.y * p.y + p.z * p.z
}

/// `m` is the index of the first point of least magnitude.
pub open spec fn is_first_minimum(points: Seq<CartesianPointView>, m: int) -> bool {
    &&& 0 <= m < points.len()
    &&& forall|i: int| 0 <= i < points.len() ==> magnitude(points[m]) <= magnitude(#[trigger] points[i])
    &&& forall|i: int| 0 <= i < m ==> magnitude(points[m]) < magnitude(#[trigger] points[i])
}

/// The index of the point that recentering takes for the origin: the first
/// of least magnitude.
pub open spec fn origin_index(points: Seq<CartesianPointView>) -> int {
    choose|m: int| is_first_minimum(points, m)
}

/// `p` as seen from `origin`.
pub open spec fn relative_to(p: CartesianPointView, origin: CartesianPointView) -> CartesianPointView {
    CartesianPointView { x: p.x - origin.x, y: p.y - origin.y, z: p.z - origin.z }
}

/// The points, in order, as seen from the first point of least magnitude.
pub open spec fn recentered(points: Seq<CartesianPointView>) -> Seq<CartesianPointView> {
    Seq::new(points.len(), |i: int| relative_to(points[i], points[origin_index(points)]))
}

/// At most one index is the first minimum, and `origin_index` is that one.
pub proof fn lemma_first_minimum_unique(points: Seq<CartesianPointView>, m: int)
    requires
        is_first_minimum(points, m),
    ensures
        origin_index(points) == m,
{
    let c = origin_index(points);
    assert(is_first_minimum(points, c));
    if c < m {
        assert(magnitude(points[m]) < magnitude(points[c]));
        assert(magnitude(points[c]) <= magnitude(points[m]));
    }
    if m < c {
        assert(magnitude(points[c]) < magnitude(points[m]));
        assert(magnitude(points[m]) <= magnitude(points[c]));
    }
}

/// A sequence that is not empty has a first point of least magnitude.
pub proof fn lemma_first_minimum_exists(points: Seq<CartesianPointView>)
    requires
        points.len() > 0,
    ensures
        is_first_minimum(points, origin_index(points)),
    decreases points.len(),
{
    if points.len() == 1 {
        assert(is_first_minimum(points, 0));
    } else {
        let front = points.drop_last();
        lemma_first_minimum_exists(front);
        let m = origin_index(front);
        let last = points.len() - 1;
        assert(forall|i: int| 0 <= i < last ==> front[i] == points[i]);
        if magnitude(points[last]) < magnitude(points[m]) {
            assert forall|i: int| 0 <= i < points.len() implies magnitude(points[last])
                <= magnitude(#[trigger] points[i]) by {
                if i < last {
                    assert(magnitude(front[m]) <= magnitude(front[i]));
                }
            }
            assert forall|i: int| 0 <= i < last implies magnitude(points[last]) < magnitude(
                #[trigger] points[i],
            ) by {
                assert(magnitude(front[m]) <= magnitude(front[i]));
            }
            assert(is_first_minimum(points, last));
        } else {
            assert forall|i: int| 0 <= i < points.len() implies magnitude(points[m]) <= magnitude(
                #[trigger] points[i],
            ) by {
                if i < last {
                    assert(magnitude(front[m]) <= magnitude(front[i]));
                }
            }
            assert forall|i: int| 0 <= i < m implies magnitude(points[m]) < magnitude(
                #[trigger] points[i],
            ) by {
                assert(magnitude(front[m]) < magnitude(front[i]));
            }
            assert(is_first_minimum(points, m));
        }
    }
}

/// A magnitude is never negative, and is zero only at the origin.
pub proof fn lemma_magnitude_zero(p: CartesianPointView)
    ensures
        magnitude(p) >= 0,
        magnitude(p) == 0 <==> (p.x == 0 && p.y == 0 && p.z == 0),
{
    assert(p.x * p.x >= 0 && p.y * p.y >= 0 && p.z * p.z >= 0) by (nonlinear_arith);
    assert(p.x * p.x == 0 ==> p.x == 0) by (nonlinear_arith);
    assert(p.y * p.y == 0 ==> p.y == 0) by (nonlinear_arith);
    assert(p.z * p.z == 0 ==> p.z == 0) by (nonlinear_arith);
}

/// Recentering pins its origin point at `(0, 0, 0)`, and recentering what is
/// already recentered changes nothing.
pub proof fn lemma_recenter_idempotent(points: Seq<CartesianPointView>)
    ensures
        recentered(points).len() == points.len(),
        points.len() > 0 ==> recentered(points)[origin_index(points)] == (CartesianPointView {
            x: 0,
            y: 0,
            z: 0,
        }),
        points.len() > 0 ==> recentered(points)[origin_index(recentered(points))]
            == (CartesianPointView { x: 0, y: 0, z: 0 }),
        recentered(recentered(points)) == recentered(points),
{
    let once = recentered(points);
    if points.len() > 0 {
        lemma_first_minimum_exists(points);
        let o = origin_index(points);
        assert(once[o] == relative_to(points[o], points[o]));
        lemma_magnitude_zero(once[o]);
        lemma_first_minimum_exists(once);
        let c = origin_index(once);
        assert(magnitude(once[c]) <= magnitude(once[o]));
        lemma_magnitude_zero(once[c]);
        assert forall|i: int| 0 <= i < once.len() implies #[trigger] recentered(once)[i]
            == once[i] by {
            assert(recentered(once)[i] == relative_to(once[i], once[c]));
        }
    }
    assert(recentered(once) =~= once);
}

/// The square of a machine integer.
fn square(v: i64) -> (sq: u128)
    ensures
        sq == v * v,
        sq <= 0x4000_0000_0000_0000_0000_0000_0000_0000,
{
    let wide: i128 = v as i128;
    let a: u128 = if wide >= 0 {
        wide as u128
    } else {
        (-wide) as u128
    };
    proof {
        let lim: int = 0x8000_0000_0000_0000;
        assert(a * a <= lim * lim && a * a == v * v) by (nonlinear_arith)
            requires
                0 <= a <= lim,
                a == v || a == -v,
        ;
    }
    a * a
}

/// Squared magnitude of a point on machine integers.
fn magnitude_of(p: &CartesianPoint) -> (m: u128)
    ensures
        m == magnitude(p@),
{
    square(p.x) + square(p.y) + square(p.z)
}

/// Each coordinate is one that a machine integer holds.
pub open spec fn fits_machine(p: CartesianPointView) -> bool {
    &&& i64::MIN <= p.x <= i64::MAX
    &&& i64::MIN <= p.y <= i64::MAX
    &&& i64::MIN <= p.z <= i64::MAX
}

/// The recentered points are ones that machine integers hold.
pub open spec fn recenter_fits(points: Seq<CartesianPointView>) -> bool {
    forall|i: int| 0 <= i < points.len() ==> fits_machine(#[trigger] recentered(points)[i])
}

/// Points within `LENGTH_LIMIT` can be recentered, and so can points that
/// were recentered before.
pub proof fn lemma_recenter_fits(points: Seq<CartesianPoint>)
    ensures
        (forall|i: int| 0 <= i < points.len() ==> (#[trigger] points[i]).in_range())
            ==> recenter_fits(cartesian_views(points)),
        (exists|before: Seq<CartesianPointView>| cartesian_views(points) == recentered(before))
            ==> recenter_fits(cartesian_views(points)),
{
    let views = cartesian_views(points);
    if forall|i: int| 0 <= i < points.len() ==> (#[trigger] points[i]).in_range() {
        if points.len() > 0 {
            lemma_first_minimum_exists(views);
            let o = origin_index(views);
            assert(points[o].in_range());
            assert forall|i: int| 0 <= i < views.len() implies fits_machine(
                #[trigger] recentered(views)[i],
            ) by {
                assert(points[i].in_range());
            }
        }
    }
    if exists|before: Seq<CartesianPointView>| views == recentered(before) {
        let before = choose|before: Seq<CartesianPointView>| views == recentered(before);
        lemma_recenter_idempotent(before);
        assert forall|i: int| 0 <= i < views.len() implies fits_machine(
            #[trigger] recentered(views)[i],
        ) by {
            assert(recentered(views)[i] == views[i]);
            assert(views[i] == points[i]@);
        }
    }
}

/// Shifts the points so that the first point of least magnitude becomes
/// the origin. Order and length are kept, and the result can be recentered
/// again.
pub fn recenter(points: &Vec<CartesianPoint>) -> (out: Vec<CartesianPoint>)
    requires
        recenter_fits(cartesian_views(points@)),
    ensures
        out.len() == points.len(),
        cartesian_views(out@) == recentered(cartesian_views(points@)),
        recenter_fits(cartesian_views(out@)),
{
    let ghost views = cartesian_views(points@);
    let mut out: Vec<CartesianPoint> = Vec::new();
    if points.len() == 0 {
        assert(cartesian_views(out@) =~= recentered(views));
        proof {
            lemma_recenter_fits(out@);
        }
        return out;
    }
    let mut best: usize = 0;
    let mut least: u128 = magnitude_of(&points[0]);
    let mut i: usize = 1;
    while i < points.len()
        invariant
            1 <= i <= points.len(),
            views == cartesian_views(points@),
            best < i,
            least == magnitude(views[best as int]),
            forall|j: int| 0 <= j < i ==> least <= magnitude(#[trigger] views[j]),
            forall|j: int| 0 <= j < best ==> least < magnitude(#[trigger] views[j]),
        decreases points.len() - i,
    {
        let m = magnitude_of(&points[i]);
        if m < least {
            best = i;
            least = m;
        }
        i = i + 1;
    }
    proof {
        assert(is_first_minimum(views, best as int));
        lemma_first_minimum_unique(views, best as int);
    }
    let origin = points[best];
    let mut j: usize = 0;
    while j < points.len()
        invariant
            j <= points.len(),
            out.len() == j,
            views == cartesian_views(points@),
            origin == points[best as int],
            best < points.len(),
            best == origin_index(views),
            recenter_fits(views),
            forall|i: int|
                0 <= i < j ==> (#[trigger] out[i])@ == relative_to(views[i], views[best as int]),
        decreases points.len() - j,
    {
        let p = points[j];
        assert(fits_machine(recentered(views)[j as int]));
        assert(views[j as int] == p@ && views[best as int] == origin@);
        out.push(CartesianPoint { x: p.x - origin.x, y: p.y - origin.y, z: p.z - origin.z });
        j = j + 1;
    }
    assert(cartesian_views(out@) =~= recentered(views));
    proof {
        lemma_recenter_fits(out@);
    }
    out
}

/// `chrono::NaiveDate`, a calendar date without a time zone.
#[verifier::external_type_specification]
#[verifier::external_body]
pub struct ExNaiveDate(NaiveDate);

/// `chrono::format::ParseError`, why a text is not a date.
#[verifier::external_type_specification]
#[verifier::external_body]
pub struct ExParseError(ParseError);

/// The year number of a date.
pub uninterp spec fn year_of(date: NaiveDate) -> int;

/// The day of the year of a date, counted from 1.
pub uninterp spec fn ordinal_of(date: NaiveDate) -> int;

/// What a text spells in a format: a date, or why it spells none.
pub uninterp spec fn parsed_date(text: Seq<char>, format: Seq<char>) -> Result<NaiveDate, ParseError>;

/// The `Display` text of a parse error.
pub uninterp spec fn parse_error_message(error: ParseError) -> Seq<char>;

/// `chrono::Datelike::year` of a `NaiveDate`: the year number of the date.
#[verifier::external_body]
fn date_year(date: &NaiveDate) -> (year: i32)
    ensures
        year == year_of(*date),
{
    date.year()
}

/// `chrono::Datelike::ordinal` of a `NaiveDate`: the day of the year, counted
/// from 1 and at most 366.
#[verifier::external_body]
fn date_ordinal(date: &NaiveDate) -> (ordinal: u32)
    ensures
        ordinal == ordinal_of(*date),
        1 <= ordinal <= 366,
{
    date.ordinal()
}

/// `chrono::NaiveDate::parse_from_str`: the date that `text` spells in the
/// format `format`, or why it spells none. It reads nothing but the two texts.
#[verifier::external_body]
fn parse_date(text: &str, format: &str) -> (r: Result<NaiveDate, ParseError>)
    ensures
        r == parsed_date(text@, format@),
{
    NaiveDate::parse_from_str(text, format)
}

/// The `Display` text of a `chrono::format::ParseError`.
#[verifier::external_body]
fn parse_error_text(error: &ParseError) -> (text: String)
    ensures
        text@ == parse_error_message(*error),
{
    error.to_string()
}

/// Days that the year counts: 366 where the year number is divisible by 4,
/// 365 otherwise. Century years get no exception.
pub open spec fn days_in_year(year: int) -> int {
    if year % 4 == 0 {
        366
    } else {
        365
    }
}

/// The place of a day within its year as an angle: the fraction
/// `ordinal / days_in_year` of a full turn, in angle units, rounded towards
/// negative infinity.
pub open spec fn angle_of_day(year: int, ordinal: int) -> int {
    (ordinal * 360 * UNITS_PER_DEGREE) / days_in_year(year)
}

/// Computes `angle_of_day` on machine integers.
pub fn day_angle(year: i32, ordinal: u32) -> (angle: i64)
    ensures
        angle == angle_of_day(year as int, ordinal as int),
{
    // year % 4 == 0 exactly where the two low bits of the year are clear
    let leap: bool = year & 3 == 0;
    proof {
        assert((year & 3 == 0) == (year as int % 4 == 0)) by (bit_vector);
    }
    let days: u128 = if leap {
        366
    } else {
        365
    };
    let turn: u128 = 360 * (UNITS_PER_DEGREE as u128);
    let scaled: u128 = (ordinal as u128) * turn;
    let angle: u128 = scaled / days;
    proof {
        lemma_div_is_ordered_by_denominator(scaled as int, 1, days as int);
        lemma_div_basics(scaled as int);
        assert(ordinal * 360 * UNITS_PER_DEGREE == scaled) by (nonlinear_arith)
            requires
                scaled == ordinal * turn,
                turn == 360 * UNITS_PER_DEGREE,
        ;
    }
    angle as i64
}

/// The angle of the date's day within its year.
pub fn date_to_angle(date: NaiveDate) -> (angle: i64)
    ensures
        angle == angle_of_day(year_of(date), ordinal_of(date)),
        1 <= ordinal_of(date) <= 366,
{
    let year = date_year(&date);
    let ordinal = date_ordinal(&date);
    day_angle(year, ordinal)
}

/// The angle of the date that `text` spells in the format `format`; where it
/// spells none, `ChronoParseError` with the text of the parse error.
pub fn text_to_angle(text: &str, format: &str) -> (r: Result<i64, GeomError>)
    ensures
        match parsed_date(text@, format@) {
            Ok(date) => r matches Ok(angle) && angle == angle_of_day(
                year_of(date),
                ordinal_of(date),
            ),
            Err(error) => r matches Err(GeomError::ChronoParseError(m)) && m@
                == parse_error_message(error),
        },
{
    match parse_date(text, format) {
        Ok(date) => Ok(date_to_angle(date)),
        Err(error) => Err(GeomError::ChronoParseError(parse_error_text(&error))),
    }
}

/// A point of a processed batch: its place in the batch's own frame, with
/// the time angle, label and origin mark of the path point it stands for.
#[derive(Clone, Debug, PartialEq, Eq)]
pub struct ProcessedPoint {
    pub position: CartesianPoint,
    pub time_angle: i64,
    pub label: String,
    pub is_original: bool,
}

/// The mathematical value of a `ProcessedPoint`.
pub ghost struct ProcessedPointView {
    pub position: CartesianPointView,
    pub time_angle: int,
    pub label: Seq<char>,
    pub is_original: bool,
}

impl View for ProcessedPoint {
    type V = ProcessedPointView;

    open spec fn view(&self) -> ProcessedPointView {
        ProcessedPointView {
            position: self.position@,
            time_angle: self.time_angle as int,
            label: self.label@,
            is_original: self.is_original,
        }
    }
}

/// The path point `p` at the Cartesian position `at`.
pub open spec fn placed(p: DensifiedPointView, at: CartesianPointView) -> ProcessedPointView {
    ProcessedPointView {
        position: at,
        time_angle: p.time_angle,
        label: p.label,
        is_original: p.is_original,
    }
}

/// The message for positions that do not match the path in number.
pub open spec fn mismatch_text() -> Seq<char> {
    "positions and path points differ in number"@
}

/// Pairs each path point with the position of the same index. Fails with
/// `ShapeError` exactly where the two sequences differ in length.
pub fn attach(path: &Vec<DensifiedPoint>, positions: &Vec<CartesianPoint>) -> (r: Result<
    Vec<ProcessedPoint>,
    GeomError,
>)
    ensures
        match r {
            Ok(out) => {
                &&& path.len() == positions.len()
                &&& out.len() == path.len()
                &&& forall|i: int|
                    0 <= i < out.len() ==> (#[trigger] out[i])@ == placed(path[i]@, positions[i]@)
            },
            Err(GeomError::ShapeError(m)) => path.len() != positions.len() && m@
                == mismatch_text(),
            Err(_) => false,
        },
{
    if path.len() != positions.len() {
        return Err(
            GeomError::ShapeError(String::from_str("positions and path points differ in number")),
        );
    }
    let mut out: Vec<ProcessedPoint> = Vec::new();
    let mut i: usize = 0;
    while i < path.len()
        invariant
            i <= path.len(),
            path.len() == positions.len(),
            out.len() == i,
            forall|j: int| 0 <= j < i ==> (#[trigger] out[j])@ == placed(path[j]@, positions[j]@),
        decreases path.len() - i,
    {
        let p = &path[i];
        out.push(
            ProcessedPoint {
                position: positions[i],
                time_angle: p.time_angle,
                label: p.label.clone(),
                is_original: p.is_original,
            },
        );
        i = i + 1;
    }
    Ok(out)
}

/// `out` is `path` at the positions `positions`, recentered: the positions
/// are what `sin_cos` gives of the path's points, and each point of `out` is
/// the path point of the same index at its recentered position.
pub open spec fn is_processing_with<T: Fn(i64) -> SinCos>(
    sin_cos: T,
    path: Seq<DensifiedPoint>,
    out: Seq<ProcessedPoint>,
    positions: Seq<CartesianPoint>,
) -> bool {
    &&& positions.len() == path.len()
    &&& out.len() == path.len()
    &&& forall|i: int|
        0 <= i < path.len() ==> is_transform_of(sin_cos, path[i].position, #[trigger] positions[i])
    &&& forall|i: int|
        0 <= i < out.len() ==> (#[trigger] out[i])@ == placed(
            path[i]@,
            recentered(cartesian_views(positions))[i],
        )
}

/// `out` is `path` transformed and recentered: for some Cartesian positions
/// that `sin_cos` gives of the path's points, each point of `out` is the path
/// point of the same index at its recentered position.
pub open spec fn is_processing_of<T: Fn(i64) -> SinCos>(
    sin_cos: T,
    path: Seq<DensifiedPoint>,
    out: Seq<ProcessedPoint>,
) -> bool {
    exists|positions: Seq<CartesianPoint>| #[trigger]
        is_processing_with(sin_cos, path, out, positions)
}

/// The positions of processed points, in order.
pub open spec fn processed_positions(out: Seq<ProcessedPoint>) -> Seq<CartesianPointView> {
    Seq::new(out.len(), |i: int| out[i]@.position)
}

/// Transforms the path's points to Cartesian coordinates, recenters them on
/// the first of least magnitude, and gives each back with its metadata.
pub fn transform<T: Fn(i64) -> SinCos>(path: &Vec<DensifiedPoint>, sin_cos: &T) -> (out: Vec<
    ProcessedPoint,
>)
    requires
        forall|angle: i64| sin_cos.requires((angle,)),
        forall|angle: i64, t: SinCos| sin_cos.ensures((angle,), t) ==> t.wf(),
        forall|i: int| 0 <= i < path.len() ==> (#[trigger] path[i]).position.transformable(),
    ensures
        is_processing_of(*sin_cos, path@, out@),
{
    let mut points: Vec<GeoPoint> = Vec::new();
    let mut i: usize = 0;
    while i < path.len()
        invariant
            i <= path.len(),
            points.len() == i,
            forall|j: int| 0 <= j < i ==> #[trigger] points[j] == path[j].position,
        decreases path.len() - i,
    {
        points.push(path[i].position);
        i = i + 1;
    }
    let positions = to_cartesian(&points, sin_cos);
    proof {
        lemma_recenter_fits(positions@);
    }
    let centered = recenter(&positions);
    let ghost target = recentered(cartesian_views(positions@));
    assert(centered.len() == path.len()) by {
        assert(cartesian_views(centered@).len() == target.len());
    }
    match attach(path, &centered) {
        Ok(out) => {
            proof {
                assert forall|i: int| 0 <= i < out.len() implies (#[trigger] out[i])@ == placed(
                    path[i]@,
                    target[i],
                ) by {
                    assert(cartesian_views(centered@)[i] == centered[i]@);
                }
                assert(is_processing_with(*sin_cos, path@, out@, positions@));
            }
            out
        },
        Err(_) => Vec::new(),
    }
}

/// Processes one batch: densifies the path of `waypoints` with `n` points per
/// segment, transforms it to Cartesian coordinates and recenters it. An empty
/// batch gives an empty result. A failed lookup fails the batch.
pub fn process_points<F: Fn(i64, i64) -> Result<i64, String>, T: Fn(i64) -> SinCos>(
    waypoints: Vec<Waypoint>,
    n: usize,
    lookup: &F,
    sin_cos: &T,
) -> (r: Result<Vec<ProcessedPoint>, GeomError>)
    requires
        densified_len(waypoints.len() as nat, n as nat) <= usize::MAX,
        forall|i: int|
            0 <= i < waypoints.len() ==> (#[trigger] waypoints[i]).position.transformable(),
        forall|latitude: i64, longitude: i64| lookup.requires((latitude, longitude)),
        forall|latitude: i64, longitude: i64, elevation: i64|
            lookup.ensures((latitude, longitude), Ok(elevation)) ==> -ELEVATION_LIMIT
                <= elevation <= ELEVATION_LIMIT,
        forall|angle: i64| sin_cos.requires((angle,)),
        forall|angle: i64, t: SinCos| sin_cos.ensures((angle,), t) ==> t.wf(),
    ensures
        match r {
            Ok(out) => exists|path: Seq<DensifiedPoint>|
                {
                    &&& #[trigger] densified_by(
                        *lookup,
                        waypoint_views(waypoints@),
                        n as nat,
                        path,
                    )
                    &&& is_processing_of(*sin_cos, path, out@)
                },
            Err(GeomError::ElevationFetchError(m)) => lookup_fails(
                *lookup,
                waypoint_views(waypoints@),
                n as nat,
                m@,
            ),
            Err(_) => false,
        },
        lookups_needed(waypoints.len() as nat, n as nat) == 0 ==> r is Ok,
        some_lookup_must_fail(*lookup, waypoint_views(waypoints@), n as nat) ==> r is Err,
        r matches Ok(out) ==> out.len() == densified_len(waypoints.len() as nat, n as nat),
{
    let ghost w = waypoint_views(waypoints@);
    let ghost originals = waypoints@;
    match densify(waypoints, n, lookup) {
        Ok(path) => {
            proof {
                let views = crate::densify::densified_views(path@);
                assert forall|j: int| 0 <= j < path.len() implies (#[trigger] path[j]).position.transformable() by {
                    assert(views[j] == path[j]@);
                    crate::densify::lemma_segment_in_range(j, w.len(), n as nat);
                    if !path[j].is_original {
                        assert(lookup.ensures(
                            (path[j].position.latitude, path[j].position.longitude),
                            Ok(path[j].position.elevation),
                        ));
                    } else {
                        let s = crate::densify::segment_of(j, n as nat);
                        assert(w[s] == originals[s]@);
                        assert(originals[s].position.transformable());
                    }
                }
            }
            let out = transform(&path, sin_cos);
            Ok(out)
        },
        Err(e) => Err(e),
    }
}

/// A processed batch keeps its path's order and is centered: it has one
/// point per path point, each with the time angle, label and origin mark of
/// the path point of the same index; its first point of least magnitude lies
/// at `(0, 0, 0)`; and recentering its positions again changes nothing.
pub proof fn lemma_processing_centered<T: Fn(i64) -> SinCos>(
    sin_cos: T,
    path: Seq<DensifiedPoint>,
    out: Seq<ProcessedPoint>,
)
    requires
        is_processing_of(sin_cos, path, out),
    ensures
        out.len() == path.len(),
        forall|i: int|
            0 <= i < out.len() ==> {
                &&& (#[trigger] out[i])@.time_angle == path[i]@.time_angle
                &&& out[i]@.label == path[i]@.label
                &&& out[i]@.is_original == path[i]@.is_original
            },
        out.len() > 0 ==> {
            &&& is_first_minimum(processed_positions(out), origin_index(processed_positions(out)))
            &&& processed_positions(out)[origin_index(processed_positions(out))]
                == (CartesianPointView { x: 0, y: 0, z: 0 })
        },
        forall|i: int|
            0 <= i < out.len() ==> magnitude(#[trigger] processed_positions(out)[i]) >= 0,
        recentered(processed_positions(out)) == processed_positions(out),
{
    let positions = choose|positions: Seq<CartesianPoint>| #[trigger]
        is_processing_with(sin_cos, path, out, positions);
    let c = cartesian_views(positions);
    let q = processed_positions(out);
    assert(q =~= recentered(c));
    lemma_recenter_idempotent(c);
    if out.len() > 0 {
        lemma_first_minimum_exists(q);
    }
    assert forall|i: int| 0 <= i < out.len() implies magnitude(#[trigger] q[i]) >= 0 by {
        lemma_magnitude_zero(q[i]);
    }
}

/// Two processings of the same path are the same where `sin_cos` gives one
/// sine and cosine for each angle: nothing but the path and the trigonometry
/// decides a processed batch, and its origin is a point of its own.
pub proof fn lemma_processing_determined<T: Fn(i64) -> SinCos>(
    sin_cos: T,
    first_path: Seq<DensifiedPoint>,
    second_path: Seq<DensifiedPoint>,
    first: Seq<ProcessedPoint>,
    second: Seq<ProcessedPoint>,
)
    requires
        first_path.len() == second_path.len(),
        forall|i: int| 0 <= i < first_path.len() ==> (#[trigger] first_path[i])@ == second_path[i]@,
        is_processing_of(sin_cos, first_path, first),
        is_processing_of(sin_cos, second_path, second),
        forall|angle: i64, s: SinCos, t: SinCos|
            sin_cos.ensures((angle,), s) && sin_cos.ensures((angle,), t) ==> s == t,
    ensures
        first.len() == second.len(),
        forall|i: int| 0 <= i < first.len() ==> (#[trigger] first[i])@ == second[i]@,
{
    let a = choose|positions: Seq<CartesianPoint>| #[trigger]
        is_processing_with(sin_cos, first_path, first, positions);
    let b = choose|positions: Seq<CartesianPoint>| #[trigger]
        is_processing_with(sin_cos, second_path, second, positions);
    assert forall|i: int| 0 <= i < first_path.len() implies cartesian_views(a)[i]
        == cartesian_views(b)[i] by {
        assert(first_path[i]@ == second_path[i]@);
        assert(first_path[i].position == second_path[i].position);
        assert(is_transform_of(sin_cos, first_path[i].position, a[i]));
        assert(is_transform_of(sin_cos, second_path[i].position, b[i]));
    }
    assert(cartesian_views(a) =~= cartesian_views(b));
    assert forall|i: int| 0 <= i < first.len() implies (#[trigger] first[i])@ == second[i]@ by {
        assert(first_path[i]@ == second_path[i]@);
    }
}

} // verus!
