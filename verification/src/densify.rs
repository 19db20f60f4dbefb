//! Path densification: the waypoints of a batch, with interpolated points
//! between each consecutive pair.

use vstd::prelude::*;
use vstd::arithmetic::div_mod::*;
use vstd::string::*;
use crate::error::GeomError;
use crate::geometry::{GeoPoint, GeoPointView};
use crate::text::{degrees_text, write_degrees};
use crate::units::{interpolate, lerp};

verus! {

/// One input event: where it happened, when in the year, and what it is.
#[derive(Clone, Debug, PartialEq, Eq)]
pub struct Waypoint {
    pub position: GeoPoint,
    pub time_angle: i64,
    pub label: String,
    pub sequence_index: usize,
}

/// The mathematical value of a `Waypoint`.
pub ghost struct WaypointView {
    pub position: GeoPointView,
    pub time_angle: int,
    pub label: Seq<char>,
    pub sequence_index: nat,
}

impl View for Waypoint {
    type V = WaypointView;

    open spec fn view(&self) -> WaypointView {
        WaypointView {
            position: self.position@,
            time_angle: self.time_angle as int,
            label: self.label@,
            sequence_index: self.sequence_index as nat,
        }
    }
}

/// One point of a densified path: a waypoint, or a point interpolated
/// between two consecutive waypoints.
#[derive(Clone, Debug, PartialEq, Eq)]
pub struct DensifiedPoint {
    pub position: GeoPoint,
    pub time_angle: i64,
    pub label: String,
    pub is_original: bool,
}

/// The mathematical value of a `DensifiedPoint`.
pub ghost struct DensifiedPointView {
    pub position: GeoPointView,
    pub time_angle: int,
    pub label: Seq<char>,
    pub is_original: bool,
}

impl View for DensifiedPoint {
    type V = DensifiedPointView;

    open spec fn view(&self) -> DensifiedPointView {
        DensifiedPointView {
            position: self.position@,
            time_angle: self.time_angle as int,
            label: self.label@,
            is_original: self.is_original,
        }
    }
}

/// The values of a sequence of waypoints.
pub open spec fn waypoint_views(s: Seq<Waypoint>) -> Seq<WaypointView> {
    Seq::new(s.len(), |i: int| s[i]@)
}

/// The values of a sequence of densified points.
pub open spec fn densified_views(s: Seq<DensifiedPoint>) -> Seq<DensifiedPointView> {
    Seq::new(s.len(), |i: int| s[i]@)
}

/// The values of a sequence of elevations.
pub open spec fn elevation_values(s: Seq<i64>) -> Seq<int> {
    Seq::new(s.len(), |i: int| s[i] as int)
}

/// Length of the densified path of `k` waypoints with `n` interpolated
/// points per segment.
pub open spec fn densified_len(k: nat, n: nat) -> nat {
    if k == 0 {
        0
    } else {
        (k + (k - 1) * n) as nat
    }
}

/// Number of interpolated points, hence of elevation lookups, in that path.
pub open spec fn lookups_needed(k: nat, n: nat) -> nat {
    if k == 0 {
        0
    } else {
        ((k - 1) * n) as nat
    }
}

/// The segment that output index `j` belongs to: the index of the waypoint
/// at or before it.
pub open spec fn segment_of(j: int, n: nat) -> int {
    j / (n as int + 1)
}

/// The place of output index `j` within its segment: 0 for the waypoint
/// itself, `1..=n` for the interpolated points after it.
pub open spec fn step_of(j: int, n: nat) -> int {
    j % (n as int + 1)
}

/// The output index of the `idx`-th interpolated point, counted in path order.
pub open spec fn output_index(idx: int, n: nat) -> int {
    (idx / (n as int)) * (n as int + 1) + idx % (n as int) + 1
}

/// The rank among the interpolated points of the one at output index `j`.
pub open spec fn lookup_index(j: int, n: nat) -> int {
    segment_of(j, n) * n + step_of(j, n) - 1
}

/// A waypoint as a point of the output.
pub open spec fn original_point(w: WaypointView) -> DensifiedPointView {
    DensifiedPointView {
        position: w.position,
        time_angle: w.time_angle,
        label: w.label,
        is_original: true,
    }
}

/// The point at step `i` of `n + 1` on the way from `start` to `end`, with the
/// elevation that was looked up for it. Latitude, longitude and time angle
/// are interpolated; the label is that of `start`.
pub open spec fn interpolated_point(
    start: WaypointView,
    end: WaypointView,
    i: int,
    n: nat,
    elevation: int,
) -> DensifiedPointView {
    DensifiedPointView {
        position: GeoPointView {
            latitude: lerp(start.position.latitude, end.position.latitude, i, n as int + 1),
            longitude: lerp(start.position.longitude, end.position.longitude, i, n as int + 1),
            elevation,
        },
        time_angle: lerp(start.time_angle, end.time_angle, i, n as int + 1),
        label: start.label,
        is_original: false,
    }
}

/// The point at output index `j`, given the elevation looked up for it (which
/// counts only where the point is interpolated).
pub open spec fn densified_point(
    w: Seq<WaypointView>,
    n: nat,
    j: int,
    elevation: int,
) -> DensifiedPointView {
    let s = segment_of(j, n);
    let i = step_of(j, n);
    if i == 0 {
        original_point(w[s])
    } else {
        interpolated_point(w[s], w[s + 1], i, n, elevation)
    }
}

/// The densified path of `w` with `n` interpolated points per segment, where
/// `elevations` holds the looked-up elevation of each interpolated point in
/// path order.
pub open spec fn densified(w: Seq<WaypointView>, n: nat, elevations: Seq<int>) -> Seq<
    DensifiedPointView,
> {
    Seq::new(
        densified_len(w.len(), n),
        |j: int| densified_point(w, n, j, elevations[lookup_index(j, n)]),
    )
}

/// Latitude and longitude of the `idx`-th interpolated point: what its
/// elevation lookup is asked for.
pub open spec fn lookup_site(w: Seq<WaypointView>, n: nat, idx: int) -> (int, int) {
    let s = idx / (n as int);
    let i = idx % (n as int) + 1;
    (
        lerp(w[s].position.latitude, w[s + 1].position.latitude, i, n as int + 1),
        lerp(w[s].position.longitude, w[s + 1].position.longitude, i, n as int + 1),
    )
}

/// Output index `s * (n + 1) + i` lies in segment `s` at step `i`.
pub proof fn lemma_segment_step(s: int, i: int, n: nat)
    requires
        0 <= i <= n,
    ensures
        segment_of(s * (n as int + 1) + i, n) == s,
        step_of(s * (n as int + 1) + i, n) == i,
        lookup_index(s * (n as int + 1) + i, n) == s * n + i - 1,
{
    let m = n as int + 1;
    assert(s * m + i == m * s + i) by (nonlinear_arith);
    lemma_fundamental_div_mod_converse(s * m + i, m, s, i);
}

/// The length of the densified path of `k` waypoints, where it fits the
/// machine's index type.
pub fn output_len(k: usize, n: usize) -> (len: Option<usize>)
    ensures
        len is Some <==> densified_len(k as nat, n as nat) <= usize::MAX,
        len matches Some(l) ==> l == densified_len(k as nat, n as nat),
{
    if k == 0 {
        return Some(0);
    }
    let gaps: u128 = (k - 1) as u128;
    proof {
        assert(gaps * n <= 0xffff_ffff_ffff_ffff * 0xffff_ffff_ffff_ffff) by (nonlinear_arith)
            requires
                0 <= gaps <= 0xffff_ffff_ffff_ffff,
                0 <= n <= 0xffff_ffff_ffff_ffff,
        ;
    }
    let total: u128 = gaps * (n as u128) + (k as u128);
    if total <= usize::MAX as u128 {
        Some(total as usize)
    } else {
        None
    }
}

/// `w` as a point of the output.
fn original_of(w: &Waypoint) -> (p: DensifiedPoint)
    ensures
        p@ == original_point(w@),
{
    DensifiedPoint {
        position: w.position,
        time_angle: w.time_angle,
        label: w.label.clone(),
        is_original: true,
    }
}

/// The point at step `i` of `n + 1` between `start` and `end`.
fn interpolated_of(start: &Waypoint, end: &Waypoint, i: usize, n: usize, elevation: i64) -> (p:
    DensifiedPoint)
    requires
        1 <= i <= n,
    ensures
        p@ == interpolated_point(start@, end@, i as int, n as nat, elevation as int),
{
    DensifiedPoint {
        position: GeoPoint {
            latitude: interpolate(start.position.latitude, end.position.latitude, i, n),
            longitude: interpolate(start.position.longitude, end.position.longitude, i, n),
            elevation,
        },
        time_angle: interpolate(start.time_angle, end.time_angle, i, n),
        label: start.label.clone(),
        is_original: false,
    }
}

/// Builds the densified path from the waypoints and the elevations that
/// were looked up for the interpolated points, given in path order.
pub fn assemble(waypoints: &Vec<Waypoint>, n: usize, elevations: &Vec<i64>) -> (out: Vec<
    DensifiedPoint,
>)
    requires
        densified_len(waypoints.len() as nat, n as nat) <= usize::MAX,
        elevations.len() == lookups_needed(waypoints.len() as nat, n as nat),
    ensures
        out.len() == densified_len(waypoints.len() as nat, n as nat),
        densified_views(out@) == densified(
            waypoint_views(waypoints@),
            n as nat,
            elevation_values(elevations@),
        ),
{
    let k = waypoints.len();
    let mut out: Vec<DensifiedPoint> = Vec::new();
    if k == 0 {
        assert(densified_views(out@) =~= densified(
            waypoint_views(waypoints@),
            n as nat,
            elevation_values(elevations@),
        ));
        return out;
    }
    let ghost w = waypoint_views(waypoints@);
    let ghost e = elevation_values(elevations@);
    let mut s: usize = 0;
    let mut idx: usize = 0;
    while s + 1 < k
        invariant
            k == waypoints.len(),
            k >= 1,
            s < k,
            w == waypoint_views(waypoints@),
            e == elevation_values(elevations@),
            densified_len(k as nat, n as nat) <= usize::MAX,
            elevations.len() == (k - 1) * n,
            out.len() == s * (n + 1),
            idx == s * n,
            forall|j: int|
                0 <= j < out.len() ==> (#[trigger] out[j])@ == densified_point(
                    w,
                    n as nat,
                    j,
                    e[lookup_index(j, n as nat)],
                ),
        decreases k - s,
    {
        proof {
            assert(s * (n + 1) + (n + 1) <= (k - 1) * (n + 1) && (k - 1) * (n + 1) + 1 == k + (k
                - 1) * n && s * n + n <= (k - 1) * n) by (nonlinear_arith)
                requires
                    s + 1 <= k - 1,
                    0 <= n,
            ;
            lemma_segment_step(s as int, 0, n as nat);
        }
        out.push(original_of(&waypoints[s]));
        let mut i: usize = 1;
        while i <= n
            invariant
                k == waypoints.len(),
                s + 1 < k,
                1 <= i <= n + 1,
                n < usize::MAX,
                w == waypoint_views(waypoints@),
                e == elevation_values(elevations@),
                elevations.len() == (k - 1) * n,
                s * n + n <= (k - 1) * n,
                s * (n + 1) + (n + 1) <= usize::MAX,
                out.len() == s * (n + 1) + i,
                idx == s * n + i - 1,
                forall|j: int|
                    0 <= j < out.len() ==> (#[trigger] out[j])@ == densified_point(
                        w,
                        n as nat,
                        j,
                        e[lookup_index(j, n as nat)],
                    ),
            decreases n + 1 - i,
        {
            proof {
                lemma_segment_step(s as int, i as int, n as nat);
            }
            let p = interpolated_of(&waypoints[s], &waypoints[s + 1], i, n, elevations[idx]);
            out.push(p);
            idx = idx + 1;
            i = i + 1;
        }
        proof {
            assert((s + 1) * (n + 1) == s * (n + 1) + (n + 1) && (s + 1) * n == s * n + n)
                by (nonlinear_arith);
        }
        s = s + 1;
    }
    proof {
        assert((k - 1) * (n + 1) + 1 == k + (k - 1) * n) by (nonlinear_arith);
        lemma_segment_step(s as int, 0, n as nat);
    }
    out.push(original_of(&waypoints[s]));
    assert(densified_views(out@) =~= densified(w, n as nat, e));
    out
}

/// The text of the error that `Densifier::finish` gives while lookups are
/// outstanding.
pub open spec fn outstanding_text() -> Seq<char> {
    "elevation lookups are outstanding"@
}

/// The text of the error for a lookup that failed with `message` at the
/// site `(latitude, longitude)`: the message, then the site in degrees.
pub open spec fn failure_text(message: Seq<char>, site: (int, int)) -> Seq<char> {
    message + " (elevation lookup at "@ + degrees_text(site.0) + ","@ + degrees_text(site.1)
        + ")"@
}

/// A densification in progress. It asks for one elevation at a time, in path
/// order, and hands out the densified path only when every interpolated point
/// has its elevation: a failed lookup leaves nothing to hand out.
pub struct Densifier {
    waypoints: Vec<Waypoint>,
    per_segment: usize,
    elevations: Vec<i64>,
    failure: Option<String>,
}

impl Densifier {
    /// The waypoints being densified.
    pub closed spec fn waypoints(&self) -> Seq<WaypointView> {
        waypoint_views(self.waypoints@)
    }

    /// The number of interpolated points per segment.
    pub closed spec fn per_segment(&self) -> nat {
        self.per_segment as nat
    }

    /// The elevations supplied so far, in path order.
    pub closed spec fn supplied(&self) -> Seq<int> {
        elevation_values(self.elevations@)
    }

    /// The message of the lookup failure, once one was supplied.
    pub closed spec fn failure(&self) -> Option<Seq<char>> {
        match self.failure {
            Some(m) => Some(m@),
            None => None,
        }
    }

    /// The number of lookups that the whole path takes.
    pub open spec fn needed(&self) -> nat {
        lookups_needed(self.waypoints().len(), self.per_segment())
    }

    /// A lookup is still wanted: none has failed and some are outstanding.
    pub open spec fn pending(&self) -> bool {
        self.failure() is None && self.supplied().len() < self.needed()
    }

    /// The path fits the machine, no more elevations were supplied than it
    /// takes, and a failure stands for a lookup that is still outstanding.
    pub closed spec fn wf(&self) -> bool {
        &&& densified_len(self.waypoints@.len(), self.per_segment as nat) <= usize::MAX
        &&& self.elevations@.len() <= lookups_needed(
            self.waypoints@.len(),
            self.per_segment as nat,
        )
        &&& self.failure is Some ==> self.elevations@.len() < lookups_needed(
            self.waypoints@.len(),
            self.per_segment as nat,
        )
    }

    /// Starts the densification of `waypoints` with `n` interpolated points
    /// per segment.
    pub fn new(waypoints: Vec<Waypoint>, n: usize) -> (d: Densifier)
        requires
            densified_len(waypoints.len() as nat, n as nat) <= usize::MAX,
        ensures
            d.wf(),
            d.waypoints() == waypoint_views(waypoints@),
            d.per_segment() == n,
            d.supplied() == Seq::<int>::empty(),
            d.failure() is None,
            d.supplied().len() <= d.needed(),
    {
        let d = Densifier { waypoints, per_segment: n, elevations: Vec::new(), failure: None };
        assert(d.supplied() =~= Seq::<int>::empty());
        d
    }

    /// The number of lookups that the path takes, on machine integers.
    fn total(&self) -> (total: usize)
        requires
            self.wf(),
        ensures
            total == self.needed(),
    {
        let k = self.waypoints.len();
        let n = self.per_segment;
        if k == 0 || n == 0 {
            assert((k - 1) * 0 == 0) by (nonlinear_arith);
            return 0;
        }
        (k - 1) * n
    }

    /// What the `idx`-th lookup is asked for.
    fn site_at(&self, idx: usize) -> (site: (i64, i64))
        requires
            self.wf(),
            idx < self.needed(),
        ensures
            (site.0 as int, site.1 as int) == lookup_site(
                self.waypoints(),
                self.per_segment(),
                idx as int,
            ),
    {
        let k = self.waypoints.len();
        let n = self.per_segment;
        assert(n > 0 && k > 0) by {
            if n == 0 {
                assert((k - 1) * 0 == 0) by (nonlinear_arith);
            }
        }
        let s: usize = idx / n;
        let i: usize = idx % n + 1;
        proof {
            lemma_fundamental_div_mod(idx as int, n as int);
            assert(s < k - 1) by (nonlinear_arith)
                requires
                    idx < (k - 1) * n,
                    idx == n * s + (idx as int % n as int),
                    0 <= (idx as int % n as int),
                    0 < n,
            ;
        }
        let start = &self.waypoints[s];
        let end = &self.waypoints[s + 1];
        let latitude = interpolate(start.position.latitude, end.position.latitude, i, n);
        let longitude = interpolate(start.position.longitude, end.position.longitude, i, n);
        (latitude, longitude)
    }

    /// The latitude and longitude whose elevation is wanted next, or `None`
    /// when a lookup has failed or every elevation is in.
    pub fn next_lookup(&self) -> (site: Option<(i64, i64)>)
        requires
            self.wf(),
        ensures
            site is Some <==> self.pending(),
            site matches Some((latitude, longitude)) ==> (latitude as int, longitude as int)
                == lookup_site(self.waypoints(), self.per_segment(), self.supplied().len() as int),
    {
        if self.failure.is_some() {
            return None;
        }
        let idx = self.elevations.len();
        if idx >= self.total() {
            return None;
        }
        Some(self.site_at(idx))
    }

    /// The latitude and longitude of the lookup that failed, once one has.
    pub fn failed_lookup(&self) -> (site: Option<(i64, i64)>)
        requires
            self.wf(),
        ensures
            site is Some <==> self.failure() is Some,
            site matches Some((latitude, longitude)) ==> (latitude as int, longitude as int)
                == lookup_site(self.waypoints(), self.per_segment(), self.supplied().len() as int),
    {
        if self.failure.is_none() {
            return None;
        }
        Some(self.site_at(self.elevations.len()))
    }

    /// Takes the outcome of the lookup that `next_lookup` asked for: an
    /// elevation, or the message of the failure. Does nothing when no lookup
    /// is wanted.
    pub fn supply(&mut self, outcome: Result<i64, String>)
        requires
            old(self).wf(),
        ensures
            final(self).wf(),
            final(self).waypoints() == old(self).waypoints(),
            final(self).per_segment() == old(self).per_segment(),
            final(self).supplied().len() <= final(self).needed(),
            final(self).failure() is Some ==> final(self).supplied().len() < final(self).needed(),
            !old(self).pending() ==> final(self).supplied() == old(self).supplied()
                && final(self).failure() == old(self).failure(),
            old(self).pending() ==> match outcome {
                Ok(elevation) => final(self).supplied() == old(self).supplied().push(
                    elevation as int,
                ) && final(self).failure() is None,
                Err(message) => final(self).supplied() == old(self).supplied()
                    && final(self).failure() == Some(message@),
            },
    {
        if self.failure.is_some() || self.elevations.len() >= self.total() {
            return ;
        }
        match outcome {
            Ok(elevation) => {
                self.elevations.push(elevation);
                assert(self.supplied() =~= old(self).supplied().push(elevation as int));
            },
            Err(message) => {
                self.failure = Some(message);
            },
        }
    }

    /// What a well-formed densifier's counts obey: no more elevations are in
    /// than the path takes, fewer where a lookup has failed, and the path fits
    /// the machine.
    pub proof fn lemma_counts(&self)
        requires
            self.wf(),
        ensures
            self.supplied().len() <= self.needed(),
            self.failure() is Some ==> self.supplied().len() < self.needed(),
            densified_len(self.waypoints().len(), self.per_segment()) <= usize::MAX,
    {
    }

    /// Ends the densification. Gives the densified path when every elevation
    /// is in. Where a lookup failed, gives `ElevationFetchError` with the
    /// lookup's message and the site it was asked for. Gives
    /// `DiscretizationError` while lookups are outstanding.
    pub fn finish(self) -> (r: Result<Vec<DensifiedPoint>, GeomError>)
        requires
            self.wf(),
        ensures
            match r {
                Ok(out) => {
                    &&& self.failure() is None
                    &&& !self.pending()
                    &&& out.len() == densified_len(self.waypoints().len(), self.per_segment())
                    &&& densified_views(out@) == densified(
                        self.waypoints(),
                        self.per_segment(),
                        self.supplied(),
                    )
                },
                Err(GeomError::ElevationFetchError(m)) => self.failure() matches Some(message)
                    && m@ == failure_text(
                    message,
                    lookup_site(
                        self.waypoints(),
                        self.per_segment(),
                        self.supplied().len() as int,
                    ),
                ),
                Err(GeomError::DiscretizationError(m)) => self.pending() && m@
                    == outstanding_text(),
                Err(_) => false,
            },
    {
        if self.failure.is_some() {
            let (latitude, longitude) = self.site_at(self.elevations.len());
            let mut text = match self.failure {
                Some(message) => message,
                None => String::from_str(""),
            };
            text.append(" (elevation lookup at ");
            text.append(write_degrees(latitude).as_str());
            text.append(",");
            text.append(write_degrees(longitude).as_str());
            text.append(")");
            return Err(GeomError::ElevationFetchError(text));
        }
        if self.elevations.len() == self.total() {
            Ok(assemble(&self.waypoints, self.per_segment, &self.elevations))
        } else {
            Err(GeomError::DiscretizationError(String::from_str("elevation lookups are outstanding")))
        }
    }
}

/// `out` is a densified path of `w`: it has the length of one, and each of its
/// points is the waypoint or the interpolated point that belongs at its index,
/// with whatever elevation an interpolated point carries.
pub open spec fn is_densification(w: Seq<WaypointView>, n: nat, out: Seq<DensifiedPointView>) -> bool {
    &&& out.len() == densified_len(w.len(), n)
    &&& forall|j: int|
        0 <= j < out.len() ==> #[trigger] out[j] == densified_point(
            w,
            n,
            j,
            out[j].position.elevation,
        )
}

/// What the `idx`-th lookup is asked for, as machine integers.
pub open spec fn site_of(w: Seq<WaypointView>, n: nat, idx: int) -> (i64, i64) {
    (lookup_site(w, n, idx).0 as i64, lookup_site(w, n, idx).1 as i64)
}

/// An interpolated point's output index and its rank among the interpolated
/// points determine each other.
pub proof fn lemma_lookup_index(j: int, k: nat, n: nat)
    requires
        0 <= j < densified_len(k, n),
        step_of(j, n) != 0,
    ensures
        n > 0,
        0 <= segment_of(j, n),
        segment_of(j, n) + 1 < k,
        0 <= lookup_index(j, n) < lookups_needed(k, n),
        lookup_index(j, n) / (n as int) == segment_of(j, n),
        lookup_index(j, n) % (n as int) + 1 == step_of(j, n),
        output_index(lookup_index(j, n), n) == j,
{
    let m = n as int + 1;
    let s = j / m;
    let i = j % m;
    lemma_fundamental_div_mod(j, m);
    lemma_mod_bound(j, m);
    lemma_div_pos_is_pos(j, m);
    assert(s * (n as int) >= 0) by (nonlinear_arith)
        requires
            s >= 0,
            n >= 0,
    ;
    assert(s * n + (i - 1) == (n as int) * s + (i - 1)) by (nonlinear_arith);
    lemma_fundamental_div_mod_converse(s * n + i - 1, n as int, s, i - 1);
    assert(s * m + i == m * s + i) by (nonlinear_arith);
    assert(s + 1 < k && s * n + i - 1 < (k - 1) * n) by (nonlinear_arith)
        requires
            j == m * s + i,
            j < k + (k - 1) * n,
            m == n + 1,
            1 <= i <= n,
            0 <= s,
            k >= 1,
    ;
}

/// The length law: no waypoints give no points, one waypoint gives one, and
/// `k` waypoints give `k + (k - 1) * n`.
pub proof fn lemma_length_law(w: Seq<WaypointView>, n: nat, elevations: Seq<int>)
    ensures
        densified(w, n, elevations).len() == densified_len(w.len(), n),
        densified_len(0, n) == 0,
        densified_len(1, n) == 1,
        w.len() >= 1 ==> densified(w, n, elevations).len() == w.len() + (w.len() - 1) * n,
        densified_len(w.len(), n) == w.len() + lookups_needed(w.len(), n),
{
    assert(0 * n == 0) by (nonlinear_arith);
    if w.len() >= 1 {
        assert((w.len() - 1) * n >= 0) by (nonlinear_arith)
            requires
                w.len() >= 1,
        ;
    }
}

/// The model path is a densified path, whatever the elevations.
pub proof fn lemma_densified_is_densification(w: Seq<WaypointView>, n: nat, elevations: Seq<int>)
    ensures
        is_densification(w, n, densified(w, n, elevations)),
{
}

/// Every output index lies in a segment that starts at a waypoint, and the
/// index of the last waypoint is the last output index.
pub proof fn lemma_segment_in_range(j: int, k: nat, n: nat)
    requires
        0 <= j < densified_len(k, n),
    ensures
        0 <= segment_of(j, n) < k,
        0 <= step_of(j, n) <= n,
        step_of(j, n) != 0 ==> segment_of(j, n) + 1 < k,
        segment_of(densified_len(k, n) - 1, n) == k - 1,
        step_of(densified_len(k, n) - 1, n) == 0,
        segment_of(0, n) == 0,
        step_of(0, n) == 0,
{
    let m = n as int + 1;
    lemma_fundamental_div_mod(j, m);
    lemma_mod_bound(j, m);
    lemma_div_pos_is_pos(j, m);
    let s = j / m;
    let i = j % m;
    assert(s < k && (i != 0 ==> s + 1 < k)) by (nonlinear_arith)
        requires
            j == m * s + i,
            j < k + (k - 1) * n,
            m == n + 1,
            0 <= i <= n,
            0 <= s,
            k >= 1,
    ;
    assert((k - 1) * m + 0 == k + (k - 1) * n - 1) by (nonlinear_arith)
        requires
            m == n + 1,
    ;
    lemma_segment_step(k - 1, 0, n);
    lemma_segment_step(0, 0, n);
    assert(0 * m + 0 == 0);
}

/// Endpoint preservation: a densified path starts with the first waypoint
/// and ends with the last, both marked original, and a point is marked
/// original exactly where it is a waypoint.
pub proof fn lemma_endpoints_preserved(w: Seq<WaypointView>, n: nat, out: Seq<DensifiedPointView>)
    requires
        w.len() >= 1,
        is_densification(w, n, out),
    ensures
        out.len() >= 1,
        out[0] == original_point(w[0]),
        out[out.len() - 1] == original_point(w[w.len() - 1]),
        forall|j: int| 0 <= j < out.len() ==> ((#[trigger] out[j]).is_original <==> step_of(j, n) == 0),
        forall|j: int|
            0 <= j < out.len() && step_of(j, n) == 0 ==> #[trigger] out[j] == original_point(
                w[segment_of(j, n)],
            ),
{
    lemma_length_law(w, n, Seq::empty());
    lemma_segment_in_range(0, w.len(), n);
}

/// The waypoints' sequence indices grow along the sequence.
pub open spec fn ordered_by_index(w: Seq<WaypointView>) -> bool {
    forall|a: int, b: int|
        0 <= a < b < w.len() ==> (#[trigger] w[a]).sequence_index < (#[trigger] w[b]).sequence_index
}

/// Order preservation: position, time angle and label of each output point
/// come from one and the same segment, and a later output point never comes
/// from an earlier segment. Where the waypoints are ordered by sequence index,
/// so are the waypoints that the output points descend from.
pub proof fn lemma_order_preserved(
    w: Seq<WaypointView>,
    n: nat,
    out: Seq<DensifiedPointView>,
    j1: int,
    j2: int,
)
    requires
        is_densification(w, n, out),
        0 <= j1 <= j2 < out.len(),
    ensures
        0 <= segment_of(j1, n) <= segment_of(j2, n) < w.len(),
        out[j1].label == w[segment_of(j1, n)].label,
        out[j2].label == w[segment_of(j2, n)].label,
        out[j1] == densified_point(w, n, j1, out[j1].position.elevation),
        out[j2] == densified_point(w, n, j2, out[j2].position.elevation),
        ordered_by_index(w) ==> w[segment_of(j1, n)].sequence_index <= w[segment_of(
            j2,
            n,
        )].sequence_index,
        ordered_by_index(w) && step_of(j1, n) == 0 && step_of(j2, n) == 0 && j1 < j2 ==> w[segment_of(
            j1,
            n,
        )].sequence_index < w[segment_of(j2, n)].sequence_index,
{
    let m = n as int + 1;
    lemma_segment_in_range(j1, w.len(), n);
    lemma_segment_in_range(j2, w.len(), n);
    lemma_div_is_ordered(j1, j2, m);
    lemma_fundamental_div_mod(j1, m);
    lemma_fundamental_div_mod(j2, m);
    if step_of(j1, n) == 0 && step_of(j2, n) == 0 && j1 < j2 {
        assert(segment_of(j1, n) != segment_of(j2, n));
    }
}

/// The points interpolated between `start` and `end`, in path order.
pub open spec fn bridge_points(
    start: WaypointView,
    end: WaypointView,
    n: nat,
    elevations: Seq<int>,
) -> Seq<DensifiedPointView> {
    Seq::new(n, |i: int| interpolated_point(start, end, i + 1, n, elevations[i]))
}

/// Batch isolation: the densified path of two batches laid end to end is
/// the densified path of the first, the points interpolated between the
/// first's last waypoint and the second's first, and the densified path of
/// the second. So densifying the batches one by one gives every point of the
/// whole path but those that would lie between waypoints of different
/// batches, and no point that depends on a waypoint of the other batch.
pub proof fn lemma_batch_isolation(
    a: Seq<WaypointView>,
    b: Seq<WaypointView>,
    n: nat,
    ea: Seq<int>,
    bridge: Seq<int>,
    eb: Seq<int>,
)
    requires
        a.len() >= 1,
        b.len() >= 1,
        ea.len() == lookups_needed(a.len(), n),
        bridge.len() == n,
        eb.len() == lookups_needed(b.len(), n),
    ensures
        densified(a + b, n, ea + bridge + eb) == densified(a, n, ea) + bridge_points(
            a[a.len() - 1],
            b[0],
            n,
            bridge,
        ) + densified(b, n, eb),
{
    let m = n as int + 1;
    let ka = a.len() as int;
    let kb = b.len() as int;
    let w = a + b;
    let e = ea + bridge + eb;
    let whole = densified(w, n, e);
    let left = densified(a, n, ea);
    let mid = bridge_points(a[ka - 1], b[0], n, bridge);
    let right = densified(b, n, eb);
    let parts = left + mid + right;
    assert((ka - 1) * n >= 0 && (kb - 1) * n >= 0 && (ka + kb - 1) * n == (ka - 1) * n + n + (kb
        - 1) * n && (ka - 1) * m + 1 == ka + (ka - 1) * n && ka * m == (ka - 1) * m + m && ka * n
        == (ka - 1) * n + n) by (nonlinear_arith)
        requires
            ka >= 1,
            kb >= 1,
            m == n + 1,
    ;
    assert(whole.len() == parts.len());
    assert forall|j: int| 0 <= j < whole.len() implies whole[j] == parts[j] by {
        lemma_segment_in_range(j, w.len(), n);
        let s = segment_of(j, n);
        let i = step_of(j, n);
        lemma_fundamental_div_mod(j, m);
        if j < left.len() {
            lemma_segment_in_range(j, a.len(), n);
            if i != 0 {
                lemma_lookup_index(j, a.len(), n);
            }
        } else if j < left.len() + n {
            // one of the points between the batches
            let i0 = j - left.len();
            assert(j == (ka - 1) * m + (i0 + 1));
            lemma_segment_step(ka - 1, i0 + 1, n);
            assert(mid[i0] == interpolated_point(a[ka - 1], b[0], i0 + 1, n, bridge[i0]));
            assert(parts[j] == mid[i0]);
            assert(lookup_index(j, n) == (ka - 1) * n + i0);
            assert(e[lookup_index(j, n)] == bridge[i0]);
        } else {
            let j0 = j - ka * m;
            assert(parts[j] == right[j0]);
            lemma_segment_in_range(j0, b.len(), n);
            let s0 = segment_of(j0, n);
            let i0 = step_of(j0, n);
            lemma_fundamental_div_mod(j0, m);
            assert(j == (ka + s0) * m + i0) by (nonlinear_arith)
                requires
                    j0 == m * s0 + i0,
                    j == j0 + ka * m,
            ;
            lemma_segment_step(ka + s0, i0, n);
            assert(w[ka + s0] == b[s0]);
            if i0 != 0 {
                lemma_lookup_index(j0, b.len(), n);
                assert(w[ka + s0 + 1] == b[s0 + 1]);
                assert(lookup_index(j, n) == ka * n + lookup_index(j0, n)) by (nonlinear_arith)
                    requires
                        lookup_index(j, n) == (ka + s0) * n + i0 - 1,
                        lookup_index(j0, n) == s0 * n + i0 - 1,
                ;
                assert(e[lookup_index(j, n)] == eb[lookup_index(j0, n)]);
            }
        }
    }
    assert(whole =~= parts);
}

/// `out` is a densified path of `w` in which every interpolated point
/// carries an elevation that `lookup` gave for that point's own latitude and
/// longitude.
pub open spec fn densified_by<F: Fn(i64, i64) -> Result<i64, String>>(
    lookup: F,
    w: Seq<WaypointView>,
    n: nat,
    out: Seq<DensifiedPoint>,
) -> bool {
    &&& is_densification(w, n, densified_views(out))
    &&& forall|j: int|
        0 <= j < out.len() && !(#[trigger] out[j]).is_original ==> lookup.ensures(
            (out[j].position.latitude, out[j].position.longitude),
            Ok(out[j].position.elevation),
        )
}

/// `text` is the error of a lookup that failed on one of the sites that
/// densifying `w` asks `lookup` for: the lookup's message and that site.
pub open spec fn lookup_fails<F: Fn(i64, i64) -> Result<i64, String>>(
    lookup: F,
    w: Seq<WaypointView>,
    n: nat,
    text: Seq<char>,
) -> bool {
    exists|idx: int, message: String|
        {
            &&& 0 <= idx < lookups_needed(w.len(), n)
            &&& #[trigger] lookup.ensures(site_of(w, n, idx), Err(message))
            &&& text == failure_text(message@, lookup_site(w, n, idx))
        }
}

/// The `idx`-th interpolated point stands at output index `output_index`,
/// which lies in the path, and its rank is `idx`.
pub proof fn lemma_output_index(idx: int, k: nat, n: nat)
    requires
        0 <= idx < lookups_needed(k, n),
    ensures
        n > 0,
        0 <= output_index(idx, n) < densified_len(k, n),
        segment_of(output_index(idx, n), n) == idx / (n as int),
        step_of(output_index(idx, n), n) == idx % (n as int) + 1,
        lookup_index(output_index(idx, n), n) == idx,
{
    assert(n > 0) by {
        if n == 0 {
            assert((k - 1) * 0 == 0) by (nonlinear_arith);
        }
    }
    let s = idx / (n as int);
    let i = idx % (n as int) + 1;
    lemma_fundamental_div_mod(idx, n as int);
    lemma_mod_bound(idx, n as int);
    lemma_div_pos_is_pos(idx, n as int);
    lemma_segment_step(s, i, n);
    assert(s * n + i - 1 == idx) by (nonlinear_arith)
        requires
            idx == n * s + (i - 1),
    ;
    assert(0 <= s * (n + 1) + i < k + (k - 1) * n) by (nonlinear_arith)
        requires
            idx == n * s + (i - 1),
            idx < (k - 1) * n,
            1 <= i <= n,
            0 <= s,
            k >= 1,
    ;
}

/// Failure propagation: a densified path holds, at every site, an elevation
/// that the lookup gave there. So where the lookup can only fail at one of
/// the sites, no path comes out.
pub proof fn lemma_every_site_answered<F: Fn(i64, i64) -> Result<i64, String>>(
    lookup: F,
    w: Seq<WaypointView>,
    n: nat,
    out: Seq<DensifiedPoint>,
    idx: int,
)
    requires
        densified_by(lookup, w, n, out),
        0 <= idx < lookups_needed(w.len(), n),
    ensures
        0 <= output_index(idx, n) < out.len(),
        !out[output_index(idx, n)].is_original,
        lookup.ensures(site_of(w, n, idx), Ok(out[output_index(idx, n)].position.elevation)),
{
    lemma_output_index(idx, w.len(), n);
    let j = output_index(idx, n);
    let views = densified_views(out);
    assert(views[j] == out[j]@);
    assert(views[j] == densified_point(w, n, j, views[j].position.elevation));
    assert(site_of(w, n, idx) == (out[j].position.latitude, out[j].position.longitude));
}

/// The lookup can only fail at the `idx`-th site that densifying `w` asks it
/// for.
pub open spec fn must_fail_at<F: Fn(i64, i64) -> Result<i64, String>>(
    lookup: F,
    w: Seq<WaypointView>,
    n: nat,
    idx: int,
) -> bool {
    &&& 0 <= idx < lookups_needed(w.len(), n)
    &&& forall|elevation: i64| !(#[trigger] lookup.ensures(site_of(w, n, idx), Ok(elevation)))
}

/// The lookup can only fail at one of the sites that densifying `w` asks it
/// for.
pub open spec fn some_lookup_must_fail<F: Fn(i64, i64) -> Result<i64, String>>(
    lookup: F,
    w: Seq<WaypointView>,
    n: nat,
) -> bool {
    exists|idx: int| #[trigger] must_fail_at(lookup, w, n, idx)
}

/// Two densified paths of the same waypoints are the same where the lookup
/// gives one elevation for each site: nothing but the waypoints, the number
/// of points per segment and the lookup decides a densified path.
pub proof fn lemma_densification_determined<F: Fn(i64, i64) -> Result<i64, String>>(
    lookup: F,
    w: Seq<WaypointView>,
    n: nat,
    first: Seq<DensifiedPoint>,
    second: Seq<DensifiedPoint>,
)
    requires
        densified_by(lookup, w, n, first),
        densified_by(lookup, w, n, second),
        forall|latitude: i64, longitude: i64, a: i64, b: i64|
            lookup.ensures((latitude, longitude), Ok(a)) && lookup.ensures(
                (latitude, longitude),
                Ok(b),
            ) ==> a == b,
    ensures
        first.len() == second.len(),
        forall|j: int| 0 <= j < first.len() ==> (#[trigger] first[j])@ == second[j]@,
{
    let a = densified_views(first);
    let b = densified_views(second);
    assert forall|j: int| 0 <= j < first.len() implies (#[trigger] first[j])@ == second[j]@ by {
        assert(a[j] == first[j]@ && b[j] == second[j]@);
        assert(a[j] == densified_point(w, n, j, a[j].position.elevation));
        assert(b[j] == densified_point(w, n, j, b[j].position.elevation));
        if step_of(j, n) != 0 {
            assert(first[j].position.latitude == second[j].position.latitude);
            assert(first[j].position.longitude == second[j].position.longitude);
            assert(first[j].position.elevation == second[j].position.elevation);
        }
    }
}

/// Densifies `waypoints` with `n` interpolated points per segment, asking
/// `lookup` for the elevation of each interpolated point in path order. The
/// first lookup that fails ends the run, and the error holds its message and
/// the site it was asked for: no point of the batch is handed out then.
pub fn densify<F: Fn(i64, i64) -> Result<i64, String>>(
    waypoints: Vec<Waypoint>,
    n: usize,
    lookup: &F,
) -> (r: Result<Vec<DensifiedPoint>, GeomError>)
    requires
        densified_len(waypoints.len() as nat, n as nat) <= usize::MAX,
        forall|latitude: i64, longitude: i64| lookup.requires((latitude, longitude)),
    ensures
        match r {
            Ok(out) => densified_by(*lookup, waypoint_views(waypoints@), n as nat, out@),
            Err(GeomError::ElevationFetchError(m)) => lookup_fails(
                *lookup,
                waypoint_views(waypoints@),
                n as nat,
                m@,
            ),
            Err(_) => false,
        },
        lookups_needed(waypoints.len() as nat, n as nat) == 0 ==> r is Ok,
        some_lookup_must_fail(*lookup, waypoint_views(waypoints@), n as nat) ==> r is Err,
        r matches Ok(out) ==> out.len() == densified_len(waypoints.len() as nat, n as nat),
{
    let ghost w = waypoint_views(waypoints@);
    let ghost needed = lookups_needed(waypoints.len() as nat, n as nat);
    let mut d = Densifier::new(waypoints, n);
    let ghost mut failed_at: int = 0;
    let ghost mut failed_with: Option<String> = None;
    loop
        invariant_except_break
            d.failure() is None,
        invariant
            d.wf(),
            d.waypoints() == w,
            d.per_segment() == n as nat,
            d.needed() == needed,
            forall|latitude: i64, longitude: i64| lookup.requires((latitude, longitude)),
            forall|idx: int|
                0 <= idx < d.supplied().len() ==> lookup.ensures(
                    #[trigger] site_of(w, n as nat, idx),
                    Ok(d.supplied()[idx] as i64),
                ),
        ensures
            d.wf(),
            d.waypoints() == w,
            d.per_segment() == n as nat,
            d.needed() == needed,
            !d.pending(),
            forall|idx: int|
                0 <= idx < d.supplied().len() ==> lookup.ensures(
                    #[trigger] site_of(w, n as nat, idx),
                    Ok(d.supplied()[idx] as i64),
                ),
            match d.failure() {
                Some(m) => failed_with matches Some(message) && message@ == m && 0 <= failed_at
                    < needed && failed_at == d.supplied().len() && lookup.ensures(
                    site_of(w, n as nat, failed_at),
                    Err(message),
                ),
                None => true,
            },
        decreases needed - d.supplied().len(),
    {
        match d.next_lookup() {
            None => {
                break ;
            },
            Some((latitude, longitude)) => {
                let outcome = lookup(latitude, longitude);
                proof {
                    failed_at = d.supplied().len() as int;
                    if outcome is Err {
                        failed_with = Some(outcome->Err_0);
                    }
                }
                let stop = outcome.is_err();
                d.supply(outcome);
                if stop {
                    break ;
                }
            },
        }
    }
    let ghost supplied = d.supplied();
    let r = d.finish();
    proof {
        if r is Ok {
            let out = r->Ok_0;
            let views = densified_views(out@);
            assert(views == densified(w, n as nat, supplied));
            assert(supplied.len() == needed);
            assert(is_densification(w, n as nat, views));
            assert forall|j: int| 0 <= j < out.len() && !(#[trigger] out[j]).is_original implies lookup.ensures(
                (out[j].position.latitude, out[j].position.longitude),
                Ok(out[j].position.elevation),
            ) by {
                assert(views[j] == out[j]@);
                lemma_lookup_index(j, w.len(), n as nat);
                let idx = lookup_index(j, n as nat);
                assert(views[j] == densified_point(w, n as nat, j, supplied[idx]));
                assert(lookup.ensures(site_of(w, n as nat, idx), Ok(supplied[idx] as i64)));
                assert(site_of(w, n as nat, idx) == (
                    out[j].position.latitude,
                    out[j].position.longitude,
                ));
            }
            assert(densified_by(*lookup, w, n as nat, out@));
            if some_lookup_must_fail(*lookup, w, n as nat) {
                let idx = choose|idx: int| #[trigger] must_fail_at(*lookup, w, n as nat, idx);
                lemma_every_site_answered(*lookup, w, n as nat, out@, idx);
            }
        }
    }
    r
}

} // verus!
