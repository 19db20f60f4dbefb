use geoanon::densify::Waypoint;
use geoanon::error::GeomError;
use geoanon::geometry::{
    attach, cartesian_from_trig, date_to_angle, day_angle, process_points, recenter, text_to_angle,
    to_cartesian, transform, CartesianPoint, GeoPoint, ProcessedPoint, SinCos, ELEVATION_LIMIT,
};
use geoanon::units::{
    floor_div, interpolate, EARTH_RADIUS, LENGTH_LIMIT, TRIG_ONE, UNITS_PER_DEGREE, UNITS_PER_METRE,
};

fn sin_cos(angle: i64) -> SinCos {
    let radians = (angle as f64 / UNITS_PER_DEGREE as f64).to_radians();
    SinCos {
        sin: (radians.sin() * TRIG_ONE as f64).round() as i64,
        cos: (radians.cos() * TRIG_ONE as f64).round() as i64,
    }
}

fn point(x: i64, y: i64, z: i64) -> CartesianPoint {
    CartesianPoint { x, y, z }
}

#[test]
fn sea_level_at_the_equator_and_prime_meridian() {
    let out = to_cartesian(&vec![GeoPoint { latitude: 0, longitude: 0, elevation: 0 }], &sin_cos);
    assert_eq!(out, vec![point(6_371_000 * UNITS_PER_METRE, 0, 0)]);
    assert_eq!(EARTH_RADIUS, 6_371_000 * UNITS_PER_METRE);
}

#[test]
fn nothing_transforms_to_nothing() {
    assert!(to_cartesian(&Vec::new(), &sin_cos).is_empty());
    assert!(recenter(&Vec::new()).is_empty());
}

#[test]
fn the_poles_and_the_quarter_meridians() {
    let north = GeoPoint { latitude: 90 * UNITS_PER_DEGREE, longitude: 0, elevation: 1000 };
    let east = GeoPoint { latitude: 0, longitude: 90 * UNITS_PER_DEGREE, elevation: -2000 };
    let west = GeoPoint { latitude: 0, longitude: -90 * UNITS_PER_DEGREE, elevation: 0 };
    let out = to_cartesian(&vec![north, east, west], &sin_cos);
    assert_eq!(out[0], point(0, 0, EARTH_RADIUS + 1000));
    assert_eq!(out[1], point(0, EARTH_RADIUS - 2000, 0));
    assert_eq!(out[2], point(0, -EARTH_RADIUS, 0));
}

#[test]
fn the_transform_follows_its_formula() {
    // r = 6_371_000_000 + 629_000_000 = 7e9
    let p = GeoPoint { latitude: 1, longitude: 2, elevation: 629_000_000 };
    let lat = SinCos { sin: 600_000_000, cos: 800_000_000 };
    let lon = SinCos { sin: -280_000_000, cos: 960_000_000 };
    let c = cartesian_from_trig(&p, lat, lon);
    assert_eq!(c, point(5_376_000_000, -1_568_000_000, 4_200_000_000));
}

#[test]
fn the_transform_rounds_down() {
    let p = GeoPoint { latitude: 0, longitude: 0, elevation: 1 - EARTH_RADIUS };
    let lat = SinCos { sin: -1, cos: 1 };
    let lon = SinCos { sin: -1, cos: 1 };
    // r = 1: the products are 1e-18, -1e-18 and -1e-9
    assert_eq!(cartesian_from_trig(&p, lat, lon), point(0, -1, -1));
}

#[test]
fn the_transform_takes_the_largest_elevations() {
    let one = SinCos { sin: TRIG_ONE, cos: TRIG_ONE };
    let up = GeoPoint { latitude: 0, longitude: 0, elevation: ELEVATION_LIMIT };
    let down = GeoPoint { latitude: 0, longitude: 0, elevation: -ELEVATION_LIMIT };
    assert!(up.is_transformable() && down.is_transformable());
    assert!(!GeoPoint { latitude: 0, longitude: 0, elevation: ELEVATION_LIMIT + 1 }.is_transformable());
    assert_eq!(cartesian_from_trig(&up, one, one), point(LENGTH_LIMIT, LENGTH_LIMIT, LENGTH_LIMIT));
    let low = 2 * EARTH_RADIUS - LENGTH_LIMIT;
    assert_eq!(cartesian_from_trig(&down, one, one), point(low, low, low));
    assert!(point(LENGTH_LIMIT, -LENGTH_LIMIT, 0).is_in_range());
    assert!(!point(LENGTH_LIMIT + 1, 0, 0).is_in_range());
}

#[test]
fn recentering_puts_the_least_point_at_the_origin() {
    let points = vec![point(10, 10, 10), point(3, -4, 0), point(-5, 0, 7), point(0, 6, 0)];
    let out = recenter(&points);
    assert_eq!(out, vec![point(7, 14, 10), point(0, 0, 0), point(-8, 4, 7), point(-3, 10, 0)]);
}

#[test]
fn recentering_takes_the_first_of_equal_points() {
    // (3, 4, 0) and (0, 5, 0) are equally far; the first met is the origin
    let points = vec![point(9, 9, 9), point(3, 4, 0), point(0, 5, 0)];
    assert_eq!(recenter(&points), vec![point(6, 5, 9), point(0, 0, 0), point(-3, 1, 0)]);
    let points = vec![point(0, 5, 0), point(3, 4, 0)];
    assert_eq!(recenter(&points), vec![point(0, 0, 0), point(3, -1, 0)]);
}

#[test]
fn recentering_twice_is_recentering_once() {
    let points = vec![
        point(6_371_000_000, 12, -7),
        point(6_370_999_000, 400, 9),
        point(6_370_999_000, 400, 10),
        point(-6_371_000_000, 0, 0),
    ];
    let once = recenter(&points);
    let twice = recenter(&once);
    assert_eq!(once[1], point(0, 0, 0));
    assert_eq!(twice, once);
}

#[test]
fn recentering_stands_at_the_ends_of_its_range() {
    let points = vec![point(LENGTH_LIMIT, -LENGTH_LIMIT, LENGTH_LIMIT), point(-LENGTH_LIMIT, LENGTH_LIMIT, 0)];
    let out = recenter(&points);
    assert_eq!(out[0], point(2 * LENGTH_LIMIT, -2 * LENGTH_LIMIT, LENGTH_LIMIT));
    assert_eq!(out[1], point(0, 0, 0));
}

#[test]
fn angles_of_days() {
    // the 60th day of a year of 366 days
    assert_eq!(day_angle(2024, 60), 590_163_934);
    // the last day of a year of 365 days is a full turn
    assert_eq!(day_angle(2023, 365), 360 * UNITS_PER_DEGREE);
    // the 251st day of 2015
    assert_eq!(day_angle(2015, 251), 2_475_616_438);
    // a century year counts 366 days like any year divisible by 4
    assert_eq!(day_angle(2100, 366), 360 * UNITS_PER_DEGREE);
    assert_eq!(day_angle(1900, 183), 180 * UNITS_PER_DEGREE);
    // years before the common era
    assert_eq!(day_angle(-4, 183), 180 * UNITS_PER_DEGREE);
    assert_eq!(day_angle(-3, 365), 360 * UNITS_PER_DEGREE);
    assert_eq!(day_angle(-1, 73), 72 * UNITS_PER_DEGREE);
    assert_eq!(day_angle(7, u32::MAX), 42_361_321_265_753_424);
}

#[test]
fn angles_of_dates() {
    let leap_day = chrono::NaiveDate::from_ymd_opt(2024, 2, 29).unwrap();
    assert_eq!(date_to_angle(leap_day), 590_163_934);
    let last = chrono::NaiveDate::from_ymd_opt(2023, 12, 31).unwrap();
    assert_eq!(date_to_angle(last), 360 * UNITS_PER_DEGREE);
    assert_eq!(text_to_angle("29/02/2024", "%d/%m/%Y"), Ok(590_163_934));
    assert_eq!(text_to_angle("2015-09-08", "%Y-%m-%d"), Ok(2_475_616_438));
}

#[test]
fn a_text_that_is_no_date_is_an_error() {
    assert_eq!(
        text_to_angle("31/02/2024", "%d/%m/%Y"),
        Err(GeomError::ChronoParseError("input is out of range".to_string()))
    );
    assert!(matches!(text_to_angle("yesterday", "%d/%m/%Y"), Err(GeomError::ChronoParseError(_))));
    assert!(matches!(text_to_angle("", "%d/%m/%Y"), Err(GeomError::ChronoParseError(_))));
}

#[test]
fn interpolation_and_floor_division() {
    assert_eq!(interpolate(0, 10, 1, 1), 5);
    assert_eq!(interpolate(-3, 4, 0, 9), -3);
    assert_eq!(interpolate(7, -8, 1, 3), 3);
    assert_eq!(interpolate(7, -8, 3, 3), -5);
    assert_eq!(interpolate(5, 5, 123, usize::MAX), 5);
    assert_eq!(interpolate(0, i64::MAX, usize::MAX, usize::MAX), (i64::MAX as i128 * usize::MAX as i128 / (usize::MAX as i128 + 1)) as i64);
    assert_eq!(floor_div(7, 2), 3);
    assert_eq!(floor_div(-7, 2), -4);
    assert_eq!(floor_div(-8, 2), -4);
    assert_eq!(floor_div(0, 5), 0);
    assert_eq!(floor_div(i128::MIN, 1), i128::MIN);
    assert_eq!(floor_div(i128::MIN, i128::MAX as u128), -2);
    assert_eq!(floor_div(i128::MAX, i128::MAX as u128), 1);
}

fn waypoint(latitude: i64, longitude: i64, index: usize) -> Waypoint {
    Waypoint {
        position: GeoPoint { latitude, longitude, elevation: 0 },
        time_angle: 100 * index as i64,
        label: format!("w{}", index),
        sequence_index: index,
    }
}

#[test]
fn an_empty_batch_is_processed_to_nothing() {
    let r = process_points(Vec::new(), 20, &|_, _| Err("unused".to_string()), &sin_cos);
    assert_eq!(r, Ok(Vec::new()));
}

#[test]
fn a_batch_is_densified_transformed_and_recentered() {
    let w = vec![waypoint(0, 0, 0), waypoint(0, 180 * UNITS_PER_DEGREE, 1)];
    // the midpoint lies at 90 degrees east, one kilometre below sea level
    let out = process_points(w, 1, &|_, _| Ok(-1_000_000), &sin_cos).unwrap();
    assert_eq!(
        out,
        vec![
            ProcessedPoint {
                position: point(EARTH_RADIUS, 1_000_000 - EARTH_RADIUS, 0),
                time_angle: 0,
                label: "w0".to_string(),
                is_original: true,
            },
            ProcessedPoint {
                position: point(0, 0, 0),
                time_angle: 50,
                label: "w0".to_string(),
                is_original: false,
            },
            ProcessedPoint {
                position: point(-EARTH_RADIUS, 1_000_000 - EARTH_RADIUS, 0),
                time_angle: 100,
                label: "w1".to_string(),
                is_original: true,
            },
        ]
    );
}

#[test]
fn a_failed_lookup_fails_the_processing() {
    let w = vec![waypoint(0, 0, 0), waypoint(10, 10, 1), waypoint(20, 20, 2)];
    let lookup = |latitude: i64, _: i64| -> Result<i64, String> {
        if latitude == 15 {
            Err("no answer".to_string())
        } else {
            Ok(0)
        }
    };
    let r = process_points(w, 1, &lookup, &sin_cos);
    assert_eq!(
        r,
        Err(GeomError::ElevationFetchError(
            "no answer (elevation lookup at 0.0000015,0.0000015)".to_string()
        ))
    );
}

#[test]
fn positions_are_attached_by_index() {
    let w = vec![waypoint(1, 1, 0), waypoint(2, 2, 1)];
    let path = geoanon::densify::densify(w, 0, &|_, _| Ok(0)).unwrap();
    let out = attach(&path, &vec![point(1, 2, 3), point(4, 5, 6)]).unwrap();
    assert_eq!(out[0].position, point(1, 2, 3));
    assert_eq!(out[0].label, "w0");
    assert_eq!(out[1].position, point(4, 5, 6));
    assert_eq!(out[1].label, "w1");
    assert_eq!(out[1].time_angle, 100);
    assert_eq!(
        attach(&path, &vec![point(1, 2, 3)]),
        Err(GeomError::ShapeError("positions and path points differ in number".to_string()))
    );
    let transformed = transform(&path, &sin_cos);
    assert_eq!(transformed.len(), 2);
    assert_eq!(transformed[0].position, point(0, 0, 0));
}

#[test]
fn recentering_asks_only_that_the_differences_fit() {
    let points = vec![
        point(i64::MAX, i64::MIN, i64::MAX - 7),
        point(i64::MAX - 3, i64::MIN + 4, i64::MAX - 9),
    ];
    // the second point is the nearer one
    let once = recenter(&points);
    assert_eq!(once, vec![point(3, -4, 2), point(0, 0, 0)]);
    assert_eq!(recenter(&once), once);
}

#[test]
fn the_text_of_a_parse_error_is_kept() {
    assert_eq!(
        text_to_angle("2024-01-01", "%d/%m/%Y"),
        Err(GeomError::ChronoParseError("input contains invalid characters".to_string()))
    );
    assert_eq!(
        text_to_angle("01/01", "%d/%m/%Y"),
        Err(GeomError::ChronoParseError("premature end of input".to_string()))
    );
    assert_eq!(text_to_angle("01/01/2023", "%d/%m/%Y"), Ok(3_600_000_000 / 365));
}
