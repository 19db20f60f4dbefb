use std::cell::Cell;

use geoanon::densify::{assemble, densify, output_len, DensifiedPoint, Densifier, Waypoint};
use geoanon::error::GeomError;
use geoanon::geometry::GeoPoint;

const DEGREE: i64 = 10_000_000;

fn waypoint(latitude: i64, longitude: i64, time_angle: i64, index: usize) -> Waypoint {
    Waypoint {
        position: GeoPoint { latitude, longitude, elevation: 1000 * (index as i64 + 1) },
        time_angle,
        label: format!("unit-{}", index),
        sequence_index: index,
    }
}

fn path(k: usize) -> Vec<Waypoint> {
    (0..k)
        .map(|i| waypoint(3 * DEGREE * i as i64, -7 * DEGREE * i as i64, 11 * DEGREE * i as i64, i))
        .collect()
}

fn as_original(w: &Waypoint) -> DensifiedPoint {
    DensifiedPoint {
        position: w.position,
        time_angle: w.time_angle,
        label: w.label.clone(),
        is_original: true,
    }
}

fn flat(_: i64, _: i64) -> Result<i64, String> {
    Ok(0)
}

#[test]
fn length_law_holds_for_small_batches() {
    for k in 0..6usize {
        for n in 0..5usize {
            let out = densify(path(k), n, &flat).unwrap();
            let expected = if k == 0 { 0 } else { k + (k - 1) * n };
            assert_eq!(out.len(), expected);
            assert_eq!(output_len(k, n), Some(expected));
        }
    }
}

#[test]
fn no_waypoints_give_no_points() {
    let out = densify(Vec::new(), 20, &flat).unwrap();
    assert!(out.is_empty());
    assert_eq!(output_len(0, 20), Some(0));
}

#[test]
fn one_waypoint_gives_itself_and_asks_nothing() {
    let asked = Cell::new(0);
    let lookup = |_: i64, _: i64| -> Result<i64, String> {
        asked.set(asked.get() + 1);
        Ok(5)
    };
    let w = path(1);
    let out = densify(w.clone(), 20, &lookup).unwrap();
    assert_eq!(out, vec![as_original(&w[0])]);
    assert_eq!(asked.get(), 0);
}

#[test]
fn output_len_is_none_where_the_path_does_not_fit() {
    assert_eq!(output_len(usize::MAX, 1), None);
    assert_eq!(output_len(3, usize::MAX), None);
    assert_eq!(output_len(2, usize::MAX - 2), Some(usize::MAX));
    assert_eq!(output_len(usize::MAX, 0), Some(usize::MAX));
}

#[test]
fn endpoints_are_preserved_and_marked() {
    let w = path(4);
    let out = densify(w.clone(), 3, &flat).unwrap();
    assert_eq!(out.first().unwrap(), &as_original(&w[0]));
    assert_eq!(out.last().unwrap(), &as_original(&w[3]));
    for (j, p) in out.iter().enumerate() {
        assert_eq!(p.is_original, j % 4 == 0);
        if j % 4 == 0 {
            assert_eq!(p, &as_original(&w[j / 4]));
        }
    }
}

#[test]
fn midpoint_of_a_single_segment() {
    let start = waypoint(0, 0, 0, 0);
    let end = waypoint(10 * DEGREE, 20 * DEGREE, 90 * DEGREE, 1);
    let out = densify(vec![start, end], 1, &|_, _| Ok(42_000)).unwrap();
    assert_eq!(out.len(), 3);
    assert_eq!(
        out[1],
        DensifiedPoint {
            position: GeoPoint {
                latitude: 5 * DEGREE,
                longitude: 10 * DEGREE,
                elevation: 42_000,
            },
            time_angle: 45 * DEGREE,
            label: "unit-0".to_string(),
            is_original: false,
        }
    );
}

#[test]
fn interpolation_rounds_down() {
    // thirds of 10 and of -10
    let start = waypoint(0, 0, 0, 0);
    let end = waypoint(10, -10, 1, 1);
    let out = densify(vec![start, end], 2, &flat).unwrap();
    assert_eq!(out[1].position.latitude, 3);
    assert_eq!(out[2].position.latitude, 6);
    assert_eq!(out[1].position.longitude, -4);
    assert_eq!(out[2].position.longitude, -7);
    assert_eq!(out[1].time_angle, 0);
    assert_eq!(out[2].time_angle, 0);
}

#[test]
fn zero_points_per_segment_gives_the_waypoints() {
    let w = path(5);
    let out = densify(w.clone(), 0, &|_, _| Err("never asked".to_string())).unwrap();
    let expected: Vec<DensifiedPoint> = w.iter().map(as_original).collect();
    assert_eq!(out, expected);
}

#[test]
fn lookups_come_in_path_order_with_the_interpolated_site() {
    let asked = std::cell::RefCell::new(Vec::new());
    let lookup = |latitude: i64, longitude: i64| -> Result<i64, String> {
        asked.borrow_mut().push((latitude, longitude));
        Ok(latitude + longitude)
    };
    let w = vec![waypoint(0, 0, 0, 0), waypoint(30, 60, 0, 1), waypoint(0, 0, 0, 2)];
    let out = densify(w, 2, &lookup).unwrap();
    assert_eq!(*asked.borrow(), vec![(10, 20), (20, 40), (20, 40), (10, 20)]);
    let elevations: Vec<i64> = out.iter().map(|p| p.position.elevation).collect();
    assert_eq!(elevations, vec![1000, 30, 60, 2000, 60, 30, 3000]);
}

#[test]
fn labels_and_angles_follow_their_segment() {
    let w = path(4);
    let n = 4;
    let out = densify(w.clone(), n, &flat).unwrap();
    let mut last_ancestor = 0;
    for (j, p) in out.iter().enumerate() {
        let segment = j / (n + 1);
        let step = (j % (n + 1)) as i64;
        assert_eq!(p.label, w[segment].label);
        assert!(w[segment].sequence_index >= last_ancestor);
        last_ancestor = w[segment].sequence_index;
        // every quantity of the point is taken at the same place of the same segment
        assert_eq!(p.position.latitude, 3 * DEGREE * segment as i64 + 3 * DEGREE * step / 5);
        assert_eq!(p.time_angle, 11 * DEGREE * segment as i64 + 11 * DEGREE * step / 5);
        assert_eq!(
            p.position.longitude,
            -7 * DEGREE * segment as i64 + (-7 * DEGREE * step).div_euclid(5)
        );
    }
}

#[test]
fn batches_are_densified_apart() {
    let all = path(5);
    let first: Vec<Waypoint> = all[..2].to_vec();
    let second: Vec<Waypoint> = all[2..].to_vec();
    let n = 3;
    let lookup = |latitude: i64, longitude: i64| -> Result<i64, String> { Ok(latitude - longitude) };
    let whole = densify(all, n, &lookup).unwrap();
    let mut apart = densify(first, n, &lookup).unwrap();
    let cut = apart.len();
    apart.extend(densify(second, n, &lookup).unwrap());
    // the whole path, without the points between the two batches
    let mut expected = whole.clone();
    expected.drain(cut..cut + n);
    assert_eq!(apart, expected);
    assert_eq!(apart.len(), whole.len() - n);
}

#[test]
fn a_failed_lookup_fails_the_batch() {
    let calls = Cell::new(0);
    let lookup = |_: i64, _: i64| -> Result<i64, String> {
        calls.set(calls.get() + 1);
        if calls.get() == 3 {
            Err("service unreachable".to_string())
        } else {
            Ok(1)
        }
    };
    let r = densify(path(3), 5, &lookup);
    assert_eq!(
        r,
        Err(GeomError::ElevationFetchError(
            "service unreachable (elevation lookup at 1.5,-3.5)".to_string()
        ))
    );
    // nothing is asked after the failure
    assert_eq!(calls.get(), 3);
}

#[test]
fn a_densifier_hands_out_nothing_after_a_failure() {
    let mut d = Densifier::new(path(3), 5);
    assert!(d.next_lookup().is_some());
    d.supply(Ok(1));
    assert!(d.next_lookup().is_some());
    d.supply(Ok(2));
    assert!(d.next_lookup().is_some());
    assert_eq!(d.failed_lookup(), None);
    let third = d.next_lookup().unwrap();
    assert_eq!(third, (15_000_000, -35_000_000));
    d.supply(Err("timeout".to_string()));
    assert_eq!(d.failed_lookup(), Some(third));
    assert_eq!(d.next_lookup(), None);
    d.supply(Ok(3));
    assert_eq!(d.next_lookup(), None);
    assert_eq!(
        d.finish(),
        Err(GeomError::ElevationFetchError("timeout (elevation lookup at 1.5,-3.5)".to_string()))
    );
}

#[test]
fn a_densifier_asks_each_site_once_and_then_finishes() {
    let w = vec![waypoint(0, 0, 0, 0), waypoint(40, 80, 100, 1)];
    let mut d = Densifier::new(w.clone(), 3);
    let mut sites = Vec::new();
    while let Some(site) = d.next_lookup() {
        sites.push(site);
        d.supply(Ok(7 * sites.len() as i64));
    }
    assert_eq!(sites, vec![(10, 20), (20, 40), (30, 60)]);
    let out = d.finish().unwrap();
    assert_eq!(out.len(), 5);
    assert_eq!(out[0], as_original(&w[0]));
    assert_eq!(out[4], as_original(&w[1]));
    for i in 1..4usize {
        assert_eq!(
            out[i],
            DensifiedPoint {
                position: GeoPoint {
                    latitude: 10 * i as i64,
                    longitude: 20 * i as i64,
                    elevation: 7 * i as i64,
                },
                time_angle: 25 * i as i64,
                label: "unit-0".to_string(),
                is_original: false,
            }
        );
    }
}

#[test]
fn a_densifier_refuses_to_finish_early() {
    let mut d = Densifier::new(path(2), 2);
    d.supply(Ok(1));
    assert_eq!(
        d.finish(),
        Err(GeomError::DiscretizationError("elevation lookups are outstanding".to_string()))
    );
}

#[test]
fn assemble_places_elevations_in_path_order() {
    let w = path(3);
    let out = assemble(&w, 2, &vec![10, 20, 30, 40]);
    let elevations: Vec<i64> = out.iter().map(|p| p.position.elevation).collect();
    assert_eq!(elevations, vec![1000, 10, 20, 2000, 30, 40, 3000]);
}

#[test]
fn interpolation_stands_at_the_ends_of_the_machine_range() {
    let w = vec![waypoint(i64::MIN, i64::MAX, i64::MIN, 0), waypoint(i64::MAX, i64::MIN, i64::MIN, 1)];
    let out = densify(w, 1, &flat).unwrap();
    assert_eq!(out[1].position.latitude, -1);
    assert_eq!(out[1].position.longitude, -1);
    assert_eq!(out[1].time_angle, i64::MIN);
}

#[test]
fn the_error_names_the_site_of_the_failed_lookup() {
    let w = vec![
        waypoint(0, 0, 0, 0),
        waypoint(0, 0, 0, 1),
        waypoint(90 * DEGREE, -180 * DEGREE, 0, 2),
    ];
    // the second segment's first point lies at 30 degrees north, 60 degrees west
    let lookup = |latitude: i64, _: i64| -> Result<i64, String> {
        if latitude == 0 {
            Ok(0)
        } else {
            Err("HTTP 503".to_string())
        }
    };
    assert_eq!(
        densify(w, 2, &lookup),
        Err(GeomError::ElevationFetchError("HTTP 503 (elevation lookup at 30,-60)".to_string()))
    );
}
