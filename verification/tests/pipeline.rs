use std::path::PathBuf;

use geoanon::api::{elevation_of, lookup_url, unreadable_answer};
use geoanon::args::Args;
use geoanon::csv_utils::hash_with_salt;
use geoanon::error::GeomError;
use geoanon::geometry::{CartesianPoint, ProcessedPoint};
use geoanon::pipeline::{batch_ranges, records_of, require_columns, required_columns, LabelMap, BATCH_SIZE};
use geoanon::save_strategy::{Record, SavingType};
use geoanon::text::{write_degrees, write_metres};

fn args() -> Args {
    Args {
        input: PathBuf::from("in.csv"),
        date_column: "Fecha".to_string(),
        date_format: "%d/%m/%Y".to_string(),
        battalion_column: "Batallon".to_string(),
        platoon_column: "Peloton".to_string(),
        company_column: "Compañia".to_string(),
        latitude_column: "Latitud".to_string(),
        longitude_column: "Longitud".to_string(),
        host: "api.open-elevation.com".to_string(),
        output: PathBuf::from("output.csv"),
        output_format: SavingType::Csv,
        salt: "s".to_string(),
        discretization_points: 20,
        debug_verbose: false,
        debug_on_error: false,
        mapping_output: PathBuf::from("mapping.csv"),
    }
}

#[test]
fn the_columns_of_a_run() {
    assert_eq!(
        required_columns(&args()),
        vec!["Fecha", "Batallon", "Peloton", "Compañia", "Longitud", "Latitud"]
    );
}

#[test]
fn a_missing_column_stops_the_run() {
    let found = vec![Ok("a".to_string()), Ok("b".to_string())];
    assert_eq!(require_columns(&found), Ok(()));
    assert_eq!(require_columns(&Vec::new()), Ok(()));
    let missing = vec![Ok("a".to_string()), Err("no b".to_string()), Ok("c".to_string())];
    assert_eq!(require_columns(&missing), Err(GeomError::ColumnNotFound));
}

#[test]
fn rows_are_cut_into_batches() {
    assert_eq!(BATCH_SIZE, 15);
    assert_eq!(batch_ranges(0, 15), vec![]);
    assert_eq!(batch_ranges(1, 15), vec![(0, 1)]);
    assert_eq!(batch_ranges(15, 15), vec![(0, 15)]);
    assert_eq!(batch_ranges(16, 15), vec![(0, 15), (15, 16)]);
    assert_eq!(batch_ranges(45, 15), vec![(0, 15), (15, 30), (30, 45)]);
    assert_eq!(batch_ranges(7, 3), vec![(0, 3), (3, 6), (6, 7)]);
    assert_eq!(batch_ranges(usize::MAX, usize::MAX), vec![(0, usize::MAX)]);
    assert_eq!(
        batch_ranges(usize::MAX, usize::MAX - 1),
        vec![(0, usize::MAX - 1), (usize::MAX - 1, usize::MAX)]
    );
}

#[test]
fn records_follow_their_points() {
    let points = vec![
        ProcessedPoint {
            position: CartesianPoint { x: 1, y: 2, z: 3 },
            time_angle: 40,
            label: "a".to_string(),
            is_original: true,
        },
        ProcessedPoint {
            position: CartesianPoint { x: -4, y: -5, z: -6 },
            time_angle: 50,
            label: "b".to_string(),
            is_original: false,
        },
    ];
    assert_eq!(
        records_of("batch", &points),
        vec![
            Record {
                batch_id: "batch".to_string(),
                angle: 40,
                action: "a".to_string(),
                longitude: 1,
                latitude: 2,
                elevation: 3,
                is_original: true,
            },
            Record {
                batch_id: "batch".to_string(),
                angle: 50,
                action: "b".to_string(),
                longitude: -4,
                latitude: -5,
                elevation: -6,
                is_original: false,
            },
        ]
    );
    assert!(records_of("batch", &Vec::new()).is_empty());
}

#[test]
fn a_label_keeps_its_token() {
    let mut map = LabelMap::new("pepper".to_string());
    assert_eq!(map.len(), 0);
    let first = map.token_for("alpha");
    assert_eq!(first, hash_with_salt("alpha", "pepper"));
    let second = map.token_for("beta");
    assert_eq!(second, hash_with_salt("beta", "pepper"));
    assert_eq!(map.token_for("alpha"), first);
    assert_eq!(map.len(), 2);
    assert_eq!(map.entry(0), ("alpha".to_string(), first));
    assert_eq!(map.entry(1), ("beta".to_string(), second));
}

#[test]
fn decimal_texts() {
    assert_eq!(write_degrees(0), "0");
    assert_eq!(write_degrees(1), "0.0000001");
    assert_eq!(write_degrees(-1), "-0.0000001");
    assert_eq!(write_degrees(10), "0.000001");
    assert_eq!(write_degrees(50_000_000), "5");
    assert_eq!(write_degrees(15_000_000), "1.5");
    assert_eq!(write_degrees(-20_000_000), "-2");
    assert_eq!(write_degrees(1_800_000_000), "180");
    assert_eq!(write_degrees(-1_799_999_999), "-179.9999999");
    assert_eq!(write_degrees(1_234_567_890), "123.456789");
    assert_eq!(write_degrees(1_000_000_010), "100.000001");
    assert_eq!(write_degrees(i64::MAX), "922337203685.4775807");
    assert_eq!(write_degrees(i64::MIN), "-922337203685.4775808");
    assert_eq!(write_metres(6_371_000_000), "6371000");
    assert_eq!(write_metres(0), "0");
    assert_eq!(write_metres(-42), "-0.042");
    assert_eq!(write_metres(1_005), "1.005");
    assert_eq!(write_metres(1_500), "1.5");
    assert_eq!(write_metres(-2_000), "-2");
    assert_eq!(write_metres(100), "0.1");
    assert_eq!(write_metres(10), "0.01");
    assert_eq!(write_metres(-1_010), "-1.01");
    assert_eq!(write_metres(i64::MIN), "-9223372036854775.808");
}

#[test]
fn decimal_texts_are_those_of_the_numbers() {
    // the shortest text that reads back as the same number
    for (units, number) in [(15_000_000i64, 1.5f64), (-20_000_000, -2.0), (1_800_000_000, 180.0), (0, 0.0), (46_000_000, 4.6), (-747_500_000, -74.75)] {
        assert_eq!(write_degrees(units), format!("{}", number));
    }
    for (units, number) in [(1_500i64, 1.5f64), (-2_000, -2.0), (0, 0.0), (6_371_000_000, 6371000.0), (7, 0.007)] {
        assert_eq!(write_metres(units), format!("{}", number));
    }
}

#[test]
fn the_address_of_a_lookup() {
    assert_eq!(lookup_url("h", 15_000_000, -20_000_000), "http://h/api/v1/lookup?locations=1.5,-2");
    assert_eq!(
        lookup_url("api.open-elevation.com", 46_000_000, -747_500_000),
        "http://api.open-elevation.com/api/v1/lookup?locations=4.6,-74.75"
    );
    assert_eq!(lookup_url("", 0, 0), "http:///api/v1/lookup?locations=0,0");
}

#[test]
fn the_elevation_of_an_answer() {
    assert_eq!(elevation_of(&vec![Some(2_600_000), Some(1)]), 2_600_000);
    assert_eq!(elevation_of(&vec![None, Some(1)]), 0);
    assert_eq!(elevation_of(&Vec::new()), 0);
    assert_eq!(elevation_of(&vec![Some(-5)]), -5);
    assert_eq!(
        unreadable_answer("expected value at line 1 column 1"),
        GeomError::ElevationFetchError(
            "Failed to parse JSON: expected value at line 1 column 1".to_string()
        )
    );
}

#[test]
fn errors_as_text() {
    assert_eq!(GeomError::ColumnNotFound.message(), "Column not found");
    assert_eq!(GeomError::CsvError("x".to_string()).message(), "CSV error: x");
    assert_eq!(GeomError::ReqwestError("x".to_string()).message(), "Reqwest error: x");
    assert_eq!(GeomError::IoError("x".to_string()).message(), "IO error: x");
    assert_eq!(GeomError::ParseFloatError("x".to_string()).message(), "Parse float error: x");
    assert_eq!(GeomError::ShapeError("x".to_string()).message(), "Shape error: x");
    assert_eq!(GeomError::ChronoParseError("x".to_string()).message(), "Chrono parse error: x");
    assert_eq!(
        GeomError::DiscretizationError("x".to_string()).message(),
        "Discretization error: x"
    );
    assert_eq!(
        GeomError::ElevationFetchError("x".to_string()).message(),
        "Elevation fetch error: x"
    );
    assert_eq!(GeomError::OpenSslError("".to_string()).message(), "OpenSSL error: ");
}
