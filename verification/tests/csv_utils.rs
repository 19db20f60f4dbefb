use csv::StringRecord;
use geoanon::csv_utils::{column_position, column_report, find_columns, hash_with_salt};

#[test]
fn columns_are_found_by_name() {
    let headers = StringRecord::from(vec!["Fecha", "Latitud", "Longitud", "Fecha"]);
    let wanted = vec!["Longitud".to_string(), "Peloton".to_string(), "Fecha".to_string()];
    let results = find_columns(&headers, &wanted);
    assert_eq!(
        results,
        vec![
            Ok("Longitud".to_string()),
            Err("[\u{2717}] Column 'Peloton' not found in the csv".to_string()),
            Ok("Fecha".to_string()),
        ]
    );
}

#[test]
fn no_names_give_no_results() {
    let headers = StringRecord::from(vec!["a"]);
    assert!(find_columns(&headers, &[]).is_empty());
    let empty = StringRecord::new();
    assert_eq!(
        find_columns(&empty, &["a".to_string()]),
        vec![Err("[\u{2717}] Column 'a' not found in the csv".to_string())]
    );
}

#[test]
fn names_are_matched_exactly() {
    let headers = StringRecord::from(vec!["Compañia", " lat", "LAT", ""]);
    assert_eq!(column_position(&headers, "Compañia"), Some(0));
    assert_eq!(column_position(&headers, "lat"), None);
    assert_eq!(column_position(&headers, " lat"), Some(1));
    assert_eq!(column_position(&headers, "LAT"), Some(2));
    assert_eq!(column_position(&headers, ""), Some(3));
    assert_eq!(column_position(&headers, "Compania"), None);
}

#[test]
fn the_first_of_equal_columns_is_taken() {
    let headers = StringRecord::from(vec!["x", "y", "x", "y"]);
    assert_eq!(column_position(&headers, "y"), Some(1));
    assert_eq!(column_position(&headers, "x"), Some(0));
}

#[test]
fn tokens_are_salted_digests() {
    assert_eq!(
        hash_with_salt("alpha", "pepper"),
        "6dc78c6d9fd47b36dd6aeb19bd4d635593d00967dc12e4e0cb448cdf8a9ac6ac"
    );
    assert_eq!(
        hash_with_salt("", ""),
        "cdb4ee2aea69cc6a83331bbe96dc2caa9a299d21329efb0336fc02a82e1839a8"
    );
    assert_eq!(
        hash_with_salt("Compañia", "s"),
        "8612f30ad387f607a7ef42ba17d442a869b2519c1baecf75c0c186b93f806cd9"
    );
}

#[test]
fn tokens_are_deterministic_and_of_fixed_width() {
    let a = hash_with_salt("unit", "salt");
    let b = hash_with_salt("unit", "salt");
    assert_eq!(a, b);
    assert_eq!(a.len(), 64);
    assert!(a.chars().all(|c| c.is_ascii_digit() || ('a'..='f').contains(&c)));
    assert_ne!(a, hash_with_salt("unit", "other"));
    assert_ne!(a, hash_with_salt("units", "alt"));
}

#[test]
fn a_header_check_is_reported_line_by_line() {
    let headers = StringRecord::from(vec!["Fecha"]);
    let results = find_columns(&headers, &["Fecha".to_string(), "Peloton".to_string()]);
    assert_eq!(
        column_report(&results),
        vec![
            "[+] Process: Column 'Fecha' found in the csv".to_string(),
            "[\u{2717}] Column 'Peloton' not found in the csv".to_string(),
        ]
    );
    assert!(column_report(&[]).is_empty());
}
