use try_rs::dates::extract_prefix_date;
use try_rs::dates::format_date_prefix;
use try_rs::dates::generate_prefix_date;
use try_rs::dates::parse_date_str;
use try_rs::dates::Date;

#[test]
fn extract_prefix_date_valid() {
    let result = extract_prefix_date("2024-06-15 my-project");
    assert!(result.is_some());
    let (_, name) = result.unwrap();
    assert_eq!(name, "my-project");
}

#[test]
fn extract_prefix_date_invalid() {
    assert!(extract_prefix_date("not-a-date project").is_none());
    assert!(extract_prefix_date("nodate").is_none());
}

#[test]
fn extract_prefix_date_only_date_no_name() {
    assert!(extract_prefix_date("2024-06-15").is_none());
}

#[test]
fn extract_prefix_date_with_spaces_in_name() {
    let result = extract_prefix_date("2024-01-01 my cool project");
    assert!(result.is_some());
    let (_, name) = result.unwrap();
    assert_eq!(name, "my cool project");
}

#[test]
fn extract_prefix_date_wrong_format() {
    assert!(extract_prefix_date("01-01-2024 project").is_none());
    assert!(extract_prefix_date("2024/01/01 project").is_none());
}

#[test]
fn extract_prefix_date_returns_parsed_date() {
    let (date, name) = extract_prefix_date("2024-06-15 proj").unwrap();
    assert_eq!(date.year, 2024);
    assert_eq!(date.month, 6);
    assert_eq!(date.day, 15);
    assert_eq!(name, "proj");
}

#[test]
fn extract_prefix_date_rejects_impossible_days() {
    assert!(extract_prefix_date("2023-02-29 proj").is_none());
    assert!(extract_prefix_date("2024-02-29 proj").is_some());
    assert!(extract_prefix_date("2024-04-31 proj").is_none());
    assert!(extract_prefix_date("2024-13-01 proj").is_none());
    assert!(extract_prefix_date("2024-00-10 proj").is_none());
    assert!(extract_prefix_date("2024-01-00 proj").is_none());
}

#[test]
fn parse_date_str_exact_values() {
    let d = parse_date_str("2000-02-29").unwrap();
    assert_eq!((d.year, d.month, d.day), (2000, 2, 29));
    assert!(parse_date_str("1900-02-29").is_none());
    assert!(parse_date_str("2024-6-15").is_none());
    assert!(parse_date_str("2024-06-15 ").is_none());
}

#[test]
fn format_date_prefix_exact() {
    let d = Date { year: 2024, month: 6, day: 15 };
    assert_eq!(format_date_prefix(&d), "2024-06-15");
    let early = Date { year: 7, month: 11, day: 3 };
    assert_eq!(format_date_prefix(&early), "0007-11-03");
}

#[test]
fn generate_prefix_date_format() {
    let date = generate_prefix_date();
    assert_eq!(date.len(), 10);
    assert_eq!(&date[4..5], "-");
    assert_eq!(&date[7..8], "-");
}

#[test]
fn utils_test_generate_prefix_date_format() {
    let date = generate_prefix_date();
    assert_eq!(date.len(), 10);
    assert_eq!(&date[4..5], "-");
    assert_eq!(&date[7..8], "-");
}

#[test]
fn generate_prefix_date_matches_today() {
    let date = generate_prefix_date();
    let today = chrono::Local::now().format("%Y-%m-%d").to_string();
    assert_eq!(date, today);
}

#[test]
fn utils_test_extract_prefix_date_valid() {
    let result = extract_prefix_date("2024-06-15 my-project");
    assert!(result.is_some());
    let (_, name) = result.unwrap();
    assert_eq!(name, "my-project");
}

#[test]
fn utils_test_extract_prefix_date_invalid() {
    assert!(extract_prefix_date("not-a-date project").is_none());
    assert!(extract_prefix_date("nodate").is_none());
}
