use sgdb::numeric::fmt_i64;
use sgdb::numeric::fmt_u64;
use sgdb::numeric::parse_i32;
use sgdb::numeric::parse_i64;
use sgdb::store::Instrument;
use sgdb::store::Renting;
use sgdb::store::count_user_rentals;
use sgdb::store::find_to_terminate;
use sgdb::store::terminate_rid;
use sgdb::store::type_matches;

#[test]
fn test_parse_i32_values() {
    assert_eq!(parse_i32("0"), Some(0));
    assert_eq!(parse_i32("007"), Some(7));
    assert_eq!(parse_i32("+7"), Some(7));
    assert_eq!(parse_i32("-7"), Some(-7));
    assert_eq!(parse_i32("2147483647"), Some(i32::MAX));
    assert_eq!(parse_i32("-2147483648"), Some(i32::MIN));
}

#[test]
fn test_parse_i32_rejections() {
    assert_eq!(parse_i32(""), None);
    assert_eq!(parse_i32("-"), None);
    assert_eq!(parse_i32("+"), None);
    assert_eq!(parse_i32("12a"), None);
    assert_eq!(parse_i32(" 1"), None);
    assert_eq!(parse_i32("2147483648"), None);
    assert_eq!(parse_i32("-2147483649"), None);
    assert_eq!(parse_i32("99999999999999999999999999"), None);
}

#[test]
fn test_parse_i64_values() {
    assert_eq!(parse_i64("9223372036854775807"), Some(i64::MAX));
    assert_eq!(parse_i64("-9223372036854775808"), Some(i64::MIN));
    assert_eq!(parse_i64("9223372036854775808"), None);
    assert_eq!(parse_i64("ten"), None);
}

#[test]
fn test_fmt_decimal() {
    assert_eq!(fmt_u64(0), "0");
    assert_eq!(fmt_u64(90210), "90210");
    assert_eq!(fmt_i64(0), "0");
    assert_eq!(fmt_i64(-7), "-7");
    assert_eq!(fmt_i64(150), "150");
    assert_eq!(fmt_i64(i64::MIN), "-9223372036854775808");
    assert_eq!(fmt_i64(i64::MAX), "9223372036854775807");
}

#[test]
fn test_type_matches() {
    assert!(type_matches("GUI", "guitar"));
    assert!(type_matches("gui", "GUITAR"));
    assert!(type_matches("", "guitar"));
    assert!(type_matches("guitar", "guitar"));
    assert!(!type_matches("guitars", "guitar"));
    assert!(!type_matches("x", "guitar"));
}

#[test]
fn test_instrument_line_rendering() {
    let it = Instrument {
        instrument_id: 4,
        instrument_type_id: 1,
        brand: String::from("Yamaha"),
        model: String::from("C40"),
        price: String::from("35.50"),
        count: 9,
    };
    assert_eq!(
        it.to_string(3),
        "ID:4 => C40 by Yamaha. Price 35.50 with 3 left to rent out of a total 9."
    );
}

fn row(id: i32, student: i32, instrument: i32, ended: bool) -> Renting {
    Renting {
        rent_id: id,
        student_id: student,
        instrument_id: instrument,
        start_date: 5,
        end_date: if ended { Some(9) } else { None },
    }
}

#[test]
fn test_store_counts_active_rows_only() {
    let rows = vec![row(1, 3, 1, false), row(2, 3, 1, true), row(3, 4, 1, false)];
    assert_eq!(count_user_rentals(&rows, 3), 1);
    assert_eq!(count_user_rentals(&rows, 4), 1);
    assert_eq!(count_user_rentals(&rows, 5), 0);
}

#[test]
fn test_store_find_and_terminate() {
    let mut rows = vec![row(1, 3, 1, false), row(2, 3, 1, true), row(3, 3, 2, false)];
    let found = find_to_terminate(&rows, 3, 1);
    assert_eq!(found.len(), 1);
    assert_eq!(found[0].rent_id, 1);

    assert_eq!(terminate_rid(&mut rows, 1, 77), 1);
    assert_eq!(rows[0].end_date, Some(77));
    assert_eq!(rows[2].end_date, None);
    assert_eq!(terminate_rid(&mut rows, 99, 77), 0);
}
