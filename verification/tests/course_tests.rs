use course_sniper::course::{
    assemble_in_order, build_course, classify_availability, field_text, Course, CourseStatus,
};
use course_sniper::elements::EmoryPageElements;
use course_sniper::results::{build_registration_result, classify_result_status, RegistrationStatus};
use course_sniper::text::{contains_str, eq_str, seat_numbers, trim_of, u32_to_string};

#[test]
fn seat_numbers_reads_whitespace_separated_values() {
    assert_eq!(seat_numbers("3 10"), vec![3, 10]);
    assert_eq!(seat_numbers("  Open Seats 7 of 30  "), vec![7, 30]);
    assert_eq!(seat_numbers(""), Vec::<u32>::new());
    assert_eq!(seat_numbers("none here"), Vec::<u32>::new());
}

#[test]
fn seat_numbers_accepts_plus_and_rejects_overflow() {
    assert_eq!(seat_numbers("+5 4294967295"), vec![5, 4294967295]);
    // One past u32::MAX and a stray sign fail to parse and are dropped.
    assert_eq!(seat_numbers("4294967296 - 12"), vec![12]);
    assert_eq!(seat_numbers("+"), Vec::<u32>::new());
}

#[test]
fn waitlist_position_is_difference_of_the_two_numbers() {
    let c = classify_availability("Wait List", &vec![3, 10]);
    assert_eq!(c, CourseStatus::Waitlist { position: 7 });
}

#[test]
fn waitlist_without_two_numbers_reads_999() {
    assert_eq!(
        classify_availability("Wait List", &vec![5]),
        CourseStatus::Waitlist { position: 999 }
    );
    // Out-of-order numbers are unreadable, not a negative position.
    assert_eq!(
        classify_availability("Wait List", &vec![10, 3]),
        CourseStatus::Waitlist { position: 999 }
    );
}

#[test]
fn waitlist_outranks_closed_and_open() {
    assert_eq!(
        classify_availability("Wait List Closed Open", &vec![1, 2]),
        CourseStatus::Waitlist { position: 1 }
    );
}

#[test]
fn closed_and_open_classification() {
    assert_eq!(classify_availability("Closed", &vec![]), CourseStatus::Closed);
    assert_eq!(
        classify_availability("Open", &vec![10, 30]),
        CourseStatus::Open { available: 10, capacity: 30 }
    );
    assert_eq!(
        classify_availability("Open", &vec![10]),
        CourseStatus::Open { available: 0, capacity: 0 }
    );
    // An unrecognized fragment reads as closed.
    assert_eq!(classify_availability("???", &vec![1, 2]), CourseStatus::Closed);
}

fn course(idx: u8, name: &str) -> Course {
    build_course(
        idx,
        "Open",
        "10 30",
        name.to_string(),
        "MWF 10:00".to_string(),
        "White Hall 101".to_string(),
        "Staff".to_string(),
        "3".to_string(),
    )
}

#[test]
fn build_course_carries_fields_and_parses_availability() {
    let c = course(4, "CS 101");
    assert_eq!(c.checkbox_index, 4);
    assert_eq!(c.availability, CourseStatus::Open { available: 10, capacity: 30 });
    assert_eq!(c.description, "CS 101");
    assert_eq!(c.credits, "3");
}

#[test]
fn reassembly_restores_listing_order() {
    // Rows fetched out of completion order land back at their checkbox
    // positions.
    let rows = vec![course(2, "third"), course(0, "first"), course(1, "second")];
    let out = assemble_in_order(rows).unwrap();
    assert_eq!(out.len(), 3);
    for (i, c) in out.iter().enumerate() {
        assert_eq!(c.checkbox_index as usize, i);
    }
    assert_eq!(out[0].description, "first");
    assert_eq!(out[2].description, "third");
}

#[test]
fn reassembly_rejects_duplicate_positions() {
    let rows = vec![course(0, "a"), course(0, "b")];
    assert!(assemble_in_order(rows).is_none());
}

#[test]
fn reassembly_rejects_out_of_range_positions() {
    let rows = vec![course(0, "a"), course(5, "b")];
    assert!(assemble_in_order(rows).is_none());
}

#[test]
fn missing_fragment_text_reads_none() {
    assert_eq!(field_text(Some("x".to_string())), "x");
    assert_eq!(field_text(None), "None");
}

#[test]
fn success_marker_always_classifies_success() {
    let e = EmoryPageElements::default();
    let html = format!("<img src='{}'/>", e.registration_success);
    assert_eq!(
        classify_result_status(&html, e.registration_success, e.registration_fail),
        RegistrationStatus::Success
    );
    // Even beside the failure marker, success wins.
    let both = format!("{} {}", e.registration_success, e.registration_fail);
    assert_eq!(
        classify_result_status(&both, e.registration_success, e.registration_fail),
        RegistrationStatus::Success
    );
}

#[test]
fn fail_marker_classifies_fail() {
    let e = EmoryPageElements::default();
    let html = format!("<img src='{}'/>", e.registration_fail);
    assert_eq!(
        classify_result_status(&html, e.registration_success, e.registration_fail),
        RegistrationStatus::Fail
    );
}

#[test]
fn unknown_marker_never_coerced_to_fail() {
    let e = EmoryPageElements::default();
    let r = build_registration_result(
        "<img src='/cs/saprod/cache/SOMETHING_ELSE.gif'/>",
        e.registration_success,
        e.registration_fail,
        "CS 101".to_string(),
    );
    assert_eq!(r.status, RegistrationStatus::Unknown);
    assert_eq!(r.description, "CS 101");
}

#[test]
fn page_element_catalog_holds_expected_selectors() {
    let e = EmoryPageElements::default();
    assert_eq!(e.username_input, "input#userid");
    assert_eq!(e.login_error, "div#ptloginerrorcont");
    assert_eq!(e.duo_trust_browser, "button[id=\"trust-browser-button\"]");
    assert!(e.page_url.starts_with("https://saprod.emory.edu/"));
}

#[test]
fn text_helpers_behave() {
    assert!(contains_str("Wait List open", "Wait List"));
    assert!(!contains_str("Waitlist", "Wait List"));
    assert_eq!(trim_of("  ab c\t"), "ab c");
    assert_eq!(trim_of("   "), "");
    assert_eq!(u32_to_string(0), "0");
    assert_eq!(u32_to_string(42), "42");
    assert_eq!(u32_to_string(4294967295), "4294967295");
    assert!(eq_str("abc", "abc"));
    assert!(!eq_str("abc", "abd"));
    assert!(!eq_str("abc", "ab"));
}
