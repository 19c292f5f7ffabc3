use course_sniper::course::{build_course, Course};
use course_sniper::enroll::{
    click_plan, confirm_step, extract_state_token, make_select_key, prepare_confirm_request,
    prepare_enroll_request, set_param, should_click, EnrollError,
};

fn pairs(ps: &[(&str, &str)]) -> Vec<(String, String)> {
    ps.iter().map(|(k, v)| (k.to_string(), v.to_string())).collect()
}

#[test]
fn set_param_replaces_first_and_drops_later_duplicates() {
    let mut params = pairs(&[("a", "1"), ("b", "2"), ("a", "3")]);
    set_param(&mut params, "a", "9");
    assert_eq!(params, pairs(&[("a", "9"), ("b", "2")]));
}

#[test]
fn set_param_appends_missing_field() {
    let mut params = pairs(&[("a", "1")]);
    set_param(&mut params, "c", "7");
    assert_eq!(params, pairs(&[("a", "1"), ("c", "7")]));
}

#[test]
fn select_key_is_position_keyed() {
    assert_eq!(make_select_key(7), "DERIVED_REGFRM1_SSR_SELECT$7");
    assert_eq!(make_select_key(0), "DERIVED_REGFRM1_SSR_SELECT$0");
    assert_eq!(make_select_key(12), "DERIVED_REGFRM1_SSR_SELECT$12");
}

#[test]
fn enroll_request_injects_selections_and_action() {
    let mut params = pairs(&[("ICStateNum", "1"), ("ICAction", "X")]);
    prepare_enroll_request(&mut params, &vec![0, 2]);
    assert_eq!(
        params,
        pairs(&[
            ("ICStateNum", "1"),
            ("ICAction", "DERIVED_SSR_FL_SSR_ENROLL_FL"),
            ("DERIVED_REGFRM1_SSR_SELECT$0", "Y"),
            ("DERIVED_REGFRM1_SSR_SELECT$2", "Y"),
            ("ICXPos", "0"),
            ("ICYPos", "0"),
        ])
    );
}

#[test]
fn state_token_extracted_from_single_quotes() {
    let body = "<input type='hidden' name='ICStateNum' value='12345' />";
    assert_eq!(extract_state_token(body), Some("12345".to_string()));
}

#[test]
fn state_token_extracted_from_double_quotes_and_spaces() {
    let body = "name=\"ICStateNum\"  \t value=\"9\"";
    assert_eq!(extract_state_token(body), Some("9".to_string()));
}

#[test]
fn state_token_takes_leftmost_match_and_full_digit_run() {
    let body = "name='ICStateNum' value='00123'x name='ICStateNum' value='999'";
    assert_eq!(extract_state_token(body), Some("00123".to_string()));
}

#[test]
fn state_token_absent_without_digits() {
    assert_eq!(extract_state_token("name='ICStateNum' value='abc'"), None);
    assert_eq!(extract_state_token("name='ICStateNumber' value='1'"), None);
    assert_eq!(extract_state_token(""), None);
}

#[test]
fn confirm_threads_token_verbatim() {
    let mut params = pairs(&[("ICStateNum", "1"), ("ICAction", "OLD")]);
    prepare_confirm_request(&mut params, "777");
    assert_eq!(params, pairs(&[("ICStateNum", "777"), ("ICAction", "#ICYes")]));
}

#[test]
fn missing_token_fails_and_never_confirms() {
    // The first response body shows no numeric state token: the
    // transaction fails with the parse failure and the fields are left
    // untouched, so no confirmation request can be built from them.
    let mut params = pairs(&[("ICStateNum", "1"), ("ICAction", "OLD")]);
    let before = params.clone();
    let r = confirm_step(&mut params, "<html>no token here</html>");
    assert_eq!(r, Err(EnrollError::StateTokenParseFailure));
    assert_eq!(params, before);
}

#[test]
fn present_token_confirms_with_it() {
    let mut params = pairs(&[("ICStateNum", "1")]);
    let r = confirm_step(&mut params, "name='ICStateNum' value='42'");
    assert!(r.is_ok());
    assert_eq!(params, pairs(&[("ICStateNum", "42"), ("ICAction", "#ICYes")]));
}

fn listing_row(idx: u8, avail: &str, seats: &str) -> Course {
    build_course(
        idx,
        avail,
        seats,
        format!("row {}", idx),
        String::new(),
        String::new(),
        String::new(),
        String::new(),
    )
}

#[test]
fn ui_path_clicks_exactly_the_selected_positions() {
    // Five rows, row 2 open 10 of 30; rows 0 and 2 selected: the UI path
    // clicks exactly positions 0 and 2.
    let selected = vec![
        listing_row(0, "Closed", ""),
        listing_row(2, "Open", "10 30"),
    ];
    assert_eq!(click_plan(&selected, 5), vec![0, 2]);
}

#[test]
fn ui_path_ignores_availability_text() {
    // The same selection against rows whose availability reads otherwise:
    // the plan depends on the checkbox positions alone.
    let selected = vec![
        listing_row(0, "Wait List", "3 10"),
        listing_row(2, "???", ""),
    ];
    assert_eq!(click_plan(&selected, 5), vec![0, 2]);
}

#[test]
fn ui_path_skips_positions_beyond_the_inputs() {
    let selected = vec![listing_row(1, "Open", "1 2"), listing_row(9, "Open", "1 2")];
    assert_eq!(click_plan(&selected, 5), vec![1]);
    assert!(should_click(&selected, 9));
    assert!(!should_click(&selected, 3));
}

#[test]
fn empty_selection_clicks_nothing() {
    let selected: Vec<Course> = Vec::new();
    assert_eq!(click_plan(&selected, 5), Vec::<usize>::new());
}
