//! The target page's structural conventions: one selector or marker per
//! fragment the workflow probes, reads or clicks. The workflow's contracts
//! are specific to these conventions, not to a generic page-ready signal.

use vstd::prelude::*;

verus! {

/// The selectors and markers of the registration pages, one field per
/// fragment.
#[derive(Clone, Copy, Debug)]
pub struct EmoryPageElements {
    pub page_url: &'static str,
    pub username_input: &'static str,
    pub passwd_input: &'static str,
    pub login_error: &'static str,
    pub validate_button: &'static str,
    pub enroll_button: &'static str,
    pub enroll_confirm_button: &'static str,
    pub semester_cart: &'static str,
    pub course_row: &'static str,
    pub checkboxes: &'static str,
    pub availability: &'static str,
    pub description: &'static str,
    pub schedule: &'static str,
    pub room: &'static str,
    pub instructor: &'static str,
    pub credits: &'static str,
    pub seats: &'static str,
    pub results_rows: &'static str,
    pub result_description: &'static str,
    pub result_status: &'static str,
    pub registration_success: &'static str,
    pub registration_fail: &'static str,
    pub duo_waiting: &'static str,
    pub duo_trust_browser: &'static str,
    pub duo_time_out_try_again: &'static str,
    pub duo_verification_code: &'static str,
}

impl Default for EmoryPageElements {
    /// The selectors of the production registration pages.
    fn default() -> (r: EmoryPageElements)
        ensures
            r.page_url@
                == "https://saprod.emory.edu/psc/saprod_48/EMPLOYEE/SA/c/SSR_STUDENT_FL.SSR_SHOP_CART_FL.GBL"@,
            r.username_input@ == "input#userid"@,
            r.passwd_input@ == "input#pwd"@,
            r.login_error@ == "div#ptloginerrorcont"@,
            r.validate_button@ == "a#DERIVED_SSR_FL_SSR_VALIDATE_FL"@,
            r.enroll_button@ == "a#DERIVED_SSR_FL_SSR_ENROLL_FL"@,
            r.enroll_confirm_button@ == "a[id=\"\\#ICYes\"]"@,
            r.semester_cart@ == "a[id^=\"SSR_CART_TRM_FL_TERM_DESCR30$\"]"@,
            r.course_row@ == "tr[id^=\"SSR_REGFORM_VW$0_row_\"]"@,
            r.checkboxes@ == "input[type=\"checkbox\"][id^=\"DERIVED_REGFRM1_SSR_SELECT$\"]"@,
            r.availability@ == "span[id^=\"DERIVED_SSR_FL_SSR_AVAIL_FL$\"]"@,
            r.description@ == "span[id^=\"DERIVED_SSR_FL_SSR_DESCR80$\"]"@,
            r.schedule@ == "span[id^=\"DERIVED_REGFRM1_SSR_MTG_SCHED_LONG$\"]"@,
            r.room@ == "span[id^=\"DERIVED_REGFRM1_SSR_MTG_LOC_LONG$\"]"@,
            r.instructor@ == "span[id^=\"DERIVED_REGFRM1_SSR_INSTR_LONG$\"]"@,
            r.credits@ == "span[id^=\"DERIVED_SSR_FL_SSR_UNITS_LBL$\"]"@,
            r.seats@ == "span[id^=\"DERIVED_SSR_FL_SSR_DESCR50$\"]"@,
            r.results_rows@ == "div[id^=\"win48div$ICField229_row$\"]"@,
            r.result_description@ == "span[id^=\"DERIVED_REGFRM1_DESCRLONG$\"]"@,
            r.result_status@ == "div[id^=\"win48divDERIVED_REGFRM1_SSR_STATUS_LONG$\"]"@,
            r.registration_success@ == "/cs/saprod/cache/PS_CS_STATUS_SUCCESS_ICN_1.gif"@,
            r.registration_fail@ == "/cs/saprod/cache/PS_CS_STATUS_ERROR_ICN_1.gif"@,
            r.duo_waiting@ == "div#auth-view-wrapper:not(.auth-error)"@,
            r.duo_trust_browser@ == "button[id=\"trust-browser-button\"]"@,
            r.duo_time_out_try_again@ == "button.try-again-button"@,
            r.duo_verification_code@ == "div.verification-code"@,
    {
        EmoryPageElements {
            page_url: "https://saprod.emory.edu/psc/saprod_48/EMPLOYEE/SA/c/SSR_STUDENT_FL.SSR_SHOP_CART_FL.GBL",
            username_input: "input#userid",
            passwd_input: "input#pwd",
            login_error: "div#ptloginerrorcont",
            validate_button: "a#DERIVED_SSR_FL_SSR_VALIDATE_FL",
            enroll_button: "a#DERIVED_SSR_FL_SSR_ENROLL_FL",
            enroll_confirm_button: "a[id=\"\\#ICYes\"]",
            semester_cart: "a[id^=\"SSR_CART_TRM_FL_TERM_DESCR30$\"]",
            course_row: "tr[id^=\"SSR_REGFORM_VW$0_row_\"]",
            checkboxes: "input[type=\"checkbox\"][id^=\"DERIVED_REGFRM1_SSR_SELECT$\"]",
            availability: "span[id^=\"DERIVED_SSR_FL_SSR_AVAIL_FL$\"]",
            description: "span[id^=\"DERIVED_SSR_FL_SSR_DESCR80$\"]",
            schedule: "span[id^=\"DERIVED_REGFRM1_SSR_MTG_SCHED_LONG$\"]",
            room: "span[id^=\"DERIVED_REGFRM1_SSR_MTG_LOC_LONG$\"]",
            instructor: "span[id^=\"DERIVED_REGFRM1_SSR_INSTR_LONG$\"]",
            credits: "span[id^=\"DERIVED_SSR_FL_SSR_UNITS_LBL$\"]",
            seats: "span[id^=\"DERIVED_SSR_FL_SSR_DESCR50$\"]",
            results_rows: "div[id^=\"win48div$ICField229_row$\"]",
            result_description: "span[id^=\"DERIVED_REGFRM1_DESCRLONG$\"]",
            result_status: "div[id^=\"win48divDERIVED_REGFRM1_SSR_STATUS_LONG$\"]",
            registration_success: "/cs/saprod/cache/PS_CS_STATUS_SUCCESS_ICN_1.gif",
            registration_fail: "/cs/saprod/cache/PS_CS_STATUS_ERROR_ICN_1.gif",
            duo_waiting: "div#auth-view-wrapper:not(.auth-error)",
            duo_trust_browser: "button[id=\"trust-browser-button\"]",
            duo_time_out_try_again: "button.try-again-button",
            duo_verification_code: "div.verification-code",
        }
    }
}

} // verus!
