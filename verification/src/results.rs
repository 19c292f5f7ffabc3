//! Per-course enrollment results scraped after either enrollment path: a
//! result row's status markup classifies by the icon it shows, and markup
//! showing no known icon stays unknown — it is never coerced to a failure.

use vstd::prelude::*;
use crate::text::{contains_seq, contains_str};

verus! {

/// The tri-state outcome of one enrollment result row.
#[derive(Clone, Copy, PartialEq, Eq, Structural, Debug)]
pub enum RegistrationStatus {
    Success,
    Fail,
    Unknown,
}

/// How a result row's status markup classifies: the success icon wins over
/// the failure icon, and markup showing neither known icon is unknown.
pub open spec fn status_spec(
    html: Seq<char>,
    success_marker: Seq<char>,
    fail_marker: Seq<char>,
) -> RegistrationStatus {
    if contains_seq(html, success_marker) {
        RegistrationStatus::Success
    } else if contains_seq(html, fail_marker) {
        RegistrationStatus::Fail
    } else {
        RegistrationStatus::Unknown
    }
}

/// Classifies one result row's status markup against the two known icons.
pub fn classify_result_status(html: &str, success_marker: &str, fail_marker: &str) -> (s:
    RegistrationStatus)
    ensures
        s == status_spec(html@, success_marker@, fail_marker@),
{
    if contains_str(html, success_marker) {
        RegistrationStatus::Success
    } else if contains_str(html, fail_marker) {
        RegistrationStatus::Fail
    } else {
        RegistrationStatus::Unknown
    }
}

/// One row of the enrollment results listing.
#[derive(Debug)]
pub struct RegistrationResult {
    pub description: String,
    pub status: RegistrationStatus,
}

/// Builds one result row from its scraped fragments.
pub fn build_registration_result(
    status_html: &str,
    success_marker: &str,
    fail_marker: &str,
    description: String,
) -> (r: RegistrationResult)
    ensures
        r.status == status_spec(status_html@, success_marker@, fail_marker@),
        r.description == description,
{
    let status = classify_result_status(status_html, success_marker, fail_marker);
    RegistrationResult { description, status }
}

/// Law: markup holding the success marker always classifies as a success;
/// markup holding the failure marker and not the success marker always
/// classifies as a failure; any other markup classifies as unknown — a
/// failure classification is never produced without the failure marker.
pub proof fn lemma_status_classification(
    html: Seq<char>,
    success_marker: Seq<char>,
    fail_marker: Seq<char>,
)
    ensures
        contains_seq(html, success_marker) ==> status_spec(html, success_marker, fail_marker)
            == RegistrationStatus::Success,
        !contains_seq(html, success_marker) && contains_seq(html, fail_marker) ==> status_spec(
            html,
            success_marker,
            fail_marker,
        ) == RegistrationStatus::Fail,
        !contains_seq(html, success_marker) && !contains_seq(html, fail_marker) ==> status_spec(
            html,
            success_marker,
            fail_marker,
        ) == RegistrationStatus::Unknown,
        status_spec(html, success_marker, fail_marker) == RegistrationStatus::Fail
            ==> contains_seq(html, fail_marker),
{
}

} // verus!
