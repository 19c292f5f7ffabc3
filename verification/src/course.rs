//! One row of the course listing: its parsed availability and the position
//! of its selection checkbox. The checkbox position must equal the row's
//! position among the listing's selection inputs; the reassembly function
//! here restores that order however the per-row reads completed.

use vstd::prelude::*;
use crate::text::{contains_seq, contains_str, seat_numbers, seat_numbers_from};

verus! {

/// Parsed availability of one course row.
#[derive(Clone, Copy, PartialEq, Eq, Structural, Debug)]
pub enum CourseStatus {
    Waitlist { position: u32 },
    Open { available: u32, capacity: u32 },
    Closed,
}

/// One row of the course listing.
#[derive(Debug)]
pub struct Course {
    /// Position of the row among the listing's selection checkboxes.
    pub checkbox_index: u8,
    pub availability: CourseStatus,
    pub description: String,
    pub schedule: String,
    pub room: String,
    pub instructor: String,
    pub credits: String,
}

/// How an availability fragment and the numbers of the seats fragment are
/// read: a wait-list marker takes precedence over a closed marker, which
/// takes precedence over an open marker; an unrecognized fragment reads as
/// closed. A wait-list row whose two numbers are out of order, or not two,
/// reads as position 999; an open row without its two numbers reads as
/// 0 of 0.
pub open spec fn course_status_spec(avail: Seq<char>, nums: Seq<u32>) -> CourseStatus {
    if contains_seq(avail, "Wait List"@) {
        if nums.len() == 2 && nums[0] <= nums[1] {
            CourseStatus::Waitlist { position: (nums[1] - nums[0]) as u32 }
        } else {
            CourseStatus::Waitlist { position: 999 }
        }
    } else if contains_seq(avail, "Closed"@) {
        CourseStatus::Closed
    } else if contains_seq(avail, "Open"@) {
        if nums.len() == 2 {
            CourseStatus::Open { available: nums[0], capacity: nums[1] }
        } else {
            CourseStatus::Open { available: 0, capacity: 0 }
        }
    } else {
        CourseStatus::Closed
    }
}

/// Classifies an availability fragment together with the numbers read from
/// the seats fragment.
pub fn classify_availability(avail: &str, nums: &Vec<u32>) -> (c: CourseStatus)
    ensures
        c == course_status_spec(avail@, nums@),
{
    if contains_str(avail, "Wait List") {
        if nums.len() == 2 && nums[0] <= nums[1] {
            CourseStatus::Waitlist { position: nums[1] - nums[0] }
        } else {
            CourseStatus::Waitlist { position: 999 }
        }
    } else if contains_str(avail, "Closed") {
        CourseStatus::Closed
    } else if contains_str(avail, "Open") {
        if nums.len() == 2 {
            CourseStatus::Open { available: nums[0], capacity: nums[1] }
        } else {
            CourseStatus::Open { available: 0, capacity: 0 }
        }
    } else {
        CourseStatus::Closed
    }
}

/// The text of an optional fragment, or the placeholder `None`.
pub fn field_text(t: Option<String>) -> (r: String)
    ensures
        match t {
            Some(s) => r == s,
            None => r@ == "None"@,
        },
{
    match t {
        Some(s) => s,
        None => "None".to_owned(),
    }
}

/// Builds one listing row from its fragments: the availability is read from
/// the availability and seats texts, the rest is carried through.
pub fn build_course(
    checkbox_index: u8,
    avail_text: &str,
    seats_text: &str,
    description: String,
    schedule: String,
    room: String,
    instructor: String,
    credits: String,
) -> (c: Course)
    ensures
        c.checkbox_index == checkbox_index,
        c.availability == course_status_spec(avail_text@, seat_numbers_from(seats_text@, 0)),
        c.description == description,
        c.schedule == schedule,
        c.room == room,
        c.instructor == instructor,
        c.credits == credits,
{
    let nums = seat_numbers(seats_text);
    let availability = classify_availability(avail_text, &nums);
    Course { checkbox_index, availability, description, schedule, room, instructor, credits }
}

/// Some row's checkbox position is `i`.
pub open spec fn has_position(rows: Seq<Course>, i: int) -> bool {
    exists|k: int| 0 <= k < rows.len() && (#[trigger] rows[k].checkbox_index as int) == i
}

/// The rows' checkbox positions are exactly the listing positions
/// `0 .. rows.len()`: each in range, no two equal, each position taken.
pub open spec fn positions_complete(rows: Seq<Course>) -> bool {
    &&& forall|k: int| 0 <= k < rows.len() ==> (#[trigger] rows[k].checkbox_index as int)
        < rows.len()
    &&& forall|k1: int, k2: int|
        0 <= k1 < k2 < rows.len() ==> rows[k1].checkbox_index != rows[k2].checkbox_index
    &&& forall|i: int| 0 <= i < rows.len() ==> #[trigger] has_position(rows, i)
}

/// The row of `rows` whose checkbox position is `i`.
pub open spec fn row_with_index(rows: Seq<Course>, i: int) -> Course {
    rows[choose|k: int| 0 <= k < rows.len() && rows[k].checkbox_index as int == i]
}

/// The rows rearranged into listing order: position `i` holds the row whose
/// checkbox position is `i`.
pub open spec fn assembled(rows: Seq<Course>) -> Seq<Course> {
    Seq::new(rows.len(), |i: int| row_with_index(rows, i))
}

/// Restores listing order over rows that were fetched in any completion
/// order. Succeeds exactly when the rows' checkbox positions are the listing
/// positions `0 .. rows.len()`; the result places each row at its checkbox
/// position.
#[verifier::loop_isolation(false)]
#[verifier::rlimit(60)]
pub fn assemble_in_order(rows: Vec<Course>) -> (r: Option<Vec<Course>>)
    ensures
        match r {
            Some(out) => positions_complete(rows@) && out@ == assembled(rows@),
            None => !positions_complete(rows@),
        },
{
    let ghost orig = rows@;
    let n = rows.len();
    let mut slots: Vec<Option<Course>> = Vec::new();
    let mut j: usize = 0;
    while j < n
        invariant
            j <= n,
            slots@.len() == j,
            forall|s: int| 0 <= s < j ==> slots@[s] is None,
        decreases n - j,
    {
        slots.push(None);
        j = j + 1;
    }
    let mut rest = rows;
    while rest.len() > 0
        invariant
            rest@.len() <= n,
            rest@ == orig.take(rest@.len() as int),
            slots@.len() == n,
            forall|s: int| 0 <= s < n ==> match #[trigger] slots@[s] {
                Some(c) => c.checkbox_index as int == s && exists|k: int|
                    rest@.len() <= k < n && #[trigger] orig[k] == c,
                None => forall|k: int|
                    rest@.len() <= k < n ==> (#[trigger] orig[k].checkbox_index as int) != s,
            },
            forall|k: int| rest@.len() <= k < n ==> (#[trigger] orig[k].checkbox_index as int)
                < n,
            forall|k1: int, k2: int|
                rest@.len() <= k1 < k2 < n ==> orig[k1].checkbox_index
                    != orig[k2].checkbox_index,
        decreases rest@.len(),
    {
        let ghost l = rest@.len() as int;
        let row = rest.pop().unwrap();
        proof {
            assert(orig.take(l).last() == orig[l - 1]);
            assert(orig.take(l).drop_last() =~= orig.take(l - 1));
        }
        proof {
            assert(row == orig[l - 1]);
        }
        let idx = row.checkbox_index as usize;
        if idx >= n {
            proof {
                assert(orig[l - 1].checkbox_index as int >= n);
                assert(!positions_complete(orig));
            }
            return None;
        }
        if slots[idx].is_some() {
            proof {
                let c = slots@[idx as int].unwrap();
                assert(exists|k: int| l <= k < n && #[trigger] orig[k] == c);
                let k = choose|k: int| l <= k < n && #[trigger] orig[k] == c;
                assert(orig[k].checkbox_index == orig[l - 1].checkbox_index);
                assert(!positions_complete(orig));
            }
            return None;
        }
        slots.set(idx, Some(row));
    }
    proof {
        assert(orig.take(0) =~= Seq::<Course>::empty());
    }
    let ghost full_slots = slots@;
    let mut out_rev: Vec<Course> = Vec::new();
    while slots.len() > 0
        invariant
            slots@.len() + out_rev@.len() == n,
            slots@ == full_slots.take(slots@.len() as int),
            forall|t: int| 0 <= t < out_rev@.len() ==> full_slots[n - 1 - t] == Some(
                #[trigger] out_rev@[t],
            ),
        decreases slots@.len(),
    {
        let ghost l = slots@.len() as int;
        let cell = slots.pop().unwrap();
        proof {
            assert(full_slots.take(l).last() == full_slots[l - 1]);
            assert(full_slots.take(l).drop_last() =~= full_slots.take(l - 1));
        }
        match cell {
            Some(c) => { out_rev.push(c) },
            None => {
                proof {
                    assert(full_slots[l - 1] is None);
                    assert(forall|k: int|
                        0 <= k < n ==> (#[trigger] orig[k].checkbox_index as int) != l - 1);
                    assert(!has_position(orig, l - 1));
                    assert(!positions_complete(orig));
                }
                return None;
            },
        }
    }
    let mut out: Vec<Course> = Vec::new();
    let ghost full_rev = out_rev@;
    while out_rev.len() > 0
        invariant
            out@.len() + out_rev@.len() == n,
            full_rev.len() == n,
            out_rev@ == full_rev.take(out_rev@.len() as int),
            forall|t: int| 0 <= t < full_rev.len() ==> full_slots[n - 1 - t] == Some(
                #[trigger] full_rev[t],
            ),
            forall|i: int| 0 <= i < out@.len() ==> full_slots[i] == Some(#[trigger] out@[i]),
        decreases out_rev@.len(),
    {
        let ghost l = out_rev@.len() as int;
        let c = out_rev.pop().unwrap();
        proof {
            assert(full_rev.take(l).last() == full_rev[l - 1]);
            assert(full_rev.take(l).drop_last() =~= full_rev.take(l - 1));
        }
        out.push(c);
    }
    proof {
        assert forall|i: int| 0 <= i < n implies #[trigger] has_position(orig, i) by {
            assert(full_slots[n - 1 - (n - 1 - i)] == Some(full_rev[n - 1 - i]));
            let c = full_rev[n - 1 - i];
            assert(full_slots[i] == Some(c));
            assert(exists|k: int| 0 <= k < n && #[trigger] orig[k] == c);
            let k = choose|k: int| 0 <= k < n && #[trigger] orig[k] == c;
            assert(orig[k].checkbox_index as int == i);
        }
        assert(positions_complete(orig));
        assert forall|i: int| 0 <= i < n implies out@[i] == assembled(orig)[i] by {
            let c = out@[i];
            assert(full_slots[i] == Some(c));
            assert(c.checkbox_index as int == i);
            let k0 = choose|k: int| 0 <= k < n && orig[k] == c;
            let kc = choose|k: int| 0 <= k < orig.len() && orig[k].checkbox_index as int == i;
            assert(orig[kc].checkbox_index as int == i);
            assert(orig[k0] == c);
            if k0 != kc {
                assert(orig[k0].checkbox_index != orig[kc].checkbox_index);
            }
        }
        assert(out@ =~= assembled(orig));
    }
    Some(out)
}

/// Law: reassembly is positional, not completion-ordered. Two reads of the
/// same unchanged listing whose per-row fetches complete in different orders
/// hold the same rows; whenever one of them carries complete checkbox
/// positions, so does the other, and both assemble to the same course list.
pub proof fn lemma_assemble_order_independent(rows1: Seq<Course>, rows2: Seq<Course>)
    requires
        rows1.to_multiset() == rows2.to_multiset(),
        positions_complete(rows1),
    ensures
        positions_complete(rows2),
        assembled(rows2) == assembled(rows1),
{
    broadcast use vstd::seq_lib::group_to_multiset_ensures;

    let n = rows1.len() as int;
    assert(rows1.to_multiset().len() == n);
    assert(rows2.len() == n);
    // Distinct checkbox positions make the rows themselves distinct.
    assert forall|i: int, j: int|
        0 <= i < rows1.len() && 0 <= j < rows1.len() && i != j implies rows1[i] != rows1[j] by {
        if i < j {
            assert(rows1[i].checkbox_index != rows1[j].checkbox_index);
        } else {
            assert(rows1[j].checkbox_index != rows1[i].checkbox_index);
        }
    }
    assert(rows1.no_duplicates());
    rows1.lemma_multiset_has_no_duplicates();
    rows2.lemma_multiset_has_no_duplicates_conv();
    assert(rows2.no_duplicates());
    // Every row of one read occurs in the other.
    assert forall|k: int| 0 <= k < n implies rows1.contains(#[trigger] rows2[k]) by {
        assert(rows2.contains(rows2[k]));
        assert(rows2.to_multiset().count(rows2[k]) > 0);
    }
    // Positions stay in range.
    assert forall|k: int| 0 <= k < n implies (#[trigger] rows2[k].checkbox_index as int)
        < n by {
        let p = choose|p: int| 0 <= p < rows1.len() && rows1[p] == rows2[k];
        assert((rows1[p].checkbox_index as int) < n);
    }
    // Positions stay distinct.
    assert forall|k1: int, k2: int| 0 <= k1 < k2 < n implies rows2[k1].checkbox_index
        != rows2[k2].checkbox_index by {
        if rows2[k1].checkbox_index == rows2[k2].checkbox_index {
            assert(rows2[k1] != rows2[k2]);
            let p1 = choose|p: int| 0 <= p < rows1.len() && rows1[p] == rows2[k1];
            let p2 = choose|p: int| 0 <= p < rows1.len() && rows1[p] == rows2[k2];
            assert(p1 != p2);
            if p1 < p2 {
                assert(rows1[p1].checkbox_index != rows1[p2].checkbox_index);
            } else {
                assert(rows1[p2].checkbox_index != rows1[p1].checkbox_index);
            }
        }
    }
    // Every position stays taken, by the same row.
    assert forall|i: int| 0 <= i < n implies #[trigger] has_position(rows2, i) by {
        assert(has_position(rows1, i));
        let k = choose|k: int| 0 <= k < rows1.len() && (#[trigger] rows1[k].checkbox_index
            as int) == i;
        assert(rows1.to_multiset().count(rows1[k]) > 0);
        assert(rows2.contains(rows1[k]));
        let k2 = choose|k2: int| 0 <= k2 < rows2.len() && rows2[k2] == rows1[k];
        assert(rows2[k2].checkbox_index as int == i);
    }
    assert(positions_complete(rows2));
    assert forall|i: int| 0 <= i < n implies assembled(rows2)[i] == assembled(rows1)[i] by {
        let k2 = choose|k: int| 0 <= k < rows2.len() && rows2[k].checkbox_index as int == i;
        let k1 = choose|k: int| 0 <= k < rows1.len() && rows1[k].checkbox_index as int == i;
        assert(has_position(rows2, i));
        assert(has_position(rows1, i));
        assert(rows2[k2].checkbox_index as int == i);
        assert(rows1[k1].checkbox_index as int == i);
        assert(rows2.to_multiset().count(rows2[k2]) > 0);
        assert(rows1.contains(rows2[k2]));
        let p = choose|p: int| 0 <= p < rows1.len() && rows1[p] == rows2[k2];
        assert(rows1[p].checkbox_index as int == i);
        if p != k1 {
            if p < k1 {
                assert(rows1[p].checkbox_index != rows1[k1].checkbox_index);
            } else {
                assert(rows1[k1].checkbox_index != rows1[p].checkbox_index);
            }
        }
        assert(rows1[p] == rows1[k1]);
    }
    assert(assembled(rows2) =~= assembled(rows1));
}

} // verus!
