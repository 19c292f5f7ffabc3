//! The dual-path enrollment transaction. The UI path clicks the selection
//! checkboxes by position and then the enroll and confirm actions. The
//! direct-submission path serializes the page's form, injects the selected
//! rows, submits, threads the server-issued state token verbatim into the
//! confirmation request, and fails fatally — never retrying — when the
//! first response carries no token.

use vstd::prelude::*;
use crate::course::Course;
use crate::text::{
    chars_of, dec_rep, eq_str, is_digit_char, is_digit_exec, is_space_char, is_space_exec,
    match_at_exec, matches_at, u32_to_string,
};

verus! {

/// The serialized form fields of a request body, in order, as pairs of key
/// and value.
pub open spec fn params_view(ps: Seq<(String, String)>) -> Seq<(Seq<char>, Seq<char>)> {
    ps.map_values(|p: (String, String)| (p.0@, p.1@))
}

/// `ps` with every entry keyed `k` removed.
pub open spec fn remove_key(ps: Seq<(Seq<char>, Seq<char>)>, k: Seq<char>) -> Seq<
    (Seq<char>, Seq<char>),
>
    decreases ps.len(),
{
    if ps.len() == 0 {
        Seq::empty()
    } else if ps[0].0 == k {
        remove_key(ps.drop_first(), k)
    } else {
        seq![ps[0]] + remove_key(ps.drop_first(), k)
    }
}

/// `ps` with the field `k` set to `v`: the first `k` entry's value is
/// replaced and every later `k` entry is removed; a missing field is
/// appended.
pub open spec fn set_param_spec(
    ps: Seq<(Seq<char>, Seq<char>)>,
    k: Seq<char>,
    v: Seq<char>,
) -> Seq<(Seq<char>, Seq<char>)>
    decreases ps.len(),
{
    if ps.len() == 0 {
        seq![(k, v)]
    } else if ps[0].0 == k {
        seq![(k, v)] + remove_key(ps.drop_first(), k)
    } else {
        seq![ps[0]] + set_param_spec(ps.drop_first(), k, v)
    }
}

/// The value of the first field keyed `k`.
pub open spec fn get_param(ps: Seq<(Seq<char>, Seq<char>)>, k: Seq<char>) -> Option<Seq<char>>
    decreases ps.len(),
{
    if ps.len() == 0 {
        None
    } else if ps[0].0 == k {
        Some(ps[0].1)
    } else {
        get_param(ps.drop_first(), k)
    }
}

proof fn lemma_get_remove_key(ps: Seq<(Seq<char>, Seq<char>)>, k: Seq<char>, k2: Seq<char>)
    requires
        k2 != k,
    ensures
        get_param(remove_key(ps, k), k2) == get_param(ps, k2),
    decreases ps.len(),
{
    if ps.len() > 0 {
        lemma_get_remove_key(ps.drop_first(), k, k2);
        if ps[0].0 != k {
            assert((seq![ps[0]] + remove_key(ps.drop_first(), k)).drop_first()
                =~= remove_key(ps.drop_first(), k));
        }
    }
}

/// Law: setting a field makes it read back exactly the written value.
pub proof fn lemma_set_then_get(ps: Seq<(Seq<char>, Seq<char>)>, k: Seq<char>, v: Seq<char>)
    ensures
        get_param(set_param_spec(ps, k, v), k) == Some(v),
    decreases ps.len(),
{
    if ps.len() == 0 {
    } else if ps[0].0 == k {
        assert(set_param_spec(ps, k, v)[0] == (k, v));
    } else {
        lemma_set_then_get(ps.drop_first(), k, v);
        assert(set_param_spec(ps, k, v).drop_first() =~= set_param_spec(ps.drop_first(), k, v));
    }
}

/// Law: setting a field leaves every other field's value unchanged.
pub proof fn lemma_set_preserves_others(
    ps: Seq<(Seq<char>, Seq<char>)>,
    k: Seq<char>,
    v: Seq<char>,
    k2: Seq<char>,
)
    requires
        k2 != k,
    ensures
        get_param(set_param_spec(ps, k, v), k2) == get_param(ps, k2),
    decreases ps.len(),
{
    if ps.len() == 0 {
        let single = set_param_spec(ps, k, v);
        assert(single.drop_first() =~= Seq::<(Seq<char>, Seq<char>)>::empty());
        assert(get_param(single.drop_first(), k2) is None);
    } else if ps[0].0 == k {
        assert(set_param_spec(ps, k, v)[0] == (k, v));
        assert(set_param_spec(ps, k, v).drop_first() =~= remove_key(ps.drop_first(), k));
        lemma_get_remove_key(ps.drop_first(), k, k2);
    } else {
        assert(set_param_spec(ps, k, v)[0] == ps[0]);
        lemma_set_preserves_others(ps.drop_first(), k, v, k2);
        assert(set_param_spec(ps, k, v).drop_first() =~= set_param_spec(ps.drop_first(), k, v));
    }
}

/// Sets the field `key` to `value` among the serialized form fields: the
/// first matching field is replaced, later duplicates are dropped, and a
/// missing field is appended.
#[verifier::loop_isolation(false)]
#[verifier::rlimit(50)]
pub fn set_param(params: &mut Vec<(String, String)>, key: &str, value: &str)
    ensures
        params_view(final(params)@) == set_param_spec(params_view(old(params)@), key@, value@),
{
    let ghost orig = params_view(old(params)@);
    let n = params.len();
    proof {
        assert(orig.skip(0) =~= orig);
    }
    let mut out: Vec<(String, String)> = Vec::new();
    let mut i: usize = 0;
    let mut replaced = false;
    while i < n
        invariant
            i <= n,
            n == old(params)@.len(),
            params@ == old(params)@,
            !replaced ==> set_param_spec(orig, key@, value@) == params_view(out@)
                + set_param_spec(orig.skip(i as int), key@, value@),
            replaced ==> set_param_spec(orig, key@, value@) == params_view(out@) + remove_key(
                orig.skip(i as int),
                key@,
            ),
        decreases n - i,
    {
        proof {
            assert(orig.skip(i as int)[0] == (params@[i as int].0@, params@[i as int].1@));
            assert(orig.skip(i as int).drop_first() =~= orig.skip(i + 1 as int));
        }
        let same = eq_str(params[i].0.as_str(), key);
        if same {
            if !replaced {
                out.push((params[i].0.clone(), value.to_owned()));
                replaced = true;
                proof {
                    assert(params_view(out@) =~= params_view(out@.drop_last()) + seq![
                        (key@, value@),
                    ]);
                }
            }
        } else {
            let p0 = params[i].0.clone();
            let p1 = params[i].1.clone();
            out.push((p0, p1));
            proof {
                assert(params_view(out@) =~= params_view(out@.drop_last()) + seq![
                    (params@[i as int].0@, params@[i as int].1@),
                ]);
            }
        }
        i = i + 1;
    }
    proof {
        assert(orig.skip(n as int) =~= Seq::<(Seq<char>, Seq<char>)>::empty());
    }
    if !replaced {
        out.push((key.to_owned(), value.to_owned()));
        proof {
            assert(params_view(out@) =~= params_view(out@.drop_last()) + seq![(key@, value@)]);
        }
    }
    *params = out;
}

/// The key of the affirmative-selection field for the row at this checkbox
/// position.
pub open spec fn select_key_rep(i: int) -> Seq<char> {
    "DERIVED_REGFRM1_SSR_SELECT$"@ + dec_rep(i)
}

/// Builds the selection key for one checkbox position.
pub fn make_select_key(i: u32) -> (s: String)
    ensures
        s@ == select_key_rep(i as int),
{
    let mut s = "DERIVED_REGFRM1_SSR_SELECT$".to_owned();
    let d = u32_to_string(i);
    s.append(d.as_str());
    s
}

/// The fields after each selected row's affirmative field is set to `Y`,
/// first row first.
pub open spec fn apply_selections_spec(
    ps: Seq<(Seq<char>, Seq<char>)>,
    idxs: Seq<u32>,
) -> Seq<(Seq<char>, Seq<char>)>
    decreases idxs.len(),
{
    if idxs.len() == 0 {
        ps
    } else {
        apply_selections_spec(
            set_param_spec(ps, select_key_rep(idxs[0] as int), "Y"@),
            idxs.drop_first(),
        )
    }
}

/// The request fields of the direct path's first submission: the selected
/// rows' affirmative fields, the enroll action identifier, and the click
/// position fields.
pub open spec fn enroll_request_spec(
    ps: Seq<(Seq<char>, Seq<char>)>,
    idxs: Seq<u32>,
) -> Seq<(Seq<char>, Seq<char>)> {
    set_param_spec(
        set_param_spec(
            set_param_spec(
                apply_selections_spec(ps, idxs),
                "ICAction"@,
                "DERIVED_SSR_FL_SSR_ENROLL_FL"@,
            ),
            "ICXPos"@,
            "0"@,
        ),
        "ICYPos"@,
        "0"@,
    )
}

/// Prepares the direct path's first request in place: sets each selected
/// row's affirmative field and the enroll action fields.
#[verifier::loop_isolation(false)]
pub fn prepare_enroll_request(params: &mut Vec<(String, String)>, idxs: &Vec<u32>)
    ensures
        params_view(final(params)@) == enroll_request_spec(params_view(old(params)@), idxs@),
{
    let ghost orig = params_view(old(params)@);
    proof {
        assert(idxs@.skip(0) =~= idxs@);
    }
    let n = idxs.len();
    let mut t: usize = 0;
    while t < n
        invariant
            t <= n,
            n == idxs@.len(),
            apply_selections_spec(orig, idxs@) == apply_selections_spec(
                params_view(params@),
                idxs@.skip(t as int),
            ),
        decreases n - t,
    {
        proof {
            assert(idxs@.skip(t as int)[0] == idxs@[t as int]);
            assert(idxs@.skip(t as int).drop_first() =~= idxs@.skip(t + 1 as int));
        }
        let key = make_select_key(idxs[t]);
        set_param(params, key.as_str(), "Y");
        t = t + 1;
    }
    proof {
        assert(idxs@.skip(n as int) =~= Seq::<u32>::empty());
    }
    set_param(params, "ICAction", "DERIVED_SSR_FL_SSR_ENROLL_FL");
    set_param(params, "ICXPos", "0");
    set_param(params, "ICYPos", "0");
}

/// A quote as the state-token pattern accepts it.
pub open spec fn is_quote_char(c: char) -> bool {
    c == '\'' || c == '"'
}

/// `name=`, a quote, `ICStateNum`, a quote, at position `i`.
pub open spec fn token_head_at(body: Seq<char>, i: int) -> bool {
    &&& i + 17 <= body.len()
    &&& matches_at(body, "name="@, i)
    &&& is_quote_char(body[i + 5])
    &&& matches_at(body, "ICStateNum"@, i + 6)
    &&& is_quote_char(body[i + 16])
}

/// `value=`, a quote and a digit, at position `j`.
pub open spec fn token_value_at(body: Seq<char>, j: int) -> bool {
    &&& 0 <= j
    &&& j + 8 <= body.len()
    &&& matches_at(body, "value="@, j)
    &&& is_quote_char(body[j + 6])
    &&& is_digit_char(body[j + 7])
}

/// Whitespace fills `a .. b`.
pub open spec fn space_run(body: Seq<char>, a: int, b: int) -> bool {
    a <= b <= body.len() && forall|q: int| a <= q < b ==> is_space_char(#[trigger] body[q])
}

/// The state-token pattern: its header at `i`, whitespace, its value part
/// at `j`. The token itself is the digit run after the value quote.
pub open spec fn token_match_at(body: Seq<char>, i: int, j: int) -> bool {
    token_head_at(body, i) && space_run(body, i + 17, j) && token_value_at(body, j)
}

/// The response body shows a state token.
pub open spec fn has_state_token(body: Seq<char>) -> bool {
    exists|i: int, j: int| token_match_at(body, i, j)
}

/// End of the digit run starting at `p`.
pub open spec fn digit_run_end(body: Seq<char>, p: int) -> int
    decreases body.len() - p,
{
    if 0 <= p < body.len() && is_digit_char(body[p]) {
        digit_run_end(body, p + 1)
    } else {
        p
    }
}

/// Whether the token header sits at position `i`.
fn head_at_exec(v: &Vec<char>, name_n: &Vec<char>, ic_n: &Vec<char>, i: usize) -> (r: bool)
    requires
        name_n@ == "name="@,
        ic_n@ == "ICStateNum"@,
        i <= v@.len(),
    ensures
        r == token_head_at(v@, i as int),
{
    proof {
        reveal_strlit("name=");
        reveal_strlit("ICStateNum");
    }
    let n = v.len();
    if n < 17 || i > n - 17 {
        return false;
    }
    if !match_at_exec(v, name_n, i) {
        return false;
    }
    let q1 = v[i + 5];
    if !(q1 == '\'' || q1 == '"') {
        return false;
    }
    if !match_at_exec(v, ic_n, i + 6) {
        return false;
    }
    let q2 = v[i + 16];
    q2 == '\'' || q2 == '"'
}

/// Whether the token value part sits at position `j`.
fn value_at_exec(v: &Vec<char>, val_n: &Vec<char>, j: usize) -> (r: bool)
    requires
        val_n@ == "value="@,
        j <= v@.len(),
    ensures
        r == token_value_at(v@, j as int),
{
    proof {
        reveal_strlit("value=");
    }
    let n = v.len();
    if n < 8 || j > n - 8 {
        return false;
    }
    if !match_at_exec(v, val_n, j) {
        return false;
    }
    let q = v[j + 6];
    if !(q == '\'' || q == '"') {
        return false;
    }
    is_digit_exec(v[j + 7])
}

/// Extracts the server-issued numeric state token from the first response
/// body: the digits of the leftmost state-token pattern. Returns nothing
/// exactly when the body shows no such pattern — the caller must then fail
/// the transaction rather than confirm with a stale or absent token.
#[verifier::loop_isolation(false)]
#[verifier::rlimit(100)]
pub fn extract_state_token(body: &str) -> (r: Option<String>)
    ensures
        match r {
            Some(tok) => exists|i: int, j: int|
                #[trigger] token_match_at(body@, i, j) && (forall|i2: int, j2: int|
                    #[trigger] token_match_at(body@, i2, j2) ==> i <= i2) && tok@
                    == body@.subrange(j + 7, digit_run_end(body@, j + 7)),
            None => !has_state_token(body@),
        },
{
    proof {
        reveal_strlit("name=");
        reveal_strlit("ICStateNum");
        reveal_strlit("value=");
    }
    let v = chars_of(body);
    let n = v.len();
    let name_n = chars_of("name=");
    let ic_n = chars_of("ICStateNum");
    let val_n = chars_of("value=");
    let mut i: usize = 0;
    while i < n
        invariant
            i <= n,
            n == body@.len(),
            v@ == body@,
            name_n@ == "name="@,
            ic_n@ == "ICStateNum"@,
            val_n@ == "value="@,
            forall|i2: int, j2: int| #[trigger] token_match_at(body@, i2, j2) ==> i2 >= i,
        decreases n - i,
    {
        if head_at_exec(&v, &name_n, &ic_n, i) {
            let mut j = i + 17;
            while j < n && is_space_exec(v[j])
                invariant
                    i + 17 <= j <= n,
                    space_run(body@, i + 17 as int, j as int),
                decreases n - j,
            {
                j = j + 1;
                proof {
                    assert(is_space_char(body@[j - 1]));
                }
            }
            if value_at_exec(&v, &val_n, j) {
                let mut e = j + 8;
                proof {
                    assert(is_digit_char(body@[j + 7 as int]));
                    assert(digit_run_end(body@, j + 7 as int) == digit_run_end(
                        body@,
                        j + 8 as int,
                    ));
                }
                while e < n && is_digit_exec(v[e])
                    invariant
                        j + 8 <= e <= n,
                        digit_run_end(body@, j + 7 as int) == digit_run_end(body@, e as int),
                    decreases n - e,
                {
                    e = e + 1;
                    proof {
                        assert(is_digit_char(body@[e - 1]));
                        assert(digit_run_end(body@, (e - 1) as int) == digit_run_end(
                            body@,
                            e as int,
                        ));
                    }
                }
                proof {
                    assert(digit_run_end(body@, e as int) == e);
                    assert(token_match_at(body@, i as int, j as int));
                }
                let tok = body.substring_char(j + 7, e);
                return Some(tok.to_owned());
            } else {
                proof {
                    assert forall|j2: int| !token_match_at(body@, i as int, j2) by {
                        if token_match_at(body@, i as int, j2) {
                            if j2 < j {
                                assert(i + 17 <= j2);
                                assert(is_space_char(body@[j2]));
                                assert(body@[j2] == "value="@[0]);
                            } else if j2 > j {
                                assert(j < n);
                                assert(is_space_char(body@[j as int]));
                            }
                        }
                    }
                }
            }
        } else {
            proof {
                assert forall|j2: int| !token_match_at(body@, i as int, j2) by {}
            }
        }
        i = i + 1;
    }
    proof {
        assert forall|i2: int, j2: int| !token_match_at(body@, i2, j2) by {
            if token_match_at(body@, i2, j2) {
                assert(i2 + 17 <= n);
                assert(i2 >= n);
            }
        }
        assert(!has_state_token(body@));
    }
    None
}

/// The direct-submission path's one fatal error: the first response showed
/// no state token. Replaying without the token would corrupt server-side
/// session state, so the transaction fails instead of retrying.
#[derive(Clone, Copy, PartialEq, Eq, Structural, Debug)]
pub enum EnrollError {
    StateTokenParseFailure,
}

/// The confirmation request of the direct path: the state token threaded
/// verbatim, then the confirm action identifier.
pub open spec fn confirm_request_spec(
    ps: Seq<(Seq<char>, Seq<char>)>,
    token: Seq<char>,
) -> Seq<(Seq<char>, Seq<char>)> {
    set_param_spec(set_param_spec(ps, "ICStateNum"@, token), "ICAction"@, "#ICYes"@)
}

/// Prepares the confirmation request in place from the extracted token.
pub fn prepare_confirm_request(params: &mut Vec<(String, String)>, token: &str)
    ensures
        params_view(final(params)@) == confirm_request_spec(params_view(old(params)@), token@),
{
    set_param(params, "ICStateNum", token);
    set_param(params, "ICAction", "#ICYes");
}

/// Turns the direct path's first response into the confirmation request,
/// in place. Succeeds exactly when the response body shows a state token,
/// threading the leftmost token's digits verbatim; without a token the
/// transaction fails fatally, the fields stay unchanged, and the
/// confirmation request must never be sent.
pub fn confirm_step(params: &mut Vec<(String, String)>, first_response_body: &str) -> (r: Result<
    (),
    EnrollError,
>)
    ensures
        match r {
            Ok(_) => has_state_token(first_response_body@) && exists|i: int, j: int|
                #[trigger] token_match_at(first_response_body@, i, j) && (forall|
                    i2: int,
                    j2: int,
                |
                    #[trigger] token_match_at(first_response_body@, i2, j2) ==> i <= i2)
                    && params_view(final(params)@) == confirm_request_spec(
                    params_view(old(params)@),
                    first_response_body@.subrange(
                        j + 7,
                        digit_run_end(first_response_body@, j + 7),
                    ),
                ),
            Err(e) => e == EnrollError::StateTokenParseFailure && !has_state_token(
                first_response_body@,
            ) && final(params)@ == old(params)@,
        },
{
    match extract_state_token(first_response_body) {
        Some(tok) => {
            prepare_confirm_request(params, tok.as_str());
            Ok(())
        },
        None => Err(EnrollError::StateTokenParseFailure),
    }
}

/// Some selected course's checkbox position is `pos`.
pub open spec fn has_selected(sel: Seq<Course>, pos: int) -> bool {
    exists|k: int| 0 <= k < sel.len() && (#[trigger] sel[k].checkbox_index as int) == pos
}

/// The checkbox positions the UI path clicks, scanning positions `pos` up
/// to `count`: exactly the positions that carry a selected course, in
/// increasing order. No other field of any row enters the decision.
pub open spec fn click_plan_from(sel: Seq<Course>, pos: int, count: int) -> Seq<usize>
    decreases count - pos,
{
    if pos < 0 || pos >= count {
        Seq::empty()
    } else {
        (if has_selected(sel, pos) {
            seq![pos as usize]
        } else {
            Seq::empty()
        }) + click_plan_from(sel, pos + 1, count)
    }
}

/// Whether any selected course sits at this checkbox position.
#[verifier::loop_isolation(false)]
pub fn should_click(selected: &Vec<Course>, position: usize) -> (r: bool)
    ensures
        r == has_selected(selected@, position as int),
{
    let n = selected.len();
    let mut k: usize = 0;
    while k < n
        invariant
            k <= n,
            forall|q: int|
                0 <= q < k ==> (#[trigger] selected@[q].checkbox_index as int) != position,
        decreases n - k,
    {
        if selected[k].checkbox_index as usize == position {
            return true;
        }
        k = k + 1;
    }
    false
}

/// The checkbox positions the UI path clicks among `checkbox_count`
/// re-located selection inputs.
#[verifier::loop_isolation(false)]
pub fn click_plan(selected: &Vec<Course>, checkbox_count: usize) -> (r: Vec<usize>)
    ensures
        r@ == click_plan_from(selected@, 0, checkbox_count as int),
{
    let mut out: Vec<usize> = Vec::new();
    let mut pos: usize = 0;
    while pos < checkbox_count
        invariant
            pos <= checkbox_count,
            click_plan_from(selected@, 0, checkbox_count as int) == out@ + click_plan_from(
                selected@,
                pos as int,
                checkbox_count as int,
            ),
        decreases checkbox_count - pos,
    {
        if should_click(selected, pos) {
            out.push(pos);
            proof {
                assert(out@ + click_plan_from(selected@, pos + 1 as int, checkbox_count as int)
                    =~= out@.drop_last() + click_plan_from(
                    selected@,
                    pos as int,
                    checkbox_count as int,
                ));
            }
        }
        pos = pos + 1;
    }
    proof {
        assert(out@ + click_plan_from(selected@, checkbox_count as int, checkbox_count as int)
            =~= out@);
    }
    out
}

/// Law: the UI path's plan holds a position exactly when a selected course
/// sits at it, holds each position at most once, and is increasing.
pub proof fn lemma_click_plan_positions(sel: Seq<Course>, pos: int, count: int)
    requires
        0 <= pos <= count,
    ensures
        forall|t: int|
            0 <= t < click_plan_from(sel, pos, count).len() ==> pos <= (
            #[trigger] click_plan_from(sel, pos, count)[t] as int) < count && has_selected(
                sel,
                click_plan_from(sel, pos, count)[t] as int,
            ),
        forall|x: int|
            pos <= x < count && has_selected(sel, x) ==> click_plan_from(sel, pos, count)
                .contains(x as usize),
        forall|t1: int, t2: int|
            0 <= t1 < t2 < click_plan_from(sel, pos, count).len() ==> click_plan_from(
                sel,
                pos,
                count,
            )[t1] < click_plan_from(sel, pos, count)[t2],
    decreases count - pos,
{
    if pos < count {
        lemma_click_plan_positions(sel, pos + 1, count);
        let plan = click_plan_from(sel, pos, count);
        let rest = click_plan_from(sel, pos + 1, count);
        if has_selected(sel, pos) {
            assert(plan == seq![pos as usize] + rest);
            assert(forall|t: int| 1 <= t < plan.len() ==> plan[t] == rest[t - 1]);
            assert forall|x: int|
                pos <= x < count && has_selected(sel, x) implies plan.contains(x as usize) by {
                if x == pos {
                    assert(plan[0] == pos as usize);
                } else {
                    assert(rest.contains(x as usize));
                    let t = choose|t: int| 0 <= t < rest.len() && rest[t] == x as usize;
                    assert(plan[t + 1] == x as usize);
                }
            }
        } else {
            assert(plan =~= rest);
            assert forall|x: int|
                pos <= x < count && has_selected(sel, x) implies plan.contains(x as usize) by {
                assert(x != pos);
                assert(rest.contains(x as usize));
            }
        }
    }
}

} // verus!
