use vstd::prelude::*;
use vstd::pervasive::VecAdditionalExecFns;

use crate::BookingError;
use crate::task::{BookTask, BookTaskView};
use crate::text::{contains_seq, str_contains};

verus! {

// ---------------------------------------------------------------------------
// Token extraction from the fetched booking page
// ---------------------------------------------------------------------------

/// The first capture group of the leftmost match of `pattern` in `hay`, as
/// the regex engine finds it; a function of the two strings alone.
pub uninterp spec fn capture_of(pattern: Seq<char>, hay: Seq<char>) -> Option<Seq<char>>;

/// Relies on regex::Regex::new, Regex::captures and Captures::get: the first
/// capture group of the leftmost match of `pattern` in `hay`, a deterministic
/// function of the two strings; `None` when the pattern is invalid, nothing
/// matches, or the match has no first group.
#[verifier::external_body]
fn regex_capture(pattern: &str, hay: &str) -> (r: Option<String>)
    ensures
        match r {
            Some(s) => capture_of(pattern@, hay@) == Some(s@),
            None => capture_of(pattern@, hay@) is None,
        },
{
    match regex::Regex::new(pattern) {
        Ok(re) => match re.captures(hay) {
            Some(caps) => match caps.get(1) {
                Some(m) => Some(m.as_str().to_string()),
                None => None,
            },
            None => None,
        },
        Err(_) => None,
    }
}

/// Marker pattern for the `__VIEWSTATE` hidden field.
pub open spec fn viewstate_pattern() -> Seq<char> {
    "id=\"__VIEWSTATE\" value=\"(.*)\""@
}

/// Marker pattern for the `__VIEWSTATEGENERATOR` hidden field.
pub open spec fn viewstate_generator_pattern() -> Seq<char> {
    "id=\"__VIEWSTATEGENERATOR\" value=\"(.*)\""@
}

/// Marker pattern for the `__EVENTVALIDATION` hidden field.
pub open spec fn event_validation_pattern() -> Seq<char> {
    "id=\"__EVENTVALIDATION\" value=\"(.*)\""@
}

/// Marker pattern for the toolkit script-manager hidden field.
pub open spec fn toolkit_pattern() -> Seq<char> {
    "id=\"main_ToolkitScriptManager1_HiddenField\" value=\"(.*)\""@
}

/// The four anti-forgery/state tokens a booking page carries; they must be
/// echoed back verbatim on both postbacks.
#[derive(Debug)]
pub struct BookingTokens {
    pub viewstate: String,
    pub viewstate_generator: String,
    pub event_validation: String,
    pub toolkit_hidden: String,
}

/// Extract the four mandatory hidden-form tokens from the raw booking page.
/// Absence of any marker is fatal for the attempt: `ProtocolTokenMissing`.
pub fn extract_tokens(body: &str) -> (r: Result<BookingTokens, BookingError>)
    ensures
        match r {
            Ok(t) => {
                &&& capture_of(viewstate_pattern(), body@) == Some(t.viewstate@)
                &&& capture_of(viewstate_generator_pattern(), body@) == Some(
                    t.viewstate_generator@,
                )
                &&& capture_of(event_validation_pattern(), body@) == Some(t.event_validation@)
                &&& capture_of(toolkit_pattern(), body@) == Some(t.toolkit_hidden@)
            },
            Err(e) => {
                &&& e == BookingError::ProtocolTokenMissing
                &&& {
                    ||| capture_of(viewstate_pattern(), body@) is None
                    ||| capture_of(viewstate_generator_pattern(), body@) is None
                    ||| capture_of(event_validation_pattern(), body@) is None
                    ||| capture_of(toolkit_pattern(), body@) is None
                }
            },
        },
{
    let viewstate = match regex_capture("id=\"__VIEWSTATE\" value=\"(.*)\"", body) {
        Some(s) => s,
        None => {
            return Err(BookingError::ProtocolTokenMissing);
        },
    };
    let viewstate_generator = match regex_capture(
        "id=\"__VIEWSTATEGENERATOR\" value=\"(.*)\"",
        body,
    ) {
        Some(s) => s,
        None => {
            return Err(BookingError::ProtocolTokenMissing);
        },
    };
    let event_validation = match regex_capture("id=\"__EVENTVALIDATION\" value=\"(.*)\"", body) {
        Some(s) => s,
        None => {
            return Err(BookingError::ProtocolTokenMissing);
        },
    };
    let toolkit_hidden = match regex_capture(
        "id=\"main_ToolkitScriptManager1_HiddenField\" value=\"(.*)\"",
        body,
    ) {
        Some(s) => s,
        None => {
            return Err(BookingError::ProtocolTokenMissing);
        },
    };
    Ok(BookingTokens { viewstate, viewstate_generator, event_validation, toolkit_hidden })
}

// ---------------------------------------------------------------------------
// The two postback payloads
// ---------------------------------------------------------------------------

/// Name of the dynamically named session form field: one control per slot,
/// so the field name carries the session index.
pub open spec fn session_field_name(session: Seq<char>) -> Seq<char> {
    "ctl00$main$listSession$"@ + session
}

/// The fixed-shape 22-entry form payload of the first (hold) postback.
pub open spec fn spec_hold_payload(
    t: BookTaskView,
    vs: Seq<char>,
    vsg: Seq<char>,
    ev: Seq<char>,
    tk: Seq<char>,
) -> Seq<(Seq<char>, Seq<char>)> {
    seq![
        ("__VIEWSTATE"@, vs),
        ("__VIEWSTATEGENERATOR"@, vsg),
        ("__EVENTVALIDATION"@, ev),
        ("main_ToolkitScriptManager1_HiddenField"@, tk),
        ("ctl00$main$ToolkitScriptManager1"@, "ctl00$main$upMain|ctl00$main$btnSubmit"@),
        ("__EVENTTARGET"@, ""@),
        ("__EVENTARGUMENT"@, ""@),
        ("__LASTFOCUS"@, ""@),
        ("ctl00$main$ddlLibrary"@, t.library),
        ("ctl00$main$ddlFloor"@, t.floor),
        ("ctl00$main$ddlType"@, t.facility_type),
        ("ctl00$main$ddlFacility"@, t.facility_id),
        ("ctl00$main$ddlDate"@, t.date),
        (session_field_name(t.session), t.time),
        ("ctl00$main$txtUserDescription"@, ""@),
        ("ctl00$main$hBtnSubmit"@, ""@),
        ("ctl00$main$hBtnEmail"@, ""@),
        ("ctl00$main$txtEmail"@, ""@),
        ("ctl00$main$hBtnResult"@, ""@),
        ("__ASYNCPOST"@, "true"@),
        ("ctl00$main$btnSubmit"@, "Submit"@),
        (""@, ""@),
    ]
}

/// The second (confirm) postback: the same payload with the two trailing
/// entries replaced by the confirmation button and its postback target.
pub open spec fn spec_confirm_payload(
    t: BookTaskView,
    vs: Seq<char>,
    vsg: Seq<char>,
    ev: Seq<char>,
    tk: Seq<char>,
) -> Seq<(Seq<char>, Seq<char>)> {
    spec_hold_payload(t, vs, vsg, ev, tk).update(20, ("ctl00$main$btnSubmitYes"@, "Yes"@)).update(
        21,
        ("ctl00$main$ToolkitScriptManager1"@, "ctl00$main$UpdatePanel3|ctl00$main$btnSubmitYes"@),
    )
}

fn owned_pair(k: &str, v: &str) -> (r: (String, String))
    ensures
        r.0@ == k@,
        r.1@ == v@,
{
    (String::from_str(k), String::from_str(v))
}

/// Build the hold-postback payload from a request and the page's tokens.
pub fn build_hold_payload(task: &BookTask, tokens: &BookingTokens) -> (r: Vec<(String, String)>)
    ensures
        r.deep_view() == spec_hold_payload(
            task@,
            tokens.viewstate@,
            tokens.viewstate_generator@,
            tokens.event_validation@,
            tokens.toolkit_hidden@,
        ),
{
    let mut session_key = String::from_str("ctl00$main$listSession$");
    session_key.append(task.get_session());
    let mut p: Vec<(String, String)> = Vec::new();
    p.push(owned_pair("__VIEWSTATE", tokens.viewstate.as_str()));
    p.push(owned_pair("__VIEWSTATEGENERATOR", tokens.viewstate_generator.as_str()));
    p.push(owned_pair("__EVENTVALIDATION", tokens.event_validation.as_str()));
    p.push(owned_pair("main_ToolkitScriptManager1_HiddenField", tokens.toolkit_hidden.as_str()));
    p.push(owned_pair("ctl00$main$ToolkitScriptManager1", "ctl00$main$upMain|ctl00$main$btnSubmit"));
    p.push(owned_pair("__EVENTTARGET", ""));
    p.push(owned_pair("__EVENTARGUMENT", ""));
    p.push(owned_pair("__LASTFOCUS", ""));
    p.push(owned_pair("ctl00$main$ddlLibrary", task.get_library()));
    p.push(owned_pair("ctl00$main$ddlFloor", task.get_floor()));
    p.push(owned_pair("ctl00$main$ddlType", task.get_facility_type()));
    p.push(owned_pair("ctl00$main$ddlFacility", task.get_facility_id()));
    p.push(owned_pair("ctl00$main$ddlDate", task.get_date()));
    p.push((session_key, String::from_str(task.get_time())));
    p.push(owned_pair("ctl00$main$txtUserDescription", ""));
    p.push(owned_pair("ctl00$main$hBtnSubmit", ""));
    p.push(owned_pair("ctl00$main$hBtnEmail", ""));
    p.push(owned_pair("ctl00$main$txtEmail", ""));
    p.push(owned_pair("ctl00$main$hBtnResult", ""));
    p.push(owned_pair("__ASYNCPOST", "true"));
    p.push(owned_pair("ctl00$main$btnSubmit", "Submit"));
    p.push(owned_pair("", ""));
    proof {
        assert(p.deep_view() =~~= spec_hold_payload(
            task@,
            tokens.viewstate@,
            tokens.viewstate_generator@,
            tokens.event_validation@,
            tokens.toolkit_hidden@,
        ));
    }
    p
}

/// Turn a hold payload into the confirm payload in place: the trailing two
/// entries become the confirmation button and its partial-postback target;
/// every other entry — the captured tokens included — is reused verbatim.
pub fn set_confirm_fields(payload: &mut Vec<(String, String)>)
    requires
        old(payload)@.len() == 22,
    ensures
        final(payload).deep_view() == old(payload).deep_view().update(
            20,
            ("ctl00$main$btnSubmitYes"@, "Yes"@),
        ).update(
            21,
            ("ctl00$main$ToolkitScriptManager1"@, "ctl00$main$UpdatePanel3|ctl00$main$btnSubmitYes"@),
        ),
{
    payload.set(20, owned_pair("ctl00$main$btnSubmitYes", "Yes"));
    payload.set(
        21,
        owned_pair(
            "ctl00$main$ToolkitScriptManager1",
            "ctl00$main$UpdatePanel3|ctl00$main$btnSubmitYes",
        ),
    );
    proof {
        assert(payload.deep_view() =~~= old(payload).deep_view().update(
            20,
            ("ctl00$main$btnSubmitYes"@, "Yes"@),
        ).update(
            21,
            ("ctl00$main$ToolkitScriptManager1"@, "ctl00$main$UpdatePanel3|ctl00$main$btnSubmitYes"@),
        ));
    }
}

// ---------------------------------------------------------------------------
// Success detection
// ---------------------------------------------------------------------------

/// The literal substring whose presence in the final response means the
/// remote system accepted the booking.
pub open spec fn success_marker() -> Seq<char> {
    "Your Booking is successful"@
}

/// Decide the outcome of the confirm postback: success exactly when the
/// response body holds the success marker, else `BookingRejected` with the
/// raw body attached for caller-side diagnosis.
pub fn confirm_outcome(body: &str) -> (r: Result<(), BookingError>)
    ensures
        match r {
            Ok(u) => contains_seq(body@, success_marker()),
            Err(e) => {
                &&& !contains_seq(body@, success_marker())
                &&& e matches BookingError::BookingRejected(b) && b@ == body@
            },
        },
{
    if str_contains(body, "Your Booking is successful") {
        Ok(())
    } else {
        Err(BookingError::BookingRejected(String::from_str(body)))
    }
}

} // verus!
