use hkulib::BookingError;
use hkulib::protocol::{
    BookingTokens, build_hold_payload, confirm_outcome, extract_tokens, set_confirm_fields,
};
use hkulib::task::BookTask;

fn sample_page() -> String {
    let mut page = String::new();
    page.push_str("<html><body><form>\n");
    page.push_str("<input type=\"hidden\" name=\"__VIEWSTATE\" id=\"__VIEWSTATE\" value=\"VS123\" />\n");
    page.push_str(
        "<input type=\"hidden\" name=\"__VIEWSTATEGENERATOR\" id=\"__VIEWSTATEGENERATOR\" value=\"GEN9\" />\n",
    );
    page.push_str(
        "<input type=\"hidden\" name=\"__EVENTVALIDATION\" id=\"__EVENTVALIDATION\" value=\"EV77\" />\n",
    );
    page.push_str(
        "<input type=\"hidden\" id=\"main_ToolkitScriptManager1_HiddenField\" value=\"TK5\" />\n",
    );
    page.push_str("</form></body></html>\n");
    page
}

#[test]
fn tokens_extracted_from_page() {
    let tokens = extract_tokens(&sample_page()).unwrap();
    assert_eq!(tokens.viewstate, "VS123");
    assert_eq!(tokens.viewstate_generator, "GEN9");
    assert_eq!(tokens.event_validation, "EV77");
    assert_eq!(tokens.toolkit_hidden, "TK5");
}

#[test]
fn missing_marker_is_fatal() {
    let page = "<html><body>no hidden fields here</body></html>";
    assert_eq!(extract_tokens(page).unwrap_err(), BookingError::ProtocolTokenMissing);

    let partial = "<input id=\"__VIEWSTATE\" value=\"VS\" />";
    assert_eq!(extract_tokens(partial).unwrap_err(), BookingError::ProtocolTokenMissing);
}

fn sample_tokens() -> BookingTokens {
    BookingTokens {
        viewstate: "VS123".to_string(),
        viewstate_generator: "GEN9".to_string(),
        event_validation: "EV77".to_string(),
        toolkit_hidden: "TK5".to_string(),
    }
}

#[test]
fn hold_payload_shape() {
    let task = BookTask::new("2021-09-30", "09301030", "130").unwrap();
    let payload = build_hold_payload(&task, &sample_tokens());
    assert_eq!(payload.len(), 22);
    assert_eq!(payload[0], ("__VIEWSTATE".to_string(), "VS123".to_string()));
    assert_eq!(payload[1], ("__VIEWSTATEGENERATOR".to_string(), "GEN9".to_string()));
    assert_eq!(payload[2], ("__EVENTVALIDATION".to_string(), "EV77".to_string()));
    assert_eq!(
        payload[3],
        ("main_ToolkitScriptManager1_HiddenField".to_string(), "TK5".to_string())
    );
    assert_eq!(
        payload[4],
        (
            "ctl00$main$ToolkitScriptManager1".to_string(),
            "ctl00$main$upMain|ctl00$main$btnSubmit".to_string()
        )
    );
    assert_eq!(payload[8], ("ctl00$main$ddlLibrary".to_string(), "3".to_string()));
    assert_eq!(payload[9], ("ctl00$main$ddlFloor".to_string(), "3".to_string()));
    assert_eq!(payload[10], ("ctl00$main$ddlType".to_string(), "21".to_string()));
    assert_eq!(payload[11], ("ctl00$main$ddlFacility".to_string(), "130".to_string()));
    assert_eq!(payload[12], ("ctl00$main$ddlDate".to_string(), "2021-09-30".to_string()));
    assert_eq!(
        payload[13],
        ("ctl00$main$listSession$1".to_string(), "09301030".to_string())
    );
    assert_eq!(payload[19], ("__ASYNCPOST".to_string(), "true".to_string()));
    assert_eq!(payload[20], ("ctl00$main$btnSubmit".to_string(), "Submit".to_string()));
    assert_eq!(payload[21], ("".to_string(), "".to_string()));
}

#[test]
fn confirm_payload_mutates_only_the_tail() {
    let task = BookTask::new("2021-09-30", "08300930", "129").unwrap();
    let mut payload = build_hold_payload(&task, &sample_tokens());
    let before = payload.clone();
    set_confirm_fields(&mut payload);
    assert_eq!(payload.len(), 22);
    assert_eq!(payload[20], ("ctl00$main$btnSubmitYes".to_string(), "Yes".to_string()));
    assert_eq!(
        payload[21],
        (
            "ctl00$main$ToolkitScriptManager1".to_string(),
            "ctl00$main$UpdatePanel3|ctl00$main$btnSubmitYes".to_string()
        )
    );
    for i in 0..20 {
        assert_eq!(payload[i], before[i]);
    }
}

#[test]
fn success_marker_accepted() {
    let body = "<div>Your Booking is successful</div>";
    assert!(confirm_outcome(body).is_ok());
}

#[test]
fn missing_marker_rejected_with_body() {
    let body = "<div>Sorry, the slot is taken</div>";
    match confirm_outcome(body).unwrap_err() {
        BookingError::BookingRejected(kept) => assert_eq!(kept, body),
        other => panic!("unexpected error: {:?}", other),
    }
}
