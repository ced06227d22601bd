use hkulib::task::BookTask;

#[test]
fn make_url() {
    let task = BookTask::default("2021-09-30", "1", "1", "1", "1", "1", "1");
    let url = task.make_book_url();
    assert_eq!(url, "https://booking.lib.hku.hk/Secure/NewBooking.aspx?library=1&ftype=1&facility=1&date=20210930&session=1");
}

#[test]
fn task_mini() {
    let task = BookTask::new("2021-09-30", "08300930", "129").unwrap();
    let url = task.make_book_url();
    assert_eq!(url, "https://booking.lib.hku.hk/Secure/NewBooking.aspx?library=3&ftype=21&facility=129&date=20210930&session=0");

    let task = BookTask::new("2021-09-30", "09301030", "130").unwrap();
    assert_eq!(task.get_facility_type(), "21");
    assert_eq!(task.get_facility_id(), "130");
    assert_eq!(task.get_session(), "1");
}

#[test]
fn task_from() {
    let task = BookTask::new("2021-09-30", "08300930", "129").unwrap();
    let url = task.make_book_url();
    assert_eq!(url, "https://booking.lib.hku.hk/Secure/NewBooking.aspx?library=3&ftype=21&facility=129&date=20210930&session=0");
}

#[test]
fn derived_fields_full() {
    let task = BookTask::new("2021-09-30", "09301030", "130").unwrap();
    assert_eq!(task.get_date(), "2021-09-30");
    assert_eq!(task.get_time(), "09301030");
    assert_eq!(task.get_session(), "1");
    assert_eq!(task.get_library(), "3");
    assert_eq!(task.get_floor(), "3");
    assert_eq!(task.get_facility_id(), "130");
}

#[test]
fn invalid_facility_id_rejected() {
    assert_eq!(
        BookTask::new("2021-09-30", "08300930", "999").unwrap_err(),
        hkulib::BookingError::InvalidFacilityId
    );
    assert_eq!(
        BookTask::new("2021-09-30", "08300930", "128").unwrap_err(),
        hkulib::BookingError::InvalidFacilityId
    );
    assert_eq!(
        BookTask::new("2021-09-30", "08300930", "abc").unwrap_err(),
        hkulib::BookingError::InvalidFacilityId
    );
    assert_eq!(
        BookTask::new("2021-09-30", "08300930", "").unwrap_err(),
        hkulib::BookingError::InvalidFacilityId
    );
    assert_eq!(
        BookTask::new("2021-09-30", "08300930", "99999999999").unwrap_err(),
        hkulib::BookingError::InvalidFacilityId
    );
}

#[test]
fn unknown_slot_falls_back_to_session_zero() {
    let task = BookTask::new("2021-09-30", "12345678", "129").unwrap();
    assert_eq!(task.get_session(), "0");
    assert_eq!(task.get_time(), "12345678");
}

#[test]
fn explicit_fields_round_trip() {
    let derived = BookTask::new("2021-09-30", "09301030", "130").unwrap();
    let explicit = BookTask::default("2021-09-30", "09301030", "1", "3", "3", "21", "130");
    assert_eq!(derived.make_book_url(), explicit.make_book_url());
}

#[test]
fn leading_zero_id_is_normalised() {
    let task = BookTask::new("2021-09-30", "08300930", "0129").unwrap();
    assert_eq!(task.get_facility_id(), "129");
    assert_eq!(task.get_session(), "0");
}
