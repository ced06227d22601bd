use hkulib::BookingError;
use hkulib::fetch::parse_booking_page;

fn page_with_rows(rows: &str) -> String {
    format!(
        "<html><body><table id=\"main_gvRecord\"><tr><th>h1</th></tr>{}</table></body></html>",
        rows
    )
}

#[test]
fn data_row_becomes_record() {
    let rows = "<tr><td>_</td><td>30 Sep 2021 08:30</td><td>_ _ 09:30</td>\
                <td>_</td><td>_</td><td>Discussion Room A</td><td>Confirmed</td></tr>";
    let records = parse_booking_page(&page_with_rows(rows)).unwrap();
    assert_eq!(records.len(), 1);
    assert_eq!(records[0].get_date(), "30");
    assert_eq!(records[0].get_time(), "08:30 - 09:30");
    assert_eq!(records[0].get_facility_name(), "Discussion Room A");
    assert_eq!(records[0].get_state(), "Confirmed");
}

#[test]
fn date_weekday_time_cells_become_record() {
    let rows = "<tr><td>1</td><td>30Sep2021 Thu 08:30</td><td>30Sep2021 Thu 09:30</td>\
                <td>a</td><td>b</td><td>Discussion Room A</td><td>Confirmed</td></tr>";
    let records = parse_booking_page(&page_with_rows(rows)).unwrap();
    assert_eq!(records.len(), 1);
    assert_eq!(records[0].get_date(), "30Sep2021");
    assert_eq!(records[0].get_time(), "08:30 - 09:30");
}

#[test]
fn decorative_rows_are_skipped() {
    let rows = "<tr><td>only</td><td>three</td><td>cells</td></tr>\
                <tr><td>1</td><td>01Oct2021 Fri 10:30</td><td>01Oct2021 Fri 11:30</td>\
                <td>a</td><td>b</td><td>Study Room B</td><td>Pending</td></tr>";
    let records = parse_booking_page(&page_with_rows(rows)).unwrap();
    assert_eq!(records.len(), 1);
    assert_eq!(records[0].get_time(), "10:30 - 11:30");
    assert_eq!(records[0].get_facility_name(), "Study Room B");
    assert_eq!(records[0].get_state(), "Pending");
}

#[test]
fn empty_table_yields_no_records() {
    let records = parse_booking_page(&page_with_rows("")).unwrap();
    assert!(records.is_empty());
}

#[test]
fn missing_table_is_reported() {
    let page = "<html><body><p>nothing here</p></body></html>";
    assert_eq!(parse_booking_page(page).unwrap_err(), BookingError::RecordTableMissing);
}

#[test]
fn short_data_row_is_malformed() {
    let rows = "<tr><td>1</td><td>x</td><td>y</td><td>z</td><td>w</td></tr>";
    assert_eq!(
        parse_booking_page(&page_with_rows(rows)).unwrap_err(),
        BookingError::MalformedRecord
    );
}

#[test]
fn empty_time_cell_is_malformed() {
    let rows = "<tr><td>1</td><td>  </td><td>30Sep2021 Thu 09:30</td>\
                <td>a</td><td>b</td><td>Room</td><td>Confirmed</td></tr>";
    assert_eq!(
        parse_booking_page(&page_with_rows(rows)).unwrap_err(),
        BookingError::MalformedRecord
    );
}
