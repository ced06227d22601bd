use hkulib::facilities::get_facility_by_id;

#[test]
fn lookup_inside_range() {
    for id in 129..=134 {
        let f = get_facility_by_id(id).unwrap();
        assert_eq!(f.library, 3);
        assert_eq!(f.floor, 3);
        assert_eq!(f.facility_type, 21);
        assert_eq!(f.init_id, 129);
        assert_eq!(f.final_id, 134);
        assert_eq!(f.session_list.len(), 20);
        assert_eq!(f.session_list[0], "08300930");
        assert_eq!(f.session_list[12], "20302200");
        assert_eq!(f.session_list[13], "00000000");
    }
}

#[test]
fn lookup_outside_every_range() {
    assert!(get_facility_by_id(128).is_none());
    assert!(get_facility_by_id(135).is_none());
    assert!(get_facility_by_id(0).is_none());
    assert!(get_facility_by_id(-5).is_none());
}

#[test]
fn session_index_finds_first_match() {
    let f = get_facility_by_id(129).unwrap();
    assert_eq!(f.session_index("08300930"), Some(0));
    assert_eq!(f.session_index("09301030"), Some(1));
    assert_eq!(f.session_index("20302200"), Some(12));
    assert_eq!(f.session_index("00000000"), Some(13));
    assert_eq!(f.session_index("99999999"), None);
}
