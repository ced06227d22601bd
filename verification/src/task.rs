use vstd::prelude::*;

use crate::BookingError;
use crate::facilities::{
    FacilityModel, first_slot, get_facility_by_id, lemma_first_slot_bounds, lemma_lookup_wf,
    spec_lookup,
};
use crate::text::{
    all_digits, dec_of, dec_val, is_canonical_dec, lemma_dec_roundtrip, parse_dec, strip_dashes,
    strip_dashes_str, u32_to_dec,
};

verus! {

/// A booking request with every field already in the string form the remote
/// booking form expects.
#[derive(Debug)]
pub struct BookTask {
    date: String,
    time: String,
    session: String,
    library: String,
    floor: String,
    facility_type: String,
    facility_id: String,
}

/// Mathematical model of a booking request: one character sequence per field.
pub ghost struct BookTaskView {
    pub date: Seq<char>,
    pub time: Seq<char>,
    pub session: Seq<char>,
    pub library: Seq<char>,
    pub floor: Seq<char>,
    pub facility_type: Seq<char>,
    pub facility_id: Seq<char>,
}

impl View for BookTask {
    type V = BookTaskView;

    closed spec fn view(&self) -> BookTaskView {
        BookTaskView {
            date: self.date@,
            time: self.time@,
            session: self.session@,
            library: self.library@,
            floor: self.floor@,
            facility_type: self.facility_type@,
            facility_id: self.facility_id@,
        }
    }
}

/// The facility id a request names, read as a decimal number, when it is a
/// non-empty digit string whose value fits the id type.
pub open spec fn valid_task_id(s: Seq<char>) -> Option<int> {
    if s.len() > 0 && all_digits(s) && dec_val(s) <= i32::MAX {
        Some(dec_val(s) as int)
    } else {
        None
    }
}

/// The session index the three-argument constructor derives: the first exact
/// match of `time` in the facility's slot table, or zero when none matches.
pub open spec fn derived_session(m: FacilityModel, time: Seq<char>) -> int {
    match first_slot(m.sessions, time) {
        Some(i) => i,
        None => 0,
    }
}

/// The booking URL a request denotes: fixed endpoint, the request's codes,
/// the date with its hyphens stripped, and the session index.
pub open spec fn spec_book_url(v: BookTaskView) -> Seq<char> {
    "https://booking.lib.hku.hk/Secure/NewBooking.aspx?library="@ + v.library + "&ftype="@
        + v.facility_type + "&facility="@ + v.facility_id + "&date="@ + strip_dashes(v.date)
        + "&session="@ + v.session
}

impl BookTask {
    /// Build a request from a date, a raw slot string and a facility id.
    /// The id must parse and resolve through the catalog, else
    /// `InvalidFacilityId`; a slot string matching no table entry falls back
    /// to session index zero.
    pub fn new(date: &str, time: &str, facility_id: &str) -> (r: Result<BookTask, BookingError>)
        ensures
            match r {
                Ok(t) => match valid_task_id(facility_id@) {
                    Some(id) => match spec_lookup(id) {
                        Some(m) => {
                            &&& t@.date == date@
                            &&& t@.time == time@
                            &&& t@.session == dec_of(derived_session(m, time@) as nat)
                            &&& t@.library == dec_of(m.library as nat)
                            &&& t@.floor == dec_of(m.floor as nat)
                            &&& t@.facility_type == dec_of(m.facility_type as nat)
                            &&& t@.facility_id == dec_of(id as nat)
                        },
                        None => false,
                    },
                    None => false,
                },
                Err(e) => {
                    &&& e == BookingError::InvalidFacilityId
                    &&& match valid_task_id(facility_id@) {
                        Some(id) => spec_lookup(id) is None,
                        None => true,
                    }
                },
            },
    {
        let id_val = match parse_dec(facility_id) {
            Some(v) => v,
            None => {
                return Err(BookingError::InvalidFacilityId);
            },
        };
        if id_val > i32::MAX as u32 {
            return Err(BookingError::InvalidFacilityId);
        }
        let id = id_val as i32;
        let facility = match get_facility_by_id(id) {
            Some(f) => f,
            None => {
                return Err(BookingError::InvalidFacilityId);
            },
        };
        proof {
            lemma_lookup_wf(id as int);
            lemma_first_slot_bounds(facility.session_list.deep_view(), time@);
        }
        let session: usize = match facility.session_index(time) {
            Some(i) => i,
            None => 0,
        };
        Ok(
            BookTask {
                date: String::from_str(date),
                time: String::from_str(time),
                session: u32_to_dec(session as u32),
                library: u32_to_dec(facility.library as u32),
                floor: u32_to_dec(facility.floor as u32),
                facility_type: u32_to_dec(facility.facility_type as u32),
                facility_id: u32_to_dec(id as u32),
            },
        )
    }

    /// Build a request from fully explicit fields; no catalog lookup and no
    /// validation — the caller is trusted.
    pub fn default(
        date: &str,
        time: &str,
        session: &str,
        library: &str,
        floor: &str,
        facility_type: &str,
        facility_id: &str,
    ) -> (t: BookTask)
        ensures
            t@.date == date@,
            t@.time == time@,
            t@.session == session@,
            t@.library == library@,
            t@.floor == floor@,
            t@.facility_type == facility_type@,
            t@.facility_id == facility_id@,
    {
        BookTask {
            date: String::from_str(date),
            time: String::from_str(time),
            session: String::from_str(session),
            library: String::from_str(library),
            floor: String::from_str(floor),
            facility_type: String::from_str(facility_type),
            facility_id: String::from_str(facility_id),
        }
    }

    /// The booking-page URL for this request.
    pub fn make_book_url(&self) -> (r: String)
        ensures
            r@ == spec_book_url(self@),
    {
        let mut url = String::from_str(
            "https://booking.lib.hku.hk/Secure/NewBooking.aspx?library=",
        );
        url.append(self.library.as_str());
        url.append("&ftype=");
        url.append(self.facility_type.as_str());
        url.append("&facility=");
        url.append(self.facility_id.as_str());
        url.append("&date=");
        let stripped = strip_dashes_str(self.date.as_str());
        url.append(stripped.as_str());
        url.append("&session=");
        url.append(self.session.as_str());
        proof {
            assert(url@ =~= spec_book_url(self@));
        }
        url
    }

    pub fn get_date(&self) -> (r: &str)
        ensures
            r@ == self@.date,
    {
        self.date.as_str()
    }

    pub fn get_time(&self) -> (r: &str)
        ensures
            r@ == self@.time,
    {
        self.time.as_str()
    }

    pub fn get_session(&self) -> (r: &str)
        ensures
            r@ == self@.session,
    {
        self.session.as_str()
    }

    pub fn get_library(&self) -> (r: &str)
        ensures
            r@ == self@.library,
    {
        self.library.as_str()
    }

    pub fn get_floor(&self) -> (r: &str)
        ensures
            r@ == self@.floor,
    {
        self.floor.as_str()
    }

    pub fn get_facility_type(&self) -> (r: &str)
        ensures
            r@ == self@.facility_type,
    {
        self.facility_type.as_str()
    }

    pub fn get_facility_id(&self) -> (r: &str)
        ensures
            r@ == self@.facility_id,
    {
        self.facility_id.as_str()
    }
}

/// Law: the booking URL is a function of the library, type, id, date and
/// session fields alone, so a request derived through the catalog and one
/// built from the same explicit fields yield identical URLs.
pub proof fn lemma_book_url_round_trip(a: BookTaskView, b: BookTaskView)
    requires
        a.date == b.date,
        a.session == b.session,
        a.library == b.library,
        a.facility_type == b.facility_type,
        a.facility_id == b.facility_id,
    ensures
        spec_book_url(a) == spec_book_url(b),
{
}

/// Law (round trip over the raw inputs): build a request from a date, slot
/// and id string through the catalog (`new`), then one from explicit fields
/// carrying the derived request's own session, library and type strings
/// together with the same date and id strings (`default`). For an id string
/// in canonical decimal form — no leading zero — the two denote identical
/// booking URLs: `new`'s id field is the rendering of the parsed value, and
/// that rendering gives the canonical string back. (An id string with a
/// leading zero names the same facility but different URL text, so it is
/// left out here.)
pub proof fn lemma_new_default_url_agreement(fid: Seq<char>, nv: BookTaskView, dv: BookTaskView)
    requires
        is_canonical_dec(fid),
        nv.facility_id == dec_of(dec_val(fid)),
        dv.facility_id == fid,
        dv.date == nv.date,
        dv.session == nv.session,
        dv.library == nv.library,
        dv.facility_type == nv.facility_type,
    ensures
        spec_book_url(nv) == spec_book_url(dv),
{
    lemma_dec_roundtrip(fid);
}

/// A parsed row of the "my bookings" page: plain text taken from one record.
#[derive(Debug)]
pub struct FetchTask {
    date: String,
    time: String,
    facility_name: String,
    state: String,
}

/// Mathematical model of a fetched record.
pub ghost struct FetchTaskView {
    pub date: Seq<char>,
    pub time: Seq<char>,
    pub facility_name: Seq<char>,
    pub state: Seq<char>,
}

impl View for FetchTask {
    type V = FetchTaskView;

    closed spec fn view(&self) -> FetchTaskView {
        FetchTaskView {
            date: self.date@,
            time: self.time@,
            facility_name: self.facility_name@,
            state: self.state@,
        }
    }
}

impl DeepView for FetchTask {
    type V = FetchTaskView;

    open spec fn deep_view(&self) -> FetchTaskView {
        self.view()
    }
}

impl FetchTask {
    pub fn new(date: String, time: String, facility_name: String, state: String) -> (t:
        FetchTask)
        ensures
            t@.date == date@,
            t@.time == time@,
            t@.facility_name == facility_name@,
            t@.state == state@,
    {
        FetchTask { date, time, facility_name, state }
    }

    pub fn get_date(&self) -> (r: &str)
        ensures
            r@ == self@.date,
    {
        self.date.as_str()
    }

    pub fn get_time(&self) -> (r: &str)
        ensures
            r@ == self@.time,
    {
        self.time.as_str()
    }

    pub fn get_facility_name(&self) -> (r: &str)
        ensures
            r@ == self@.facility_name,
    {
        self.facility_name.as_str()
    }

    pub fn get_state(&self) -> (r: &str)
        ensures
            r@ == self@.state,
    {
        self.state.as_str()
    }
}

} // verus!
