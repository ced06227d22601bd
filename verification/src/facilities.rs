use vstd::prelude::*;

verus! {

/// A bookable facility definition: the fixed codes the remote form expects,
/// the inclusive range of facility ids it owns, and its ordered list of
/// `HHMMHHMM` time-slot strings (unused trailing slots are `"00000000"`).
pub struct Facility {
    pub library: i32,
    pub floor: i32,
    pub facility_type: i32,
    pub init_id: i32,
    pub final_id: i32,
    pub session_list: Vec<String>,
}

/// Mathematical model of a facility: plain integers and character sequences.
pub ghost struct FacilityModel {
    pub library: int,
    pub floor: int,
    pub facility_type: int,
    pub init_id: int,
    pub final_id: int,
    pub sessions: Seq<Seq<char>>,
}

/// The model a concrete facility value denotes.
pub open spec fn facility_model(f: Facility) -> FacilityModel {
    FacilityModel {
        library: f.library as int,
        floor: f.floor as int,
        facility_type: f.facility_type as int,
        init_id: f.init_id as int,
        final_id: f.final_id as int,
        sessions: f.session_list.deep_view(),
    }
}

/// A facility's fields are in range for the form codes and its slot table is
/// the full twenty entries.
pub open spec fn facility_wf(m: FacilityModel) -> bool {
    &&& 0 <= m.library <= i32::MAX
    &&& 0 <= m.floor <= i32::MAX
    &&& 0 <= m.facility_type <= i32::MAX
    &&& 0 <= m.init_id <= m.final_id <= i32::MAX
    &&& m.sessions.len() == 20
}

/// The discussion-room definition, the one entry of the catalog.
pub open spec fn discussion_room_model() -> FacilityModel {
    FacilityModel {
        library: 3,
        floor: 3,
        facility_type: 21,
        init_id: 129,
        final_id: 134,
        sessions: seq![
            "08300930"@,
            "09301030"@,
            "10301130"@,
            "11301230"@,
            "12301330"@,
            "13301430"@,
            "14301530"@,
            "15301630"@,
            "16301730"@,
            "17301830"@,
            "18301930"@,
            "19302030"@,
            "20302200"@,
            "00000000"@,
            "00000000"@,
            "00000000"@,
            "00000000"@,
            "00000000"@,
            "00000000"@,
            "00000000"@,
        ],
    }
}

/// The full catalog, in lookup order.
pub open spec fn catalog_model() -> Seq<FacilityModel> {
    seq![discussion_room_model()]
}

/// First entry of `entries` whose id range contains `id`.
pub open spec fn lookup_model(entries: Seq<FacilityModel>, id: int) -> Option<FacilityModel>
    decreases entries.len(),
{
    if entries.len() == 0 {
        None
    } else if entries[0].init_id <= id && id <= entries[0].final_id {
        Some(entries[0])
    } else {
        lookup_model(entries.subrange(1, entries.len() as int), id)
    }
}

/// What the catalog answers for a facility id.
pub open spec fn spec_lookup(id: int) -> Option<FacilityModel> {
    lookup_model(catalog_model(), id)
}

/// Whatever the catalog answers is a well-formed facility.
pub proof fn lemma_lookup_wf(id: int)
    ensures
        match spec_lookup(id) {
            Some(m) => facility_wf(m),
            None => true,
        },
{
    assert(catalog_model().subrange(1, 1).len() == 0);
    assert(lookup_model(catalog_model().subrange(1, 1), id) is None);
    if spec_lookup(id) is Some {
        assert(spec_lookup(id) == Some(discussion_room_model()));
    }
}

fn discussion_room() -> (f: Facility)
    ensures
        facility_model(f) == discussion_room_model(),
{
    let mut sl: Vec<String> = Vec::new();
    sl.push(String::from_str("08300930"));
    sl.push(String::from_str("09301030"));
    sl.push(String::from_str("10301130"));
    sl.push(String::from_str("11301230"));
    sl.push(String::from_str("12301330"));
    sl.push(String::from_str("13301430"));
    sl.push(String::from_str("14301530"));
    sl.push(String::from_str("15301630"));
    sl.push(String::from_str("16301730"));
    sl.push(String::from_str("17301830"));
    sl.push(String::from_str("18301930"));
    sl.push(String::from_str("19302030"));
    sl.push(String::from_str("20302200"));
    sl.push(String::from_str("00000000"));
    sl.push(String::from_str("00000000"));
    sl.push(String::from_str("00000000"));
    sl.push(String::from_str("00000000"));
    sl.push(String::from_str("00000000"));
    sl.push(String::from_str("00000000"));
    sl.push(String::from_str("00000000"));
    let f = Facility {
        library: 3,
        floor: 3,
        facility_type: 21,
        init_id: 129,
        final_id: 134,
        session_list: sl,
    };
    proof {
        assert(f.session_list.deep_view() =~~= discussion_room_model().sessions);
    }
    f
}

fn catalog() -> (v: Vec<Facility>)
    ensures
        v@.len() == catalog_model().len(),
        forall|k: int|
            0 <= k < v@.len() ==> facility_model(#[trigger] v@[k]) == catalog_model()[k],
{
    let mut v: Vec<Facility> = Vec::new();
    v.push(discussion_room());
    v
}

/// Linear scan of the catalog; returns the first facility whose inclusive
/// `[init_id, final_id]` range contains `id`, and nothing when no range does.
pub fn get_facility_by_id(id: i32) -> (r: Option<Facility>)
    ensures
        match r {
            Some(f) => spec_lookup(id as int) == Some(facility_model(f)),
            None => spec_lookup(id as int) is None,
        },
{
    let mut facilities = catalog();
    let n = facilities.len();
    proof {
        assert(catalog_model().subrange(0, catalog_model().len() as int) =~= catalog_model());
    }
    let mut i: usize = 0;
    while i < n
        invariant
            n == facilities@.len(),
            i <= n,
            facilities@.len() == catalog_model().len(),
            forall|k: int|
                0 <= k < facilities@.len() ==> facility_model(#[trigger] facilities@[k])
                    == catalog_model()[k],
            spec_lookup(id as int) == lookup_model(
                catalog_model().subrange(i as int, catalog_model().len() as int),
                id as int,
            ),
        decreases n - i,
    {
        let in_range = id >= facilities[i].init_id && id <= facilities[i].final_id;
        proof {
            let rest = catalog_model().subrange(i as int, catalog_model().len() as int);
            assert(rest[0] == catalog_model()[i as int]);
            assert(rest.subrange(1, rest.len() as int) =~= catalog_model().subrange(
                i + 1,
                catalog_model().len() as int,
            ));
        }
        if in_range {
            let f = facilities.remove(i);
            return Some(f);
        }
        i += 1;
    }
    proof {
        assert(catalog_model().subrange(n as int, catalog_model().len() as int).len() == 0);
    }
    None
}

/// First index at which `t` occurs in `slots`.
pub open spec fn first_slot(slots: Seq<Seq<char>>, t: Seq<char>) -> Option<int>
    decreases slots.len(),
{
    if slots.len() == 0 {
        None
    } else if slots[0] == t {
        Some(0)
    } else {
        match first_slot(slots.subrange(1, slots.len() as int), t) {
            Some(i) => Some(i + 1),
            None => None,
        }
    }
}

/// A found slot index lies inside the slot table.
pub proof fn lemma_first_slot_bounds(slots: Seq<Seq<char>>, t: Seq<char>)
    ensures
        first_slot(slots, t) matches Some(i) ==> 0 <= i < slots.len(),
    decreases slots.len(),
{
    if slots.len() > 0 && slots[0] != t {
        lemma_first_slot_bounds(slots.subrange(1, slots.len() as int), t);
    }
}

proof fn lemma_first_slot_found(slots: Seq<Seq<char>>, t: Seq<char>, i: int)
    requires
        0 <= i < slots.len(),
        slots[i] == t,
        forall|j: int| 0 <= j < i ==> slots[j] != t,
    ensures
        first_slot(slots, t) == Some(i),
    decreases i,
{
    let rest = slots.subrange(1, slots.len() as int);
    if i == 0 {
    } else {
        assert(forall|j: int| 0 <= j < i - 1 ==> rest[j] != t);
        lemma_first_slot_found(rest, t, i - 1);
    }
}

proof fn lemma_first_slot_missing(slots: Seq<Seq<char>>, t: Seq<char>)
    requires
        forall|j: int| 0 <= j < slots.len() ==> slots[j] != t,
    ensures
        first_slot(slots, t) is None,
    decreases slots.len(),
{
    if slots.len() > 0 {
        lemma_first_slot_missing(slots.subrange(1, slots.len() as int), t);
    }
}

impl Facility {
    /// Index of the exact slot string `time` in this facility's session
    /// list, if it occurs; the caller decides what a miss means.
    pub fn session_index(&self, time: &str) -> (r: Option<usize>)
        ensures
            match r {
                Some(i) => first_slot(self.session_list.deep_view(), time@) == Some(i as int),
                None => first_slot(self.session_list.deep_view(), time@) is None,
            },
    {
        let ghost slots = self.session_list.deep_view();
        let n = self.session_list.len();
        let mut i: usize = 0;
        while i < n
            invariant
                n == self.session_list@.len(),
                slots == self.session_list.deep_view(),
                i <= n,
                forall|j: int| 0 <= j < i ==> slots[j] != time@,
            decreases n - i,
        {
            if crate::text::str_eq(self.session_list[i].as_str(), time) {
                proof {
                    lemma_first_slot_found(slots, time@, i as int);
                }
                return Some(i);
            }
            i += 1;
        }
        proof {
            lemma_first_slot_missing(slots, time@);
        }
        None
    }
}

} // verus!

