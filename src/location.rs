use vstd::prelude::*;
use vstd::string::*;

verus! {

/// The course scope of a location saved for every course.
pub const GLOBAL_SCOPE: i64 = -1;

/// A place to check in from: address label, longitude, latitude, altitude,
/// each as the text the platform takes.
pub struct Location {
    pub addr: String,
    pub lon: String,
    pub lat: String,
    pub alt: String,
}

impl Location {
    pub fn new(addr: &str, lon: &str, lat: &str, alt: &str) -> (r: Location)
        ensures
            r.addr@ == addr@,
            r.lon@ == lon@,
            r.lat@ == lat@,
            r.alt@ == alt@,
    {
        Location { addr: addr.to_owned(), lon: lon.to_owned(), lat: lat.to_owned(), alt: alt.to_owned() }
    }

    pub fn copied(&self) -> (r: Location)
        ensures
            r == *self,
    {
        Location {
            addr: self.addr.clone(),
            lon: self.lon.clone(),
            lat: self.lat.clone(),
            alt: self.alt.clone(),
        }
    }
}

/// A location kept in the store, with its identifier and course scope
/// (`GLOBAL_SCOPE` for every course).
pub struct SavedLocation {
    pub id: i64,
    pub course: i64,
    pub location: Location,
}

/// The location a teacher set for a check-in, as found in the account's log,
/// together with a copy shifted by a small random offset.
pub struct Preset {
    pub active_id: i64,
    pub exact: Location,
    pub shifted: Location,
}

/// The positions of the commas in `s`, in order.
pub open spec fn commas(s: Seq<char>) -> Seq<int>
    decreases s.len(),
{
    if s.len() == 0 {
        Seq::empty()
    } else if s.last() == ',' {
        commas(s.drop_last()).push(s.len() - 1)
    } else {
        commas(s.drop_last())
    }
}

/// The location that `addr,lon,lat,alt` denotes: present when `s` holds
/// exactly three commas.
pub open spec fn location_text(s: Seq<char>) -> Option<(Seq<char>, Seq<char>, Seq<char>, Seq<char>)> {
    let c = commas(s);
    if c.len() == 3 {
        Some((s.subrange(0, c[0]), s.subrange(c[0] + 1, c[1]), s.subrange(c[1] + 1, c[2]), s.subrange(c[2] + 1, s.len() as int)))
    } else {
        None
    }
}

pub open spec fn fields_of(l: Location) -> (Seq<char>, Seq<char>, Seq<char>, Seq<char>) {
    (l.addr@, l.lon@, l.lat@, l.alt@)
}

pub(crate) proof fn lemma_commas_in_order(s: Seq<char>)
    ensures
        forall|k: int| 0 <= k < commas(s).len() ==> 0 <= #[trigger] commas(s)[k] < s.len() && s[commas(s)[k]] == ',',
        forall|k: int, l: int| 0 <= k < l < commas(s).len() ==> #[trigger] commas(s)[k] < #[trigger] commas(s)[l],
    decreases s.len(),
{
    if s.len() > 0 {
        let p = s.drop_last();
        lemma_commas_in_order(p);
        assert forall|k: int| 0 <= k < commas(p).len() implies s[#[trigger] commas(p)[k]] == ',' by {
            assert(p[commas(p)[k]] == ',');
        }
        assert forall|k: int, l: int| 0 <= k < l < commas(s).len() implies #[trigger] commas(s)[k] < #[trigger] commas(s)[l] by {
            if s.last() == ',' && l == commas(p).len() {
                assert(commas(s)[k] == commas(p)[k]);
            }
        }
    }
}

/// Reads a location written `addr,lon,lat,alt`.
pub fn parse_location(s: &str) -> (r: Option<Location>)
    ensures
        match location_text(s@) {
            Some(f) => r is Some && fields_of(r->0) == f,
            None => r is None,
        },
{
    let n = s.unicode_len();
    let mut found: Vec<usize> = Vec::new();
    let mut i: usize = 0;
    while i < n
        invariant
            i <= n,
            n == s@.len(),
            found.len() == commas(s@.take(i as int)).len(),
            forall|k: int| 0 <= k < found.len() ==> #[trigger] found[k] as int == commas(s@.take(i as int))[k],
        decreases n - i,
    {
        proof {
            assert(s@.take(i + 1).drop_last() =~= s@.take(i as int));
        }
        if s.get_char(i) == ',' {
            found.push(i);
        }
        i = i + 1;
    }
    assert(s@.take(n as int) =~= s@);
    proof {
        lemma_commas_in_order(s@);
    }
    if found.len() != 3 {
        return None;
    }
    let addr = s.substring_char(0, found[0]);
    let lon = s.substring_char(found[0] + 1, found[1]);
    let lat = s.substring_char(found[1] + 1, found[2]);
    let alt = s.substring_char(found[2] + 1, n);
    Some(Location::new(addr, lon, lat, alt))
}

/// The saved locations of scope `course`, in store order.
pub open spec fn saved_in(saved: Seq<SavedLocation>, course: i64) -> Seq<Location>
    decreases saved.len(),
{
    if saved.len() == 0 {
        Seq::empty()
    } else {
        let rest = saved_in(saved.drop_last(), course);
        if saved.last().course == course { rest.push(saved.last().location) } else { rest }
    }
}

/// The saved location with identifier `id`, the first if several.
pub open spec fn saved_with_id(saved: Seq<SavedLocation>, id: i64) -> Option<Location>
    decreases saved.len(),
{
    if saved.len() == 0 {
        None
    } else if saved[0].id == id {
        Some(saved[0].location)
    } else {
        saved_with_id(saved.drop_first(), id)
    }
}

/// The preset of check-in `active_id`, the first if several, shifted when
/// `jitter` holds.
pub open spec fn preset_for(presets: Seq<Preset>, active_id: i64, jitter: bool) -> Option<Location>
    decreases presets.len(),
{
    if presets.len() == 0 {
        None
    } else if presets[0].active_id == active_id {
        Some(if jitter { presets[0].shifted } else { presets[0].exact })
    } else {
        preset_for(presets.drop_first(), active_id, jitter)
    }
}

pub open spec fn opt_seq(o: Option<Location>) -> Seq<Location> {
    match o {
        Some(l) => seq![l],
        None => Seq::empty(),
    }
}

/// The candidates to try for check-in `active_id` of course `course`, in order:
/// the explicit location alone; else the selected saved location alone; else
/// the preset, then the course's saved locations, then the global ones.
pub open spec fn candidates(
    course: i64,
    active_id: i64,
    explicit: Option<Location>,
    selected: Option<i64>,
    presets: Seq<Preset>,
    saved: Seq<SavedLocation>,
    jitter: bool,
) -> Seq<Location> {
    match explicit {
        Some(l) => seq![l],
        None => match selected {
            Some(id) => opt_seq(saved_with_id(saved, id)),
            None => opt_seq(preset_for(presets, active_id, jitter)) + saved_in(saved, course) + saved_in(
                saved,
                GLOBAL_SCOPE,
            ),
        },
    }
}

fn push_saved_in(out: &mut Vec<Location>, saved: &Vec<SavedLocation>, course: i64)
    ensures
        final(out)@ == old(out)@ + saved_in(saved@, course),
{
    let ghost start = out@;
    let mut i: usize = 0;
    while i < saved.len()
        invariant
            i <= saved.len(),
            out@ == start + saved_in(saved@.take(i as int), course),
        decreases saved.len() - i,
    {
        proof {
            assert(saved@.take(i + 1).drop_last() =~= saved@.take(i as int));
        }
        if saved[i].course == course {
            out.push(saved[i].location.copied());
            assert(out@ =~= start + saved_in(saved@.take(i + 1), course));
        }
        i = i + 1;
    }
    assert(saved@.take(saved.len() as int) =~= saved@);
}

fn find_saved(saved: &Vec<SavedLocation>, id: i64) -> (r: Option<Location>)
    ensures
        r == saved_with_id(saved@, id),
{
    let mut i: usize = 0;
    assert(saved@.skip(0) =~= saved@);
    while i < saved.len()
        invariant
            i <= saved.len(),
            saved_with_id(saved@, id) == saved_with_id(saved@.skip(i as int), id),
        decreases saved.len() - i,
    {
        assert(saved@.skip(i as int).drop_first() =~= saved@.skip(i + 1));
        if saved[i].id == id {
            return Some(saved[i].location.copied());
        }
        i = i + 1;
    }
    None
}

fn find_preset(presets: &Vec<Preset>, active_id: i64, jitter: bool) -> (r: Option<Location>)
    ensures
        r == preset_for(presets@, active_id, jitter),
{
    let mut i: usize = 0;
    assert(presets@.skip(0) =~= presets@);
    while i < presets.len()
        invariant
            i <= presets.len(),
            preset_for(presets@, active_id, jitter) == preset_for(presets@.skip(i as int), active_id, jitter),
        decreases presets.len() - i,
    {
        assert(presets@.skip(i as int).drop_first() =~= presets@.skip(i + 1));
        if presets[i].active_id == active_id {
            return Some(if jitter { presets[i].shifted.copied() } else { presets[i].exact.copied() });
        }
        i = i + 1;
    }
    None
}

/// The ordered candidate locations for check-in `active_id` of course
/// `course`; `jitter` picks the shifted preset over the exact one.
pub fn resolve_candidates(
    course: i64,
    active_id: i64,
    explicit: &Option<Location>,
    selected: Option<i64>,
    presets: &Vec<Preset>,
    saved: &Vec<SavedLocation>,
    jitter: bool,
) -> (r: Vec<Location>)
    ensures
        r@ == candidates(course, active_id, *explicit, selected, presets@, saved@, jitter),
{
    match explicit {
        Some(l) => {
            let mut out: Vec<Location> = Vec::new();
            out.push(l.copied());
            assert(out@ =~= seq![*l]);
            out
        },
        None => match selected {
            Some(id) => {
                let mut out: Vec<Location> = Vec::new();
                match find_saved(saved, id) {
                    Some(l) => {
                        out.push(l);
                    },
                    None => {},
                }
                assert(out@ =~= opt_seq(saved_with_id(saved@, id)));
                out
            },
            None => {
                let mut out: Vec<Location> = Vec::new();
                match find_preset(presets, active_id, jitter) {
                    Some(l) => {
                        out.push(l);
                    },
                    None => {},
                }
                assert(out@ =~= opt_seq(preset_for(presets@, active_id, jitter)));
                push_saved_in(&mut out, saved, course);
                push_saved_in(&mut out, saved, GLOBAL_SCOPE);
                out
            },
        },
    }
}

/// An explicit location is the one candidate, whatever the other sources hold.
pub proof fn lemma_explicit_is_sole_candidate(
    course: i64,
    active_id: i64,
    l: Location,
    selected: Option<i64>,
    presets: Seq<Preset>,
    saved: Seq<SavedLocation>,
    jitter: bool,
)
    ensures
        candidates(course, active_id, Some(l), selected, presets, saved, jitter) == seq![l],
{
}

/// With no explicit or selected location, a preset for the check-in and one
/// saved location of its course and one global, the candidates are the preset
/// (shifted when `jitter` holds), the course's location, then the global one.
pub proof fn lemma_candidate_priority(
    course: i64,
    p: Preset,
    here: SavedLocation,
    everywhere: SavedLocation,
    jitter: bool,
)
    requires
        course != GLOBAL_SCOPE,
        here.course == course,
        everywhere.course == GLOBAL_SCOPE,
    ensures
        candidates(course, p.active_id, None, None, seq![p], seq![here, everywhere], jitter) == seq![
            if jitter { p.shifted } else { p.exact },
            here.location,
            everywhere.location,
        ],
{
    let saved = seq![here, everywhere];
    assert(saved.drop_last() =~= seq![here]);
    assert(seq![here].drop_last() =~= Seq::<SavedLocation>::empty());
    assert(saved_in(Seq::<SavedLocation>::empty(), course) == Seq::<Location>::empty());
    assert(saved_in(Seq::<SavedLocation>::empty(), GLOBAL_SCOPE) == Seq::<Location>::empty());
    assert(saved_in(seq![here], course) =~= seq![here.location]);
    assert(saved_in(seq![here], GLOBAL_SCOPE) =~= Seq::<Location>::empty());
    assert(saved_in(saved, course) =~= seq![here.location]);
    assert(saved_in(saved, GLOBAL_SCOPE) =~= seq![everywhere.location]);
    assert(candidates(course, p.active_id, None, None, seq![p], saved, jitter) =~= seq![
        if jitter { p.shifted } else { p.exact },
        here.location,
        everywhere.location,
    ]);
}

} // verus!
