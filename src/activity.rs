use vstd::prelude::*;
use vstd::string::*;

verus! {

/// How long, in seconds, a check-in stays open after it starts.
pub const OPEN_WINDOW_SECS: i64 = 7200;

/// The status code the platform gives a check-in that is in progress.
pub const STATUS_IN_PROGRESS: i32 = 1;

/// A course an account is enrolled in.
pub struct Course {
    pub id: i64,
    pub name: String,
}

impl Course {
    /// A field-for-field copy.
    pub fn copied(&self) -> (r: Course)
        ensures
            r == *self,
    {
        Course { id: self.id, name: self.name.clone() }
    }
}

/// One record of a course's activity list, as the platform returns it.
pub struct RawActivity {
    pub id: i64,
    pub name: String,
    /// The classification discriminant; a check-in when it reads as an integer in `0..=5`.
    pub other_id: Option<String>,
    pub status: i32,
    /// Start time in milliseconds.
    pub start_time: u64,
}

/// What the signature-detail request reports of a check-in.
pub struct SignDetail {
    /// The `c` parameter that a QR-code check-in carries.
    pub c: String,
    pub is_photo: bool,
    pub is_refresh_qrcode: bool,
}

impl SignDetail {
    pub fn copied(&self) -> (r: SignDetail)
        ensures
            r == *self,
    {
        SignDetail { c: self.c.clone(), is_photo: self.is_photo, is_refresh_qrcode: self.is_refresh_qrcode }
    }
}

#[derive(Clone, Copy, Debug, PartialEq, Eq, Structural)]
pub enum QrVariant {
    Normal,
    Refresh,
}

/// The proof-of-presence mechanism of a check-in.
#[derive(Clone, Copy, Debug, PartialEq, Eq, Structural)]
pub enum SignKind {
    Common,
    Location,
    Photo,
    QrCode(QrVariant),
    Gesture,
    SignCode,
    Unknown,
}

/// A check-in task: one remote attendance event.
pub struct Sign {
    pub active_id: i64,
    pub name: String,
    pub course: Course,
    pub code: u8,
    pub status_code: i32,
    /// Start time in seconds.
    pub start_timestamp: i64,
    pub kind: SignKind,
    pub detail: SignDetail,
}

/// An activity that is not a check-in; kept for display only.
pub struct OtherActivity {
    pub id: i64,
    pub name: String,
    pub course: Course,
    pub status: i32,
    pub start_time_secs: i64,
}

pub enum Activity {
    Sign(Sign),
    Other(OtherActivity),
}

pub open spec fn is_digit(c: char) -> bool {
    '0' <= c && c <= '9'
}

pub open spec fn all_digits(s: Seq<char>) -> bool {
    s.len() > 0 && forall|i: int| 0 <= i < s.len() ==> is_digit(#[trigger] s[i])
}

/// The value of a string of decimal digits.
pub open spec fn digits_value(s: Seq<char>) -> int
    decreases s.len(),
{
    if s.len() == 0 {
        0
    } else {
        digits_value(s.drop_last()) * 10 + (s.last() as int - '0' as int)
    }
}

/// The integer a string denotes in decimal, with an optional sign.
pub open spec fn decimal_value(s: Seq<char>) -> Option<int> {
    if s.len() > 0 && (s[0] == '+' || s[0] == '-') {
        if all_digits(s.drop_first()) {
            let v = digits_value(s.drop_first());
            Some(if s[0] == '-' { -v } else { v })
        } else {
            None
        }
    } else if all_digits(s) {
        Some(digits_value(s))
    } else {
        None
    }
}

/// The check-in code a discriminant denotes: its value when it reads as an
/// integer in `0..=5`, otherwise none (the activity is not a check-in).
pub open spec fn code_of(s: Seq<char>) -> Option<int> {
    match decimal_value(s) {
        Some(v) => if 0 <= v <= 5 { Some(v) } else { None },
        None => None,
    }
}

pub open spec fn raw_code(r: RawActivity) -> Option<int> {
    match r.other_id {
        Some(s) => code_of(s@),
        None => None,
    }
}

/// Whether a raw record is a check-in, so that its detail must be fetched.
pub open spec fn is_check_in(r: RawActivity) -> bool {
    raw_code(r) is Some
}

pub open spec fn kind_of(code: int, d: SignDetail) -> SignKind {
    if code == 0 {
        if d.is_photo { SignKind::Photo } else { SignKind::Common }
    } else if code == 2 {
        SignKind::QrCode(if d.is_refresh_qrcode { QrVariant::Refresh } else { QrVariant::Normal })
    } else if code == 3 {
        SignKind::Gesture
    } else if code == 4 {
        SignKind::Location
    } else if code == 5 {
        SignKind::SignCode
    } else {
        SignKind::Unknown
    }
}

pub open spec fn secs_of(ms: u64) -> i64 {
    (ms / 1000) as i64
}

pub open spec fn sign_of(c: Course, r: RawActivity, d: SignDetail) -> Sign {
    let code = raw_code(r)->0;
    Sign {
        active_id: r.id,
        name: r.name,
        course: c,
        code: code as u8,
        status_code: r.status,
        start_timestamp: secs_of(r.start_time),
        kind: kind_of(code, d),
        detail: d,
    }
}

pub open spec fn other_of(c: Course, r: RawActivity) -> OtherActivity {
    OtherActivity {
        id: r.id,
        name: r.name,
        course: c,
        status: r.status,
        start_time_secs: secs_of(r.start_time),
    }
}

/// What a raw record becomes, given its detail (read only for check-ins).
pub open spec fn activity_of(c: Course, r: RawActivity, d: Option<SignDetail>) -> Activity {
    if is_check_in(r) {
        Activity::Sign(sign_of(c, r, d->0))
    } else {
        Activity::Other(other_of(c, r))
    }
}

/// Whether a check-in's window is open at time `now` (seconds).
pub open spec fn window_open(s: Sign, now: i64) -> bool {
    s.status_code == STATUS_IN_PROGRESS && (now as int) - (s.start_timestamp as int) < OPEN_WINDOW_SECS
}

/// The check-ins among `acts` whose window is open, in the order given.
pub open spec fn valid_signs(acts: Seq<Activity>, now: i64) -> Seq<Sign>
    decreases acts.len(),
{
    if acts.len() == 0 {
        Seq::empty()
    } else {
        let rest = valid_signs(acts.drop_last(), now);
        match acts.last() {
            Activity::Sign(s) => if window_open(s, now) { rest.push(s) } else { rest },
            Activity::Other(_) => rest,
        }
    }
}

/// The check-ins among `acts` whose window is closed, in the order given.
pub open spec fn invalid_signs(acts: Seq<Activity>, now: i64) -> Seq<Sign>
    decreases acts.len(),
{
    if acts.len() == 0 {
        Seq::empty()
    } else {
        let rest = invalid_signs(acts.drop_last(), now);
        match acts.last() {
            Activity::Sign(s) => if window_open(s, now) { rest } else { rest.push(s) },
            Activity::Other(_) => rest,
        }
    }
}

/// The activities of `acts` that are not check-ins, in the order given.
pub open spec fn other_activities(acts: Seq<Activity>) -> Seq<OtherActivity>
    decreases acts.len(),
{
    if acts.len() == 0 {
        Seq::empty()
    } else {
        let rest = other_activities(acts.drop_last());
        match acts.last() {
            Activity::Sign(_) => rest,
            Activity::Other(o) => rest.push(o),
        }
    }
}

/// `i` comes before `j` in the most-recent-first order: it starts later, or
/// starts at the same time and came first.
pub open spec fn comes_before(starts: Seq<i64>, i: int, j: int) -> bool {
    starts[i] > starts[j] || (starts[i] == starts[j] && i < j)
}

/// `ord` lists the positions of `starts` most recent first, ties in their
/// original order.
pub open spec fn is_start_order(starts: Seq<i64>, ord: Seq<usize>) -> bool {
    &&& ord.len() == starts.len()
    &&& forall|k: int| 0 <= k < ord.len() ==> #[trigger] ord[k] < starts.len()
    &&& forall|i: int| 0 <= i < starts.len() ==> #[trigger] ord.contains(i as usize)
    &&& forall|k: int, l: int|
        0 <= k < l < ord.len() ==> comes_before(starts, #[trigger] ord[k] as int, #[trigger] ord[l] as int)
}

pub open spec fn starts_of(signs: Seq<Sign>) -> Seq<i64> {
    signs.map_values(|s: Sign| s.start_timestamp)
}

/// `out` is `signs` sorted most recent first, stable for equal start times.
pub open spec fn is_sorted_by_start(signs: Seq<Sign>, out: Seq<Sign>) -> bool {
    exists|ord: Seq<usize>|
        #[trigger] is_start_order(starts_of(signs), ord) && out.len() == ord.len() && (forall|k: int|
            0 <= k < ord.len() ==> #[trigger] out[k] == signs[ord[k] as int])
}


/// Reads a discriminant: its check-in code when it denotes an integer in `0..=5`.
pub fn check_in_code(s: &str) -> (r: Option<u8>)
    ensures
        match code_of(s@) {
            Some(v) => r == Some(v as u8),
            None => r is None,
        },
{
    let n = s.unicode_len();
    if n == 0 {
        return None;
    }
    let first = s.get_char(0);
    let signed = first == '+' || first == '-';
    let start: usize = if signed { 1 } else { 0 };
    if start == n {
        assert(s@.drop_first().len() == 0);
        return None;
    }
    let mut i: usize = start;
    let mut v: u64 = 0;
    let mut big = false;
    proof {
        assert(s@.subrange(start as int, start as int) =~= Seq::<char>::empty());
    }
    while i < n
        invariant
            start <= i <= n,
            n == s@.len(),
            start == (if signed { 1usize } else { 0usize }),
            signed == (s@[0] == '+' || s@[0] == '-'),
            forall|j: int| start <= j < i ==> is_digit(#[trigger] s@[j]),
            big == (digits_value(s@.subrange(start as int, i as int)) > 5),
            !big ==> v == digits_value(s@.subrange(start as int, i as int)),
            v <= 5,
        decreases n - i,
    {
        let c = s.get_char(i);
        if !('0' <= c && c <= '9') {
            proof {
                if signed {
                    assert(s@.drop_first()[i - 1] == s@[i as int]);
                    assert(!is_digit(s@.drop_first()[i - 1]));
                } else {
                    assert(!is_digit(s@[i as int]));
                }
            }
            return None;
        }
        let d: u64 = (c as u32 - '0' as u32) as u64;
        proof {
            assert(s@.subrange(start as int, i + 1).drop_last() =~= s@.subrange(start as int, i as int));
        }
        if !big {
            let nv = v * 10 + d;
            if nv > 5 {
                big = true;
            } else {
                v = nv;
            }
        }
        i = i + 1;
    }
    proof {
        let ds = s@.subrange(start as int, n as int);
        if signed {
            assert(ds =~= s@.drop_first());
        } else {
            assert(ds =~= s@);
        }
        assert(all_digits(ds));
    }
    if big {
        None
    } else if first == '-' {
        if v == 0 { Some(0) } else { None }
    } else {
        Some(v as u8)
    }
}

impl Sign {
    pub fn copied(&self) -> (r: Sign)
        ensures
            r == *self,
    {
        Sign {
            active_id: self.active_id,
            name: self.name.clone(),
            course: self.course.copied(),
            code: self.code,
            status_code: self.status_code,
            start_timestamp: self.start_timestamp,
            kind: self.kind,
            detail: self.detail.copied(),
        }
    }

    /// Whether the check-in window is open at time `now` (seconds).
    pub fn is_valid(&self, now: i64) -> (r: bool)
        ensures
            r == window_open(*self, now),
    {
        self.status_code == STATUS_IN_PROGRESS && (now as i128) - (self.start_timestamp as i128)
            < OPEN_WINDOW_SECS as i128
    }
}

/// The mechanism of a check-in with code `code`, read from its detail.
pub fn kind_from_detail(code: u8, d: &SignDetail) -> (r: SignKind)
    ensures
        r == kind_of(code as int, *d),
{
    if code == 0 {
        if d.is_photo { SignKind::Photo } else { SignKind::Common }
    } else if code == 2 {
        SignKind::QrCode(if d.is_refresh_qrcode { QrVariant::Refresh } else { QrVariant::Normal })
    } else if code == 3 {
        SignKind::Gesture
    } else if code == 4 {
        SignKind::Location
    } else if code == 5 {
        SignKind::SignCode
    } else {
        SignKind::Unknown
    }
}

/// Whether a raw record is a check-in, whose detail must then be fetched.
pub fn needs_detail(r: &RawActivity) -> (b: bool)
    ensures
        b == is_check_in(*r),
{
    match &r.other_id {
        Some(s) => check_in_code(s.as_str()).is_some(),
        None => false,
    }
}

impl Activity {
    /// What one raw record of course `c` becomes; `d` is its detail, present
    /// for every check-in.
    pub fn from_raw(c: &Course, r: &RawActivity, d: &Option<SignDetail>) -> (a: Activity)
        requires
            is_check_in(*r) ==> d is Some,
        ensures
            a == activity_of(*c, *r, *d),
    {
        let code = match &r.other_id {
            Some(s) => check_in_code(s.as_str()),
            None => None,
        };
        let secs = (r.start_time / 1000) as i64;
        match code {
            Some(code) => {
                let detail = match d {
                    Some(d) => d.copied(),
                    None => {
                        proof {
                            assert(false);
                        }
                        SignDetail { c: String::new(), is_photo: false, is_refresh_qrcode: false }
                    },
                };
                Activity::Sign(
                    Sign {
                        active_id: r.id,
                        name: r.name.clone(),
                        course: c.copied(),
                        code,
                        status_code: r.status,
                        start_timestamp: secs,
                        kind: kind_from_detail(code, &detail),
                        detail,
                    },
                )
            },
            None => Activity::Other(
                OtherActivity {
                    id: r.id,
                    name: r.name.clone(),
                    course: c.copied(),
                    status: r.status,
                    start_time_secs: secs,
                },
            ),
        }
    }

    /// The activities of course `c`, one for each raw record in order;
    /// `details[i]` is the detail of `raws[i]`, present for every check-in.
    pub fn get_list_from_course(c: &Course, raws: &Vec<RawActivity>, details: &Vec<Option<SignDetail>>) -> (r: Vec<Activity>)
        requires
            raws.len() == details.len(),
            forall|i: int| 0 <= i < raws.len() && is_check_in(#[trigger] raws[i]) ==> details[i] is Some,
        ensures
            r.len() == raws.len(),
            forall|i: int| 0 <= i < raws.len() ==> #[trigger] r[i] == activity_of(*c, raws[i], details[i]),
    {
        let mut out: Vec<Activity> = Vec::new();
        let mut i: usize = 0;
        while i < raws.len()
            invariant
                i <= raws.len(),
                raws.len() == details.len(),
                forall|j: int| 0 <= j < raws.len() && is_check_in(#[trigger] raws[j]) ==> details[j] is Some,
                out.len() == i,
                forall|j: int| 0 <= j < i ==> #[trigger] out[j] == activity_of(*c, raws[j], details[j]),
            decreases raws.len() - i,
        {
            let a = Activity::from_raw(c, &raws[i], &details[i]);
            out.push(a);
            i = i + 1;
        }
        out
    }
}

/// The positions of `starts`, most recent first; equal start times keep
/// their original order.
pub fn order_by_start(starts: &Vec<i64>) -> (ord: Vec<usize>)
    ensures
        is_start_order(starts@, ord@),
{
    let mut ord: Vec<usize> = Vec::new();
    let mut i: usize = 0;
    while i < starts.len()
        invariant
            i <= starts.len(),
            ord.len() == i,
            forall|k: int| 0 <= k < ord.len() ==> #[trigger] ord[k] < i,
            forall|j: int| 0 <= j < i ==> #[trigger] ord@.contains(j as usize),
            forall|k: int, l: int|
                0 <= k < l < ord.len() ==> comes_before(starts@, #[trigger] ord[k] as int, #[trigger] ord[l] as int),
        decreases starts.len() - i,
    {
        let si = starts[i];
        let mut p: usize = 0;
        while p < ord.len() && starts[ord[p]] >= si
            invariant
                p <= ord.len(),
                ord.len() == i,
                i < starts.len(),
                si == starts@[i as int],
                forall|k: int| 0 <= k < ord.len() ==> #[trigger] ord[k] < i,
                forall|k: int| 0 <= k < p ==> starts@[#[trigger] ord[k] as int] >= si,
            decreases ord.len() - p,
        {
            p = p + 1;
        }
        let ghost old_ord = ord@;
        proof {
            assert forall|k: int| p <= k < old_ord.len() implies starts@[#[trigger] old_ord[k] as int] < si by {
                if k > p {
                    assert(comes_before(starts@, old_ord[p as int] as int, old_ord[k] as int));
                }
            }
        }
        ord.insert(p, i);
        proof {
            let nw = ord@;
            assert(nw == old_ord.insert(p as int, i));
            assert forall|k: int| 0 <= k < nw.len() implies #[trigger] nw[k] < i + 1 by {
                if k < p {
                    assert(nw[k] == old_ord[k]);
                } else if k > p {
                    assert(nw[k] == old_ord[k - 1]);
                }
            }
            assert forall|j: int| 0 <= j < i + 1 implies #[trigger] nw.contains(j as usize) by {
                if j == i {
                    assert(nw[p as int] == i);
                } else {
                    assert(old_ord.contains(j as usize));
                    let k = choose|k: int| 0 <= k < old_ord.len() && old_ord[k] == j as usize;
                    if k < p {
                        assert(nw[k] == j as usize);
                    } else {
                        assert(nw[k + 1] == j as usize);
                    }
                }
            }
            assert forall|k: int, l: int| 0 <= k < l < nw.len() implies comes_before(
                starts@,
                #[trigger] nw[k] as int,
                #[trigger] nw[l] as int,
            ) by {
                if k < p && l < p {
                    assert(nw[k] == old_ord[k] && nw[l] == old_ord[l]);
                } else if k < p && l == p {
                    assert(nw[k] == old_ord[k]);
                } else if k < p {
                    assert(nw[k] == old_ord[k] && nw[l] == old_ord[l - 1]);
                } else if k == p {
                    assert(nw[l] == old_ord[l - 1]);
                } else {
                    assert(nw[k] == old_ord[k - 1] && nw[l] == old_ord[l - 1]);
                }
            }
        }
        i = i + 1;
    }
    ord
}

/// `signs` sorted most recent first; equal start times keep their order.
pub fn sort_by_start(signs: &Vec<Sign>) -> (out: Vec<Sign>)
    ensures
        is_sorted_by_start(signs@, out@),
{
    let mut starts: Vec<i64> = Vec::new();
    let mut i: usize = 0;
    while i < signs.len()
        invariant
            i <= signs.len(),
            starts.len() == i,
            forall|k: int| 0 <= k < i ==> #[trigger] starts[k] == signs[k].start_timestamp,
        decreases signs.len() - i,
    {
        starts.push(signs[i].start_timestamp);
        i = i + 1;
    }
    assert(starts@ =~= starts_of(signs@));
    let ord = order_by_start(&starts);
    let mut out: Vec<Sign> = Vec::new();
    let mut k: usize = 0;
    while k < ord.len()
        invariant
            k <= ord.len(),
            is_start_order(starts_of(signs@), ord@),
            starts_of(signs@).len() == signs.len(),
            out.len() == k,
            forall|j: int| 0 <= j < k ==> #[trigger] out[j] == signs[ord[j] as int],
        decreases ord.len() - k,
    {
        assert(ord[k as int] < signs.len());
        out.push(signs[ord[k]].copied());
        k = k + 1;
    }
    assert(is_start_order(starts_of(signs@), ord@));
    out
}

impl Activity {
    /// Splits activities into open check-ins (most recent first), closed
    /// check-ins and other activities, at time `now` (seconds).
    pub fn get_all_activities(acts: Vec<Activity>, now: i64) -> (r: (Vec<Sign>, Vec<Sign>, Vec<OtherActivity>))
        ensures
            is_sorted_by_start(valid_signs(acts@, now), r.0@),
            r.1@ == invalid_signs(acts@, now),
            r.2@ == other_activities(acts@),
    {
        let ghost all = acts@;
        let mut acts = acts;
        let mut valid: Vec<Sign> = Vec::new();
        let mut invalid: Vec<Sign> = Vec::new();
        let mut others: Vec<OtherActivity> = Vec::new();
        let ghost mut i: int = 0;
        while acts.len() > 0
            invariant
                0 <= i <= all.len(),
                acts@ == all.skip(i),
                valid@ == valid_signs(all.take(i), now),
                invalid@ == invalid_signs(all.take(i), now),
                others@ == other_activities(all.take(i)),
            decreases acts.len(),
        {
            let ghost before = acts@;
            let a = acts.remove(0);
            proof {
                assert(acts@ =~= all.skip(i + 1));
                assert(all.take(i + 1).drop_last() =~= all.take(i));
                assert(all.take(i + 1).last() == a);
            }
            match a {
                Activity::Sign(s) => {
                    if s.is_valid(now) {
                        valid.push(s);
                    } else {
                        invalid.push(s);
                    }
                },
                Activity::Other(o) => {
                    others.push(o);
                },
            }
            proof {
                i = i + 1;
            }
        }
        assert(all.take(i) =~= all);
        (sort_by_start(&valid), invalid, others)
    }
}

/// Classification is total: every activity lands in exactly one of the open
/// check-ins, the closed check-ins and the other activities.
pub proof fn lemma_classification_total(acts: Seq<Activity>, now: i64)
    ensures
        valid_signs(acts, now).len() + invalid_signs(acts, now).len() + other_activities(acts).len() == acts.len(),
    decreases acts.len(),
{
    if acts.len() > 0 {
        lemma_classification_total(acts.drop_last(), now);
    }
}

/// A record whose discriminant does not denote an integer in `0..=5` is
/// another activity, never a check-in.
pub proof fn lemma_out_of_range_is_other(c: Course, r: RawActivity, d: Option<SignDetail>)
    requires
        r.other_id matches Some(s) ==> !(decimal_value(s@) matches Some(v) && 0 <= v <= 5),
    ensures
        activity_of(c, r, d) == Activity::Other(other_of(c, r)),
{
}

} // verus!
