use vstd::prelude::*;
use vstd::string::*;
use crate::activity::{Sign, SignKind};
use crate::location::{commas, lemma_commas_in_order};

verus! {

/// What a check-in run lacks to attempt a check-in.
#[derive(Clone, Copy, Debug, PartialEq, Eq, Structural)]
pub enum Missing {
    /// A photo check-in needs an image path.
    Photo,
    /// A gesture or sign-code check-in needs the code.
    Code,
    /// The mechanism is unknown and is never attempted.
    Unsupported,
}

pub open spec fn inputs_ready_of(kind: SignKind, has_pic: bool, has_code: bool) -> Result<(), Missing> {
    match kind {
        SignKind::Photo => if has_pic { Ok(()) } else { Err(Missing::Photo) },
        SignKind::Gesture => if has_code { Ok(()) } else { Err(Missing::Code) },
        SignKind::SignCode => if has_code { Ok(()) } else { Err(Missing::Code) },
        SignKind::Unknown => Err(Missing::Unsupported),
        _ => Ok(()),
    }
}

/// Whether the run holds what a check-in of mechanism `kind` needs; no
/// account is tried when it does not.
pub fn inputs_ready(kind: SignKind, pic: &Option<String>, signcode: &Option<String>) -> (r: Result<(), Missing>)
    ensures
        r == inputs_ready_of(kind, pic is Some, signcode is Some),
{
    match kind {
        SignKind::Photo => if pic.is_some() { Ok(()) } else { Err(Missing::Photo) },
        SignKind::Gesture => if signcode.is_some() { Ok(()) } else { Err(Missing::Code) },
        SignKind::SignCode => if signcode.is_some() { Ok(()) } else { Err(Missing::Code) },
        SignKind::Unknown => Err(Missing::Unsupported),
        _ => Ok(()),
    }
}

/// Where a requested check-in was found.
#[derive(Clone, Copy, Debug, PartialEq, Eq, Structural)]
pub enum Pick {
    Valid(usize),
    Invalid(usize),
}

fn find_id(signs: &Vec<Sign>, id: i64) -> (r: Option<usize>)
    ensures
        r is None <==> forall|j: int| 0 <= j < signs.len() ==> (#[trigger] signs[j]).active_id != id,
        r matches Some(i) ==> i < signs.len() && signs[i as int].active_id == id && forall|j: int|
            0 <= j < i ==> (#[trigger] signs[j]).active_id != id,
{
    let mut i: usize = 0;
    while i < signs.len()
        invariant
            i <= signs.len(),
            forall|j: int| 0 <= j < i ==> (#[trigger] signs[j]).active_id != id,
        decreases signs.len() - i,
    {
        if signs[i].active_id == id {
            return Some(i);
        }
        i = i + 1;
    }
    None
}

/// Finds check-in `id`: first among the open check-ins, then among the
/// closed ones; the first position where several share the identifier.
pub fn find_task(valid: &Vec<Sign>, invalid: &Vec<Sign>, id: i64) -> (r: Option<Pick>)
    ensures
        r matches Some(Pick::Valid(i)) ==> i < valid.len() && valid[i as int].active_id == id && forall|j: int|
            0 <= j < i ==> (#[trigger] valid[j]).active_id != id,
        r matches Some(Pick::Invalid(i)) ==> (forall|j: int| 0 <= j < valid.len() ==> (#[trigger] valid[j]).active_id != id)
            && i < invalid.len() && invalid[i as int].active_id == id && forall|j: int|
            0 <= j < i ==> (#[trigger] invalid[j]).active_id != id,
        r is None <==> (forall|j: int| 0 <= j < valid.len() ==> (#[trigger] valid[j]).active_id != id) && (forall|j: int|
            0 <= j < invalid.len() ==> (#[trigger] invalid[j]).active_id != id),
{
    match find_id(valid, id) {
        Some(i) => Some(Pick::Valid(i)),
        None => match find_id(invalid, id) {
            Some(i) => Some(Pick::Invalid(i)),
            None => None,
        },
    }
}

/// The `k`-th comma-separated field of `s`.
pub open spec fn field(s: Seq<char>, k: int) -> Seq<char> {
    let c = commas(s);
    let from = if k == 0 { 0 } else { c[k - 1] + 1 };
    let to = if k == c.len() { s.len() as int } else { c[k] };
    s.subrange(from, to)
}

/// The comma-separated fields of `s`, in order.
pub fn split_fields(s: &str) -> (r: Vec<String>)
    ensures
        r.len() == commas(s@).len() + 1,
        forall|k: int| 0 <= k < r.len() ==> #[trigger] r[k]@ == field(s@, k),
{
    let n = s.unicode_len();
    let mut found: Vec<usize> = Vec::new();
    let mut i: usize = 0;
    while i < n
        invariant
            i <= n,
            n == s@.len(),
            found.len() == commas(s@.take(i as int)).len(),
            forall|k: int| 0 <= k < found.len() ==> #[trigger] found[k] as int == commas(s@.take(i as int))[k],
        decreases n - i,
    {
        proof {
            assert(s@.take(i + 1).drop_last() =~= s@.take(i as int));
        }
        if s.get_char(i) == ',' {
            found.push(i);
        }
        i = i + 1;
    }
    assert(s@.take(n as int) =~= s@);
    proof {
        lemma_commas_in_order(s@);
        assert forall|j: int| 0 <= j < found.len() implies #[trigger] found[j] < n by {
            assert(commas(s@)[j] < s@.len());
        }
        assert forall|j: int, l: int| 0 <= j < l < found.len() implies #[trigger] found[j] < #[trigger] found[l] by {
            assert(commas(s@)[j] < commas(s@)[l]);
        }
    }
    let mut out: Vec<String> = Vec::new();
    let mut k: usize = 0;
    while k < found.len()
        invariant
            k <= found.len(),
            n == s@.len(),
            found.len() == commas(s@).len(),
            forall|j: int| 0 <= j < found.len() ==> #[trigger] found[j] as int == commas(s@)[j],
            forall|j: int| 0 <= j < found.len() ==> #[trigger] found[j] < n,
            forall|j: int, l: int| 0 <= j < l < found.len() ==> #[trigger] found[j] < #[trigger] found[l],
            out.len() == k,
            forall|j: int| 0 <= j < k ==> #[trigger] out[j]@ == field(s@, j),
        decreases found.len() - k,
    {
        let from: usize = if k == 0 { 0 } else { found[k - 1] + 1 };
        out.push(s.substring_char(from, found[k]).to_owned());
        k = k + 1;
    }
    let from: usize = if k == 0 { 0 } else { found[k - 1] + 1 };
    out.push(s.substring_char(from, n).to_owned());
    out
}

/// The positions in `known` of the accounts to sign with: every account when
/// none is named, else each name of the comma-separated list `wanted` in turn;
/// the first name that no account has is the error.
pub fn select_accounts(known: &Vec<String>, wanted: &Option<String>) -> (r: Result<Vec<usize>, String>)
    ensures
        wanted is None ==> (r matches Ok(v) && v@ == Seq::new(known.len() as nat, |i: int| i as usize)),
        wanted matches Some(w) ==> (r matches Ok(v) ==> v.len() == commas(w@).len() + 1 && forall|k: int|
            0 <= k < v.len() ==> #[trigger] v[k] < known.len() && known[v[k] as int]@ == field(w@, k)),
        r matches Err(name) ==> wanted is Some && exists|k: int|
            0 <= k <= commas(wanted->0@).len() && #[trigger] field(wanted->0@, k) == name@ && forall|j: int|
                0 <= j < known.len() ==> (#[trigger] known[j])@ != name@,
{
    match wanted {
        None => {
            let mut v: Vec<usize> = Vec::new();
            let mut i: usize = 0;
            while i < known.len()
                invariant
                    i <= known.len(),
                    v@ == Seq::new(i as nat, |j: int| j as usize),
                decreases known.len() - i,
            {
                v.push(i);
                assert(v@ =~= Seq::new((i + 1) as nat, |j: int| j as usize));
                i = i + 1;
            }
            Ok(v)
        },
        Some(w) => {
            let names = split_fields(w.as_str());
            let mut v: Vec<usize> = Vec::new();
            let mut k: usize = 0;
            while k < names.len()
                invariant
                    *wanted == Some(*w),
                    k <= names.len(),
                    names.len() == commas(w@).len() + 1,
                    forall|j: int| 0 <= j < names.len() ==> #[trigger] names[j]@ == field(w@, j),
                    v.len() == k,
                    forall|j: int| 0 <= j < k ==> #[trigger] v[j] < known.len() && known[v[j] as int]@ == field(w@, j),
                decreases names.len() - k,
            {
                let mut i: usize = 0;
                while i < known.len() && !(known[i] == names[k])
                    invariant
                        *wanted == Some(*w),
                        i <= known.len(),
                        k < names.len(),
                        names.len() == commas(w@).len() + 1,
                        forall|j: int| 0 <= j < names.len() ==> #[trigger] names[j]@ == field(w@, j),
                        v.len() == k,
                        forall|j: int| 0 <= j < k ==> #[trigger] v[j] < known.len() && known[v[j] as int]@ == field(w@, j),
                        forall|j: int| 0 <= j < i ==> (#[trigger] known[j])@ != names[k as int]@,
                    decreases known.len() - i,
                {
                    i = i + 1;
                }
                if i == known.len() {
                    let name = names[k].clone();
                    assert(name@ == field(w@, k as int));
                    assert(forall|j: int| 0 <= j < known.len() ==> (#[trigger] known[j])@ != name@);
                    assert(0 <= k <= commas(w@).len());
                    assert(wanted->0@ == w@);
                    assert(field(wanted->0@, k as int) == name@);
                    return Err(name);
                }
                v.push(i);
                k = k + 1;
            }
            Ok(v)
        },
    }
}

} // verus!
