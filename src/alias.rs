use vstd::prelude::*;

verus! {

/// Short names for saved locations: each alias names one location
/// identifier, and no alias appears twice.
pub struct AliasTable {
    rows: Vec<(String, i64)>,
}

pub open spec fn row_view(r: (String, i64)) -> (Seq<char>, i64) {
    (r.0@, r.1)
}

/// Whether some row is named `name`.
pub open spec fn has_name(rows: Seq<(Seq<char>, i64)>, name: Seq<char>) -> bool {
    exists|i: int| 0 <= i < rows.len() && (#[trigger] rows[i]).0 == name
}

/// No two rows share a name.
pub open spec fn names_unique(rows: Seq<(Seq<char>, i64)>) -> bool {
    forall|i: int, j: int| 0 <= i < j < rows.len() ==> (#[trigger] rows[i]).0 != (#[trigger] rows[j]).0
}

/// The rows not named `name`, in order.
pub open spec fn without(rows: Seq<(Seq<char>, i64)>, name: Seq<char>) -> Seq<(Seq<char>, i64)>
    decreases rows.len(),
{
    if rows.len() == 0 {
        Seq::empty()
    } else {
        let rest = without(rows.drop_last(), name);
        if rows.last().0 == name { rest } else { rest.push(rows.last()) }
    }
}

/// The rows with the location of the row named `name` set to `lid`.
pub open spec fn updated(rows: Seq<(Seq<char>, i64)>, name: Seq<char>, lid: i64) -> Seq<(Seq<char>, i64)> {
    rows.map_values(|r: (Seq<char>, i64)| if r.0 == name { (name, lid) } else { r })
}

/// The names of the rows for location `lid`, in order.
pub open spec fn names_for(rows: Seq<(Seq<char>, i64)>, lid: i64) -> Seq<Seq<char>>
    decreases rows.len(),
{
    if rows.len() == 0 {
        Seq::empty()
    } else {
        let rest = names_for(rows.drop_last(), lid);
        if rows.last().1 == lid { rest.push(rows.last().0) } else { rest }
    }
}

impl View for AliasTable {
    type V = Seq<(Seq<char>, i64)>;

    closed spec fn view(&self) -> Seq<(Seq<char>, i64)> {
        self.rows@.map_values(|r: (String, i64)| row_view(r))
    }
}

fn same_text(a: &String, b: &String) -> (r: bool)
    ensures
        r == (a@ == b@),
{
    *a == *b
}

impl AliasTable {
    pub open spec fn wf(&self) -> bool {
        names_unique(self@)
    }

    pub fn new() -> (t: AliasTable)
        ensures
            t.wf(),
            t@ == Seq::<(Seq<char>, i64)>::empty(),
    {
        let t = AliasTable { rows: Vec::new() };
        assert(t@ =~= Seq::<(Seq<char>, i64)>::empty());
        t
    }

    fn find(&self, alias: &String) -> (r: Option<usize>)
        ensures
            r is None <==> !has_name(self@, alias@),
            r matches Some(i) ==> i < self@.len() && self@[i as int].0 == alias@,
    {
        let mut i: usize = 0;
        while i < self.rows.len()
            invariant
                i <= self.rows.len(),
                self@.len() == self.rows.len(),
                forall|j: int| 0 <= j < i ==> (#[trigger] self@[j]).0 != alias@,
            decreases self.rows.len() - i,
        {
            assert(self@[i as int] == row_view(self.rows@[i as int]));
            if same_text(&self.rows[i].0, alias) {
                return Some(i);
            }
            i = i + 1;
        }
        None
    }

    /// Whether some location is named `alias`.
    pub fn has_alias(&self, alias: &str) -> (r: bool)
        ensures
            r == has_name(self@, alias@),
    {
        self.find(&alias.to_owned()).is_some()
    }

    /// Removes the alias `alias`, if present.
    pub fn delete_alias(&mut self, alias: &str)
        requires
            old(self).wf(),
        ensures
            final(self).wf(),
            final(self)@ == without(old(self)@, alias@),
    {
        let name = alias.to_owned();
        let ghost rows = self@;
        let mut kept: Vec<(String, i64)> = Vec::new();
        let mut i: usize = 0;
        while i < self.rows.len()
            invariant
                i <= self.rows.len(),
                rows == self@,
                rows.len() == self.rows.len(),
                names_unique(rows),
                name@ == alias@,
                kept@.map_values(|r: (String, i64)| row_view(r)) == without(rows.take(i as int), alias@),
            decreases self.rows.len() - i,
        {
            assert(rows.take(i + 1).drop_last() =~= rows.take(i as int));
            assert(rows[i as int] == row_view(self.rows@[i as int]));
            if !same_text(&self.rows[i].0, &name) {
                let ghost before = kept@;
                kept.push((self.rows[i].0.clone(), self.rows[i].1));
                assert(kept@.map_values(|r: (String, i64)| row_view(r)) =~= before.map_values(|r: (String, i64)| row_view(r)).push(rows[i as int]));
            }
            i = i + 1;
        }
        assert(rows.take(rows.len() as int) =~= rows);
        let ghost kv = kept@.map_values(|r: (String, i64)| row_view(r));
        assert forall|a: int, b: int| 0 <= a < b < kv.len() implies (#[trigger] kv[a]).0 != (#[trigger] kv[b]).0 by {
            lemma_without_order(rows, alias@, a, b);
        }
        self.rows = kept;
    }

    /// Adds the alias `alias` for location `lid` when no location has that
    /// name yet, and tells whether it did; the table is unchanged otherwise,
    /// and the caller decides what to do instead.
    pub fn add_alias_or(&mut self, alias: &str, lid: i64) -> (added: bool)
        requires
            old(self).wf(),
        ensures
            final(self).wf(),
            added == !has_name(old(self)@, alias@),
            added ==> final(self)@ == old(self)@.push((alias@, lid)),
            !added ==> final(self)@ == old(self)@,
    {
        let name = alias.to_owned();
        if self.find(&name).is_some() {
            return false;
        }
        let ghost before = self@;
        self.rows.push((name, lid));
        assert(self@ =~= before.push((alias@, lid)));
        true
    }

    /// Points the alias `alias`, if present, at location `lid`.
    pub fn update_alias(&mut self, alias: &str, lid: i64)
        requires
            old(self).wf(),
        ensures
            final(self).wf(),
            final(self)@ == updated(old(self)@, alias@, lid),
    {
        let name = alias.to_owned();
        match self.find(&name) {
            Some(i) => {
                let ghost before = self@;
                self.rows.set(i, (name, lid));
                assert forall|k: int| 0 <= k < before.len() && k != i implies before[k].0 != alias@ by {
                    if k < i {
                        assert(before[k].0 != before[i as int].0);
                    } else {
                        assert(before[i as int].0 != before[k].0);
                    }
                }
                assert(self@ =~= updated(before, alias@, lid));
            },
            None => {
                assert(self@ =~= updated(self@, alias@, lid));
            },
        }
    }

    /// Every row, in table order.
    pub fn rows(&self) -> (r: Vec<(String, i64)>)
        ensures
            r@.map_values(|x: (String, i64)| row_view(x)) == self@,
    {
        let mut out: Vec<(String, i64)> = Vec::new();
        let mut i: usize = 0;
        while i < self.rows.len()
            invariant
                i <= self.rows.len(),
                self@.len() == self.rows.len(),
                out@.map_values(|x: (String, i64)| row_view(x)) == self@.take(i as int),
            decreases self.rows.len() - i,
        {
            let ghost before = out@;
            assert(self@[i as int] == row_view(self.rows@[i as int]));
            out.push((self.rows[i].0.clone(), self.rows[i].1));
            assert(out@.map_values(|x: (String, i64)| row_view(x)) =~= before.map_values(|x: (String, i64)| row_view(x)).push(self@[i as int]));
            assert(self@.take(i + 1) =~= self@.take(i as int).push(self@[i as int]));
            i = i + 1;
        }
        assert(self@.take(self.rows.len() as int) =~= self@);
        out
    }

    /// The aliases of location `lid`, in table order.
    pub fn get_aliases(&self, lid: i64) -> (r: Vec<String>)
        ensures
            r@.map_values(|s: String| s@) == names_for(self@, lid),
    {
        let mut out: Vec<String> = Vec::new();
        let mut i: usize = 0;
        while i < self.rows.len()
            invariant
                i <= self.rows.len(),
                self@.len() == self.rows.len(),
                out@.map_values(|s: String| s@) == names_for(self@.take(i as int), lid),
            decreases self.rows.len() - i,
        {
            assert(self@.take(i + 1).drop_last() =~= self@.take(i as int));
            assert(self@[i as int] == row_view(self.rows@[i as int]));
            if self.rows[i].1 == lid {
                let ghost before = out@;
                out.push(self.rows[i].0.clone());
                assert(out@.map_values(|s: String| s@) =~= before.map_values(|s: String| s@).push(self@[i as int].0));
            }
            i = i + 1;
        }
        assert(self@.take(self@.len() as int) =~= self@);
        out
    }
}

proof fn lemma_without_order(rows: Seq<(Seq<char>, i64)>, name: Seq<char>, a: int, b: int)
    requires
        names_unique(rows),
        0 <= a < b < without(rows, name).len(),
    ensures
        without(rows, name)[a].0 != without(rows, name)[b].0,
    decreases rows.len(),
{
    let p = rows.drop_last();
    lemma_without_from(p, name);
    assert(names_unique(p)) by {
        assert forall|i: int, j: int| 0 <= i < j < p.len() implies (#[trigger] p[i]).0 != (#[trigger] p[j]).0 by {
            assert(p[i] == rows[i] && p[j] == rows[j]);
        }
    }
    if rows.last().0 == name || b < without(p, name).len() {
        lemma_without_order(p, name, a, b);
    } else {
        let k = choose|k: int| 0 <= k < p.len() && #[trigger] p[k] == without(p, name)[a];
        assert(rows[k] == p[k]);
        assert(rows[k].0 != rows[rows.len() - 1].0);
    }
}

proof fn lemma_without_from(rows: Seq<(Seq<char>, i64)>, name: Seq<char>)
    ensures
        forall|a: int| 0 <= a < without(rows, name).len() ==> exists|k: int| 0 <= k < rows.len() && #[trigger] rows[k] == #[trigger] without(rows, name)[a],
    decreases rows.len(),
{
    if rows.len() > 0 {
        let p = rows.drop_last();
        lemma_without_from(p, name);
        assert forall|a: int| 0 <= a < without(rows, name).len() implies exists|k: int| 0 <= k < rows.len() && #[trigger] rows[k] == #[trigger] without(rows, name)[a] by {
            if a < without(p, name).len() {
                let k = choose|k: int| 0 <= k < p.len() && #[trigger] p[k] == without(p, name)[a];
                assert(rows[k] == p[k]);
            } else {
                assert(rows[rows.len() - 1] == without(rows, name)[a]);
            }
        }
    }
}

} // verus!
