use vstd::prelude::*;
use crate::job::{Poke, PokeError, PokeView};
use crate::schedule::{cron_accepts, is_valid_cron};

verus! {

pub open spec fn view_all(v: Seq<Poke>) -> Seq<PokeView> {
    v.map_values(|p: Poke| p@)
}

/// Whether some job of `t` is named `name`.
pub open spec fn has_name(t: Seq<PokeView>, name: Seq<char>) -> bool {
    exists|i: int| 0 <= i < t.len() && #[trigger] t[i].name == name
}

/// No two jobs share a name.
pub open spec fn names_unique(t: Seq<PokeView>) -> bool {
    forall|i: int, j: int| 0 <= i < j < t.len() ==> #[trigger] t[i].name != #[trigger] t[j].name
}

/// Every stored schedule parses.
pub open spec fn schedules_valid(t: Seq<PokeView>) -> bool {
    forall|i: int| 0 <= i < t.len() ==> cron_accepts(#[trigger] t[i].cron)
}

/// What adding `p` to a table holding `t` gives: the schedule is checked
/// first, then the name.
pub open spec fn add_result(t: Seq<PokeView>, p: PokeView) -> Result<(), PokeError> {
    if !cron_accepts(p.cron) {
        Err(PokeError::InvalidSchedule)
    } else if has_name(t, p.name) {
        Err(PokeError::DuplicateName)
    } else {
        Ok(())
    }
}

/// The table after adding `p` to `t`.
pub open spec fn after_add(t: Seq<PokeView>, p: PokeView) -> Seq<PokeView> {
    if add_result(t, p) is Ok {
        t.push(p)
    } else {
        t
    }
}

/// The first `head` jobs when `head` is a non-negative bound, else all of them.
pub open spec fn head_of(t: Seq<PokeView>, head: Option<i32>) -> Seq<PokeView> {
    match head {
        Some(n) => if 0 <= n < t.len() {
            t.take(n as int)
        } else {
            t
        },
        None => t,
    }
}

proof fn lemma_view_all_push(v: Seq<Poke>, p: Poke)
    ensures
        view_all(v.push(p)) == view_all(v).push(p@),
{
    assert(view_all(v.push(p)) =~= view_all(v).push(p@));
}

/// Whether two texts hold the same characters.
fn same_text(a: &str, b: &str) -> (r: bool)
    ensures
        r == (a@ == b@),
{
    let n = a.unicode_len();
    if n != b.unicode_len() {
        return false;
    }
    let mut i: usize = 0;
    while i < n
        invariant
            n == a@.len() == b@.len(),
            0 <= i <= n,
            forall|k: int| 0 <= k < i ==> a@[k] == b@[k],
        decreases n - i,
    {
        if a.get_char(i) != b.get_char(i) {
            return false;
        }
        i = i + 1;
    }
    assert(a@ =~= b@);
    true
}

/// A snapshot of the job store: jobs with unique names and valid schedules,
/// in the order the store lists them.
pub struct JobTable {
    jobs: Vec<Poke>,
}

impl View for JobTable {
    type V = Seq<PokeView>;

    closed spec fn view(&self) -> Seq<PokeView> {
        view_all(self.jobs@)
    }
}

impl JobTable {
    pub open spec fn wf(&self) -> bool {
        names_unique(self@) && schedules_valid(self@)
    }

    /// An empty table.
    pub fn new() -> (r: JobTable)
        ensures
            r.wf(),
            r@ == Seq::<PokeView>::empty(),
    {
        let r = JobTable { jobs: Vec::new() };
        assert(r@ =~= Seq::<PokeView>::empty());
        r
    }

    /// The table of the rows that the store listed, or `None` when two rows
    /// share a name or a row holds a schedule that does not parse.
    pub fn from_rows(rows: Vec<Poke>) -> (r: Option<JobTable>)
        ensures
            names_unique(view_all(rows@)) && schedules_valid(view_all(rows@)) <==> r is Some,
            r matches Some(t) ==> t.wf() && t@ == view_all(rows@),
    {
        let mut t = JobTable::new();
        let n = rows.len();
        let ghost all = view_all(rows@);
        let mut i: usize = 0;
        while i < n
            invariant
                n == rows@.len(),
                all == view_all(rows@),
                0 <= i <= n,
                t.wf(),
                t@ == all.take(i as int),
            decreases n - i,
        {
            let p = rows[i].copy();
            assert(all[i as int] == p@);
            let ghost before = t@;
            match t.insert(p) {
                Ok(()) => {},
                Err(_) => {
                    proof {
                        if !cron_accepts(all[i as int].cron) {
                            assert(!schedules_valid(all));
                        } else {
                            let k = choose|k: int| 0 <= k < before.len() && #[trigger] before[k].name == all[i as int].name;
                            assert(all[k] == before[k]);
                            assert(k < i);
                            assert(all[k].name == all[i as int].name);
                            assert(!names_unique(all));
                        }
                    }
                    return None;
                },
            }
            assert(all.take(i + 1) =~= all.take(i as int).push(all[i as int]));
            i = i + 1;
        }
        assert(all.take(n as int) =~= all);
        Some(t)
    }

    /// The stored jobs, in order.
    pub fn rows(&self) -> (r: &Vec<Poke>)
        ensures
            view_all(r@) == self@,
    {
        &self.jobs
    }

    /// The number of stored jobs.
    pub fn len(&self) -> (r: usize)
        ensures
            r == self@.len(),
    {
        self.jobs.len()
    }

    /// The position of the job named `name`, if any.
    pub fn find(&self, name: &str) -> (r: Option<usize>)
        requires
            self.wf(),
        ensures
            r is None <==> !has_name(self@, name@),
            r matches Some(i) ==> i < self@.len() && self@[i as int].name == name@,
    {
        let mut i: usize = 0;
        while i < self.jobs.len()
            invariant
                0 <= i <= self.jobs@.len(),
                forall|k: int| 0 <= k < i ==> (#[trigger] self@[k]).name != name@,
            decreases self.jobs@.len() - i,
        {
            assert(self@[i as int] == self.jobs@[i as int]@);
            if same_text(self.jobs[i].name.as_str(), name) {
                assert(self@[i as int].name == name@);
                return Some(i);
            }
            i = i + 1;
        }
        None
    }

    /// Adds a job after checking its schedule and that its name is free.
    pub fn insert(&mut self, p: Poke) -> (r: Result<(), PokeError>)
        requires
            old(self).wf(),
        ensures
            final(self).wf(),
            r == add_result(old(self)@, p@),
            final(self)@ == after_add(old(self)@, p@),
    {
        if !is_valid_cron(p.cron.as_str()) {
            return Err(PokeError::InvalidSchedule);
        }
        if self.find(p.name.as_str()).is_some() {
            return Err(PokeError::DuplicateName);
        }
        let ghost pv = p@;
        self.jobs.push(p);
        assert(self@ =~= old(self)@.push(pv));
        Ok(())
    }
}

/// Adds a job created now; `InvalidSchedule` when the schedule does not parse,
/// `DuplicateName` when a job of that name exists, the table unchanged on error.
pub fn add_poke(
    table: &mut JobTable,
    name: String,
    cron: String,
    detail: Option<String>,
    sound_enabled: bool,
) -> (r: Result<(), PokeError>)
    requires
        old(table).wf(),
    ensures
        final(table).wf(),
        r == (if !cron_accepts(cron@) {
            Err(PokeError::InvalidSchedule)
        } else if has_name(old(table)@, name@) {
            Err(PokeError::DuplicateName)
        } else {
            Ok(())
        }),
        r is Err ==> final(table)@ == old(table)@,
        r is Ok ==> final(table)@.len() == old(table)@.len() + 1 && final(table)@.drop_last()
            == old(table)@ && final(table)@.last().name == name@ && final(table)@.last().cron
            == cron@ && final(table)@.last().detail == crate::job::opt_view(detail)
            && final(table)@.last().sound_enabled == sound_enabled,
{
    let p = Poke::new(name, cron, detail, sound_enabled)?;
    let r = table.insert(p);
    proof {
        if r is Ok {
            assert(final(table)@.drop_last() =~= old(table)@);
        }
    }
    r
}

/// The jobs in store order, the first `head` of them when `head` is a
/// non-negative bound.
pub fn list_pokes(table: &JobTable, head: Option<i32>) -> (r: Vec<Poke>)
    ensures
        view_all(r@) == head_of(table@, head),
{
    let n = table.jobs.len();
    let limit: usize = match head {
        Some(h) => if 0 <= h && (h as usize) < n {
            h as usize
        } else {
            n
        },
        None => n,
    };
    let mut out: Vec<Poke> = Vec::new();
    let mut i: usize = 0;
    while i < limit
        invariant
            limit <= n == table.jobs@.len(),
            0 <= i <= limit,
            view_all(out@) == table@.take(i as int),
        decreases limit - i,
    {
        let p = table.jobs[i].copy();
        proof {
            lemma_view_all_push(out@, p);
        }
        out.push(p);
        assert(view_all(out@) =~= table@.take(i + 1));
        i = i + 1;
    }
    assert(table@.take(n as int) =~= table@);
    out
}

/// The job with exactly this name, or `NotFound`.
pub fn get_poke_by_name(table: &JobTable, name: &str) -> (r: Result<Poke, PokeError>)
    requires
        table.wf(),
    ensures
        !has_name(table@, name@) <==> r == Err::<Poke, PokeError>(PokeError::NotFound),
        has_name(table@, name@) ==> r is Ok,
        r matches Ok(p) ==> exists|i: int| 0 <= i < table@.len() && #[trigger] table@[i] == p@ && p@.name == name@,
{
    match table.find(name) {
        Some(i) => {
            let p = table.jobs[i].copy();
            assert(table@[i as int] == p@);
            Ok(p)
        },
        None => Err(PokeError::NotFound),
    }
}

/// Removes the job with this name, or fails with `NotFound` and leaves the
/// table as it was.
pub fn remove_poke(table: &mut JobTable, name: &str) -> (r: Result<(), PokeError>)
    requires
        old(table).wf(),
    ensures
        final(table).wf(),
        !has_name(old(table)@, name@) <==> r is Err,
        r is Err ==> r == Err::<(), PokeError>(PokeError::NotFound) && final(table)@ == old(table)@,
        r is Ok ==> exists|i: int| 0 <= i < old(table)@.len() && #[trigger] old(table)@[i].name
            == name@ && final(table)@ == old(table)@.remove(i),
{
    match table.find(name) {
        Some(i) => {
            table.jobs.remove(i);
            assert(table@ =~= old(table)@.remove(i as int));
            Ok(())
        },
        None => Err(PokeError::NotFound),
    }
}

/// Flips the sound flag of the job with this name and returns the new value,
/// or fails with `NotFound` and leaves the table as it was.
pub fn toggle_poke_sound(table: &mut JobTable, name: &str) -> (r: Result<bool, PokeError>)
    requires
        old(table).wf(),
    ensures
        final(table).wf(),
        !has_name(old(table)@, name@) <==> r is Err,
        r is Err ==> r == Err::<bool, PokeError>(PokeError::NotFound) && final(table)@ == old(table)@,
        r matches Ok(s) ==> exists|i: int| 0 <= i < old(table)@.len() && #[trigger] old(table)@[i].name
            == name@ && s == !old(table)@[i].sound_enabled && final(table)@ == old(table)@.update(
            i,
            PokeView { sound_enabled: s, ..old(table)@[i] },
        ),
{
    match table.find(name) {
        Some(i) => {
            let mut p = table.jobs[i].copy();
            let s = !p.sound_enabled;
            p.sound_enabled = s;
            let ghost pv = p@;
            table.jobs.set(i, p);
            assert(table@ =~= old(table)@.update(i as int, pv));
            assert(forall|k: int| 0 <= k < table@.len() ==> #[trigger] table@[k].name == old(table)@[k].name && table@[k].cron == old(table)@[k].cron);
            assert(names_unique(table@)) by {
                assert forall|a: int, b: int| 0 <= a < b < table@.len() implies #[trigger] table@[a].name != #[trigger] table@[b].name by {
                    assert(old(table)@[a].name != old(table)@[b].name);
                }
            }
            assert(schedules_valid(table@)) by {
                assert forall|a: int| 0 <= a < table@.len() implies cron_accepts(#[trigger] table@[a].cron) by {
                    assert(cron_accepts(old(table)@[a].cron));
                }
            }
            Ok(s)
        },
        None => Err(PokeError::NotFound),
    }
}

/// Two adds of the same name are never both successful: once a job named
/// `p.name` has been added, adding `q` with that name is refused as a
/// duplicate (or as an invalid schedule), and the table stays as it was.
pub proof fn lemma_duplicate_add_refused(t: Seq<PokeView>, p: PokeView, q: PokeView)
    requires
        q.name == p.name,
        add_result(t, p) is Ok,
    ensures
        add_result(after_add(t, p), q) is Err,
        cron_accepts(q.cron) ==> add_result(after_add(t, p), q) == Err::<(), PokeError>(
            PokeError::DuplicateName,
        ),
        after_add(after_add(t, p), q) == after_add(t, p),
{
    let t2 = after_add(t, p);
    assert(t2[t.len() as int] == p);
    assert(has_name(t2, q.name));
}

} // verus!
