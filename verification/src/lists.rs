//! The lists behind the site's keyed list views, and the status line of the upload forms.
use vstd::prelude::*;
use crate::errors::text;

verus! {

/// The entries of `list` whose id (second component) is not `id`, in order.
pub open spec fn without_id(list: Seq<(i32, i32)>, id: i32) -> Seq<(i32, i32)> {
    list.filter(id_differs(id))
}

/// The entry's id (second component) is not `id`.
pub open spec fn id_differs(id: i32) -> spec_fn((i32, i32)) -> bool {
    |e: (i32, i32)| e.1 != id
}

/// The entries of `counters` whose id (first component) is not `id`, in order.
pub open spec fn without_counter<T>(counters: Seq<(usize, T)>, id: usize) -> Seq<(usize, T)> {
    counters.filter(counter_id_differs(id))
}

/// The counter's id (first component) is not `id`.
pub open spec fn counter_id_differs<T>(id: usize) -> spec_fn((usize, T)) -> bool {
    |e: (usize, T)| e.0 != id
}

proof fn lemma_without_id_push(s: Seq<(i32, i32)>, x: (i32, i32), id: i32)
    ensures
        without_id(s.push(x), id) == if x.1 != id {
            without_id(s, id).push(x)
        } else {
            without_id(s, id)
        },
{
    s.lemma_filter_push(x, id_differs(id));
}

proof fn lemma_without_counter_push<T>(s: Seq<(usize, T)>, x: (usize, T), id: usize)
    ensures
        without_counter(s.push(x), id) == if x.0 != id {
            without_counter(s, id).push(x)
        } else {
            without_counter(s, id)
        },
{
    s.lemma_filter_push(x, counter_id_differs::<T>(id));
}

proof fn lemma_without_id_facts(s: Seq<(i32, i32)>, id: i32)
    ensures
        forall|j: int|
            0 <= j < without_id(s, id).len() ==> (#[trigger] without_id(s, id)[j]).1 != id
                && s.contains(without_id(s, id)[j]),
        forall|j: int|
            0 <= j < s.len() && (#[trigger] s[j]).1 != id ==> without_id(s, id).contains(s[j]),
{
    let f = without_id(s, id);
    assert forall|j: int| 0 <= j < f.len() implies (#[trigger] f[j]).1 != id && s.contains(
        f[j],
    ) by {
        s.lemma_filter_pred(id_differs(id), j);
        assert(f.contains(f[j]));
        s.lemma_filter_contains_rev(id_differs(id), f[j]);
    }
    assert forall|j: int| 0 <= j < s.len() && (#[trigger] s[j]).1 != id implies f.contains(s[j]) by {
        s.lemma_filter_contains(id_differs(id), j);
    }
}

proof fn lemma_without_counter_facts<T>(s: Seq<(usize, T)>, id: usize)
    ensures
        forall|j: int|
            0 <= j < without_counter(s, id).len() ==> (#[trigger] without_counter(s, id)[j]).0
                != id && s.contains(without_counter(s, id)[j]),
        forall|j: int|
            0 <= j < s.len() && (#[trigger] s[j]).0 != id ==> without_counter(s, id).contains(s[j]),
{
    let f = without_counter(s, id);
    assert forall|j: int| 0 <= j < f.len() implies (#[trigger] f[j]).0 != id && s.contains(
        f[j],
    ) by {
        s.lemma_filter_pred(counter_id_differs::<T>(id), j);
        assert(f.contains(f[j]));
        s.lemma_filter_contains_rev(counter_id_differs::<T>(id), f[j]);
    }
    assert forall|j: int| 0 <= j < s.len() && (#[trigger] s[j]).0 != id implies f.contains(s[j]) by {
        s.lemma_filter_contains(counter_id_differs::<T>(id), j);
    }
}

/// A list of `(value, id)` entries that grows by a button and shrinks by per-entry remove
/// buttons; each new entry takes the next count as its id.
pub struct DynamicListState {
    pub counter: i32,
    pub list: Vec<(i32, i32)>,
}

impl DynamicListState {
    /// The ids of the entries strictly increase along the list and none exceeds the count:
    /// so an id names one entry only, and the next entry's id is new.
    pub open spec fn wf(&self) -> bool {
        &&& forall|i: int, j: int|
            0 <= i < j < self.list@.len() ==> (#[trigger] self.list@[i]).1 < (
            #[trigger] self.list@[j]).1
        &&& forall|i: int| 0 <= i < self.list@.len() ==> (#[trigger] self.list@[i]).1 <= self.counter
    }

    /// The starting list: one entry `(10, 0)`, the count at 0.
    pub fn new() -> (r: Self)
        ensures
            r.counter == 0,
            r.list@ == seq![(10i32, 0i32)],
            r.wf(),
    {
        let mut list: Vec<(i32, i32)> = Vec::new();
        list.push((10, 0));
        DynamicListState { counter: 0, list: list }
    }

    /// The add button: the count goes up by one and an entry `(10, count)` is appended.
    pub fn add(&mut self)
        requires
            old(self).counter < i32::MAX,
        ensures
            final(self).counter == old(self).counter + 1,
            final(self).list@ == old(self).list@.push((10i32, final(self).counter)),
            old(self).wf() ==> final(self).wf(),
    {
        self.counter = self.counter + 1;
        self.list.push((10, self.counter));
    }

    /// A remove button: every entry with the id goes; the others stay, in order.
    pub fn remove(&mut self, id: i32)
        ensures
            final(self).counter == old(self).counter,
            final(self).list@ == without_id(old(self).list@, id),
            old(self).wf() ==> final(self).wf(),
            forall|j: int|
                0 <= j < final(self).list@.len() ==> (#[trigger] final(self).list@[j]).1 != id
                    && old(self).list@.contains(final(self).list@[j]),
            forall|j: int|
                0 <= j < old(self).list@.len() && (#[trigger] old(self).list@[j]).1 != id
                    ==> final(self).list@.contains(old(self).list@[j]),
    {
        proof {
            lemma_without_id_facts(old(self).list@, id);
        }
        let mut kept: Vec<(i32, i32)> = Vec::new();
        let mut i: usize = 0;
        let ghost start = self.list@;
        let ghost was_wf = old(self).wf();
        while i < self.list.len()
            invariant
                self.list@ == start,
                self.counter == old(self).counter,
                start == old(self).list@,
                was_wf == old(self).wf(),
                0 <= i <= start.len(),
                kept@ == without_id(start.take(i as int), id),
                was_wf ==> forall|j: int, m: int|
                    0 <= j < kept@.len() && i <= m < start.len() ==> (#[trigger] kept@[j]).1 < (
                    #[trigger] start[m]).1,
                was_wf ==> forall|j: int, k: int|
                    0 <= j < k < kept@.len() ==> (#[trigger] kept@[j]).1 < (#[trigger] kept@[k]).1,
                was_wf ==> forall|j: int|
                    0 <= j < kept@.len() ==> (#[trigger] kept@[j]).1 <= self.counter,
            decreases start.len() - i,
        {
            let e = self.list[i];
            proof {
                assert(start.take(i + 1) == start.take(i as int).push(e));
                lemma_without_id_push(start.take(i as int), e, id);
            }
            if e.1 != id {
                kept.push(e);
            }
            i = i + 1;
        }
        proof {
            assert(start.take(start.len() as int) == start);
        }
        self.list = kept;
    }
}

/// A list of counters `(id, value)` where each new counter takes the next id.
pub struct CounterList<T> {
    pub next_counter_id: usize,
    pub counters: Vec<(usize, T)>,
}

impl<T> CounterList<T> {
    /// The ids of the counters strictly increase along the list and are all below the next
    /// id: so an id names one counter only, and the next counter's id is new.
    pub open spec fn wf(&self) -> bool {
        &&& forall|i: int, j: int|
            0 <= i < j < self.counters@.len() ==> (#[trigger] self.counters@[i]).0 < (
            #[trigger] self.counters@[j]).0
        &&& forall|i: int|
            0 <= i < self.counters@.len() ==> (#[trigger] self.counters@[i]).0 < self.next_counter_id
    }

    /// The starting counters: the given values under the ids `0, 1, ...`; the next id is
    /// their number.
    pub fn from_values(values: Vec<T>) -> (r: Self)
        ensures
            r.next_counter_id == values@.len(),
            r.counters@.len() == values@.len(),
            forall|i: int|
                0 <= i < values@.len() ==> (#[trigger] r.counters@[i]).0 == i && r.counters@[i].1
                    == values@[i],
            r.wf(),
    {
        let mut values = values;
        let ghost vals = values@;
        let mut rev: Vec<T> = Vec::new();
        while values.len() > 0
            invariant
                values@.len() + rev@.len() == vals.len(),
                values@ == vals.take(values@.len() as int),
                forall|j: int|
                    0 <= j < rev@.len() ==> #[trigger] rev@[j] == vals[vals.len() - 1 - j],
            decreases values@.len(),
        {
            let v = values.pop().unwrap();
            rev.push(v);
        }
        let mut counters: Vec<(usize, T)> = Vec::new();
        let n = rev.len();
        while rev.len() > 0
            invariant
                n == vals.len(),
                counters@.len() + rev@.len() == n,
                forall|j: int|
                    0 <= j < rev@.len() ==> #[trigger] rev@[j] == vals[n - 1 - j],
                forall|i: int|
                    0 <= i < counters@.len() ==> (#[trigger] counters@[i]).0 == i
                        && counters@[i].1 == vals[i],
            decreases rev@.len(),
        {
            let id = counters.len();
            let v = rev.pop().unwrap();
            counters.push((id, v));
        }
        CounterList { next_counter_id: n, counters: counters }
    }

    /// The value a new counter starts with: one more than its id.
    pub fn next_start_value(&self) -> (r: usize)
        requires
            self.next_counter_id < usize::MAX,
        ensures
            r == self.next_counter_id + 1,
    {
        self.next_counter_id + 1
    }

    /// The add button: a counter with the next id is appended, and the next id goes up by one.
    pub fn add(&mut self, value: T)
        requires
            old(self).next_counter_id < usize::MAX,
        ensures
            final(self).next_counter_id == old(self).next_counter_id + 1,
            final(self).counters@ == old(self).counters@.push((old(self).next_counter_id, value)),
            old(self).wf() ==> final(self).wf(),
    {
        self.counters.push((self.next_counter_id, value));
        self.next_counter_id = self.next_counter_id + 1;
    }

    /// A remove button: every counter with the id goes; the others stay, in order.
    pub fn remove(&mut self, id: usize)
        ensures
            final(self).next_counter_id == old(self).next_counter_id,
            final(self).counters@ == without_counter(old(self).counters@, id),
            old(self).wf() ==> final(self).wf(),
            forall|j: int|
                0 <= j < final(self).counters@.len() ==> (#[trigger] final(self).counters@[j]).0
                    != id && old(self).counters@.contains(final(self).counters@[j]),
            forall|j: int|
                0 <= j < old(self).counters@.len() && (#[trigger] old(self).counters@[j]).0 != id
                    ==> final(self).counters@.contains(old(self).counters@[j]),
    {
        proof {
            lemma_without_counter_facts(old(self).counters@, id);
        }
        let mut counters = Vec::new();
        std::mem::swap(&mut counters, &mut self.counters);
        let ghost start = counters@;
        let ghost was_wf = old(self).wf();
        let mut kept: Vec<(usize, T)> = Vec::new();
        let mut rev: Vec<(usize, T)> = Vec::new();
        while counters.len() > 0
            invariant
                counters@.len() + rev@.len() == start.len(),
                counters@ == start.take(counters@.len() as int),
                forall|j: int|
                    0 <= j < rev@.len() ==> #[trigger] rev@[j] == start[start.len() - 1 - j],
            decreases counters@.len(),
        {
            let e = counters.pop().unwrap();
            rev.push(e);
        }
        while rev.len() > 0
            invariant
                forall|j: int|
                    0 <= j < rev@.len() ==> #[trigger] rev@[j] == start[start.len() - 1 - j],
                rev@.len() <= start.len(),
                start == old(self).counters@,
                self.next_counter_id == old(self).next_counter_id,
                was_wf == old(self).wf(),
                kept@ == without_counter(start.take(start.len() - rev@.len()), id),
                was_wf ==> forall|j: int, m: int|
                    0 <= j < kept@.len() && start.len() - rev@.len() <= m < start.len() ==> (
                    #[trigger] kept@[j]).0 < (#[trigger] start[m]).0,
                was_wf ==> forall|j: int, k: int|
                    0 <= j < k < kept@.len() ==> (#[trigger] kept@[j]).0 < (#[trigger] kept@[k]).0,
                was_wf ==> forall|j: int|
                    0 <= j < kept@.len() ==> (#[trigger] kept@[j]).0 < self.next_counter_id,
            decreases rev@.len(),
        {
            let ghost done = start.len() - rev@.len();
            let e = rev.pop().unwrap();
            proof {
                assert(e == start[done]);
                assert(start.take(done + 1) == start.take(done).push(e));
                lemma_without_counter_push(start.take(done), e, id);
            }
            if e.0 != id {
                kept.push(e);
            }
        }
        proof {
            assert(start.take(start.len() as int) == start);
        }
        self.counters = kept;
    }
}

/// The status line of an upload form: "Upload a file." before anything is sent,
/// "Uploading..." while it is sent, "Success!" once the server accepted it; `None` where the
/// server's answer is shown as it came.
pub fn upload_status(nothing_sent: bool, pending: bool, succeeded: bool) -> (r: Option<String>)
    ensures
        nothing_sent ==> (r matches Some(s) && s@ == "Upload a file."@),
        !nothing_sent && pending ==> (r matches Some(s) && s@ == "Uploading..."@),
        !nothing_sent && !pending && succeeded ==> (r matches Some(s) && s@ == "Success!"@),
        !nothing_sent && !pending && !succeeded ==> r is None,
{
    if nothing_sent {
        Some(text("Upload a file."))
    } else if pending {
        Some(text("Uploading..."))
    } else if succeeded {
        Some(text("Success!"))
    } else {
        None
    }
}

} // verus!
