//! The in-memory buffer of one chat's messages, sealed into batch files.

use vstd::prelude::*;
use vstd::multiset::Multiset;
use crate::dates::{day_stamp, day_stamp_of, valid_timestamp};
use crate::names::{candidate_name, choose_batch_name, first_free, views};
use crate::types::MessageInfo;

verus! {

pub open spec fn sorted_by_date(s: Seq<MessageInfo>) -> bool {
    forall|i: int, j: int| 0 <= i <= j < s.len() ==> s[i].date <= s[j].date
}

pub open spec fn all_valid_dates(s: Seq<MessageInfo>) -> bool {
    forall|i: int| 0 <= i < s.len() ==> valid_timestamp(#[trigger] s[i].date as int)
}

/// The records of `s` dated `d`, in their order in `s`.
pub open spec fn with_date(s: Seq<MessageInfo>, d: i64) -> Seq<MessageInfo>
    decreases s.len(),
{
    if s.len() == 0 {
        s
    } else if s.last().date == d {
        with_date(s.drop_last(), d).push(s.last())
    } else {
        with_date(s.drop_last(), d)
    }
}

proof fn lemma_with_date_concat(a: Seq<MessageInfo>, b: Seq<MessageInfo>, d: i64)
    ensures
        with_date(a + b, d) == with_date(a, d) + with_date(b, d),
    decreases b.len(),
{
    if b.len() == 0 {
        assert(a + b =~= a);
        assert(with_date(a, d) + with_date(b, d) =~= with_date(a, d));
    } else {
        assert((a + b).drop_last() =~= a + b.drop_last());
        assert((a + b).last() == b.last());
        lemma_with_date_concat(a, b.drop_last(), d);
        if b.last().date == d {
            assert(with_date(a, d) + with_date(b.drop_last(), d).push(b.last()) =~= (with_date(a, d) + with_date(
                b.drop_last(),
                d,
            )).push(b.last()));
        }
    }
}

proof fn lemma_with_date_none(s: Seq<MessageInfo>, d: i64)
    requires
        forall|i: int| 0 <= i < s.len() ==> s[i].date != d,
    ensures
        with_date(s, d) == Seq::<MessageInfo>::empty(),
    decreases s.len(),
{
    if s.len() > 0 {
        lemma_with_date_none(s.drop_last(), d);
    }
}

proof fn lemma_with_date_single(x: MessageInfo, d: i64)
    ensures
        with_date(seq![x], d) == (if x.date == d {
            seq![x]
        } else {
            Seq::<MessageInfo>::empty()
        }),
{
    let e = Seq::<MessageInfo>::empty();
    assert(seq![x].drop_last() =~= e);
    assert(seq![x].last() == x);
    assert(with_date(e, d) == e);
    assert(e.push(x) =~= seq![x]);
    reveal_with_fuel(with_date, 2);
}

proof fn lemma_with_date_last(s: Seq<MessageInfo>, d: i64)
    ensures
        with_date(s, d).len() > 0 ==> exists|i: int| 0 <= i < s.len() && s[i].date == d,
        with_date(s, d).len() <= s.len(),
    decreases s.len(),
{
    if s.len() > 0 {
        lemma_with_date_last(s.drop_last(), d);
        if with_date(s.drop_last(), d).len() > 0 {
            let i = choose|i: int| 0 <= i < s.drop_last().len() && s.drop_last()[i].date == d;
            assert(s[i].date == d);
        }
    }
}

/// Two date-ordered sequences of the same length with the same records, in the same
/// order, on every date are equal.
pub proof fn lemma_sorted_same_dates_equal(a: Seq<MessageInfo>, b: Seq<MessageInfo>)
    requires
        sorted_by_date(a),
        sorted_by_date(b),
        a.len() == b.len(),
        forall|d: i64| #[trigger] with_date(a, d) == with_date(b, d),
    ensures
        a == b,
    decreases a.len(),
{
    if a.len() == 0 {
        assert(a =~= b);
    } else {
        let la = a.last();
        let lb = b.last();
        assert(with_date(a, la.date).len() > 0);
        assert(with_date(b, lb.date).len() > 0);
        lemma_with_date_last(b, la.date);
        lemma_with_date_last(a, lb.date);
        let i = choose|i: int| 0 <= i < b.len() && b[i].date == la.date;
        let j = choose|j: int| 0 <= j < a.len() && a[j].date == lb.date;
        assert(b[i].date <= lb.date);
        assert(a[j].date <= la.date);
        assert(la.date == lb.date);
        assert(with_date(a, la.date).last() == la);
        assert(with_date(b, la.date).last() == lb);
        let a2 = a.drop_last();
        let b2 = b.drop_last();
        assert forall|d: i64| #[trigger] with_date(a2, d) == with_date(b2, d) by {
            assert(with_date(a, d) == with_date(b, d));
            if d == la.date {
                assert(with_date(a, d).drop_last() =~= with_date(a2, d));
                assert(with_date(b, d).drop_last() =~= with_date(b2, d));
            }
        }
        lemma_sorted_same_dates_equal(a2, b2);
        assert(a =~= a2.push(la));
        assert(b =~= b2.push(lb));
    }
}

/// The messages of `v`, ordered by date, earliest first; messages of the same date keep
/// their order.
pub fn sort_by_date(v: Vec<MessageInfo>) -> (r: Vec<MessageInfo>)
    ensures
        sorted_by_date(r@),
        forall|d: i64| #[trigger] with_date(r@, d) == with_date(v@, d),
        r@.to_multiset() == v@.to_multiset(),
        r@.len() == v@.len(),
{
    broadcast use vstd::seq_lib::group_to_multiset_ensures, vstd::multiset::group_multiset_axioms,
        vstd::multiset::group_multiset_properties;

    let ghost orig = v@;
    let mut rest = v;
    let mut out: Vec<MessageInfo> = Vec::new();
    assert(out@.to_multiset() =~= Multiset::empty());
    assert(orig.subrange(orig.len() as int, orig.len() as int) =~= out@);
    assert(rest@ =~= orig.subrange(0, rest@.len() as int));
    while rest.len() > 0
        invariant
            sorted_by_date(out@),
            out@.len() + rest@.len() == orig.len(),
            rest@.to_multiset().add(out@.to_multiset()) == orig.to_multiset(),
            rest@ == orig.subrange(0, rest@.len() as int),
            forall|d: i64| #[trigger] with_date(out@, d) == with_date(orig.subrange(rest@.len() as int, orig.len() as int), d),
        decreases rest.len(),
    {
        let ghost before = rest@;
        let x = rest.pop().unwrap();
        assert(before =~= rest@.push(x));
        let mut p: usize = 0;
        while p < out.len() && out[p].date < x.date
            invariant
                p <= out.len(),
                forall|j: int| 0 <= j < p ==> out@[j].date < x.date,
            decreases out.len() - p,
        {
            p = p + 1;
        }
        let ghost old_out = out@;
        out.insert(p, x);
        proof {
            vstd::seq_lib::to_multiset_build(rest@, x);
            vstd::seq_lib::to_multiset_insert(old_out, p as int, x);
            assert(before.to_multiset() == rest@.to_multiset().insert(x));
            assert(out@.to_multiset() == old_out.to_multiset().insert(x));
            assert(rest@.to_multiset().add(out@.to_multiset()) =~= before.to_multiset().add(old_out.to_multiset()));
            let suffix = orig.subrange(before.len() as int, orig.len() as int);
            assert(orig.subrange(rest@.len() as int, orig.len() as int) =~= seq![x] + suffix);
            assert(rest@ =~= orig.subrange(0, rest@.len() as int));
            let lo = old_out.subrange(0, p as int);
            let hi = old_out.subrange(p as int, old_out.len() as int);
            assert(out@ =~= lo + seq![x] + hi);
            assert(old_out =~= lo + hi);
            assert forall|d: i64| #[trigger] with_date(out@, d) == with_date(seq![x] + suffix, d) by {
                lemma_with_date_concat(lo + seq![x], hi, d);
                lemma_with_date_concat(lo, seq![x], d);
                lemma_with_date_concat(lo, hi, d);
                lemma_with_date_concat(seq![x], suffix, d);
                lemma_with_date_single(x, d);
                assert(with_date(old_out, d) == with_date(suffix, d));
                if x.date == d {
                    lemma_with_date_none(lo, d);
                    assert(with_date(lo, d) + seq![x] + with_date(hi, d) =~= seq![x] + (with_date(lo, d) + with_date(hi, d)));
                } else {
                    assert(with_date(lo, d) + Seq::<MessageInfo>::empty() =~= with_date(lo, d));
                    assert(Seq::<MessageInfo>::empty() + with_date(suffix, d) =~= with_date(suffix, d));
                }
            }
            assert forall|i: int, j: int| 0 <= i <= j < out@.len() implies out@[i].date <= out@[j].date by {
                if i < p as int && j == p as int {
                } else if i < p as int && j > p as int {
                    assert(out@[j] == old_out[j - 1]);
                } else if i == p as int && j > p as int {
                    assert(out@[j] == old_out[j - 1]);
                    assert(old_out[p as int].date >= x.date);
                    assert(old_out[p as int].date <= old_out[j - 1].date);
                } else if i > p as int {
                    assert(out@[j] == old_out[j - 1]);
                    assert(out@[i] == old_out[i - 1]);
                }
            }
        }
    }
    assert(rest@.to_multiset() =~= Multiset::empty());
    assert(out@.to_multiset() =~= orig.to_multiset());
    assert(orig.subrange(0, orig.len() as int) =~= orig);
    out
}

/// A sealed batch to write: first delete `replaced`, if any, then write `records`
/// (as one JSON array) to the file `name` of the chat's messages folder.
#[derive(Debug)]
pub struct FlushPlan {
    pub replaced: Option<String>,
    pub name: String,
    pub records: Vec<MessageInfo>,
}

/// The buffer of one chat. `taken` lists the names in the chat's messages folder;
/// `initial_file` is a partly filled batch file whose records the buffer started with,
/// to be replaced by the next batch written.
pub struct BatchAccumulator {
    pub batch_size: usize,
    pub messages: Vec<MessageInfo>,
    pub accumulator_counter: i32,
    pub initial_file: Option<String>,
    pub taken: Vec<String>,
}

/// `names` less every copy of `name`, in order.
pub open spec fn without(names: Seq<Seq<char>>, name: Seq<char>) -> Seq<Seq<char>>
    decreases names.len(),
{
    if names.len() == 0 {
        names
    } else if names.last() == name {
        without(names.drop_last(), name)
    } else {
        without(names.drop_last(), name).push(names.last())
    }
}

pub open spec fn opt_view(s: Option<String>) -> Option<Seq<char>> {
    match s {
        Some(x) => Some(x@),
        None => None,
    }
}

/// `taken` less the file that the next batch replaces.
pub open spec fn free_after_replace(taken: Seq<Seq<char>>, initial: Option<Seq<char>>) -> Seq<Seq<char>> {
    match initial {
        Some(n) => without(taken, n),
        None => taken,
    }
}

fn drop_name(names: &Vec<String>, name: &String) -> (r: Vec<String>)
    ensures
        views(r@) == without(views(names@), name@),
{
    let mut r: Vec<String> = Vec::new();
    let mut i: usize = 0;
    while i < names.len()
        invariant
            i <= names.len(),
            views(r@) == without(views(names@.subrange(0, i as int)), name@),
        decreases names.len() - i,
    {
        let ghost prev = names@.subrange(0, i as int);
        assert(names@.subrange(0, i as int + 1) =~= prev.push(names@[i as int]));
        assert(views(prev.push(names@[i as int])) =~= views(prev).push(names@[i as int]@));
        assert(views(prev).push(names@[i as int]@).drop_last() =~= views(prev));
        if names[i] != *name {
            let c = names[i].clone();
            r.push(c);
            assert(views(r@) =~= views(r@.drop_last()).push(c@));
        }
        i = i + 1;
    }
    assert(names@.subrange(0, names.len() as int) =~= names@);
    r
}

/// `plan` seals the buffered records `msgs` of a buffer whose folder holds `taken`,
/// which replaces `initial` and whose counter stands at `counter`; the buffer becomes
/// `after`. The batch holds the records ordered by date (those of one date in their
/// buffered order); its name is the first free candidate for its first and last days
/// among the folder's names less the file it replaces; the buffer is emptied, the
/// replaced file forgotten, the new name noted, and the counter goes up.
pub open spec fn sealed_from(
    msgs: Seq<MessageInfo>,
    taken: Seq<String>,
    initial: Option<String>,
    counter: i32,
    batch_size: usize,
    after: BatchAccumulator,
    plan: FlushPlan,
) -> bool {
    let free = free_after_replace(views(taken), opt_view(initial));
    let first = day_stamp_of(plan.records@[0].date as int);
    let last = day_stamp_of(plan.records@.last().date as int);
    &&& sorted_by_date(plan.records@)
    &&& (forall|d: i64| #[trigger] with_date(plan.records@, d) == with_date(msgs, d))
    &&& plan.records@.to_multiset() == msgs.to_multiset()
    &&& plan.records@.len() == msgs.len()
    &&& opt_view(plan.replaced) == opt_view(initial)
    &&& exists|k: nat| first_free(first, last, free, k) && plan.name@ == candidate_name(first, last, k)
    &&& !free.contains(plan.name@)
    &&& after.batch_size == batch_size
    &&& after.messages@.len() == 0
    &&& after.initial_file is None
    &&& views(after.taken@) == free.push(plan.name@)
    &&& after.accumulator_counter == (if counter < i32::MAX {
        counter + 1
    } else {
        counter as int
    })
}

/// `plan` seals the whole buffer of `before`, which becomes `after`; see `sealed_from`.
pub open spec fn sealed(before: BatchAccumulator, after: BatchAccumulator, plan: FlushPlan) -> bool {
    sealed_from(
        before.messages@,
        before.taken@,
        before.initial_file,
        before.accumulator_counter,
        before.batch_size,
        after,
        plan,
    )
}

/// Re-sealing a buffer that holds exactly the records of a partly filled batch file
/// (ordered by date, as every sealed batch is) writes the same records back, and under
/// the same name where that name was the first free one for its days.
pub proof fn lemma_reseal_keeps_partial_file(
    msgs: Seq<MessageInfo>,
    taken: Seq<String>,
    initial: String,
    counter: i32,
    batch_size: usize,
    after: BatchAccumulator,
    plan: FlushPlan,
    k0: nat,
)
    requires
        sealed_from(msgs, taken, Some(initial), counter, batch_size, after, plan),
        msgs.len() > 0,
        sorted_by_date(msgs),
        initial@ == candidate_name(day_stamp_of(msgs[0].date as int), day_stamp_of(msgs.last().date as int), k0),
        first_free(
            day_stamp_of(msgs[0].date as int),
            day_stamp_of(msgs.last().date as int),
            free_after_replace(views(taken), Some(initial@)),
            k0,
        ),
    ensures
        plan.records@ == msgs,
        plan.name@ == initial@,
        opt_view(plan.replaced) == Some(initial@),
{
    lemma_sorted_same_dates_equal(plan.records@, msgs);
    let first = day_stamp_of(msgs[0].date as int);
    let last = day_stamp_of(msgs.last().date as int);
    let free = free_after_replace(views(taken), Some(initial@));
    let k = choose|k: nat| first_free(first, last, free, k) && plan.name@ == candidate_name(first, last, k);
    if k < k0 {
        assert(free.contains(candidate_name(first, last, k)));
    } else if k > k0 {
        assert(free.contains(candidate_name(first, last, k0)));
    }
}

impl BatchAccumulator {
    pub open spec fn wf(&self) -> bool {
        &&& self.batch_size >= 1
        &&& all_valid_dates(self.messages@)
    }

    /// An empty buffer for a chat whose messages folder holds `taken`. Where the latest
    /// batch file `latest` holds fewer than `batch_size` records (and at least one, all
    /// with representable dates), the buffer starts with them, and that file is
    /// replaced by the next batch written.
    pub fn resume(batch_size: usize, taken: Vec<String>, latest: Option<(String, Vec<MessageInfo>)>) -> (r:
        BatchAccumulator)
        requires
            batch_size >= 1,
        ensures
            r.wf(),
            r.batch_size == batch_size,
            r.accumulator_counter == 0,
            r.taken@ == taken@,
            match latest {
                Some((name, records)) => if 0 < records@.len() < batch_size && all_valid_dates(records@) {
                    r.messages@ == records@ && r.initial_file == Some(name)
                } else {
                    r.messages@.len() == 0 && r.initial_file is None
                },
                None => r.messages@.len() == 0 && r.initial_file is None,
            },
    {
        let mut acc = BatchAccumulator {
            batch_size,
            messages: Vec::new(),
            accumulator_counter: 0,
            initial_file: None,
            taken,
        };
        if let Some((name, records)) = latest {
            if 0 < records.len() && records.len() < batch_size && all_valid(&records) {
                acc.messages = records;
                acc.initial_file = Some(name);
            }
        }
        acc
    }

    /// Buffers one more message.
    pub fn append(&mut self, record: MessageInfo)
        requires
            old(self).wf(),
            valid_timestamp(record.date as int),
        ensures
            final(self).wf(),
            final(self).messages@ == old(self).messages@.push(record),
            final(self).batch_size == old(self).batch_size,
            final(self).accumulator_counter == old(self).accumulator_counter,
            final(self).initial_file == old(self).initial_file,
            final(self).taken == old(self).taken,
    {
        self.messages.push(record);
    }

    /// Whether the buffer holds a full batch.
    pub fn should_flush(&self) -> (r: bool)
        ensures
            r == (self.messages@.len() >= self.batch_size),
    {
        self.messages.len() >= self.batch_size
    }

    /// Seals the buffer into a batch (see `sealed`), unless it is empty: then nothing
    /// changes and `None` comes back.
    pub fn force_flush(&mut self) -> (r: Option<FlushPlan>)
        requires
            old(self).wf(),
        ensures
            final(self).wf(),
            final(self).batch_size == old(self).batch_size,
            old(self).messages@.len() == 0 ==> r is None && *final(self) == *old(self),
            old(self).messages@.len() > 0 ==> (r matches Some(plan) && sealed(*old(self), *final(self), plan)),
    {
        if self.messages.len() == 0 {
            return None;
        }
        let mut buffered: Vec<MessageInfo> = Vec::new();
        std::mem::swap(&mut buffered, &mut self.messages);
        let ghost old_msgs = buffered@;
        let records = sort_by_date(buffered);
        proof {
            broadcast use vstd::seq_lib::group_to_multiset_ensures;

            assert forall|i: int| 0 <= i < records@.len() implies valid_timestamp(#[trigger] records@[i].date as int) by {
                assert(records@.contains(records@[i]));
                assert(records@.to_multiset().count(records@[i]) > 0);
                assert(old_msgs.to_multiset().count(records@[i]) > 0);
                assert(old_msgs.contains(records@[i]));
            }
        }
        let n = records.len();
        let first = day_stamp(records[0].date);
        let last = day_stamp(records[n - 1].date);
        let replaced = self.initial_file.take();
        if let Some(old_name) = &replaced {
            self.taken = drop_name(&self.taken, old_name);
        }
        let ghost free = views(self.taken@);
        let name = choose_batch_name(first.as_str(), last.as_str(), &self.taken);
        self.taken.push(name.clone());
        assert(views(self.taken@) =~= free.push(name@));
        if self.accumulator_counter < i32::MAX {
            self.accumulator_counter = self.accumulator_counter + 1;
        }
        Some(FlushPlan { replaced, name, records })
    }

    /// Seals the buffer if it holds a full batch; see `force_flush`.
    pub fn drop_messages(&mut self) -> (r: Option<FlushPlan>)
        requires
            old(self).wf(),
        ensures
            old(self).messages@.len() < old(self).batch_size ==> r is None && *final(self) == *old(self),
            old(self).messages@.len() >= old(self).batch_size ==> (r matches Some(plan) && sealed(
                *old(self),
                *final(self),
                plan,
            )),
            final(self).wf(),
    {
        if !self.should_flush() {
            return None;
        }
        self.force_flush()
    }
}

fn all_valid(records: &Vec<MessageInfo>) -> (r: bool)
    ensures
        r == all_valid_dates(records@),
{
    let mut i: usize = 0;
    while i < records.len()
        invariant
            i <= records.len(),
            forall|j: int| 0 <= j < i ==> valid_timestamp(#[trigger] records@[j].date as int),
        decreases records.len() - i,
    {
        if records[i].date < crate::dates::MIN_TIMESTAMP || records[i].date > crate::dates::MAX_TIMESTAMP {
            return false;
        }
        i = i + 1;
    }
    true
}

} // verus!
