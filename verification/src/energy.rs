//! Bookkeeping of the energy-balance accumulator: one running total per
//! module, keyed by module name, in order of first appearance.

use vstd::prelude::*;

verus! {

/// No name occurs twice among the accumulators.
pub open spec fn names_distinct<W>(per_module: Seq<(String, W)>) -> bool {
    forall|i: int, j: int|
        0 <= i < j < per_module.len() ==> (#[trigger] per_module[i]).0@ != (#[trigger] per_module[j]).0@
}

/// Find the accumulator named `name` in `per_module`. When one exists its
/// position is returned and nothing changes (the caller adds `energy` to
/// it); otherwise a new accumulator (`name`, `energy`) is appended and
/// `None` is returned.
pub fn module_slot<W: Copy>(per_module: &mut Vec<(String, W)>, name: &String, energy: W) -> (slot:
    Option<usize>)
    ensures
        match slot {
            Some(i) => {
                &&& final(per_module)@ == old(per_module)@
                &&& i < old(per_module)@.len()
                &&& old(per_module)@[i as int].0@ == name@
                &&& forall|j: int| 0 <= j < i ==> (#[trigger] old(per_module)@[j]).0@ != name@
            },
            None => {
                &&& final(per_module)@ == old(per_module)@.push((*name, energy))
                &&& forall|j: int|
                    0 <= j < old(per_module)@.len() ==> (#[trigger] old(per_module)@[j]).0@ != name@
            },
        },
{
    match position_named(per_module, name) {
        Some(i) => Some(i),
        None => {
            proof {
                assert forall|j: int| 0 <= j < per_module@.len() implies (
                #[trigger] per_module@[j]).0@ != name@ by {
                    if per_module@[j].0@ == name@ {
                        assert(has_name(per_module@, name@));
                    }
                }
            }
            per_module.push((name.clone(), energy));
            None
        },
    }
}

/// Looking up or adding a module keeps the accumulator names distinct.
pub proof fn lemma_module_slot_keeps_names_distinct<W>(
    before: Seq<(String, W)>,
    after: Seq<(String, W)>,
    name: String,
    energy: W,
)
    requires
        names_distinct(before),
        after == before || (after == before.push((name, energy)) && forall|j: int|
            0 <= j < before.len() ==> (#[trigger] before[j]).0@ != name@),
    ensures
        names_distinct(after),
{
    if after != before {
        assert forall|i: int, j: int| 0 <= i < j < after.len() implies (#[trigger] after[i]).0@
            != (#[trigger] after[j]).0@ by {
            if j == before.len() {
                assert(before[i] == after[i]);
            } else {
                assert(before[i] == after[i] && before[j] == after[j]);
            }
        }
    }
}

/// Some accumulator in `ledger` is named `name`.
pub open spec fn has_name<W>(ledger: Seq<(String, W)>, name: Seq<char>) -> bool {
    exists|j: int| 0 <= j < ledger.len() && (#[trigger] ledger[j]).0@ == name
}

/// The accumulators after the records (name, active, energy) have been
/// taken in order: an inactive record changes nothing, an active one whose
/// name is already there changes no name (its energy goes into that
/// accumulator), and an active one with a new name appends (name, energy).
pub open spec fn ledger_after<W>(ledger: Seq<(String, W)>, records: Seq<(String, bool, W)>) -> Seq<
    (String, W),
>
    decreases records.len(),
{
    if records.len() == 0 {
        ledger
    } else {
        let before = ledger_after(ledger, records.drop_last());
        let r = records.last();
        if !r.1 || has_name(before, r.0@) {
            before
        } else {
            before.push((r.0, r.2))
        }
    }
}

/// What record `k` of an update does to the accumulators: `Some(i)` when
/// it is active and `i` is the first accumulator carrying its name at
/// that point, `None` when it is inactive or opens a new accumulator.
pub open spec fn slot_fits<W>(
    ledger: Seq<(String, W)>,
    records: Seq<(String, bool, W)>,
    k: int,
    slot: Option<usize>,
) -> bool {
    let before = ledger_after(ledger, records.take(k));
    let r = records[k];
    match slot {
        Some(i) => {
            &&& r.1
            &&& i < before.len()
            &&& before[i as int].0@ == r.0@
            &&& forall|j: int| 0 <= j < i ==> (#[trigger] before[j]).0@ != r.0@
        },
        None => !r.1 || !has_name(before, r.0@),
    }
}

/// The position of the accumulator that active record `k` feeds: the slot
/// it was given, or, where it opened one, the end of the accumulators
/// when its turn came.
pub open spec fn fed_accumulator<W>(
    ledger: Seq<(String, W)>,
    records: Seq<(String, bool, W)>,
    k: int,
    slot: Option<usize>,
) -> int {
    match slot {
        Some(i) => i as int,
        None => ledger_after(ledger, records.take(k)).len() as int,
    }
}

/// Per-module bookkeeping of one energy-balance update. Takes the records
/// (name, active, energy) in order, appends an accumulator (name, energy)
/// for each active record whose name has none yet, and returns, for each
/// record, the position of the accumulator its energy is to be added to
/// (`None` for an inactive record and for one that opened an accumulator).
pub fn update_module_ledger<W: Copy>(
    per_module: &mut Vec<(String, W)>,
    records: &Vec<(String, bool, W)>,
) -> (slots: Vec<Option<usize>>)
    ensures
        final(per_module)@ == ledger_after(old(per_module)@, records@),
        slots@.len() == records@.len(),
        forall|k: int|
            0 <= k < records@.len() ==> slot_fits(old(per_module)@, records@, k, #[trigger] slots@[k]),
        forall|k: int|
            0 <= k < records@.len() && records@[k].1 ==> {
                let at = fed_accumulator(old(per_module)@, records@, k, #[trigger] slots@[k]);
                &&& 0 <= at < final(per_module)@.len()
                &&& final(per_module)@[at].0@ == records@[k].0@
                &&& slots@[k] is None ==> final(per_module)@[at] == (records@[k].0, records@[k].2)
            },
{
    let ghost start = per_module@;
    let mut slots: Vec<Option<usize>> = Vec::new();
    let n = records.len();
    for k in 0..n
        invariant
            n == records@.len(),
            start == old(per_module)@,
            per_module@ == ledger_after(start, records@.take(k as int)),
            slots@.len() == k,
            forall|q: int| 0 <= q < k ==> slot_fits(start, records@, q, #[trigger] slots@[q]),
    {
        proof {
            assert(records@.take(k + 1).drop_last() =~= records@.take(k as int));
            assert(records@.take(k + 1).last() == records@[k as int]);
        }
        let r = &records[k];
        if r.1 {
            let ghost mid = per_module@;
            let slot = module_slot(per_module, &r.0, r.2);
            proof {
                match slot {
                    Some(i) => {
                        assert(has_name(mid, r.0@)) by {
                            assert(mid[i as int].0@ == r.0@);
                        }
                    },
                    None => {},
                }
            }
            slots.push(slot);
        } else {
            slots.push(None);
        }
    }
    proof {
        assert(records@.take(n as int) =~= records@);
        assert forall|k: int| 0 <= k < records@.len() && records@[k].1 implies {
            let at = fed_accumulator(start, records@, k, #[trigger] slots@[k]);
            &&& 0 <= at < per_module@.len()
            &&& per_module@[at].0@ == records@[k].0@
            &&& slots@[k] is None ==> per_module@[at] == (records@[k].0, records@[k].2)
        } by {
            lemma_record_feeds_accumulator_of_its_name(start, records@, slots@, k);
        }
    }
    slots
}

/// Record `k` opens a new accumulator: it is active and no accumulator
/// carries its name when its turn comes.
pub open spec fn opens<W>(ledger: Seq<(String, W)>, records: Seq<(String, bool, W)>, k: int) -> bool {
    records[k].1 && !has_name(ledger_after(ledger, records.take(k)), records[k].0@)
}

/// Some active record among the first `k` is named `name`.
pub open spec fn active_named_before<W>(records: Seq<(String, bool, W)>, k: int, name: Seq<char>) -> bool {
    exists|q: int| 0 <= q < k && (#[trigger] records[q]).1 && records[q].0@ == name
}

/// An update only appends: what the accumulators were after the first `k`
/// records stands unchanged at the front of what they are after all of
/// them; in particular (with `k` = 0) the accumulators before the update
/// keep their places, names and values.
pub proof fn lemma_ledger_grows_by_appending<W>(
    ledger: Seq<(String, W)>,
    records: Seq<(String, bool, W)>,
    k: int,
)
    requires
        0 <= k <= records.len(),
    ensures
        ledger_after(ledger, records.take(k)).len() <= ledger_after(ledger, records).len(),
        forall|i: int|
            0 <= i < ledger_after(ledger, records.take(k)).len() ==> #[trigger] ledger_after(
                ledger,
                records,
            )[i] == ledger_after(ledger, records.take(k))[i],
        ledger_after(ledger, records.take(0)) == ledger,
    decreases records.len(),
{
    assert(records.take(0) =~= Seq::<(String, bool, W)>::empty());
    if k == records.len() {
        assert(records.take(k) =~= records);
    } else {
        let shorter = records.drop_last();
        assert(shorter.take(k) =~= records.take(k));
        lemma_ledger_grows_by_appending(ledger, shorter, k);
    }
}

/// After an update, a name is carried by some accumulator exactly when it
/// was before or some active record carries it.
pub proof fn lemma_ledger_names<W>(ledger: Seq<(String, W)>, records: Seq<(String, bool, W)>, name: Seq<char>)
    ensures
        has_name(ledger_after(ledger, records), name) <==> (has_name(ledger, name)
            || active_named_before(records, records.len() as int, name)),
    decreases records.len(),
{
    if records.len() > 0 {
        let shorter = records.drop_last();
        let r = records.last();
        let last = records.len() - 1;
        let before = ledger_after(ledger, shorter);
        lemma_ledger_names(ledger, shorter, name);
        if active_named_before(shorter, shorter.len() as int, name) {
            let q = choose|q: int|
                0 <= q < shorter.len() && (#[trigger] shorter[q]).1 && shorter[q].0@ == name;
            assert(records[q] == shorter[q]);
        }
        if active_named_before(records, records.len() as int, name) {
            let q = choose|q: int|
                0 <= q < records.len() && (#[trigger] records[q]).1 && records[q].0@ == name;
            if q < last {
                assert(records[q] == shorter[q]);
            }
        }
        if r.1 && !has_name(before, r.0@) {
            let after = before.push((r.0, r.2));
            if has_name(before, name) {
                let j = choose|j: int| 0 <= j < before.len() && (#[trigger] before[j]).0@ == name;
                assert(after[j] == before[j]);
            }
            if has_name(after, name) {
                let j = choose|j: int| 0 <= j < after.len() && (#[trigger] after[j]).0@ == name;
                if j < before.len() {
                    assert(after[j] == before[j]);
                } else {
                    assert(records[last].1 && records[last].0@ == name);
                }
            }
            if r.0@ == name {
                assert(after[before.len() as int].0@ == name);
            }
        } else if r.1 && r.0@ == name {
            assert(records[last].1 && records[last].0@ == name);
        }
    }
}

/// An update keeps the accumulator names distinct.
pub proof fn lemma_ledger_keeps_names_distinct<W>(
    ledger: Seq<(String, W)>,
    records: Seq<(String, bool, W)>,
)
    requires
        names_distinct(ledger),
    ensures
        names_distinct(ledger_after(ledger, records)),
    decreases records.len(),
{
    if records.len() > 0 {
        let shorter = records.drop_last();
        let r = records.last();
        let before = ledger_after(ledger, shorter);
        lemma_ledger_keeps_names_distinct(ledger, shorter);
        if r.1 && !has_name(before, r.0@) {
            assert forall|j: int| 0 <= j < before.len() implies (#[trigger] before[j]).0@ != r.0@ by {
                if before[j].0@ == r.0@ {
                    assert(has_name(before, r.0@));
                }
            }
            lemma_module_slot_keeps_names_distinct(before, before.push((r.0, r.2)), r.0, r.2);
        }
    }
}

/// A record opens an accumulator exactly when it is the first active record
/// with its name and no accumulator carried that name before the update;
/// the accumulator it opens ends up holding its name and energy; and of two
/// opening records the earlier one's accumulator comes first.
pub proof fn lemma_ledger_appends_first_occurrences<W>(
    ledger: Seq<(String, W)>,
    records: Seq<(String, bool, W)>,
)
    ensures
        forall|k: int|
            0 <= k < records.len() ==> (#[trigger] opens(ledger, records, k) <==> (records[k].1
                && !has_name(ledger, records[k].0@) && !active_named_before(
                records,
                k,
                records[k].0@,
            ))),
        forall|k: int|
            0 <= k < records.len() && #[trigger] opens(ledger, records, k) ==> {
                let at = ledger_after(ledger, records.take(k)).len() as int;
                &&& at < ledger_after(ledger, records).len()
                &&& ledger_after(ledger, records)[at] == (records[k].0, records[k].2)
            },
        forall|k1: int, k2: int|
            0 <= k1 < k2 < records.len() && #[trigger] opens(ledger, records, k1) && #[trigger] opens(
                ledger,
                records,
                k2,
            ) ==> ledger_after(ledger, records.take(k1)).len() < ledger_after(
                ledger,
                records.take(k2),
            ).len(),
{
    assert forall|k: int| 0 <= k < records.len() implies (#[trigger] opens(ledger, records, k) <==> (
    records[k].1 && !has_name(ledger, records[k].0@) && !active_named_before(
        records,
        k,
        records[k].0@,
    ))) by {
        lemma_ledger_names(ledger, records.take(k), records[k].0@);
        let name = records[k].0@;
        if active_named_before(records.take(k), k, name) {
            let q = choose|q: int|
                0 <= q < k && (#[trigger] records.take(k)[q]).1 && records.take(k)[q].0@ == name;
            assert(records[q] == records.take(k)[q]);
        }
        if active_named_before(records, k, name) {
            let q = choose|q: int| 0 <= q < k && (#[trigger] records[q]).1 && records[q].0@ == name;
            assert(records[q] == records.take(k)[q]);
        }
    }
    assert forall|k: int| 0 <= k < records.len() && #[trigger] opens(ledger, records, k) implies {
        let at = ledger_after(ledger, records.take(k)).len() as int;
        &&& at < ledger_after(ledger, records).len()
        &&& ledger_after(ledger, records)[at] == (records[k].0, records[k].2)
    } by {
        assert(records.take(k + 1).drop_last() =~= records.take(k));
        assert(records.take(k + 1).last() == records[k]);
        lemma_ledger_grows_by_appending(ledger, records, k + 1);
    }
    assert forall|k1: int, k2: int|
        0 <= k1 < k2 < records.len() && #[trigger] opens(ledger, records, k1) && #[trigger] opens(
            ledger,
            records,
            k2,
        ) implies ledger_after(ledger, records.take(k1)).len() < ledger_after(
        ledger,
        records.take(k2),
    ).len() by {
        assert(records.take(k1 + 1).drop_last() =~= records.take(k1));
        assert(records.take(k1 + 1).last() == records[k1]);
        assert(records.take(k2).take(k1 + 1) =~= records.take(k1 + 1));
        lemma_ledger_grows_by_appending(ledger, records.take(k2), k1 + 1);
    }
}

/// Each accumulator an update appends, at position `p`, is the one opened
/// by some record `k`: it holds that record's name and energy, and stands
/// where the accumulators ended when that record's turn came.
pub proof fn lemma_appended_accumulator_origin<W>(
    ledger: Seq<(String, W)>,
    records: Seq<(String, bool, W)>,
    p: int,
)
    requires
        ledger.len() <= p < ledger_after(ledger, records).len(),
    ensures
        exists|k: int|
            0 <= k < records.len() && #[trigger] opens(ledger, records, k) && p == ledger_after(
                ledger,
                records.take(k),
            ).len() && ledger_after(ledger, records)[p] == (records[k].0, records[k].2),
    decreases records.len(),
{
    let shorter = records.drop_last();
    let last = records.len() - 1;
    let before = ledger_after(ledger, shorter);
    let r = records.last();
    assert(records.take(last) =~= shorter);
    if p < before.len() {
        assert(ledger_after(ledger, records)[p] == before[p]);
        lemma_appended_accumulator_origin(ledger, shorter, p);
        let k = choose|k: int|
            0 <= k < shorter.len() && #[trigger] opens(ledger, shorter, k) && p == ledger_after(
                ledger,
                shorter.take(k),
            ).len() && before[p] == (shorter[k].0, shorter[k].2);
        assert(shorter.take(k) =~= records.take(k));
        assert(shorter[k] == records[k]);
        assert(opens(ledger, records, k));
    } else {
        assert(r.1 && !has_name(before, r.0@));
        assert(ledger_after(ledger, records) == before.push((r.0, r.2)));
        assert(opens(ledger, records, last));
    }
}

/// Where the slots are those an update hands out, active record `k` feeds
/// an accumulator that carries its name (one it opened itself holds its
/// name and energy); and where the names were distinct before the update,
/// that accumulator is the only one with the name, so each accumulator
/// collects exactly the energies of the active records named like it.
pub proof fn lemma_record_feeds_accumulator_of_its_name<W>(
    ledger: Seq<(String, W)>,
    records: Seq<(String, bool, W)>,
    slots: Seq<Option<usize>>,
    k: int,
)
    requires
        slots.len() == records.len(),
        forall|q: int| 0 <= q < records.len() ==> slot_fits(ledger, records, q, #[trigger] slots[q]),
        0 <= k < records.len(),
        records[k].1,
    ensures
        ({
            let after = ledger_after(ledger, records);
            let at = fed_accumulator(ledger, records, k, slots[k]);
            &&& 0 <= at < after.len()
            &&& after[at].0@ == records[k].0@
            &&& slots[k] is None ==> after[at] == (records[k].0, records[k].2)
            &&& names_distinct(ledger) ==> forall|p: int|
                0 <= p < after.len() ==> ((#[trigger] after[p]).0@ == records[k].0@ <==> p == at)
        }),
{
    let after = ledger_after(ledger, records);
    let at = fed_accumulator(ledger, records, k, slots[k]);
    assert(slot_fits(ledger, records, k, slots[k]));
    lemma_ledger_grows_by_appending(ledger, records, k);
    if slots[k] is None {
        lemma_ledger_appends_first_occurrences(ledger, records);
        assert(opens(ledger, records, k));
    }
    if names_distinct(ledger) {
        lemma_ledger_keeps_names_distinct(ledger, records);
        assert forall|p: int| 0 <= p < after.len() implies ((#[trigger] after[p]).0@ == records[k].0@
            <==> p == at) by {
            if p < at {
                assert(after[p].0@ != after[at].0@);
            } else if p > at {
                assert(after[at].0@ != after[p].0@);
            }
        }
    }
}

/// `v` is the value of the first entry named `name` in `entries`, or
/// `zero` when no entry carries that name.
pub open spec fn is_first_value<W>(entries: Seq<(String, W)>, name: Seq<char>, zero: W, v: W) -> bool {
    if has_name(entries, name) {
        exists|i: int|
            0 <= i < entries.len() && (#[trigger] entries[i]).0@ == name && (forall|q: int|
                0 <= q < i ==> (#[trigger] entries[q]).0@ != name) && v == entries[i].1
    } else {
        v == zero
    }
}

/// Position of the first entry named `name` in `entries`, if any.
pub fn position_named<W>(entries: &Vec<(String, W)>, name: &String) -> (pos: Option<usize>)
    ensures
        match pos {
            Some(i) => {
                &&& i < entries@.len()
                &&& entries@[i as int].0@ == name@
                &&& forall|q: int| 0 <= q < i ==> (#[trigger] entries@[q]).0@ != name@
            },
            None => !has_name(entries@, name@),
        },
{
    let n = entries.len();
    for i in 0..n
        invariant
            n == entries@.len(),
            forall|q: int| 0 <= q < i ==> (#[trigger] entries@[q]).0@ != name@,
    {
        if entries[i].0.eq(name) {
            return Some(i);
        }
    }
    None
}

/// One column of per-module values: for each of `names`, the value of the
/// first entry with that name in `entries`, or `zero` where none has it.
pub fn module_column<W: Copy>(names: &Vec<String>, entries: &Vec<(String, W)>, zero: W) -> (column:
    Vec<W>)
    ensures
        column@.len() == names@.len(),
        forall|j: int|
            0 <= j < names@.len() ==> is_first_value(entries@, names@[j]@, zero, #[trigger] column@[j]),
{
    let mut column: Vec<W> = Vec::new();
    for j in 0..names.len()
        invariant
            column@.len() == j,
            forall|q: int|
                0 <= q < j ==> is_first_value(entries@, names@[q]@, zero, #[trigger] column@[q]),
    {
        let v = match position_named(entries, &names[j]) {
            Some(i) => entries[i].1,
            None => zero,
        };
        column.push(v);
    }
    column
}

} // verus!
