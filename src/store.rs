use vstd::prelude::*;
use crate::visit::{Statement, Visit, visit_plan};

verus! {

/// The two persistent tables as the statements see them: counters keyed by
/// (country, city), and airport labels keyed by (lat, long). A key holds at most
/// one record.
pub struct Tables {
    pub counter: Map<(Seq<char>, Seq<char>), int>,
    pub coordinates: Map<(Seq<char>, Seq<char>), Seq<char>>,
}

/// The effect of one statement, applied atomically by the store.
pub open spec fn apply(t: Tables, s: Statement) -> Tables {
    match s {
        Statement::SeedCounter { country, city } => {
            let k = (country@, city@);
            if t.counter.contains_key(k) {
                t
            } else {
                Tables { counter: t.counter.insert(k, 0), ..t }
            }
        },
        Statement::IncrementCounter { country, city } => {
            let k = (country@, city@);
            if t.counter.contains_key(k) {
                Tables { counter: t.counter.insert(k, t.counter[k] + 1), ..t }
            } else {
                t
            }
        },
        Statement::SeedCoordinate { lat, long, airport } => {
            let k = (lat@, long@);
            if t.coordinates.contains_key(k) {
                t
            } else {
                Tables { coordinates: t.coordinates.insert(k, airport@), ..t }
            }
        },
        _ => t,
    }
}

/// The effect of statements applied one after another, in the order given.
pub open spec fn apply_all(t: Tables, steps: Seq<Statement>) -> Tables
    decreases steps.len(),
{
    if steps.len() == 0 {
        t
    } else {
        apply(apply_all(t, steps.drop_last()), steps.last())
    }
}

/// `s` seeds the counter of key `k`.
pub open spec fn seeds(s: Statement, k: (Seq<char>, Seq<char>)) -> bool {
    s matches Statement::SeedCounter { country, city } && (country@, city@) == k
}

/// `s` increments the counter of key `k`.
pub open spec fn increments(s: Statement, k: (Seq<char>, Seq<char>)) -> bool {
    s matches Statement::IncrementCounter { country, city } && (country@, city@) == k
}

/// How many of the statements increment the counter of key `k`.
pub open spec fn increment_count(steps: Seq<Statement>, k: (Seq<char>, Seq<char>)) -> nat
    decreases steps.len(),
{
    if steps.len() == 0 {
        0
    } else {
        increment_count(steps.drop_last(), k) + if increments(steps.last(), k) { 1nat } else { 0nat }
    }
}

/// Some statement before position `i` seeds the counter of key `k`.
pub open spec fn seeded_before(steps: Seq<Statement>, i: int, k: (Seq<char>, Seq<char>)) -> bool {
    exists|j: int| 0 <= j < i && seeds(#[trigger] steps[j], k)
}

/// Seeding a counter twice is seeding it once: the key then holds exactly one
/// record, and a value that was there stays as it was (a new one starts at zero).
pub proof fn lemma_seed_counter_idempotent(t: Tables, s: Statement)
    requires
        s is SeedCounter,
    ensures
        apply(apply(t, s), s) == apply(t, s),
        ({
            let k = (s->SeedCounter_country@, s->SeedCounter_city@);
            &&& apply(t, s).counter.dom() == t.counter.dom().insert(k)
            &&& t.counter.contains_key(k) ==> apply(t, s).counter[k] == t.counter[k]
            &&& !t.counter.contains_key(k) ==> apply(t, s).counter[k] == 0
            &&& apply(t, s).coordinates == t.coordinates
        }),
{
    let k = (s->SeedCounter_country@, s->SeedCounter_city@);
    if t.counter.contains_key(k) {
        assert(t.counter.dom().insert(k) =~= t.counter.dom());
    }
    assert(apply(t, s).counter.dom() =~= t.counter.dom().insert(k));
}

proof fn lemma_counter_tracks_increments(t: Tables, steps: Seq<Statement>, k: (Seq<char>, Seq<char>))
    requires
        !t.counter.contains_key(k),
        forall|i: int| 0 <= i < steps.len() && increments(#[trigger] steps[i], k) ==> seeded_before(steps, i, k),
    ensures
        apply_all(t, steps).counter.contains_key(k) <==> seeded_before(steps, steps.len() as int, k),
        apply_all(t, steps).counter.contains_key(k) ==> apply_all(t, steps).counter[k] == increment_count(steps, k),
        !apply_all(t, steps).counter.contains_key(k) ==> increment_count(steps, k) == 0,
    decreases steps.len(),
{
    if steps.len() > 0 {
        let prefix = steps.drop_last();
        let n = steps.len() - 1;
        assert forall|i: int| 0 <= i < prefix.len() && increments(#[trigger] prefix[i], k) implies seeded_before(prefix, i, k) by {
            assert(increments(steps[i], k));
            let j = choose|j: int| 0 <= j < i && seeds(#[trigger] steps[j], k);
            assert(seeds(prefix[j], k));
        }
        lemma_counter_tracks_increments(t, prefix, k);
        if seeded_before(prefix, n, k) {
            let j = choose|j: int| 0 <= j < n && seeds(#[trigger] prefix[j], k);
            assert(seeds(steps[j], k));
        }
        if seeded_before(steps, steps.len() as int, k) && !seeded_before(prefix, n, k) {
            let j = choose|j: int| 0 <= j < steps.len() && seeds(#[trigger] steps[j], k);
            if j < n {
                assert(seeds(prefix[j], k));
            }
        }
        if increments(steps[n], k) {
            assert(seeded_before(steps, n, k));
            let j = choose|j: int| 0 <= j < n && seeds(#[trigger] steps[j], k);
            assert(seeds(prefix[j], k));
        }
        if seeds(steps[n], k) {
            assert(seeded_before(steps, steps.len() as int, k));
        }
    }
}

/// No increment is lost: when each statement that increments the counter of a
/// fresh key comes after one that seeds it, as in every interleaving of complete
/// visit recordings (each seeds before it increments), the key ends with exactly
/// one record whose value is the number of increments.
pub proof fn lemma_no_lost_increments(t: Tables, steps: Seq<Statement>, k: (Seq<char>, Seq<char>))
    requires
        !t.counter.contains_key(k),
        increment_count(steps, k) > 0,
        forall|i: int| 0 <= i < steps.len() && increments(#[trigger] steps[i], k) ==> seeded_before(steps, i, k),
    ensures
        apply_all(t, steps).counter.contains_key(k),
        apply_all(t, steps).counter[k] == increment_count(steps, k),
{
    lemma_counter_tracks_increments(t, steps, k);
}

/// Two visits from the same coordinate leave one coordinate record, whatever their
/// labels: the label already there, else the first one's.
pub proof fn lemma_coordinate_dedup(t: Tables, first: Statement, second: Statement)
    requires
        first is SeedCoordinate,
        second is SeedCoordinate,
        first->SeedCoordinate_lat@ == second->SeedCoordinate_lat@,
        first->SeedCoordinate_long@ == second->SeedCoordinate_long@,
    ensures
        ({
            let k = (first->SeedCoordinate_lat@, first->SeedCoordinate_long@);
            let after = apply(apply(t, first), second);
            &&& after.coordinates.dom() == t.coordinates.dom().insert(k)
            &&& after.coordinates[k] == if t.coordinates.contains_key(k) {
                t.coordinates[k]
            } else {
                first->SeedCoordinate_airport@
            }
            &&& after.counter == t.counter
        }),
{
    let k = (first->SeedCoordinate_lat@, first->SeedCoordinate_long@);
    if t.coordinates.contains_key(k) {
        assert(t.coordinates.dom().insert(k) =~= t.coordinates.dom());
    }
    assert(apply(apply(t, first), second).coordinates.dom() =~= t.coordinates.dom().insert(k));
}

/// The tables after recording the visits one after another, in order.
pub open spec fn record_all(t: Tables, visits: Seq<Visit>) -> Tables
    decreases visits.len(),
{
    if visits.len() == 0 {
        t
    } else {
        apply_all(record_all(t, visits.drop_last()), visit_plan(visits.last()))
    }
}

/// How many of the visits come from the (country, city) key `k`.
pub open spec fn visit_count(visits: Seq<Visit>, k: (Seq<char>, Seq<char>)) -> nat
    decreases visits.len(),
{
    if visits.len() == 0 {
        0
    } else {
        visit_count(visits.drop_last(), k) + if (visits.last().country@, visits.last().city@) == k {
            1nat
        } else {
            0nat
        }
    }
}

/// The (lat, long) keys of the visits.
pub open spec fn visit_coordinates(visits: Seq<Visit>) -> Set<(Seq<char>, Seq<char>)> {
    Set::new(|c: (Seq<char>, Seq<char>)| exists|i: int| 0 <= i < visits.len() && (#[trigger] visits[i].lat@, visits[i].long@) == c)
}

/// Visits recorded one after another into empty tables leave one counter record
/// per (country, city) key that occurs, holding the number of visits from it, and
/// one coordinate record per distinct (lat, long).
pub proof fn lemma_sequential_recordings(t: Tables, visits: Seq<Visit>)
    requires
        t.counter.dom().is_empty(),
        t.coordinates.dom().is_empty(),
    ensures
        forall|k: (Seq<char>, Seq<char>)| #[trigger] record_all(t, visits).counter.contains_key(k) <==> visit_count(visits, k) > 0,
        forall|k: (Seq<char>, Seq<char>)| record_all(t, visits).counter.contains_key(k)
            ==> #[trigger] record_all(t, visits).counter[k] == visit_count(visits, k),
        record_all(t, visits).coordinates.dom() == visit_coordinates(visits),
    decreases visits.len(),
{
    if visits.len() == 0 {
        assert(record_all(t, visits).coordinates.dom() =~= visit_coordinates(visits));
        assert forall|k: (Seq<char>, Seq<char>)| #[trigger] record_all(t, visits).counter.contains_key(k) <==> visit_count(visits, k) > 0 by {
            assert(!t.counter.dom().contains(k));
        }
    } else {
        let prev = visits.drop_last();
        let v = visits.last();
        lemma_sequential_recordings(t, prev);
        let before = record_all(t, prev);
        let plan = visit_plan(v);
        let p1 = seq![plan[0]];
        let p2 = seq![plan[0], plan[1]];
        let p3 = seq![plan[0], plan[1], plan[2]];
        assert(p1.drop_last() =~= Seq::<Statement>::empty());
        assert(p2.drop_last() =~= p1);
        assert(p3.drop_last() =~= p2);
        assert(plan.drop_last() =~= p3);
        assert(apply_all(before, Seq::<Statement>::empty()) == before);
        assert(apply_all(before, p1) == before);
        let after_seed = apply(before, plan[1]);
        assert(apply_all(before, p2) == after_seed);
        assert(apply_all(before, p3) == apply(after_seed, plan[2]));
        assert(apply_all(before, plan) == apply(apply(after_seed, plan[2]), plan[3]));
        let after = record_all(t, visits);
        let kv = (v.country@, v.city@);
        assert forall|k: (Seq<char>, Seq<char>)| #[trigger] after.counter.contains_key(k) <==> visit_count(visits, k) > 0 by {
            assert(visit_count(visits, k) == visit_count(prev, k) + if kv == k { 1nat } else { 0nat });
        }
        assert forall|k: (Seq<char>, Seq<char>)| after.counter.contains_key(k)
            implies #[trigger] after.counter[k] == visit_count(visits, k) by {
            assert(visit_count(visits, k) == visit_count(prev, k) + if kv == k { 1nat } else { 0nat });
        }
        assert forall|c: (Seq<char>, Seq<char>)| after.coordinates.dom().contains(c) <==> visit_coordinates(visits).contains(c) by {
            if visit_coordinates(prev).contains(c) {
                let i = choose|i: int| 0 <= i < prev.len() && (#[trigger] prev[i].lat@, prev[i].long@) == c;
                assert(visits[i] == prev[i]);
            }
            if visit_coordinates(visits).contains(c) && c != (v.lat@, v.long@) {
                let i = choose|i: int| 0 <= i < visits.len() && (#[trigger] visits[i].lat@, visits[i].long@) == c;
                assert(i < prev.len());
                assert(prev[i] == visits[i]);
            }
            if c == (v.lat@, v.long@) {
                assert(visits[visits.len() - 1] == v);
            }
        }
        assert(after.coordinates.dom() =~= visit_coordinates(visits));
    }
}

} // verus!
