//! Picking the reference image closest to a frame by perceptual-hash
//! distance, with a cut-off beyond which nothing is taken to match.
use vstd::prelude::*;
use vstd::string::*;

verus! {

/// Distances at or above this mean no reference image matches.
pub const THRESHOLD: u32 = 22;

/// The best of the candidates seen in order: an entry replaces the best so
/// far only when strictly closer, starting from no name at `u32::MAX`.
pub open spec fn best(entries: Seq<(Seq<char>, u32)>) -> (Seq<char>, u32)
    decreases entries.len(),
{
    if entries.len() == 0 {
        (seq![], u32::MAX)
    } else {
        let b = best(entries.drop_last());
        if entries.last().1 < b.1 {
            entries.last()
        } else {
            b
        }
    }
}

/// The name of the closest reference, unless even that one is too far.
pub open spec fn closest(entries: Seq<(Seq<char>, u32)>) -> Option<Seq<char>> {
    let b = best(entries);
    if b.1 >= THRESHOLD {
        None
    } else {
        Some(b.0)
    }
}

pub open spec fn views(entries: Seq<(String, u32)>) -> Seq<(Seq<char>, u32)> {
    entries.map_values(|e: (String, u32)| (e.0@, e.1))
}

/// The name of the reference image closest to the frame, given each
/// reference's name and its distance to the frame in the order the
/// references are walked; `None` when the closest is `THRESHOLD` or further.
pub fn get_closest(distances: &Vec<(String, u32)>) -> (r: Option<String>)
    ensures
        match r {
            Some(name) => closest(views(distances@)) == Some(name@),
            None => closest(views(distances@)) is None,
        },
{
    let ghost all = views(distances@);
    let mut min_name = String::new();
    let mut min_dist: u32 = u32::MAX;
    let n = distances.len();
    let mut i: usize = 0;
    while i < n
        invariant
            n == distances@.len(),
            all == views(distances@),
            i <= n,
            best(all.take(i as int)) == (min_name@, min_dist),
        decreases n - i,
    {
        assert(all.take(i + 1).drop_last() =~= all.take(i as int));
        let (name, dist) = (&distances[i].0, distances[i].1);
        if dist < min_dist {
            min_name = name.clone();
            min_dist = dist;
        }
        i = i + 1;
    }
    assert(all.take(n as int) =~= all);
    if min_dist >= THRESHOLD {
        None
    } else {
        Some(min_name)
    }
}

/// The chosen reference is at the least distance of all, and no earlier
/// reference is equally close; when none is chosen, every reference is at
/// `THRESHOLD` or further.
pub proof fn lemma_closest_is_first_minimum(entries: Seq<(Seq<char>, u32)>)
    ensures
        closest(entries) is None ==> forall|j: int|
            0 <= j < entries.len() ==> entries[j].1 >= THRESHOLD,
        closest(entries) matches Some(name) ==> exists|i: int|
            0 <= i < entries.len() && entries[i].0 == name && entries[i].1 < THRESHOLD && (forall|
                j: int,
            | 0 <= j < entries.len() ==> entries[i].1 <= entries[j].1) && (forall|j: int|
                0 <= j < i ==> entries[i].1 < entries[j].1),
{
    lemma_best(entries);
}

proof fn lemma_best(entries: Seq<(Seq<char>, u32)>)
    ensures
        forall|j: int| 0 <= j < entries.len() ==> best(entries).1 <= entries[j].1,
        best(entries).1 < u32::MAX ==> exists|i: int|
            0 <= i < entries.len() && entries[i] == best(entries) && (forall|j: int|
                0 <= j < i ==> entries[i].1 < entries[j].1),
    decreases entries.len(),
{
    if entries.len() > 0 {
        let rest = entries.drop_last();
        lemma_best(rest);
        let b = best(rest);
        assert forall|j: int| 0 <= j < entries.len() implies best(entries).1 <= entries[j].1 by {
            if j < entries.len() - 1 {
                assert(entries[j] == rest[j]);
            }
        }
        if entries.last().1 < b.1 {
            let i = entries.len() - 1;
            assert forall|j: int| 0 <= j < i implies entries[i].1 < entries[j].1 by {
                assert(entries[j] == rest[j]);
            }
        } else if b.1 < u32::MAX {
            let i = choose|i: int|
                0 <= i < rest.len() && rest[i] == b && (forall|j: int|
                    0 <= j < i ==> rest[i].1 < rest[j].1);
            assert(entries[i] == rest[i]);
            assert forall|j: int| 0 <= j < i implies entries[i].1 < entries[j].1 by {
                assert(entries[j] == rest[j]);
            }
        }
    }
}

} // verus!
