//! Which objects of the editor are shown once a sequence is opened: every
//! object is hidden, then the objects the sequence lists are shown again.

use vstd::prelude::*;

verus! {

/// Whether position `i` holds the first object of `ids` with its id.
pub open spec fn is_first_of_its_id(ids: Seq<Seq<char>>, i: int) -> bool {
    forall|j: int| 0 <= j < i ==> ids[j] != ids[i]
}

/// Whether the object at `i` is hidden once the sequence listing `active`
/// is opened: only the first object carrying an active id is shown.
pub open spec fn stays_hidden(ids: Seq<Seq<char>>, active: Seq<Seq<char>>, i: int) -> bool {
    !(active.contains(ids[i]) && is_first_of_its_id(ids, i))
}

/// Whether every id the sequence lists belongs to some object.
pub open spec fn all_active_present(ids: Seq<Seq<char>>, active: Seq<Seq<char>>) -> bool {
    forall|k: int| 0 <= k < active.len() ==> ids.contains(#[trigger] active[k])
}

/// The texts of a vector of strings.
pub open spec fn texts(v: Seq<String>) -> Seq<Seq<char>> {
    v.map_values(|s: String| s@)
}

/// The hidden flag of each object (by id, in order) once the sequence
/// listing `active` is opened. Each listed id must belong to some object.
pub fn hidden_after_opening(object_ids: &Vec<String>, active: &Vec<String>) -> (hidden: Vec<bool>)
    requires
        all_active_present(texts(object_ids@), texts(active@)),
    ensures
        hidden@.len() == object_ids@.len(),
        forall|i: int|
            0 <= i < hidden@.len() ==> #[trigger] hidden@[i] == stays_hidden(
                texts(object_ids@),
                texts(active@),
                i,
            ),
{
    let ghost ids = texts(object_ids@);
    let ghost act = texts(active@);
    let n = object_ids.len();
    let mut hidden: Vec<bool> = Vec::new();
    let mut i: usize = 0;
    while i < n
        invariant
            n == object_ids@.len(),
            ids == texts(object_ids@),
            i <= n,
            hidden@.len() == i,
            forall|k: int| 0 <= k < i ==> #[trigger] hidden@[k] == true,
        decreases n - i,
    {
        hidden.push(true);
        i = i + 1;
    }
    let mut a: usize = 0;
    while a < active.len()
        invariant
            n == object_ids@.len(),
            ids == texts(object_ids@),
            act == texts(active@),
            a <= active@.len(),
            all_active_present(ids, act),
            hidden@.len() == n,
            forall|k: int|
                0 <= k < n ==> #[trigger] hidden@[k] == !(act.take(a as int).contains(ids[k])
                    && is_first_of_its_id(ids, k)),
        decreases active@.len() - a,
    {
        let target = &active[a];
        assert(ids.contains(act[a as int]));
        let mut k: usize = 0;
        while k < n && object_ids[k] != *target
            invariant
                n == object_ids@.len(),
                ids == texts(object_ids@),
                act == texts(active@),
                a < active@.len(),
                target@ == act[a as int],
                k <= n,
                ids.contains(act[a as int]),
                forall|j: int| 0 <= j < k ==> ids[j] != target@,
            decreases n - k,
        {
            k = k + 1;
        }
        assert(k < n) by {
            if k == n {
                let w = choose|w: int| 0 <= w < ids.len() && #[trigger] ids[w] == act[a as int];
                assert(ids[w] != target@);
            }
        }
        let ghost before = hidden@;
        hidden.set(k, false);
        proof {
            assert(ids[k as int] == act[a as int]);
            assert(is_first_of_its_id(ids, k as int));
            assert(act.take(a as int + 1) =~= act.take(a as int).push(act[a as int]));
            assert forall|m: int| 0 <= m < n implies #[trigger] hidden@[m] == !(act.take(a as int + 1).contains(
                ids[m],
            ) && is_first_of_its_id(ids, m)) by {
                if m == k {
                    assert(act.take(a as int + 1)[a as int] == ids[m]);
                } else {
                    assert(before[m] == hidden@[m]);
                    if act.take(a as int + 1).contains(ids[m]) && is_first_of_its_id(ids, m) {
                        if !act.take(a as int).contains(ids[m]) {
                            let w = choose|w: int| 0 <= w < a + 1 && #[trigger] act.take(a as int + 1)[w] == ids[m];
                            assert(w == a);
                            assert(ids[m] == ids[k as int]);
                            if m < k {
                                assert(ids[m] != target@);
                            } else {
                                assert(ids[k as int] != ids[m]);
                            }
                        }
                    }
                    if act.take(a as int).contains(ids[m]) {
                        let w = choose|w: int| 0 <= w < a && #[trigger] act.take(a as int)[w] == ids[m];
                        assert(act.take(a as int + 1)[w] == ids[m]);
                    }
                }
            }
        }
        a = a + 1;
    }
    assert(act.take(active@.len() as int) =~= act);
    hidden
}

} // verus!
