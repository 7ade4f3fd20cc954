//! The categories page: which applications no category holds yet.

use vstd::prelude::*;

verus! {

/// Whether some name in `v` is `a`.
pub open spec fn has_name(v: Seq<String>, a: Seq<char>) -> bool {
    exists|i: int| 0 <= i < v.len() && #[trigger] v[i]@ == a
}

/// The names among the first `n` of `all` that `classified` does not hold, in
/// their order.
pub open spec fn unclassified(all: Seq<String>, classified: Seq<String>, n: int) -> Seq<Seq<char>>
    decreases n,
{
    if n <= 0 {
        Seq::empty()
    } else {
        let r = unclassified(all, classified, n - 1);
        if has_name(classified, all[n - 1]@) {
            r
        } else {
            r.push(all[n - 1]@)
        }
    }
}

/// The names as character sequences.
pub open spec fn names_view(v: Seq<String>) -> Seq<Seq<char>> {
    v.map_values(|s: String| s@)
}

/// Whether `a` is among `v`.
fn contains_name(v: &Vec<String>, a: &String) -> (b: bool)
    ensures
        b == has_name(v@, a@),
{
    let mut j: usize = 0;
    while j < v.len()
        invariant
            j <= v@.len(),
            forall|k: int| 0 <= k < j ==> v@[k]@ != a@,
        decreases v@.len() - j,
    {
        if v[j] == *a {
            assert(v@[j as int]@ == a@);
            return true;
        }
        j = j + 1;
    }
    false
}

/// The applications of `all` that no category holds (none of `classified`),
/// in the order of `all`.
pub fn unclassified_apps(all: &Vec<String>, classified: &Vec<String>) -> (r: Vec<String>)
    ensures
        names_view(r@) == unclassified(all@, classified@, all@.len() as int),
        forall|a: Seq<char>|
            #[trigger] names_view(r@).contains(a) <==> (has_name(all@, a) && !has_name(classified@, a)),
{
    let mut r: Vec<String> = Vec::new();
    let mut i: usize = 0;
    while i < all.len()
        invariant
            i <= all@.len(),
            names_view(r@) == unclassified(all@, classified@, i as int),
        decreases all@.len() - i,
    {
        let ghost before = names_view(r@);
        if !contains_name(classified, &all[i]) {
            r.push(all[i].clone());
            assert(names_view(r@) =~= before.push(all@[i as int]@));
        }
        i = i + 1;
    }
    proof {
        lemma_unclassified_members(all@, classified@, all@.len() as int);
    }
    r
}

/// A name is among the unclassified ones of the first `n` exactly when it is
/// among the first `n` and not classified.
proof fn lemma_unclassified_members(all: Seq<String>, classified: Seq<String>, n: int)
    requires
        0 <= n <= all.len(),
    ensures
        forall|a: Seq<char>|
            #[trigger] unclassified(all, classified, n).contains(a) <==> ((exists|i: int|
                0 <= i < n && #[trigger] all[i]@ == a) && !has_name(classified, a)),
    decreases n,
{
    if n > 0 {
        lemma_unclassified_members(all, classified, n - 1);
        let r = unclassified(all, classified, n - 1);
        assert forall|a: Seq<char>|
            #[trigger] unclassified(all, classified, n).contains(a) <==> ((exists|i: int|
                0 <= i < n && #[trigger] all[i]@ == a) && !has_name(classified, a)) by {
            if unclassified(all, classified, n).contains(a) {
                if !r.contains(a) {
                    let k = choose|k: int|
                        0 <= k < unclassified(all, classified, n).len() && unclassified(all, classified, n)[k]
                            == a;
                    assert(k == r.len());
                    assert(all[n - 1]@ == a);
                }
            }
            if (exists|i: int| 0 <= i < n && #[trigger] all[i]@ == a) && !has_name(classified, a) {
                let i = choose|i: int| 0 <= i < n && #[trigger] all[i]@ == a;
                if i == n - 1 {
                    assert(unclassified(all, classified, n)[r.len() as int] == a);
                } else {
                    assert(r.contains(a));
                    let k = choose|k: int| 0 <= k < r.len() && r[k] == a;
                    assert(unclassified(all, classified, n)[k] == a);
                }
            }
        }
    }
}

} // verus!
