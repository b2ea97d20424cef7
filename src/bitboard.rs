//! 64-bit occupancy sets, one bit per square (bit `i` is square `i`).
use vstd::prelude::*;

verus! {

/// Whether square `i` is in the set `b`.
pub open spec fn member(b: u64, i: int) -> bool {
    0 <= i < 64 && (b >> (i as u64)) & 1u64 == 1u64
}

/// The set holding exactly the square `i`.
pub open spec fn single(i: int) -> u64 {
    1u64 << (i as u64)
}

/// A strictly ascending sequence of square indices.
pub open spec fn strictly_ascending(s: Seq<u32>) -> bool {
    forall|j: int, k: int| 0 <= j < k < s.len() ==> s[j] < s[k]
}

/// `s` lists exactly the members of `b`, in ascending order.
pub open spec fn lists_members(s: Seq<u32>, b: u64) -> bool {
    &&& strictly_ascending(s)
    &&& forall|k: int| 0 <= k < s.len() ==> member(b, s[k] as int)
    &&& forall|i: int| member(b, i) ==> s.contains(i as u32)
}

/// A square is in the symmetric difference exactly when it is in one set and
/// not in the other.
pub proof fn lemma_member_toggled(a: u64, b: u64, i: int)
    requires
        0 <= i < 64,
    ensures
        member(a ^ b, i) == (member(a, i) != member(b, i)),
{
    let s = i as u64;
    assert(((a ^ b) >> s) & 1u64 == 1u64 <==> (((a >> s) & 1u64 == 1u64) != ((b >> s) & 1u64
        == 1u64))) by (bit_vector)
        requires
            s < 64,
    ;
}

/// The squares whose occupancy differs between `prev` and `current`, in
/// ascending order of their index.
pub fn get_changed_square_number(prev: u64, current: u64) -> (r: Vec<u32>)
    ensures
        lists_members(r@, prev ^ current),
        forall|i: int| 0 <= i < 64 ==> (r@.contains(i as u32) <==> member(prev, i) != member(current, i)),
        prev == current ==> r@.len() == 0,
{
    let d: u64 = prev ^ current;
    let mut out: Vec<u32> = Vec::new();
    let mut i: u32 = 0;
    while i < 64
        invariant
            i <= 64,
            strictly_ascending(out@),
            forall|k: int| 0 <= k < out@.len() ==> out@[k] < i && member(d, out@[k] as int),
            forall|j: int| 0 <= j < i && member(d, j) ==> out@.contains(j as u32),
        decreases 64 - i,
    {
        if (d >> i) & 1u64 == 1u64 {
            let ghost before = out@;
            out.push(i);
            proof {
                assert(member(d, i as int));
                assert forall|j: int| 0 <= j < i + 1 && member(d, j) implies out@.contains(
                    j as u32,
                ) by {
                    if j == i {
                        assert(out@[out@.len() - 1] == j as u32);
                    } else {
                        assert(before.contains(j as u32));
                        let w = choose|w: int| 0 <= w < before.len() && before[w] == j as u32;
                        assert(out@[w] == j as u32);
                    }
                }
            }
        }
        i = i + 1;
    }
    proof {
        if prev == current && out@.len() > 0 {
            lemma_member_toggled(prev, current, out@[0] as int);
        }
        assert forall|j: int| 0 <= j < 64 implies (out@.contains(j as u32) <==> member(prev, j)
            != member(current, j)) by {
            lemma_member_toggled(prev, current, j);
            if out@.contains(j as u32) {
                let w = choose|w: int| 0 <= w < out@.len() && out@[w] == j as u32;
                assert(member(d, out@[w] as int));
            }
        }
    }
    out
}

} // verus!
