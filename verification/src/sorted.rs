//! Strictly sorted vectors of numbers.
//!
//! Season numbers and watched-episode numbers are kept strictly ascending,
//! so a vector doubles as a finite set: membership, insertion and removal
//! are the set operations, and two such vectors with the same members are
//! equal.

use vstd::prelude::*;

verus! {

/// Strictly ascending: each element is smaller than every later one, so
/// duplicates are impossible.
pub open spec fn spec_sorted_strict(s: Seq<u32>) -> bool {
    forall|a: int, b: int| 0 <= a < b < s.len() ==> s[a] < s[b]
}

/// Whether `value` is a member; a plain scan.
pub(crate) fn contains_sorted(v: &Vec<u32>, value: u32) -> (r: bool)
    ensures
        r == v@.contains(value),
{
    let n = v.len();
    let mut i: usize = 0;
    while i < n
        invariant
            n == v@.len(),
            i <= n,
            forall|j: int| 0 <= j < i ==> v@[j] != value,
        decreases n - i,
    {
        if v[i] == value {
            return true;
        }
        i += 1;
    }
    proof {
        assert(!v@.contains(value)) by {
            if v@.contains(value) {
                let k = choose|k: int| 0 <= k < v@.len() && v@[k] == value;
                assert(v@[k] != value);
            }
        }
    }
    false
}

/// Inserts `value` at its sorted position; a present member is left alone.
pub(crate) fn insert_sorted(v: &mut Vec<u32>, value: u32)
    requires
        spec_sorted_strict(old(v)@),
    ensures
        spec_sorted_strict(final(v)@),
        forall|x: u32| final(v)@.contains(x) <==> (old(v)@.contains(x) || x == value),
        final(v)@.len() == old(v)@.len() + (if old(v)@.contains(value) {
            0int
        } else {
            1int
        }),
{
    let n = v.len();
    let mut idx: usize = 0;
    while idx < n && v[idx] < value
        invariant
            n == v@.len(),
            idx <= n,
            v@ == old(v)@,
            spec_sorted_strict(v@),
            forall|j: int| 0 <= j < idx ==> v@[j] < value,
        decreases n - idx,
    {
        idx += 1;
    }
    if idx < n && v[idx] == value {
        proof {
            assert(old(v)@.contains(value));
        }
        return ;
    }
    let ghost pre = v@;
    proof {
        assert(idx == n || pre[idx as int] > value);
        assert(!pre.contains(value)) by {
            if pre.contains(value) {
                let k = choose|k: int| 0 <= k < pre.len() && pre[k] == value;
                if k < idx {
                    assert(pre[k] < value);
                } else if k > idx {
                    assert(pre[idx as int] < pre[k]);
                }
            }
        }
    }
    v.insert(idx, value);
    proof {
        let post = v@;
        assert forall|a: int, b: int| 0 <= a < b < post.len() implies post[a] < post[b] by {
            if b < idx {
                assert(post[a] == pre[a] && post[b] == pre[b]);
            } else if a < idx && b == idx {
                assert(post[a] == pre[a] && post[b] == value);
            } else if a < idx && b > idx {
                assert(post[a] == pre[a] && post[b] == pre[b - 1]);
                if b - 1 > idx as int {
                    assert(pre[a] < pre[b - 1]);
                } else {
                    assert(pre[b - 1] > value);
                }
            } else if a == idx {
                assert(post[a] == value && post[b] == pre[b - 1]);
                assert(b - 1 >= idx as int);
                if b - 1 > idx as int {
                    assert(pre[idx as int] < pre[b - 1]);
                }
                assert(pre[b - 1] > value);
            } else {
                assert(post[a] == pre[a - 1] && post[b] == pre[b - 1]);
            }
        }
        assert forall|x: u32| post.contains(x) implies (pre.contains(x) || x == value) by {
            let k = choose|k: int| 0 <= k < post.len() && post[k] == x;
            if k < idx {
                assert(pre[k] == x);
            } else if k > idx {
                assert(pre[k - 1] == x);
            }
        }
        assert forall|x: u32| (pre.contains(x) || x == value) implies post.contains(x) by {
            if x == value {
                assert(post[idx as int] == x);
            } else {
                let k = choose|k: int| 0 <= k < pre.len() && pre[k] == x;
                if k < idx {
                    assert(post[k] == x);
                } else {
                    assert(post[k + 1] == x);
                }
            }
        }
    }
}

/// Removes `value` if it is a member; an absent one is a no-op.
pub(crate) fn remove_sorted(v: &mut Vec<u32>, value: u32)
    requires
        spec_sorted_strict(old(v)@),
    ensures
        spec_sorted_strict(final(v)@),
        forall|x: u32| final(v)@.contains(x) <==> (old(v)@.contains(x) && x != value),
        final(v)@.len() == old(v)@.len() - (if old(v)@.contains(value) {
            1int
        } else {
            0int
        }),
{
    let n = v.len();
    let mut idx: usize = 0;
    while idx < n && v[idx] != value
        invariant
            n == v@.len(),
            idx <= n,
            v@ == old(v)@,
            spec_sorted_strict(v@),
            forall|j: int| 0 <= j < idx ==> v@[j] != value,
        decreases n - idx,
    {
        idx += 1;
    }
    if idx == n {
        proof {
            assert(!v@.contains(value)) by {
                if v@.contains(value) {
                    let k = choose|k: int| 0 <= k < v@.len() && v@[k] == value;
                    assert(v@[k] != value);
                }
            }
        }
        return ;
    }
    let ghost pre = v@;
    proof {
        assert(pre[idx as int] == value);
        assert(pre.contains(value));
    }
    v.remove(idx);
    proof {
        let post = v@;
        assert(post =~= pre.remove(idx as int));
        assert forall|a: int, b: int| 0 <= a < b < post.len() implies post[a] < post[b] by {
            if b < idx {
                assert(post[a] == pre[a] && post[b] == pre[b]);
            } else if a < idx {
                assert(post[a] == pre[a] && post[b] == pre[b + 1]);
            } else {
                assert(post[a] == pre[a + 1] && post[b] == pre[b + 1]);
            }
        }
        assert forall|x: u32| post.contains(x) implies (pre.contains(x) && x != value) by {
            let k = choose|k: int| 0 <= k < post.len() && post[k] == x;
            if k < idx {
                assert(pre[k] == x);
                if x == value {
                    assert(pre[k] < pre[idx as int]);
                }
            } else {
                assert(pre[k + 1] == x);
                if x == value {
                    assert(pre[idx as int] < pre[k + 1]);
                }
            }
        }
        assert forall|x: u32| (pre.contains(x) && x != value) implies post.contains(x) by {
            let k = choose|k: int| 0 <= k < pre.len() && pre[k] == x;
            if k < idx {
                assert(post[k] == x);
            } else if k > idx {
                assert(post[k - 1] == x);
            }
        }
    }
}

/// Two strictly sorted vectors with the same members are the same sequence.
pub proof fn lemma_sorted_unique_by_members(s1: Seq<u32>, s2: Seq<u32>)
    requires
        spec_sorted_strict(s1),
        spec_sorted_strict(s2),
        forall|x: u32| s1.contains(x) <==> s2.contains(x),
    ensures
        s1 == s2,
    decreases s1.len(),
{
    if s1.len() == 0 {
        if s2.len() > 0 {
            assert(s2.contains(s2[0]));
            assert(s1.contains(s2[0]));
        }
        assert(s1 =~= s2);
    } else {
        assert(s1.contains(s1[0]));
        assert(s2.contains(s1[0]));
        assert(s2.contains(s2[0]));
        assert(s1.contains(s2[0]));
        let i = choose|i: int| 0 <= i < s2.len() && s2[i] == s1[0];
        let j = choose|j: int| 0 <= j < s1.len() && s1[j] == s2[0];
        assert(s2[0] <= s2[i]);
        assert(s1[0] <= s1[j]);
        assert(s1[0] == s2[0]);
        let t1 = s1.drop_first();
        let t2 = s2.drop_first();
        assert forall|x: u32| t1.contains(x) <==> t2.contains(x) by {
            lemma_tail_members(s1, x);
            lemma_tail_members(s2, x);
        }
        lemma_sorted_unique_by_members(t1, t2);
        assert(s1.len() == s2.len());
        assert forall|k: int| 0 <= k < s1.len() implies s1[k] == s2[k] by {
            if k > 0 {
                assert(s1[k] == t1[k - 1]);
                assert(s2[k] == t2[k - 1]);
            }
        }
        assert(s1 =~= s2);
    }
}

/// In a strictly sorted sequence, the tail holds exactly the members larger
/// than the head.
proof fn lemma_tail_members(s: Seq<u32>, x: u32)
    requires
        spec_sorted_strict(s),
        s.len() > 0,
    ensures
        s.drop_first().contains(x) <==> (s.contains(x) && x != s[0]),
{
    let t = s.drop_first();
    if t.contains(x) {
        let k = choose|k: int| 0 <= k < t.len() && t[k] == x;
        assert(s[k + 1] == x);
        assert(s.contains(x));
        assert(s[0] < s[k + 1]);
    }
    if s.contains(x) && x != s[0] {
        let k = choose|k: int| 0 <= k < s.len() && s[k] == x;
        assert(k != 0);
        assert(t[k - 1] == x);
    }
}

} // verus!
