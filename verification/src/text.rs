use vstd::prelude::*;
use vstd::string::StrSliceExecFns;

verus! {

/// Lexicographic order on character sequences, by code point.
pub open spec fn lex_le(a: Seq<char>, b: Seq<char>) -> bool
    decreases a.len(),
{
    if a.len() == 0 {
        true
    } else if b.len() == 0 {
        false
    } else if a[0] != b[0] {
        a[0] < b[0]
    } else {
        lex_le(a.skip(1), b.skip(1))
    }
}

/// The order is total: of two sequences, one is below the other.
pub proof fn lemma_lex_le_total(a: Seq<char>, b: Seq<char>)
    ensures
        lex_le(a, b) || lex_le(b, a),
    decreases a.len(),
{
    if a.len() == 0 || b.len() == 0 {
    } else if a[0] == b[0] {
        lemma_lex_le_total(a.skip(1), b.skip(1));
    }
}

/// The order is transitive.
pub proof fn lemma_lex_le_trans(a: Seq<char>, b: Seq<char>, c: Seq<char>)
    requires
        lex_le(a, b),
        lex_le(b, c),
    ensures
        lex_le(a, c),
    decreases a.len(),
{
    if a.len() == 0 || b.len() == 0 || c.len() == 0 {
    } else if a[0] == b[0] && b[0] == c[0] {
        lemma_lex_le_trans(a.skip(1), b.skip(1), c.skip(1));
    }
}

/// Compares two strings for equality of their character sequences.
pub fn str_eq(a: &str, b: &str) -> (r: bool)
    ensures
        r == (a@ == b@),
{
    let an = a.unicode_len();
    let bn = b.unicode_len();
    if an != bn {
        return false;
    }
    let mut i: usize = 0;
    while i < an
        invariant
            i <= an,
            an == a@.len(),
            an == b@.len(),
            forall|j: int| 0 <= j < i ==> a@[j] == b@[j],
        decreases an - i,
    {
        if a.get_char(i) != b.get_char(i) {
            return false;
        }
        i += 1;
    }
    proof {
        assert(a@ =~= b@);
    }
    true
}

/// Decides the lexicographic order on two strings.
pub fn str_le(a: &str, b: &str) -> (r: bool)
    ensures
        r == lex_le(a@, b@),
{
    let an = a.unicode_len();
    let bn = b.unicode_len();
    let mut i: usize = 0;
    proof {
        assert(a@.skip(0) =~= a@);
        assert(b@.skip(0) =~= b@);
    }
    loop
        invariant
            i <= an,
            i <= bn,
            an == a@.len(),
            bn == b@.len(),
            lex_le(a@, b@) == lex_le(a@.skip(i as int), b@.skip(i as int)),
        decreases an - i,
    {
        if i >= an {
            return true;
        }
        if i >= bn {
            return false;
        }
        let ca = a.get_char(i);
        let cb = b.get_char(i);
        proof {
            assert(a@.skip(i as int)[0] == a@[i as int]);
            assert(b@.skip(i as int)[0] == b@[i as int]);
        }
        if ca < cb {
            return true;
        }
        if cb < ca {
            return false;
        }
        proof {
            assert(a@.skip(i as int).skip(1) =~= a@.skip(i as int + 1));
            assert(b@.skip(i as int).skip(1) =~= b@.skip(i as int + 1));
        }
        i += 1;
    }
}

/// True when `hay` holds `needle` as a contiguous run of characters.
pub open spec fn contains_seq(hay: Seq<char>, needle: Seq<char>) -> bool {
    exists|i: int|
        0 <= i <= hay.len() - needle.len() && (#[trigger] hay.subrange(i, i + needle.len()))
            == needle
}

/// True when `needle` occurs in `hay` starting at `at`.
fn match_at(hay: &str, needle: &str, at: usize) -> (r: bool)
    requires
        at + needle@.len() <= hay@.len(),
    ensures
        r == (hay@.subrange(at as int, at + needle@.len()) == needle@),
{
    let hn = hay.unicode_len();
    let nn = needle.unicode_len();
    let mut j: usize = 0;
    while j < nn
        invariant
            j <= nn,
            hn == hay@.len(),
            nn == needle@.len(),
            at + nn <= hn,
            forall|k: int| 0 <= k < j ==> hay@[at + k] == needle@[k],
        decreases nn - j,
    {
        if hay.get_char(at + j) != needle.get_char(j) {
            proof {
                assert(hay@.subrange(at as int, at + needle@.len())[j as int] != needle@[
                    j as int
                ]);
            }
            return false;
        }
        j += 1;
    }
    proof {
        assert(hay@.subrange(at as int, at + needle@.len()) =~= needle@);
    }
    true
}

/// Decides whether `hay` contains `needle` as a substring.
pub fn str_contains(hay: &str, needle: &str) -> (r: bool)
    ensures
        r == contains_seq(hay@, needle@),
{
    let hn = hay.unicode_len();
    let nn = needle.unicode_len();
    if nn > hn {
        return false;
    }
    if nn == 0 {
        proof {
            assert(hay@.subrange(0, 0 + needle@.len() as int) =~= needle@);
        }
        return true;
    }
    let mut i: usize = 0;
    while i <= hn - nn
        invariant
            0 < nn <= hn,
            hn == hay@.len(),
            nn == needle@.len(),
            i <= hn - nn + 1,
            forall|k: int|
                0 <= k < i ==> (#[trigger] hay@.subrange(k, k + needle@.len())) != needle@,
        decreases hn - nn + 1 - i,
    {
        if match_at(hay, needle, i) {
            return true;
        }
        i += 1;
    }
    false
}

/// The views of a sequence of strings.
pub open spec fn seq_views(s: Seq<String>) -> Seq<Seq<char>> {
    s.map_values(|x: String| x@)
}

/// True when the sequence is sorted under the lexicographic order.
pub open spec fn sorted_le(s: Seq<Seq<char>>) -> bool {
    forall|i: int, j: int| 0 <= i < j < s.len() ==> lex_le(s[i], s[j])
}

/// Sorts a vector of strings lexicographically by insertion, keeping the
/// multiset of values.
pub fn sort_strings(v: &mut Vec<String>)
    ensures
        final(v)@.len() == old(v)@.len(),
        seq_views(final(v)@).to_multiset() == seq_views(old(v)@).to_multiset(),
        sorted_le(seq_views(final(v)@)),
{
    broadcast use vstd::seq_lib::group_to_multiset_ensures;

    let n = v.len();
    if n <= 1 {
        return ;
    }
    let mut i: usize = 1;
    while i < n
        invariant
            1 <= i <= n,
            n == v@.len(),
            sorted_le(seq_views(v@).subrange(0, i as int)),
            seq_views(v@).to_multiset() == seq_views(old(v)@).to_multiset(),
        decreases n - i,
    {
        let ghost before = seq_views(v@);
        let x = v.remove(i);
        let ghost pre = seq_views(v@);
        proof {
            assert(pre =~= before.remove(i as int));
            assert(before[i as int] == x@);
        }
        let mut p: usize = 0;
        while p < i && str_le(v[p].as_str(), x.as_str())
            invariant
                p <= i,
                i < n,
                seq_views(v@) == pre,
                v@.len() == n - 1,
                forall|k: int| 0 <= k < p ==> lex_le(pre[k], x@),
            decreases i - p,
        {
            p += 1;
        }
        let ghost pos = p as int;
        proof {
            if p < i {
                lemma_lex_le_total(pre[pos], x@);
                assert(lex_le(x@, pre[pos]));
            }
        }
        v.insert(p, x);
        proof {
            let now = seq_views(v@);
            assert(now =~= pre.insert(pos, x@));
            // The multiset of views is unchanged by remove-then-insert.
            vstd::seq_lib::to_multiset_insert(pre, pos, x@);
            vstd::seq_lib::to_multiset_remove(before, i as int);
            vstd::seq_lib::to_multiset_contains(before, x@);
            assert(pre.insert(pos, x@).to_multiset() == pre.to_multiset().insert(x@));
            assert(before.remove(i as int).to_multiset() =~= before.to_multiset().remove(
                before[i as int],
            ));
            assert(before.contains(x@));
            assert(before.to_multiset().count(x@) > 0);
            assert(before.to_multiset().remove(x@).insert(x@) =~= before.to_multiset());
            assert(now.to_multiset() =~= before.to_multiset());
            // The first i + 1 elements are sorted: pairs left of the
            // insertion point were sorted before; the inserted element is
            // above everything before the point and, by transitivity,
            // below everything after it.
            assert forall|a: int, b: int|
                0 <= a < b < i + 1 implies lex_le(
                #[trigger] now.subrange(0, i + 1)[a],
                #[trigger] now.subrange(0, i + 1)[b],
            ) by {
                assert(now.subrange(0, i + 1)[a] == now[a]);
                assert(now.subrange(0, i + 1)[b] == now[b]);
                assert(forall|k: int|
                    0 <= k < i ==> pre[k] == #[trigger] before.subrange(0, i as int)[k]);
                assert(sorted_le(before.subrange(0, i as int)));
                if a < pos && b < pos {
                    assert(now[a] == pre[a] && now[b] == pre[b]);
                } else if a < pos && b == pos {
                    assert(now[a] == pre[a] && now[b] == x@);
                } else if a == pos && b > pos {
                    assert(now[a] == x@ && now[b] == pre[b - 1]);
                    if pos < b - 1 {
                        lemma_lex_le_trans(x@, pre[pos], pre[b - 1]);
                    }
                } else if a < pos && b > pos {
                    assert(now[a] == pre[a] && now[b] == pre[b - 1]);
                } else {
                    assert(a > pos && b > pos);
                    assert(now[a] == pre[a - 1] && now[b] == pre[b - 1]);
                }
            }
        }
        i += 1;
    }
    proof {
        assert(seq_views(v@).subrange(0, n as int) =~= seq_views(v@));
    }
}

} // verus!
