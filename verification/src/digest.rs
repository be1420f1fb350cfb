use vstd::prelude::*;
use vstd::string::StrSliceExecFns;

verus! {

/// The offset basis of the 64-bit FNV-1a hash.
pub const FNV_OFFSET: u64 = 0xcbf29ce484222325;

/// The prime of the 64-bit FNV-1a hash.
pub const FNV_PRIME: u64 = 0x100000001b3;

/// A separator mixed in between the hashed fields of a cell.
pub const HASH_SEP: u64 = 0x1f;

/// A scrambling constant mixed into each per-row digest before the rows
/// are combined.
pub const FINAL_MIX: u64 = 0x9e3779b97f4a7c15;

/// One cell of a row: a column name and the textual value under it.
#[derive(Debug)]
pub struct ColumnValue {
    pub name: String,
    pub value: String,
}

impl View for ColumnValue {
    type V = (Seq<char>, Seq<char>);

    open spec fn view(&self) -> (Seq<char>, Seq<char>) {
        (self.name@, self.value@)
    }
}

/// One row of a table, as named cells.
#[derive(Debug)]
pub struct RowData {
    pub columns: Vec<ColumnValue>,
}

/// The view of a row: its cells as pairs of character sequences.
pub type RowView = Seq<(Seq<char>, Seq<char>)>;

impl View for RowData {
    type V = RowView;

    open spec fn view(&self) -> RowView {
        self.columns@.map_values(|c: ColumnValue| c@)
    }
}

/// The views of a sequence of rows.
pub open spec fn rows_view(rows: Seq<RowData>) -> Seq<RowView> {
    rows.map_values(|r: RowData| r@)
}

/// The digest and row count of one table scan.
#[derive(Clone, Copy, Debug, PartialEq, Eq, Structural)]
pub struct TableDigest {
    pub digest: u64,
    pub row_count: u64,
}

/// Addition modulo 2^64: the commutative combiner of the digest.
pub open spec fn wadd(a: u64, b: u64) -> u64 {
    vstd::wrapping::u64_specs::wrapping_add(a, b)
}

/// Multiplication modulo 2^64.
pub open spec fn wmul(a: u64, b: u64) -> u64 {
    vstd::wrapping::u64_specs::wrapping_mul(a, b)
}

/// One FNV-1a step over a character.
pub open spec fn mix_char(h: u64, c: char) -> u64 {
    wmul(h ^ ((c as u32) as u64), FNV_PRIME)
}

/// One FNV-1a step over the field separator.
pub open spec fn mix_sep(h: u64) -> u64 {
    wmul(h ^ HASH_SEP, FNV_PRIME)
}

/// The FNV-1a hash of a character sequence, from the state `h0`.
pub open spec fn hash_chars(h0: u64, s: Seq<char>) -> u64
    decreases s.len(),
{
    if s.len() == 0 {
        h0
    } else {
        mix_char(hash_chars(h0, s.drop_last()), s.last())
    }
}

/// The hash of one cell: name and value in sequence, each closed by the
/// separator, so that `("ab", "c")` and `("a", "bc")` hash differently.
pub open spec fn spec_cell_hash(name: Seq<char>, value: Seq<char>) -> u64 {
    mix_sep(hash_chars(mix_sep(hash_chars(FNV_OFFSET, name)), value))
}

/// The sum modulo 2^64 of a sequence of hashes: a commutative reduction,
/// so the result does not depend on the order of the sequence.
pub open spec fn sum_hashes(s: Seq<u64>) -> u64
    decreases s.len(),
{
    if s.len() == 0 {
        0
    } else {
        wadd(sum_hashes(s.drop_last()), s.last())
    }
}

/// The final scramble of a per-row digest, applied before rows are summed.
pub open spec fn finalize(h: u64) -> u64 {
    wmul(h ^ FINAL_MIX, FNV_PRIME)
}

/// The digest of one row: the scrambled sum of its cell hashes.  Cells are
/// combined by name and value only, with a commutative sum, so the digest
/// does not depend on column order.
pub open spec fn spec_row_digest(row: RowView) -> u64 {
    finalize(sum_hashes(row.map_values(|c: (Seq<char>, Seq<char>)| spec_cell_hash(c.0, c.1))))
}

/// The digest of a table: the sum of its row digests, a commutative
/// reduction over the row multiset.
pub open spec fn spec_table_digest(rows: Seq<RowView>) -> u64 {
    sum_hashes(rows.map_values(|r: RowView| spec_row_digest(r)))
}

/// Exchanging the last two additions of a wrapped sum changes nothing.
proof fn lemma_wadd_rearrange(a: u64, b: u64, c: u64)
    ensures
        wadd(wadd(a, b), c) == wadd(wadd(a, c), b),
{
}

/// Removing an element splits a wrapped sum.
proof fn lemma_sum_remove(s: Seq<u64>, i: int)
    requires
        0 <= i < s.len(),
    ensures
        sum_hashes(s) == wadd(sum_hashes(s.remove(i)), s[i]),
    decreases s.len(),
{
    if i == s.len() - 1 {
        assert(s.remove(i) =~= s.drop_last());
    } else {
        let r = s.remove(i);
        assert(r.drop_last() =~= s.drop_last().remove(i));
        assert(r.last() == s.last());
        lemma_sum_remove(s.drop_last(), i);
        lemma_wadd_rearrange(sum_hashes(s.drop_last().remove(i)), s[i], s.last());
    }
}

/// Two sequences with the same multiset have the same wrapped sum of
/// mapped hashes.
proof fn lemma_sum_map_permutation<A>(s1: Seq<A>, s2: Seq<A>, f: spec_fn(A) -> u64)
    requires
        s1.to_multiset() == s2.to_multiset(),
    ensures
        sum_hashes(s1.map_values(f)) == sum_hashes(s2.map_values(f)),
    decreases s1.len(),
{
    broadcast use vstd::seq_lib::group_to_multiset_ensures;

    vstd::seq_lib::to_multiset_len(s1);
    vstd::seq_lib::to_multiset_len(s2);
    if s1.len() == 0 {
        assert(s1.map_values(f) =~= s2.map_values(f));
    } else {
        let x = s1.last();
        assert(s1[s1.len() - 1] == x);
        assert(s1.contains(x));
        vstd::seq_lib::to_multiset_contains(s1, x);
        vstd::seq_lib::to_multiset_contains(s2, x);
        assert(s2.contains(x));
        let j = choose|j: int| 0 <= j < s2.len() && s2[j] == x;
        vstd::seq_lib::to_multiset_remove(s1, s1.len() - 1);
        vstd::seq_lib::to_multiset_remove(s2, j);
        assert(s1.remove(s1.len() - 1) =~= s1.drop_last());
        assert(s1.drop_last().to_multiset() == s2.remove(j).to_multiset());
        lemma_sum_map_permutation(s1.drop_last(), s2.remove(j), f);
        lemma_sum_remove(s2.map_values(f), j);
        assert(s2.map_values(f).remove(j) =~= s2.remove(j).map_values(f));
        assert(s1.map_values(f).drop_last() =~= s1.drop_last().map_values(f));
        assert(s1.map_values(f).last() == f(x));
        assert(s2.map_values(f)[j] == f(x));
    }
}

/// Law: the table digest is independent of row order.  Two row sequences
/// with the same multiset of rows have the same digest.
pub proof fn lemma_digest_row_order_independent(rows1: Seq<RowView>, rows2: Seq<RowView>)
    requires
        rows1.to_multiset() == rows2.to_multiset(),
    ensures
        spec_table_digest(rows1) == spec_table_digest(rows2),
{
    lemma_sum_map_permutation(rows1, rows2, |r: RowView| spec_row_digest(r));
}

/// Law: the row digest is independent of column order.  Two rows with the
/// same multiset of (name, value) cells have the same digest.
pub proof fn lemma_row_digest_column_order_independent(row1: RowView, row2: RowView)
    requires
        row1.to_multiset() == row2.to_multiset(),
    ensures
        spec_row_digest(row1) == spec_row_digest(row2),
{
    lemma_sum_map_permutation(row1, row2, |c: (Seq<char>, Seq<char>)| spec_cell_hash(c.0, c.1));
}

/// Law: the table digest is independent of column order within each row.
pub proof fn lemma_digest_column_order_independent(rows1: Seq<RowView>, rows2: Seq<RowView>)
    requires
        rows1.len() == rows2.len(),
        forall|i: int|
            0 <= i < rows1.len() ==> (#[trigger] rows1[i].to_multiset()) == rows2[i].to_multiset(),
    ensures
        spec_table_digest(rows1) == spec_table_digest(rows2),
{
    assert forall|i: int| 0 <= i < rows1.len() implies spec_row_digest(#[trigger] rows1[i])
        == spec_row_digest(rows2[i]) by {
        lemma_row_digest_column_order_independent(rows1[i], rows2[i]);
    }
    assert(rows1.map_values(|r: RowView| spec_row_digest(r)) =~= rows2.map_values(
        |r: RowView| spec_row_digest(r),
    ));
}

/// The FNV-1a hash of a string, from the state `h0`.
fn hash_str(h0: u64, s: &str) -> (r: u64)
    ensures
        r == hash_chars(h0, s@),
{
    let n = s.unicode_len();
    let mut h = h0;
    let mut i: usize = 0;
    proof {
        assert(s@.subrange(0, 0) =~= Seq::<char>::empty());
    }
    while i < n
        invariant
            i <= n,
            n == s@.len(),
            h == hash_chars(h0, s@.subrange(0, i as int)),
        decreases n - i,
    {
        let c = s.get_char(i);
        h = (h ^ ((c as u32) as u64)).wrapping_mul(FNV_PRIME);
        proof {
            assert(s@.subrange(0, i + 1).drop_last() =~= s@.subrange(0, i as int));
            assert(s@.subrange(0, i + 1).last() == s@[i as int]);
        }
        i += 1;
    }
    proof {
        assert(s@.subrange(0, n as int) =~= s@);
    }
    h
}

/// The hash of one cell.
fn cell_hash(c: &ColumnValue) -> (r: u64)
    ensures
        r == spec_cell_hash(c.name@, c.value@),
{
    let h = hash_str(FNV_OFFSET, c.name.as_str());
    let h = (h ^ HASH_SEP).wrapping_mul(FNV_PRIME);
    let h = hash_str(h, c.value.as_str());
    (h ^ HASH_SEP).wrapping_mul(FNV_PRIME)
}

/// The digest of one row.
fn row_digest(row: &RowData) -> (r: u64)
    ensures
        r == spec_row_digest(row@),
{
    let ghost hs = row@.map_values(|c: (Seq<char>, Seq<char>)| spec_cell_hash(c.0, c.1));
    let n = row.columns.len();
    let mut acc: u64 = 0;
    let mut i: usize = 0;
    proof {
        assert(hs.subrange(0, 0) =~= Seq::<u64>::empty());
    }
    while i < n
        invariant
            i <= n,
            n == row.columns@.len(),
            hs == row@.map_values(|c: (Seq<char>, Seq<char>)| spec_cell_hash(c.0, c.1)),
            hs.len() == n,
            acc == sum_hashes(hs.subrange(0, i as int)),
        decreases n - i,
    {
        let h = cell_hash(&row.columns[i]);
        proof {
            assert(row@[i as int] == row.columns@[i as int]@);
            assert(hs[i as int] == spec_cell_hash(row.columns@[i as int].name@, row.columns@[
                i as int
            ].value@));
            assert(hs.subrange(0, i + 1).drop_last() =~= hs.subrange(0, i as int));
            assert(hs.subrange(0, i + 1).last() == hs[i as int]);
        }
        acc = acc.wrapping_add(h);
        i += 1;
    }
    proof {
        assert(hs.subrange(0, n as int) =~= hs);
    }
    (acc ^ FINAL_MIX).wrapping_mul(FNV_PRIME)
}

/// Computes the order-independent digest and row count of a table's rows
/// (or of the filtered subset that was migrated).  The digest is a
/// deterministic function of the multiset of rows, each row taken as a
/// multiset of named cells: neither physical row order nor column order
/// affects it.
pub fn compute_digest(rows: &Vec<RowData>) -> (r: TableDigest)
    requires
        rows@.len() <= u64::MAX,
    ensures
        r.digest == spec_table_digest(rows_view(rows@)),
        r.row_count == rows@.len(),
{
    let ghost ds = rows_view(rows@).map_values(|r: RowView| spec_row_digest(r));
    let n = rows.len();
    let mut acc: u64 = 0;
    let mut i: usize = 0;
    proof {
        assert(ds.subrange(0, 0) =~= Seq::<u64>::empty());
    }
    while i < n
        invariant
            i <= n,
            n == rows@.len(),
            ds == rows_view(rows@).map_values(|r: RowView| spec_row_digest(r)),
            ds.len() == n,
            acc == sum_hashes(ds.subrange(0, i as int)),
        decreases n - i,
    {
        let d = row_digest(&rows[i]);
        proof {
            assert(rows_view(rows@)[i as int] == rows@[i as int]@);
            assert(ds[i as int] == spec_row_digest(rows@[i as int]@));
            assert(ds.subrange(0, i + 1).drop_last() =~= ds.subrange(0, i as int));
            assert(ds.subrange(0, i + 1).last() == ds[i as int]);
        }
        acc = acc.wrapping_add(d);
        i += 1;
    }
    proof {
        assert(ds.subrange(0, n as int) =~= ds);
    }
    TableDigest { digest: acc, row_count: n as u64 }
}

} // verus!
