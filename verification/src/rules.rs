use vstd::prelude::*;
use crate::errors::PolicyError;
use crate::ident::{spec_render, QualifiedTable, TableKey};
use crate::text::{seq_views, sort_strings, sorted_le, str_eq};

verus! {

/// The migration treatment of one table.
#[derive(Debug, PartialEq, Eq)]
pub enum Policy {
    /// Copy all rows: the default for a table no rule mentions.
    Full,
    /// Copy only the structural definition, no rows.
    SchemaOnly,
    /// Copy the rows satisfying an opaque boolean expression.
    Predicate { predicate: String },
    /// Copy the rows of a rolling time window over a timestamp column.
    TimeWindow { column: String, lookback: String },
}

/// The view of a policy, over character sequences.
pub enum PolicyView {
    Full,
    SchemaOnly,
    Predicate { predicate: Seq<char> },
    TimeWindow { column: Seq<char>, lookback: Seq<char> },
}

impl View for Policy {
    type V = PolicyView;

    open spec fn view(&self) -> PolicyView {
        match self {
            Policy::Full => PolicyView::Full,
            Policy::SchemaOnly => PolicyView::SchemaOnly,
            Policy::Predicate { predicate } => PolicyView::Predicate { predicate: predicate@ },
            Policy::TimeWindow { column, lookback } => PolicyView::TimeWindow {
                column: column@,
                lookback: lookback@,
            },
        }
    }
}

impl Policy {
    /// A copy with the same view.
    pub fn dup(&self) -> (r: Policy)
        ensures
            r@ == self@,
    {
        match self {
            Policy::Full => Policy::Full,
            Policy::SchemaOnly => Policy::SchemaOnly,
            Policy::Predicate { predicate } => Policy::Predicate { predicate: predicate.clone() },
            Policy::TimeWindow { column, lookback } => Policy::TimeWindow {
                column: column.clone(),
                lookback: lookback.clone(),
            },
        }
    }
}

/// The lookup key used when a caller resolves by database, schema and table
/// names.
pub open spec fn lookup_key(db: Seq<char>, schema: Seq<char>, table: Seq<char>) -> TableKey {
    (Option::Some(db), schema, table)
}

/// True when no two entries share a table key.
pub open spec fn unique_keys(s: Seq<(QualifiedTable, Policy)>) -> bool {
    forall|i: int, j: int| 0 <= i < j < s.len() ==> s[i].0.key() != s[j].0.key()
}

/// The rendered names of the schema-only entries of one database, in entry
/// order.
pub open spec fn schema_only_renders(s: Seq<(QualifiedTable, Policy)>, db: Seq<char>) -> Seq<
    Seq<char>,
>
    decreases s.len(),
{
    if s.len() == 0 {
        Seq::empty()
    } else {
        let rest = schema_only_renders(s.drop_last(), db);
        let e = s.last();
        if e.1@ is SchemaOnly && e.0.key().0 == Option::<Seq<char>>::Some(db) {
            rest.push(spec_render(e.0.key().1, e.0.key().2))
        } else {
            rest
        }
    }
}

/// The per-table policy rules of one loaded configuration.  The registry is
/// one mapping from qualified-table key to a policy, so a table holds at
/// most one of schema-only, predicate filter and time filter; a table
/// absent from the mapping is copied in full.
#[derive(Debug)]
pub struct TableRules {
    entries: Vec<(QualifiedTable, Policy)>,
}

impl View for TableRules {
    type V = Map<TableKey, PolicyView>;

    closed spec fn view(&self) -> Map<TableKey, PolicyView> {
        TableRules::map_of(self.entries@)
    }
}

impl TableRules {
    /// The registered entries, as a sequence.
    pub closed spec fn entry_seq(self) -> Seq<(QualifiedTable, Policy)> {
        self.entries@
    }

    /// The mapping a sequence of entries denotes.
    pub open spec fn map_of(s: Seq<(QualifiedTable, Policy)>) -> Map<TableKey, PolicyView>
        decreases s.len(),
    {
        if s.len() == 0 {
            Map::empty()
        } else {
            TableRules::map_of(s.drop_last()).insert(s.last().0.key(), s.last().1@)
        }
    }

    /// Well-formedness: entry keys are unique, no entry stores the default
    /// policy, and every registered table identifier is itself well formed.
    pub closed spec fn wf(self) -> bool {
        &&& unique_keys(self.entries@)
        &&& forall|i: int|
            0 <= i < self.entries@.len() ==> !(#[trigger] self.entries@[i].1@ is Full)
        &&& forall|i: int| 0 <= i < self.entries@.len() ==> (#[trigger] self.entries@[i].0.wf())
    }

    /// The index of the entry with this key, if one is registered.
    fn find_index(&self, table: &QualifiedTable) -> (r: Option<usize>)
        ensures
            match r {
                Option::Some(i) => i < self.entry_seq().len() && self.entry_seq()[
                    i as int
                ].0.key() == table.key(),
                Option::None => forall|j: int|
                    0 <= j < self.entry_seq().len() ==> (#[trigger] self.entry_seq()[j].0.key())
                        != table.key(),
            },
    {
        let n = self.entries.len();
        let mut i: usize = 0;
        while i < n
            invariant
                i <= n,
                n == self.entries@.len(),
                forall|j: int|
                    0 <= j < i ==> (#[trigger] self.entries@[j].0.key()) != table.key(),
            decreases n - i,
        {
            let e = &self.entries[i];
            if same_key(&e.0, table) {
                return Option::Some(i);
            }
            i += 1;
        }
        Option::None
    }

    /// Registers a table as schema-only.  Succeeds idempotently when the
    /// table is already schema-only; fails when it already carries a
    /// predicate or time filter.
    pub fn add_schema_only_table(&mut self, table: QualifiedTable) -> (r: Result<
        (),
        PolicyError,
    >)
        requires
            old(self).wf(),
            table.wf(),
        ensures
            final(self).wf(),
            match r {
                Result::Ok(_) => {
                    &&& (old(self)@.contains_key(table.key()) ==> old(self)@[table.key()]
                        is SchemaOnly)
                    &&& final(self)@ == old(self)@.insert(table.key(), PolicyView::SchemaOnly)
                },
                Result::Err(e) => {
                    &&& e == PolicyError::DuplicatePolicy
                    &&& old(self)@.contains_key(table.key())
                    &&& !(old(self)@[table.key()] is SchemaOnly)
                    &&& final(self)@ == old(self)@
                },
            },
    {
        let ghost s = self.entries@;
        match self.find_index(&table) {
            Option::Some(i) => {
                proof {
                    lemma_map_of_index(s, i as int);
                }
                match &self.entries[i].1 {
                    Policy::SchemaOnly => {
                        proof {
                            assert(self@.insert(table.key(), PolicyView::SchemaOnly) =~= self@);
                        }
                        Result::Ok(())
                    },
                    _ => Result::Err(PolicyError::DuplicatePolicy),
                }
            },
            Option::None => {
                proof {
                    lemma_map_of_contains(s, table.key());
                    assert forall|j: int|
                        0 <= j < s.len() implies (#[trigger] s[j].0.key()) != table.key() by {
                        assert(self.entry_seq()[j].0.key() != table.key());
                    }
                }
                self.entries.push((table, Policy::SchemaOnly));
                proof {
                    lemma_map_of_push(s, (table, Policy::SchemaOnly));
                    assert(self.entries@.drop_last() =~= s);
                    assert forall|i: int, j: int|
                        0 <= i < j < self.entries@.len() implies self.entries@[i].0.key()
                        != self.entries@[j].0.key() by {
                        if j < self.entries@.len() - 1 {
                            assert(s[i].0.key() != s[j].0.key());
                        } else {
                            assert(s[i].0.key() != table.key());
                        }
                    }
                }
                Result::Ok(())
            },
        }
    }

    /// Registers a predicate row filter.  Fails when the predicate is
    /// empty, or when the table already carries any policy.
    pub fn add_table_filter(&mut self, table: QualifiedTable, predicate: String) -> (r: Result<
        (),
        PolicyError,
    >)
        requires
            old(self).wf(),
            table.wf(),
        ensures
            final(self).wf(),
            match r {
                Result::Ok(_) => {
                    &&& predicate@.len() > 0
                    &&& !old(self)@.contains_key(table.key())
                    &&& final(self)@ == old(self)@.insert(
                        table.key(),
                        PolicyView::Predicate { predicate: predicate@ },
                    )
                },
                Result::Err(e) => {
                    &&& final(self)@ == old(self)@
                    &&& (e == PolicyError::Validation || e == PolicyError::DuplicatePolicy)
                    &&& (e == PolicyError::Validation <==> predicate@.len() == 0)
                    &&& (e == PolicyError::DuplicatePolicy <==> predicate@.len() > 0 && old(
                        self,
                    )@.contains_key(table.key()))
                },
            },
    {
        if predicate.as_str().unicode_len() == 0 {
            return Result::Err(PolicyError::Validation);
        }
        self.add_entry(table, Policy::Predicate { predicate })
    }

    /// Registers a rolling time-window filter.  Fails when the column or
    /// lookback is empty, or when the table already carries any policy.
    pub fn add_time_filter(&mut self, table: QualifiedTable, column: String, lookback: String) -> (r:
        Result<(), PolicyError>)
        requires
            old(self).wf(),
            table.wf(),
        ensures
            final(self).wf(),
            match r {
                Result::Ok(_) => {
                    &&& column@.len() > 0
                    &&& lookback@.len() > 0
                    &&& !old(self)@.contains_key(table.key())
                    &&& final(self)@ == old(self)@.insert(
                        table.key(),
                        PolicyView::TimeWindow { column: column@, lookback: lookback@ },
                    )
                },
                Result::Err(e) => {
                    &&& final(self)@ == old(self)@
                    &&& (e == PolicyError::Validation || e == PolicyError::DuplicatePolicy)
                    &&& (e == PolicyError::Validation <==> (column@.len() == 0 || lookback@.len()
                        == 0))
                    &&& (e == PolicyError::DuplicatePolicy <==> column@.len() > 0
                        && lookback@.len() > 0 && old(self)@.contains_key(table.key()))
                },
            },
    {
        if column.as_str().unicode_len() == 0 || lookback.as_str().unicode_len() == 0 {
            return Result::Err(PolicyError::Validation);
        }
        self.add_entry(table, Policy::TimeWindow { column, lookback })
    }

    /// Adds a fresh entry; fails when the key is already registered.
    fn add_entry(&mut self, table: QualifiedTable, policy: Policy) -> (r: Result<(), PolicyError>)
        requires
            old(self).wf(),
            table.wf(),
            !(policy@ is Full),
        ensures
            final(self).wf(),
            match r {
                Result::Ok(_) => {
                    &&& !old(self)@.contains_key(table.key())
                    &&& final(self)@ == old(self)@.insert(table.key(), policy@)
                },
                Result::Err(e) => {
                    &&& e == PolicyError::DuplicatePolicy
                    &&& old(self)@.contains_key(table.key())
                    &&& final(self)@ == old(self)@
                },
            },
    {
        let ghost s = self.entries@;
        match self.find_index(&table) {
            Option::Some(i) => {
                proof {
                    lemma_map_of_index(s, i as int);
                }
                Result::Err(PolicyError::DuplicatePolicy)
            },
            Option::None => {
                proof {
                    lemma_map_of_contains(s, table.key());
                    assert forall|j: int|
                        0 <= j < s.len() implies (#[trigger] s[j].0.key()) != table.key() by {
                        assert(self.entry_seq()[j].0.key() != table.key());
                    }
                }
                self.entries.push((table, policy));
                proof {
                    lemma_map_of_push(s, (table, policy));
                    assert(self.entries@.drop_last() =~= s);
                    assert forall|i: int, j: int|
                        0 <= i < j < self.entries@.len() implies self.entries@[i].0.key()
                        != self.entries@[j].0.key() by {
                        if j < self.entries@.len() - 1 {
                            assert(s[i].0.key() != s[j].0.key());
                        } else {
                            assert(s[i].0.key() != table.key());
                        }
                    }
                }
                Result::Ok(())
            },
        }
    }

    /// Resolves the effective policy of one table: the registered policy,
    /// or a full copy when no rule mentions the table.  The lookup is an
    /// exact match on (database, schema, table).
    pub fn resolve(&self, database: &str, schema: &str, table: &str) -> (r: Policy)
        requires
            self.wf(),
        ensures
            ({
                let k = lookup_key(database@, schema@, table@);
                r@ == if self@.contains_key(k) {
                    self@[k]
                } else {
                    PolicyView::Full
                }
            }),
    {
        let ghost k = lookup_key(database@, schema@, table@);
        let n = self.entries.len();
        let mut i: usize = 0;
        while i < n
            invariant
                self.wf(),
                i <= n,
                n == self.entries@.len(),
                k == lookup_key(database@, schema@, table@),
                forall|j: int| 0 <= j < i ==> (#[trigger] self.entries@[j].0.key()) != k,
            decreases n - i,
        {
            let e = &self.entries[i];
            if key_matches(&e.0, database, schema, table) {
                proof {
                    lemma_map_of_index(self.entries@, i as int);
                }
                return e.1.dup();
            }
            i += 1;
        }
        proof {
            lemma_map_of_contains(self.entries@, k);
        }
        Policy::Full
    }

    /// The predicate filter of one table, when that is its policy.
    pub fn table_filter(&self, database: &str, schema: &str, table: &str) -> (r: Option<String>)
        requires
            self.wf(),
        ensures
            ({
                let k = lookup_key(database@, schema@, table@);
                match r {
                    Option::Some(p) => self@.contains_key(k) && self@[k] == (
                    PolicyView::Predicate { predicate: p@ }),
                    Option::None => !self@.contains_key(k) || !(self@[k] is Predicate),
                }
            }),
    {
        match self.resolve(database, schema, table) {
            Policy::Predicate { predicate } => Option::Some(predicate),
            _ => Option::None,
        }
    }

    /// The time filter of one table, as (column, lookback), when that is
    /// its policy.
    pub fn time_filter(&self, database: &str, schema: &str, table: &str) -> (r: Option<
        (String, String),
    >)
        requires
            self.wf(),
        ensures
            ({
                let k = lookup_key(database@, schema@, table@);
                match r {
                    Option::Some(cl) => self@.contains_key(k) && self@[k] == (
                    PolicyView::TimeWindow { column: cl.0@, lookback: cl.1@ }),
                    Option::None => !self@.contains_key(k) || !(self@[k] is TimeWindow),
                }
            }),
    {
        match self.resolve(database, schema, table) {
            Policy::TimeWindow { column, lookback } => Option::Some((column, lookback)),
            _ => Option::None,
        }
    }

    /// The rendered names of the schema-only tables of one database, in
    /// lexicographic order.
    pub fn schema_only_tables(&self, database: &str) -> (r: Vec<String>)
        requires
            self.wf(),
        ensures
            seq_views(r@).to_multiset() == schema_only_renders(
                self.entry_seq(),
                database@,
            ).to_multiset(),
            sorted_le(seq_views(r@)),
    {
        let n = self.entries.len();
        let mut out: Vec<String> = Vec::new();
        let mut i: usize = 0;
        proof {
            assert(seq_views(out@) =~= schema_only_renders(self.entries@.subrange(0, 0), database@));
        }
        while i < n
            invariant
                i <= n,
                n == self.entries@.len(),
                seq_views(out@) == schema_only_renders(
                    self.entries@.subrange(0, i as int),
                    database@,
                ),
            decreases n - i,
        {
            let ghost prefix = self.entries@.subrange(0, i as int);
            let e = &self.entries[i];
            let is_match: bool = match &e.1 {
                Policy::SchemaOnly => match &e.0.database {
                    Option::Some(d) => str_eq(d.as_str(), database),
                    Option::None => false,
                },
                _ => false,
            };
            if is_match {
                out.push(e.0.render());
            }
            proof {
                let prefix2 = self.entries@.subrange(0, i + 1);
                assert(prefix2.drop_last() =~= prefix);
                assert(prefix2.last() == self.entries@[i as int]);
                assert(seq_views(out@) =~= schema_only_renders(prefix2, database@));
            }
            i += 1;
        }
        proof {
            assert(self.entries@.subrange(0, n as int) =~= self.entries@);
        }
        sort_strings(&mut out);
        out
    }
}

impl Default for TableRules {
    /// An empty registry: every table resolves to a full copy.
    fn default() -> (r: TableRules)
        ensures
            r@ == Map::<TableKey, PolicyView>::empty(),
            r.wf(),
            r.entry_seq().len() == 0,
    {
        TableRules { entries: Vec::new() }
    }
}

/// True of two identifiers with the same lookup key.
fn same_key(a: &QualifiedTable, b: &QualifiedTable) -> (r: bool)
    ensures
        r == (a.key() == b.key()),
{
    let db_ok: bool = match &a.database {
        Option::Some(x) => match &b.database {
            Option::Some(y) => str_eq(x.as_str(), y.as_str()),
            Option::None => false,
        },
        Option::None => b.database.is_none(),
    };
    if !db_ok {
        return false;
    }
    if !str_eq(a.schema.as_str(), b.schema.as_str()) {
        return false;
    }
    str_eq(a.table.as_str(), b.table.as_str())
}

/// True of an identifier whose key matches a lookup by names.
fn key_matches(entry: &QualifiedTable, database: &str, schema: &str, table: &str) -> (r: bool)
    ensures
        r == (entry.key() == lookup_key(database@, schema@, table@)),
{
    let db_ok: bool = match &entry.database {
        Option::Some(d) => str_eq(d.as_str(), database),
        Option::None => false,
    };
    if !db_ok {
        return false;
    }
    if !str_eq(entry.schema.as_str(), schema) {
        return false;
    }
    str_eq(entry.table.as_str(), table)
}

/// A key occurs in the denoted mapping exactly when an entry carries it.
proof fn lemma_map_of_contains(s: Seq<(QualifiedTable, Policy)>, k: TableKey)
    ensures
        TableRules::map_of(s).contains_key(k) <==> exists|i: int|
            0 <= i < s.len() && (#[trigger] s[i].0.key()) == k,
    decreases s.len(),
{
    if s.len() > 0 {
        let rest = s.drop_last();
        lemma_map_of_contains(rest, k);
        if TableRules::map_of(s).contains_key(k) {
            if k == s.last().0.key() {
                assert(s[s.len() - 1].0.key() == k);
            } else {
                let i = choose|i: int| 0 <= i < rest.len() && (#[trigger] rest[i].0.key()) == k;
                assert(s[i].0.key() == k);
            }
        }
        if exists|i: int| 0 <= i < s.len() && (#[trigger] s[i].0.key()) == k {
            let i = choose|i: int| 0 <= i < s.len() && (#[trigger] s[i].0.key()) == k;
            if i < s.len() - 1 {
                assert(rest[i].0.key() == k);
            }
        }
    }
}

/// With unique keys, the mapping sends each entry's key to its policy.
proof fn lemma_map_of_index(s: Seq<(QualifiedTable, Policy)>, i: int)
    requires
        unique_keys(s),
        0 <= i < s.len(),
    ensures
        TableRules::map_of(s).contains_key(s[i].0.key()),
        TableRules::map_of(s)[s[i].0.key()] == s[i].1@,
    decreases s.len(),
{
    let rest = s.drop_last();
    if i == s.len() - 1 {
    } else {
        assert(rest[i] == s[i]);
        lemma_map_of_index(rest, i);
        assert(s[i].0.key() != s[s.len() - 1].0.key());
    }
}

/// Appending an entry inserts its key into the denoted mapping.
proof fn lemma_map_of_push(s: Seq<(QualifiedTable, Policy)>, e: (QualifiedTable, Policy))
    ensures
        TableRules::map_of(s.push(e)) == TableRules::map_of(s).insert(e.0.key(), e.1@),
{
    assert(s.push(e).drop_last() =~= s);
    assert(s.push(e).last() == e);
}

/// Law: a successful schema-only registration leaves the table mapped to
/// schema-only, so registering it as schema-only again is owed success and
/// changes nothing, while registering a predicate or time filter on it is
/// owed a duplicate-policy failure.
pub proof fn lemma_schema_only_reregistration(m: Map<TableKey, PolicyView>, k: TableKey)
    ensures
        m.insert(k, PolicyView::SchemaOnly).contains_key(k),
        m.insert(k, PolicyView::SchemaOnly)[k] is SchemaOnly,
        m.insert(k, PolicyView::SchemaOnly).insert(k, PolicyView::SchemaOnly) == m.insert(
            k,
            PolicyView::SchemaOnly,
        ),
{
    assert(m.insert(k, PolicyView::SchemaOnly).insert(k, PolicyView::SchemaOnly) =~= m.insert(
        k,
        PolicyView::SchemaOnly,
    ));
}

} // verus!
