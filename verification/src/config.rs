use vstd::prelude::*;
use crate::errors::PolicyError;
use crate::ident::{opt_view, parse_ok, parse_schema, parse_table, QualifiedTable, TableKey};
use crate::rules::{PolicyView, TableRules};
use crate::text::seq_views;
use vstd::string::StrSliceExecFns;

verus! {

/// One predicate-filter entry of a database's configuration.
#[derive(Debug)]
pub struct TableFilterEntry {
    pub table: String,
    pub schema: Option<String>,
    pub predicate: String,
}

impl View for TableFilterEntry {
    type V = (Seq<char>, Option<Seq<char>>, Seq<char>);

    open spec fn view(&self) -> (Seq<char>, Option<Seq<char>>, Seq<char>) {
        (self.table@, opt_view(self.schema), self.predicate@)
    }
}

/// One time-filter entry of a database's configuration.
#[derive(Debug)]
pub struct TimeFilterEntry {
    pub table: String,
    pub schema: Option<String>,
    pub column: String,
    pub last: String,
}

impl View for TimeFilterEntry {
    type V = (Seq<char>, Option<Seq<char>>, Seq<char>, Seq<char>);

    open spec fn view(&self) -> (Seq<char>, Option<Seq<char>>, Seq<char>, Seq<char>) {
        (self.table@, opt_view(self.schema), self.column@, self.last@)
    }
}

/// The rule lists of one database in a configuration.
#[derive(Debug)]
pub struct DatabaseRules {
    pub schema_only: Vec<String>,
    pub table_filters: Vec<TableFilterEntry>,
    pub time_filters: Vec<TimeFilterEntry>,
}

impl View for DatabaseRules {
    type V = (
        Seq<Seq<char>>,
        Seq<(Seq<char>, Option<Seq<char>>, Seq<char>)>,
        Seq<(Seq<char>, Option<Seq<char>>, Seq<char>, Seq<char>)>,
    );

    open spec fn view(&self) -> (
        Seq<Seq<char>>,
        Seq<(Seq<char>, Option<Seq<char>>, Seq<char>)>,
        Seq<(Seq<char>, Option<Seq<char>>, Seq<char>, Seq<char>)>,
    ) {
        (
            seq_views(self.schema_only@),
            self.table_filters@.map_values(|e: TableFilterEntry| e@),
            self.time_filters@.map_values(|e: TimeFilterEntry| e@),
        )
    }
}

/// The views of a list of per-database rules.
pub open spec fn db_views(s: Seq<(String, DatabaseRules)>) -> Seq<
    (Seq<char>, <DatabaseRules as View>::V),
> {
    s.map_values(|p: (String, DatabaseRules)| (p.0@, p.1@))
}

/// The key a filter entry addresses: an explicit schema is taken verbatim
/// (both names must be non-empty), otherwise the table text is parsed as a
/// dotted name.
pub open spec fn filter_key(db: Seq<char>, table: Seq<char>, schema: Option<Seq<char>>) -> Result<
    TableKey,
    PolicyError,
> {
    match schema {
        Option::Some(sch) => if sch.len() == 0 || table.len() == 0 {
            Result::Err(PolicyError::Format)
        } else {
            Result::Ok((Option::Some(db), sch, table))
        },
        Option::None => if parse_ok(table) {
            Result::Ok((Option::Some(db), parse_schema(table), parse_table(table)))
        } else {
            Result::Err(PolicyError::Format)
        },
    }
}

/// One schema-only registration at the map level.
pub open spec fn so_step(m: Map<TableKey, PolicyView>, db: Seq<char>, text: Seq<char>) -> Result<
    Map<TableKey, PolicyView>,
    PolicyError,
> {
    if !parse_ok(text) {
        Result::Err(PolicyError::Format)
    } else {
        let k = (Option::Some(db), parse_schema(text), parse_table(text));
        if m.contains_key(k) && !(m[k] is SchemaOnly) {
            Result::Err(PolicyError::DuplicatePolicy)
        } else {
            Result::Ok(m.insert(k, PolicyView::SchemaOnly))
        }
    }
}

/// The schema-only list of one database, applied in order.
pub open spec fn so_fold(
    m: Map<TableKey, PolicyView>,
    db: Seq<char>,
    items: Seq<Seq<char>>,
) -> Result<Map<TableKey, PolicyView>, PolicyError>
    decreases items.len(),
{
    if items.len() == 0 {
        Result::Ok(m)
    } else {
        match so_step(m, db, items[0]) {
            Result::Err(e) => Result::Err(e),
            Result::Ok(m2) => so_fold(m2, db, items.skip(1)),
        }
    }
}

/// One predicate-filter registration at the map level.
pub open spec fn tf_step(
    m: Map<TableKey, PolicyView>,
    db: Seq<char>,
    e: (Seq<char>, Option<Seq<char>>, Seq<char>),
) -> Result<Map<TableKey, PolicyView>, PolicyError> {
    match filter_key(db, e.0, e.1) {
        Result::Err(err) => Result::Err(err),
        Result::Ok(k) => if e.2.len() == 0 {
            Result::Err(PolicyError::Validation)
        } else if m.contains_key(k) {
            Result::Err(PolicyError::DuplicatePolicy)
        } else {
            Result::Ok(m.insert(k, PolicyView::Predicate { predicate: e.2 }))
        },
    }
}

/// The predicate filters of one database, applied in order.
pub open spec fn tf_fold(
    m: Map<TableKey, PolicyView>,
    db: Seq<char>,
    items: Seq<(Seq<char>, Option<Seq<char>>, Seq<char>)>,
) -> Result<Map<TableKey, PolicyView>, PolicyError>
    decreases items.len(),
{
    if items.len() == 0 {
        Result::Ok(m)
    } else {
        match tf_step(m, db, items[0]) {
            Result::Err(e) => Result::Err(e),
            Result::Ok(m2) => tf_fold(m2, db, items.skip(1)),
        }
    }
}

/// One time-filter registration at the map level.
pub open spec fn time_step(
    m: Map<TableKey, PolicyView>,
    db: Seq<char>,
    e: (Seq<char>, Option<Seq<char>>, Seq<char>, Seq<char>),
) -> Result<Map<TableKey, PolicyView>, PolicyError> {
    match filter_key(db, e.0, e.1) {
        Result::Err(err) => Result::Err(err),
        Result::Ok(k) => if e.2.len() == 0 || e.3.len() == 0 {
            Result::Err(PolicyError::Validation)
        } else if m.contains_key(k) {
            Result::Err(PolicyError::DuplicatePolicy)
        } else {
            Result::Ok(m.insert(k, PolicyView::TimeWindow { column: e.2, lookback: e.3 }))
        },
    }
}

/// The time filters of one database, applied in order.
pub open spec fn time_fold(
    m: Map<TableKey, PolicyView>,
    db: Seq<char>,
    items: Seq<(Seq<char>, Option<Seq<char>>, Seq<char>, Seq<char>)>,
) -> Result<Map<TableKey, PolicyView>, PolicyError>
    decreases items.len(),
{
    if items.len() == 0 {
        Result::Ok(m)
    } else {
        match time_step(m, db, items[0]) {
            Result::Err(e) => Result::Err(e),
            Result::Ok(m2) => time_fold(m2, db, items.skip(1)),
        }
    }
}

/// One database's rules applied: its schema-only list, then its predicate
/// filters, then its time filters.
pub open spec fn db_apply(
    m: Map<TableKey, PolicyView>,
    db: Seq<char>,
    v: <DatabaseRules as View>::V,
) -> Result<Map<TableKey, PolicyView>, PolicyError> {
    match so_fold(m, db, v.0) {
        Result::Err(e) => Result::Err(e),
        Result::Ok(m1) => match tf_fold(m1, db, v.1) {
            Result::Err(e) => Result::Err(e),
            Result::Ok(m2) => time_fold(m2, db, v.2),
        },
    }
}

/// A whole configuration applied to a starting registry state.
pub open spec fn build_fold(
    m: Map<TableKey, PolicyView>,
    dbs: Seq<(Seq<char>, <DatabaseRules as View>::V)>,
) -> Result<Map<TableKey, PolicyView>, PolicyError>
    decreases dbs.len(),
{
    if dbs.len() == 0 {
        Result::Ok(m)
    } else {
        match db_apply(m, dbs[0].0, dbs[0].1) {
            Result::Err(e) => Result::Err(e),
            Result::Ok(m2) => build_fold(m2, dbs.skip(1)),
        }
    }
}

/// The registry a configuration denotes, starting from the empty registry.
pub open spec fn spec_build(dbs: Seq<(Seq<char>, <DatabaseRules as View>::V)>) -> Result<
    Map<TableKey, PolicyView>,
    PolicyError,
> {
    build_fold(Map::empty(), dbs)
}

/// Applies one database's schema-only list to the registry.
fn apply_schema_only_list(rules: &mut TableRules, db: &String, items: &Vec<String>) -> (r: Result<
    (),
    PolicyError,
>)
    requires
        old(rules).wf(),
    ensures
        final(rules).wf(),
        match r {
            Result::Ok(_) => so_fold(old(rules)@, db@, seq_views(items@)) == Result::<
                Map<TableKey, PolicyView>,
                PolicyError,
            >::Ok(final(rules)@),
            Result::Err(e) => so_fold(old(rules)@, db@, seq_views(items@)) == Result::<
                Map<TableKey, PolicyView>,
                PolicyError,
            >::Err(e),
        },
{
    let ghost m0 = rules@;
    let ghost items_v = seq_views(items@);
    let n = items.len();
    let mut i: usize = 0;
    proof {
        assert(items_v.skip(0) =~= items_v);
    }
    while i < n
        invariant
            i <= n,
            n == items@.len(),
            items_v == seq_views(items@),
            rules.wf(),
            m0 == old(rules)@,
            so_fold(m0, db@, items_v) == so_fold(rules@, db@, items_v.skip(i as int)),
        decreases n - i,
    {
        let ghost rest = items_v.skip(i as int);
        proof {
            assert(items_v.len() == items@.len());
            assert(items_v[i as int] == items@[i as int]@);
            assert(rest.len() == n - i);
            assert(rest[0] == items_v[i as int]);
            assert(rest.skip(1) =~= items_v.skip(i + 1));
        }
        let q = match QualifiedTable::parse(items[i].as_str()) {
            Result::Ok(q) => q,
            Result::Err(e) => {
                return Result::Err(e);
            },
        };
        let q = q.with_database(Option::Some(db.clone()));
        match rules.add_schema_only_table(q) {
            Result::Ok(_) => {},
            Result::Err(e) => {
                return Result::Err(e);
            },
        }
        i += 1;
    }
    proof {
        assert(items_v.skip(n as int) =~= Seq::<Seq<char>>::empty());
    }
    Result::Ok(())
}

/// Resolves the table a filter entry addresses, attaching the database.
fn filter_table(db: &String, table: &String, schema: &Option<String>) -> (r: Result<
    QualifiedTable,
    PolicyError,
>)
    ensures
        match r {
            Result::Ok(q) => filter_key(db@, table@, opt_view(*schema)) == Result::<
                TableKey,
                PolicyError,
            >::Ok(q.key()) && q.wf(),
            Result::Err(e) => filter_key(db@, table@, opt_view(*schema)) == Result::<
                TableKey,
                PolicyError,
            >::Err(e),
        },
{
    match schema {
        Option::Some(sch) => {
            if sch.as_str().unicode_len() == 0 || table.as_str().unicode_len() == 0 {
                Result::Err(PolicyError::Format)
            } else {
                Result::Ok(
                    QualifiedTable::new(
                        Option::Some(db.clone()),
                        sch.clone(),
                        table.clone(),
                    ),
                )
            }
        },
        Option::None => {
            match QualifiedTable::parse(table.as_str()) {
                Result::Ok(q) => Result::Ok(q.with_database(Option::Some(db.clone()))),
                Result::Err(e) => Result::Err(e),
            }
        },
    }
}

/// Applies one database's predicate filters to the registry.
fn apply_table_filters(rules: &mut TableRules, db: &String, items: &Vec<TableFilterEntry>) -> (r:
    Result<(), PolicyError>)
    requires
        old(rules).wf(),
    ensures
        final(rules).wf(),
        match r {
            Result::Ok(_) => tf_fold(
                old(rules)@,
                db@,
                items@.map_values(|e: TableFilterEntry| e@),
            ) == Result::<Map<TableKey, PolicyView>, PolicyError>::Ok(final(rules)@),
            Result::Err(e) => tf_fold(
                old(rules)@,
                db@,
                items@.map_values(|e: TableFilterEntry| e@),
            ) == Result::<Map<TableKey, PolicyView>, PolicyError>::Err(e),
        },
{
    let ghost m0 = rules@;
    let ghost items_v = items@.map_values(|e: TableFilterEntry| e@);
    let n = items.len();
    let mut i: usize = 0;
    proof {
        assert(items_v.skip(0) =~= items_v);
    }
    while i < n
        invariant
            i <= n,
            n == items@.len(),
            items_v == items@.map_values(|e: TableFilterEntry| e@),
            rules.wf(),
            m0 == old(rules)@,
            tf_fold(m0, db@, items_v) == tf_fold(rules@, db@, items_v.skip(i as int)),
        decreases n - i,
    {
        let ghost rest = items_v.skip(i as int);
        proof {
            assert(items_v.len() == items@.len());
            assert(items_v[i as int] == items@[i as int]@);
            assert(rest.len() == n - i);
            assert(rest[0] == items_v[i as int]);
            assert(rest.skip(1) =~= items_v.skip(i + 1));
        }
        let e = &items[i];
        let q = match filter_table(db, &e.table, &e.schema) {
            Result::Ok(q) => q,
            Result::Err(err) => {
                return Result::Err(err);
            },
        };
        match rules.add_table_filter(q, e.predicate.clone()) {
            Result::Ok(_) => {},
            Result::Err(err) => {
                return Result::Err(err);
            },
        }
        i += 1;
    }
    proof {
        assert(items_v.skip(n as int) =~= Seq::<
            (Seq<char>, Option<Seq<char>>, Seq<char>),
        >::empty());
    }
    Result::Ok(())
}

/// Applies one database's time filters to the registry.
fn apply_time_filters(rules: &mut TableRules, db: &String, items: &Vec<TimeFilterEntry>) -> (r:
    Result<(), PolicyError>)
    requires
        old(rules).wf(),
    ensures
        final(rules).wf(),
        match r {
            Result::Ok(_) => time_fold(
                old(rules)@,
                db@,
                items@.map_values(|e: TimeFilterEntry| e@),
            ) == Result::<Map<TableKey, PolicyView>, PolicyError>::Ok(final(rules)@),
            Result::Err(e) => time_fold(
                old(rules)@,
                db@,
                items@.map_values(|e: TimeFilterEntry| e@),
            ) == Result::<Map<TableKey, PolicyView>, PolicyError>::Err(e),
        },
{
    let ghost m0 = rules@;
    let ghost items_v = items@.map_values(|e: TimeFilterEntry| e@);
    let n = items.len();
    let mut i: usize = 0;
    proof {
        assert(items_v.skip(0) =~= items_v);
    }
    while i < n
        invariant
            i <= n,
            n == items@.len(),
            items_v == items@.map_values(|e: TimeFilterEntry| e@),
            rules.wf(),
            m0 == old(rules)@,
            time_fold(m0, db@, items_v) == time_fold(rules@, db@, items_v.skip(i as int)),
        decreases n - i,
    {
        let ghost rest = items_v.skip(i as int);
        proof {
            assert(items_v.len() == items@.len());
            assert(items_v[i as int] == items@[i as int]@);
            assert(rest.len() == n - i);
            assert(rest[0] == items_v[i as int]);
            assert(rest.skip(1) =~= items_v.skip(i + 1));
        }
        let e = &items[i];
        let q = match filter_table(db, &e.table, &e.schema) {
            Result::Ok(q) => q,
            Result::Err(err) => {
                return Result::Err(err);
            },
        };
        match rules.add_time_filter(q, e.column.clone(), e.last.clone()) {
            Result::Ok(_) => {},
            Result::Err(err) => {
                return Result::Err(err);
            },
        }
        i += 1;
    }
    proof {
        assert(items_v.skip(n as int) =~= Seq::<
            (Seq<char>, Option<Seq<char>>, Seq<char>, Seq<char>),
        >::empty());
    }
    Result::Ok(())
}

/// Builds the policy registry from a structured configuration: per
/// database, a schema-only list, predicate filters and time filters,
/// applied in that order.  Any malformed name, empty field or duplicate
/// registration fails the whole load; no partial registry escapes.
pub fn build_table_rules(databases: Vec<(String, DatabaseRules)>) -> (r: Result<
    TableRules,
    PolicyError,
>)
    ensures
        match r {
            Result::Ok(rules) => rules.wf() && spec_build(db_views(databases@)) == Result::<
                Map<TableKey, PolicyView>,
                PolicyError,
            >::Ok(rules@),
            Result::Err(e) => spec_build(db_views(databases@)) == Result::<
                Map<TableKey, PolicyView>,
                PolicyError,
            >::Err(e),
        },
{
    let ghost dbs = db_views(databases@);
    let mut rules = TableRules::default();
    let n = databases.len();
    let mut i: usize = 0;
    proof {
        assert(dbs.skip(0) =~= dbs);
    }
    while i < n
        invariant
            i <= n,
            n == databases@.len(),
            dbs == db_views(databases@),
            rules.wf(),
            spec_build(dbs) == build_fold(rules@, dbs.skip(i as int)),
        decreases n - i,
    {
        let ghost rest = dbs.skip(i as int);
        proof {
            assert(dbs.len() == databases@.len());
            assert(dbs[i as int] == (databases@[i as int].0@, databases@[i as int].1@));
            assert(rest.len() == n - i);
            assert(rest[0] == dbs[i as int]);
            assert(rest.skip(1) =~= dbs.skip(i + 1));
        }
        let entry = &databases[i];
        match apply_schema_only_list(&mut rules, &entry.0, &entry.1.schema_only) {
            Result::Ok(_) => {},
            Result::Err(e) => {
                return Result::Err(e);
            },
        }
        match apply_table_filters(&mut rules, &entry.0, &entry.1.table_filters) {
            Result::Ok(_) => {},
            Result::Err(e) => {
                return Result::Err(e);
            },
        }
        match apply_time_filters(&mut rules, &entry.0, &entry.1.time_filters) {
            Result::Ok(_) => {},
            Result::Err(e) => {
                return Result::Err(e);
            },
        }
        i += 1;
    }
    proof {
        assert(dbs.skip(n as int) =~= Seq::<(Seq<char>, <DatabaseRules as View>::V)>::empty());
    }
    Result::Ok(rules)
}

} // verus!
