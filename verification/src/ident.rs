use vstd::prelude::*;
use vstd::string::StrSliceExecFns;
use crate::errors::PolicyError;

verus! {

/// The lookup key of a table: optional database, schema, table, all as
/// character sequences.
pub type TableKey = (Option<Seq<char>>, Seq<char>, Seq<char>);

/// The view of an optional string.
pub open spec fn opt_view(o: Option<String>) -> Option<Seq<char>> {
    match o {
        Option::Some(s) => Option::Some(s@),
        Option::None => Option::None,
    }
}

/// True when `s` contains no `.` character.
pub open spec fn dot_free(s: Seq<char>) -> bool {
    forall|i: int| 0 <= i < s.len() ==> s[i] != '.'
}

/// True when `i` is the index of the first `.` in `text`.
pub open spec fn is_split_point(text: Seq<char>, i: int) -> bool {
    &&& 0 <= i < text.len()
    &&& text[i] == '.'
    &&& dot_free(text.subrange(0, i))
}

/// Removes one pair of surrounding double quotes, if present.
pub open spec fn strip_quotes(s: Seq<char>) -> Seq<char> {
    if s.len() >= 2 && s[0] == '"' && s[s.len() - 1] == '"' {
        s.subrange(1, s.len() - 1)
    } else {
        s
    }
}

/// The raw (schema, table) parts of a dotted table string: the split is at
/// the first `.`; a string with no dot is a bare table name in the default
/// schema `public`.
pub open spec fn parse_parts(text: Seq<char>) -> (Seq<char>, Seq<char>) {
    if dot_free(text) {
        ("public"@, text)
    } else {
        let i = choose|i: int| is_split_point(text, i);
        (text.subrange(0, i), text.subrange(i + 1, text.len() as int))
    }
}

/// The schema part a parse of `text` yields.
pub open spec fn parse_schema(text: Seq<char>) -> Seq<char> {
    strip_quotes(parse_parts(text).0)
}

/// The table part a parse of `text` yields.
pub open spec fn parse_table(text: Seq<char>) -> Seq<char> {
    strip_quotes(parse_parts(text).1)
}

/// True when a parse of `text` succeeds: both parts are non-empty.
pub open spec fn parse_ok(text: Seq<char>) -> bool {
    parse_schema(text).len() > 0 && parse_table(text).len() > 0
}

/// The canonical rendering of a schema and table: `"schema"."table"`.
pub open spec fn spec_render(schema: Seq<char>, table: Seq<char>) -> Seq<char> {
    seq!['"'] + schema + seq!['"', '.', '"'] + table + seq!['"']
}

/// A three-part table identifier.  The database scopes registry lookups and
/// is never part of the rendered identifier; schema and table are taken
/// verbatim from configuration and are non-empty on any well-formed value.
#[derive(Debug)]
pub struct QualifiedTable {
    pub database: Option<String>,
    pub schema: String,
    pub table: String,
}

impl QualifiedTable {
    /// Well-formedness: schema and table are non-empty.
    pub open spec fn wf(self) -> bool {
        self.schema@.len() > 0 && self.table@.len() > 0
    }

    /// The lookup key of this table.
    pub open spec fn key(self) -> TableKey {
        (opt_view(self.database), self.schema@, self.table@)
    }

    /// Explicit three-field construction.
    pub fn new(database: Option<String>, schema: String, table: String) -> (r: QualifiedTable)
        requires
            schema@.len() > 0,
            table@.len() > 0,
        ensures
            r.database == database,
            r.schema == schema,
            r.table == table,
            r.wf(),
    {
        QualifiedTable { database, schema, table }
    }

    /// A copy of this identifier with the same key.
    pub fn dup(&self) -> (r: QualifiedTable)
        ensures
            r.key() == self.key(),
            r.wf() == self.wf(),
    {
        let database: Option<String> = match &self.database {
            Option::Some(d) => Option::Some(d.clone()),
            Option::None => Option::None,
        };
        QualifiedTable { database, schema: self.schema.clone(), table: self.table.clone() }
    }

    /// A copy with the database attached or overwritten.
    pub fn with_database(self, database: Option<String>) -> (r: QualifiedTable)
        ensures
            r.database == database,
            r.schema == self.schema,
            r.table == self.table,
            r.wf() == self.wf(),
    {
        QualifiedTable { database, schema: self.schema, table: self.table }
    }

    /// Splits a dotted string `"schema.table"` at the first `.`; a string
    /// with no dot names a table in the default schema `public`.  One pair
    /// of surrounding double quotes is stripped from each part, so a
    /// rendered identifier parses back to the same parts.  Fails when the
    /// schema or table part is empty.
    pub fn parse(text: &str) -> (r: Result<QualifiedTable, PolicyError>)
        ensures
            parse_ok(text@) ==> (match r {
                Result::Ok(q) => {
                    &&& q.database is None
                    &&& q.schema@ == parse_schema(text@)
                    &&& q.table@ == parse_table(text@)
                    &&& q.wf()
                },
                Result::Err(_) => false,
            }),
            !parse_ok(text@) ==> r == Result::<QualifiedTable, PolicyError>::Err(
                PolicyError::Format,
            ),
    {
        let n = text.unicode_len();
        let dot = find_first_dot(text);
        let (schema_part, table_part): (&str, &str) = match dot {
            Option::Some(i) => {
                let left = text.substring_char(0, i);
                let right = text.substring_char(i + 1, n);
                (left, right)
            },
            Option::None => ("public", text),
        };
        proof {
            match dot {
                Option::Some(i) => {
                    assert(!dot_free(text@));
                    let k = choose|k: int| is_split_point(text@, k);
                    lemma_split_point_unique(text@, k, i as int);
                    assert(schema_part@ == parse_parts(text@).0);
                    assert(table_part@ == parse_parts(text@).1);
                },
                Option::None => {
                    assert(parse_parts(text@) == ("public"@, text@));
                },
            }
        }
        let schema_str = strip_outer_quotes(schema_part);
        let table_str = strip_outer_quotes(table_part);
        if schema_str.unicode_len() == 0 || table_str.unicode_len() == 0 {
            Result::Err(PolicyError::Format)
        } else {
            Result::Ok(QualifiedTable {
                database: Option::None,
                schema: schema_str.to_owned(),
                table: table_str.to_owned(),
            })
        }
    }

    /// The canonical rendering `"schema"."table"`, independent of the
    /// database.
    pub fn render(&self) -> (r: String)
        ensures
            r@ == spec_render(self.schema@, self.table@),
    {
        let mut out = String::new();
        out.append("\"");
        out.append(self.schema.as_str());
        out.append("\".\"");
        out.append(self.table.as_str());
        out.append("\"");
        proof {
            reveal_strlit("\"");
            reveal_strlit("\".\"");
            assert(out@ =~= spec_render(self.schema@, self.table@));
        }
        out
    }
}

/// The index of the first `.` in `text`, if any.
fn find_first_dot(text: &str) -> (r: Option<usize>)
    ensures
        match r {
            Option::Some(i) => is_split_point(text@, i as int),
            Option::None => dot_free(text@),
        },
{
    let n = text.unicode_len();
    let mut i: usize = 0;
    while i < n
        invariant
            i <= n,
            n == text@.len(),
            dot_free(text@.subrange(0, i as int)),
        decreases n - i,
    {
        if text.get_char(i) == '.' {
            proof {
                assert forall|j: int| 0 <= j < i implies text@[j] != '.' by {
                    assert(text@.subrange(0, i as int)[j] == text@[j]);
                }
            }
            return Option::Some(i);
        }
        proof {
            assert forall|j: int| 0 <= j < i + 1 implies #[trigger] text@.subrange(
                0,
                i + 1,
            )[j] != '.' by {
                assert(text@.subrange(0, i + 1)[j] == text@[j]);
                if j < i {
                    assert(text@.subrange(0, i as int)[j] == text@[j]);
                }
            }
        }
        i += 1;
    }
    proof {
        assert(text@.subrange(0, n as int) =~= text@);
    }
    Option::None
}

/// Removes one pair of surrounding double quotes, if present.
fn strip_outer_quotes<'a>(s: &'a str) -> (r: &'a str)
    ensures
        r@ == strip_quotes(s@),
{
    let n = s.unicode_len();
    if n >= 2 && s.get_char(0) == '"' && s.get_char(n - 1) == '"' {
        s.substring_char(1, n - 1)
    } else {
        s
    }
}

/// A string with a dot has a first dot.
pub proof fn lemma_split_point_exists(text: Seq<char>)
    requires
        !dot_free(text),
    ensures
        exists|i: int| is_split_point(text, i),
    decreases text.len(),
{
    let j = choose|j: int| 0 <= j < text.len() && text[j] == '.';
    if text[0] == '.' {
        assert(text.subrange(0, 0) =~= Seq::<char>::empty());
        assert(is_split_point(text, 0));
    } else {
        let sub = text.skip(1);
        assert(sub[j - 1] == '.');
        assert(!dot_free(sub));
        lemma_split_point_exists(sub);
        let k = choose|k: int| is_split_point(sub, k);
        assert(text[k + 1] == sub[k]);
        assert forall|a: int| 0 <= a < k + 1 implies #[trigger] text.subrange(0, k + 1)[a]
            != '.' by {
            assert(text.subrange(0, k + 1)[a] == text[a]);
            if a > 0 {
                assert(sub.subrange(0, k)[a - 1] == sub[a - 1]);
                assert(text[a] == sub[a - 1]);
            }
        }
        assert(is_split_point(text, k + 1));
    }
}

/// Law: a dotted string whose left part has no dot splits at that dot:
/// the left part is the schema, the right part the table.
pub proof fn lemma_parse_dotted(s: Seq<char>, t: Seq<char>)
    requires
        dot_free(s),
    ensures
        parse_parts(s + seq!['.'] + t) == (s, t),
{
    let x = s + seq!['.'] + t;
    let m = s.len() as int;
    assert(x[m] == '.');
    assert(x.subrange(0, m) =~= s);
    assert(is_split_point(x, m));
    assert(!dot_free(x));
    let k = choose|k: int| is_split_point(x, k);
    lemma_split_point_unique(x, k, m);
    assert(x.subrange(m + 1, x.len() as int) =~= t);
}

/// Law: a string with no dot is a bare table name in the schema `public`.
pub proof fn lemma_parse_bare(t: Seq<char>)
    requires
        dot_free(t),
    ensures
        parse_parts(t) == ("public"@, t),
{
}

/// Quote stripping leaves a part alone unless it both starts and ends
/// with a double quote.
pub proof fn lemma_strip_quotes_plain(s: Seq<char>)
    requires
        s.len() < 2 || s[0] != '"' || s[s.len() - 1] != '"',
    ensures
        strip_quotes(s) == s,
{
}

/// Law: rendering is a stable canonical form.  Parsing any text and
/// rendering the result gives a string that parses back to the same
/// schema and table, so parsing and rendering it again changes nothing.
pub proof fn lemma_canonical_render_stable(text: Seq<char>)
    requires
        parse_ok(text),
    ensures
        ({
            let canon = spec_render(parse_schema(text), parse_table(text));
            &&& parse_ok(canon)
            &&& spec_render(parse_schema(canon), parse_table(canon)) == canon
        }),
{
    let s = parse_schema(text);
    let t = parse_table(text);
    assert(dot_free(s)) by {
        if dot_free(text) {
            reveal_strlit("public");
            assert(strip_quotes("public"@) == "public"@);
            assert forall|k: int| 0 <= k < "public"@.len() implies "public"@[k] != '.' by {
                reveal_strlit("public");
            }
        } else {
            lemma_split_point_exists(text);
            let i = choose|i: int| is_split_point(text, i);
            let raw = text.subrange(0, i);
            assert(dot_free(raw));
            if raw.len() >= 2 && raw[0] == '"' && raw[raw.len() - 1] == '"' {
                assert forall|k: int| 0 <= k < strip_quotes(raw).len() implies strip_quotes(
                    raw,
                )[k] != '.' by {
                    assert(strip_quotes(raw)[k] == raw[k + 1]);
                }
            }
        }
    }
    let canon = spec_render(s, t);
    let m = s.len() as int;
    assert(canon[m + 2] == '.');
    assert(canon[0] == '"');
    assert(canon[m + 1] == '"');
    assert forall|k: int| 0 <= k < m + 2 implies canon[k] != '.' by {
        if 1 <= k && k <= m {
            assert(canon[k] == s[k - 1]);
        }
    }
    assert(dot_free(canon.subrange(0, m + 2))) by {
        assert forall|k: int| 0 <= k < m + 2 implies #[trigger] canon.subrange(0, m + 2)[k]
            != '.' by {
            assert(canon.subrange(0, m + 2)[k] == canon[k]);
        }
    }
    assert(is_split_point(canon, m + 2));
    assert(!dot_free(canon));
    let k = choose|k: int| is_split_point(canon, k);
    lemma_split_point_unique(canon, k, m + 2);
    let left = canon.subrange(0, m + 2);
    let right = canon.subrange(m + 3, canon.len() as int);
    assert(left =~= seq!['"'] + s + seq!['"']);
    assert(right =~= seq!['"'] + t + seq!['"']);
    assert(left.len() >= 2 && left[0] == '"' && left[left.len() - 1] == '"');
    assert(right.len() >= 2 && right[0] == '"' && right[right.len() - 1] == '"');
    assert(strip_quotes(left) =~= s);
    assert(strip_quotes(right) =~= t);
    assert(parse_schema(canon) == s);
    assert(parse_table(canon) == t);
}

/// The first dot of a string is unique.
pub proof fn lemma_split_point_unique(text: Seq<char>, i: int, j: int)
    requires
        is_split_point(text, i),
        is_split_point(text, j),
    ensures
        i == j,
{
    if i < j {
        assert(text.subrange(0, j)[i] == text[i]);
    }
    if j < i {
        assert(text.subrange(0, i)[j] == text[j]);
    }
}

} // verus!
