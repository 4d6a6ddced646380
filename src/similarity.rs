//! Text of the similarity service's catalog queries, built from the names
//! an error reports.

use vstd::prelude::*;
use crate::catalog::{JoinCondition, JoinConditionV, JoinableTable, SimilarColumn};
use crate::generate::column_key;
use crate::tree::strings_view;

verus! {

/// The non-empty pieces of `s` between occurrences of `sep`, in order,
/// for the prefix `s[0..i]`: the closed pieces and where the open one starts.
pub open spec fn pieces_fold(s: Seq<char>, sep: char, i: int) -> (Seq<Seq<char>>, int)
    decreases i,
{
    if i <= 0 {
        (Seq::empty(), 0)
    } else {
        let (done, start) = pieces_fold(s, sep, i - 1);
        if s[i - 1] == sep {
            (keep_nonempty(done, s.subrange(start, i - 1)), i)
        } else {
            (done, start)
        }
    }
}

pub open spec fn keep_nonempty(done: Seq<Seq<char>>, piece: Seq<char>) -> Seq<Seq<char>> {
    if piece.len() > 0 {
        done.push(piece)
    } else {
        done
    }
}

/// The non-empty pieces of `s` between occurrences of `sep`.
pub open spec fn pieces(s: Seq<char>, sep: char) -> Seq<Seq<char>> {
    let (done, start) = pieces_fold(s, sep, s.len() as int);
    keep_nonempty(done, s.subrange(start, s.len() as int))
}

fn keep_nonempty_exec(done: &mut Vec<String>, s: &str, start: usize, end: usize)
    requires
        start <= end <= s@.len(),
    ensures
        final(done)@.map_values(|x: String| x@) == keep_nonempty(
            old(done)@.map_values(|x: String| x@),
            s@.subrange(start as int, end as int),
        ),
{
    if end > start {
        let ghost before = done@;
        done.push(s.substring_char(start, end).to_owned());
        proof {
            assert(done@.map_values(|x: String| x@) =~= before.map_values(|x: String| x@).push(
                s@.subrange(start as int, end as int),
            ));
        }
    }
}

/// The words of an identifier: its non-empty pieces between underscores.
pub fn prepare_search_terms(input: &str) -> (r: Vec<String>)
    ensures
        r@.map_values(|x: String| x@) == pieces(input@, '_'),
{
    let n = input.unicode_len();
    let mut done: Vec<String> = Vec::new();
    let mut start: usize = 0;
    let mut i: usize = 0;
    proof {
        assert(done@.map_values(|x: String| x@) =~= Seq::<Seq<char>>::empty());
    }
    while i < n
        invariant
            n == input@.len(),
            i <= n,
            start <= i,
            (done@.map_values(|x: String| x@), start as int) == pieces_fold(input@, '_', i as int),
        decreases n - i,
    {
        if input.get_char(i) == '_' {
            keep_nonempty_exec(&mut done, input, start, i);
            start = i + 1;
        }
        i = i + 1;
    }
    keep_nonempty_exec(&mut done, input, start, n);
    done
}

/// `s` with every `q` doubled, as SQL quoting needs.
pub open spec fn doubled_v(s: Seq<char>, q: char) -> Seq<char>
    decreases s.len(),
{
    if s.len() == 0 {
        Seq::empty()
    } else {
        doubled_v(s.drop_last(), q) + if s.last() == q {
            seq![q, q]
        } else {
            seq![s.last()]
        }
    }
}

/// `s` with every single quote doubled, as an SQL string literal needs.
pub open spec fn escape_v(s: Seq<char>) -> Seq<char> {
    doubled_v(s, '\'')
}

/// `s` with every `q` (a quote, given also as the text `qq` of two of
/// them) doubled.
fn double_char(s: &str, q: char, qq: &str) -> (r: String)
    requires
        qq@ == seq![q, q],
    ensures
        r@ == doubled_v(s@, q),
{
    let n = s.unicode_len();
    let mut out = String::new();
    let mut start: usize = 0;
    let mut i: usize = 0;
    proof {
        assert(s@.subrange(0, 0) =~= Seq::<char>::empty());
    }
    while i < n
        invariant
            n == s@.len(),
            qq@ == seq![q, q],
            start <= i <= n,
            out@ + s@.subrange(start as int, i as int) == doubled_v(s@.subrange(0, i as int), q),
        decreases n - i,
    {
        proof {
            let p = s@.subrange(0, i + 1);
            assert(p.drop_last() =~= s@.subrange(0, i as int));
            assert(p.last() == s@[i as int]);
        }
        if s.get_char(i) == q {
            out.append(s.substring_char(start, i));
            out.append(qq);
            proof {
                assert(out@ + s@.subrange(i + 1, i + 1) =~= doubled_v(s@.subrange(0, i + 1), q));
            }
            start = i + 1;
        } else {
            proof {
                assert(s@.subrange(start as int, i + 1) =~= s@.subrange(start as int, i as int).push(s@[i as int]));
                assert(out@ + s@.subrange(start as int, i + 1) =~= doubled_v(s@.subrange(0, i + 1), q));
            }
        }
        i = i + 1;
    }
    out.append(s.substring_char(start, n));
    proof {
        assert(s@.subrange(0, n as int) =~= s@);
    }
    out
}

/// `s` with every single quote doubled.
pub fn escape_sql_literal(s: &str) -> (r: String)
    ensures
        r@ == escape_v(s@),
{
    let qq = "''";
    proof {
        reveal_strlit("''");
        assert(qq@ =~= seq!['\'', '\'']);
    }
    double_char(s, '\'', qq)
}

/// `identifier` as a quoted SQL identifier: in double quotes, with every
/// double quote doubled.
pub fn quote_ident(identifier: &str) -> (r: String)
    ensures
        r@ == seq!['"'] + doubled_v(identifier@, '"') + seq!['"'],
{
    let qq = "\"\"";
    let q1 = "\"";
    proof {
        reveal_strlit("\"\"");
        reveal_strlit("\"");
        assert(qq@ =~= seq!['"', '"']);
        assert(q1@ =~= seq!['"']);
    }
    let mut r = q1.to_owned();
    r.append(double_char(identifier, '"', qq).as_str());
    r.append(q1);
    r
}

/// `parts` joined with single spaces.
pub open spec fn join_spaces(parts: Seq<Seq<char>>) -> Seq<char>
    decreases parts.len(),
{
    if parts.len() == 0 {
        Seq::empty()
    } else if parts.len() == 1 {
        parts[0]
    } else {
        join_spaces(parts.drop_last()) + " "@ + parts.last()
    }
}

pub const VECTOR_QUERY_HEAD: &'static str = "SELECT _vectors_text2vec(quote_literal('";
pub const VECTOR_QUERY_TAIL: &'static str = "')) AS v";

/// The query that embeds the words `terms`, joined by spaces, as column `v`.
pub fn create_combined_vector_query(terms: &Vec<String>) -> (r: String)
    ensures
        r@ == VECTOR_QUERY_HEAD@ + escape_v(join_spaces(terms@.map_values(|x: String| x@)))
            + VECTOR_QUERY_TAIL@,
{
    let ghost parts = terms@.map_values(|x: String| x@);
    let mut joined = String::new();
    let mut i: usize = 0;
    proof {
        assert(parts.subrange(0, 0) =~= Seq::<Seq<char>>::empty());
    }
    while i < terms.len()
        invariant
            i <= terms@.len(),
            parts == terms@.map_values(|x: String| x@),
            joined@ == join_spaces(parts.subrange(0, i as int)),
        decreases terms@.len() - i,
    {
        proof {
            let p = parts.subrange(0, i + 1);
            assert(p.drop_last() =~= parts.subrange(0, i as int));
            if i == 0 {
                assert(p[0] == terms@[0]@);
            }
        }
        if i > 0 {
            joined.append(" ");
        }
        joined.append(terms[i].as_str());
        proof {
            if i == 0 {
                assert(joined@ =~= join_spaces(parts.subrange(0, 1)));
            } else {
                assert(joined@ =~= join_spaces(parts.subrange(0, i + 1)));
            }
        }
        i = i + 1;
    }
    proof {
        assert(parts.subrange(0, parts.len() as int) =~= parts);
    }
    let mut q = VECTOR_QUERY_HEAD.to_owned();
    q.append(escape_sql_literal(joined.as_str()).as_str());
    q.append(VECTOR_QUERY_TAIL);
    q
}

/// Position of the last `.` in `s`, if any.
pub open spec fn last_dot(s: Seq<char>, i: int) -> Option<int>
    decreases i,
{
    if i <= 0 {
        None
    } else if s[i - 1] == '.' {
        Some(i - 1)
    } else {
        last_dot(s, i - 1)
    }
}

/// A schema-qualified name split at its last `.` into schema and relation;
/// a name without `.` has no schema.
pub open spec fn split_schema_rel_v(fq: Seq<char>) -> (Option<Seq<char>>, Seq<char>) {
    match last_dot(fq, fq.len() as int) {
        Some(k) => (Some(fq.subrange(0, k)), fq.subrange(k + 1, fq.len() as int)),
        None => (None, fq),
    }
}

/// Splits `schema.relation` at its last `.`.
pub fn split_schema_rel(fq: &str) -> (r: Option<(Option<String>, String)>)
    ensures
        match r {
            Some((sc, rel)) => (match sc {
                Some(x) => Some(x@),
                None => None,
            }, rel@) == split_schema_rel_v(fq@),
            None => false,
        },
{
    let n = fq.unicode_len();
    let mut i: usize = n;
    while i > 0 && fq.get_char(i - 1) != '.'
        invariant
            n == fq@.len(),
            i <= n,
            last_dot(fq@, n as int) == last_dot(fq@, i as int),
        decreases i,
    {
        i = i - 1;
    }
    if i == 0 {
        Some((None, fq.to_owned()))
    } else {
        Some((Some(fq.substring_char(0, i - 1).to_owned()), fq.substring_char(i, n).to_owned()))
    }
}

/// One row of a joinable-tables query: a table that can be joined, the
/// statement's table it joins to, the foreign-key column (on the joined
/// table) and the key column it references, and a distance.
#[derive(Debug)]
pub struct JoinRow {
    pub join_table: String,
    pub existing_table: String,
    pub fk_column: String,
    pub pk_column: String,
    pub distance: u64,
}

/// The join condition a row stands for.
pub open spec fn row_condition(r: JoinRow) -> JoinConditionV {
    JoinConditionV {
        left_table: r.existing_table@,
        left_column: r.pk_column@,
        right_table: r.join_table@,
        right_column: r.fk_column@,
    }
}

/// Model of a [`JoinableTable`].
pub struct GroupV {
    pub table: Seq<char>,
    pub distance: u64,
    pub conditions: Seq<JoinConditionV>,
}

pub open spec fn group_view(g: JoinableTable) -> GroupV {
    GroupV {
        table: g.table@,
        distance: g.distance,
        conditions: g.conditions@.map_values(|c: JoinCondition| c@),
    }
}

/// Position of the group for `table`, if there is one.
pub open spec fn group_index(gs: Seq<GroupV>, table: Seq<char>) -> Option<int>
    decreases gs.len(),
{
    if gs.len() == 0 {
        None
    } else {
        match group_index(gs.drop_last(), table) {
            Some(k) => Some(k),
            None => if gs.last().table == table {
                Some(gs.len() - 1)
            } else {
                None
            },
        }
    }
}

/// The rows grouped by joined table, groups in the order their tables first
/// appear; each group keeps the distance of its first row and the
/// conditions of all its rows, in row order.
pub open spec fn group_rows_v(rows: Seq<JoinRow>) -> Seq<GroupV>
    decreases rows.len(),
{
    if rows.len() == 0 {
        Seq::empty()
    } else {
        let gs = group_rows_v(rows.drop_last());
        let r = rows.last();
        match group_index(gs, r.join_table@) {
            Some(k) => gs.update(
                k,
                GroupV { conditions: gs[k].conditions.push(row_condition(r)), ..gs[k] },
            ),
            None => gs.push(
                GroupV { table: r.join_table@, distance: r.distance, conditions: seq![row_condition(r)] },
            ),
        }
    }
}

proof fn lemma_group_index(gs: Seq<GroupV>, table: Seq<char>)
    ensures
        match group_index(gs, table) {
            Some(k) => 0 <= k < gs.len() && gs[k].table == table,
            None => forall|j: int| 0 <= j < gs.len() ==> (#[trigger] gs[j]).table != table,
        },
    decreases gs.len(),
{
    if gs.len() > 0 {
        let p = gs.drop_last();
        lemma_group_index(p, table);
        if group_index(gs, table) is None {
            assert forall|j: int| 0 <= j < gs.len() implies (#[trigger] gs[j]).table != table by {
                if j < p.len() {
                    assert(gs[j] == p[j]);
                }
            }
        }
    }
}

fn find_group(groups: &Vec<JoinableTable>, table: &str) -> (r: Option<usize>)
    ensures
        match r {
            Some(k) => group_index(groups@.map_values(|g: JoinableTable| group_view(g)), table@) == Some(k as int),
            None => group_index(groups@.map_values(|g: JoinableTable| group_view(g)), table@) is None,
        },
{
    let ghost gv = groups@.map_values(|g: JoinableTable| group_view(g));
    let mut i: usize = 0;
    proof {
        assert(gv.subrange(0, 0) =~= Seq::<GroupV>::empty());
    }
    while i < groups.len()
        invariant
            i <= groups@.len(),
            gv == groups@.map_values(|g: JoinableTable| group_view(g)),
            group_index(gv.subrange(0, i as int), table@) is None,
        decreases groups@.len() - i,
    {
        let ghost sub = gv.subrange(0, i + 1);
        proof {
            assert(sub.drop_last() =~= gv.subrange(0, i as int));
            assert(sub.last() == gv[i as int]);
        }
        if same_text(groups[i].table.as_str(), table) {
            proof {
                assert(group_index(sub, table@) == Some(i as int));
                lemma_group_index_prefix(gv, i + 1, i as int, table@);
            }
            return Some(i);
        }
        i = i + 1;
    }
    proof {
        assert(gv.subrange(0, gv.len() as int) =~= gv);
    }
    None
}

proof fn lemma_group_index_prefix(gs: Seq<GroupV>, i: int, k: int, table: Seq<char>)
    requires
        0 < i <= gs.len(),
        group_index(gs.subrange(0, i), table) == Some(k),
    ensures
        group_index(gs, table) == Some(k),
    decreases gs.len() - i,
{
    if i < gs.len() {
        let sub = gs.subrange(0, i + 1);
        assert(sub.drop_last() =~= gs.subrange(0, i));
        assert(group_index(sub, table) == Some(k));
        lemma_group_index_prefix(gs, i + 1, k, table);
    } else {
        assert(gs.subrange(0, i) =~= gs);
    }
}

fn same_text(a: &str, b: &str) -> (r: bool)
    ensures
        r == (a@ == b@),
{
    crate::parser::same_text(a, b)
}

fn row_condition_exec(r: &JoinRow) -> (c: JoinCondition)
    ensures
        c@ == row_condition(*r),
{
    JoinCondition {
        left_table: r.existing_table.clone(),
        left_column: r.pk_column.clone(),
        right_table: r.join_table.clone(),
        right_column: r.fk_column.clone(),
    }
}

/// Groups joinable-table rows by joined table (see `group_rows_v`), and
/// keeps the first `limit` groups.
pub fn group_join_rows(rows: &Vec<JoinRow>, limit: usize) -> (r: Vec<JoinableTable>)
    ensures
        r@.map_values(|g: JoinableTable| group_view(g)) == if group_rows_v(rows@).len() > limit {
            group_rows_v(rows@).subrange(0, limit as int)
        } else {
            group_rows_v(rows@)
        },
{
    let mut groups: Vec<JoinableTable> = Vec::new();
    let mut i: usize = 0;
    proof {
        assert(groups@.map_values(|g: JoinableTable| group_view(g)) =~= group_rows_v(rows@.subrange(0, 0)));
    }
    while i < rows.len()
        invariant
            i <= rows@.len(),
            groups@.map_values(|g: JoinableTable| group_view(g)) == group_rows_v(rows@.subrange(0, i as int)),
        decreases rows@.len() - i,
    {
        let r = &rows[i];
        let ghost before = groups@.map_values(|g: JoinableTable| group_view(g));
        proof {
            let sub = rows@.subrange(0, i + 1);
            assert(sub.drop_last() =~= rows@.subrange(0, i as int));
            assert(sub.last() == rows@[i as int]);
        }
        match find_group(&groups, r.join_table.as_str()) {
            Some(k) => {
                proof {
                    lemma_group_index(before, r.join_table@);
                }
                let mut g = groups.remove(k);
                let ghost old_g = group_view(g);
                g.conditions.push(row_condition_exec(r));
                proof {
                    assert(group_view(g).conditions =~= old_g.conditions.push(row_condition(*r)));
                }
                groups.insert(k, g);
                proof {
                    assert(groups@.map_values(|x: JoinableTable| group_view(x)) =~= before.update(
                        k as int,
                        GroupV { conditions: before[k as int].conditions.push(row_condition(*r)), ..before[k as int] },
                    ));
                }
            },
            None => {
                let g = JoinableTable {
                    table: r.join_table.clone(),
                    distance: r.distance,
                    conditions: vec![row_condition_exec(r)],
                };
                proof {
                    assert(group_view(g).conditions =~= seq![row_condition(*r)]);
                }
                groups.push(g);
                proof {
                    assert(groups@.map_values(|x: JoinableTable| group_view(x)) =~= before.push(group_view(g)));
                }
            },
        }
        i = i + 1;
    }
    proof {
        assert(rows@.subrange(0, rows@.len() as int) =~= rows@);
    }
    let ghost all = groups@.map_values(|g: JoinableTable| group_view(g));
    if groups.len() > limit {
        groups.truncate(limit);
        proof {
            assert(groups@.map_values(|g: JoinableTable| group_view(g)) =~= all.subrange(0, limit as int));
        }
    }
    groups
}

/// The relation part of a possibly schema-qualified name.
pub open spec fn relation_of(fq: Seq<char>) -> Seq<char> {
    split_schema_rel_v(fq).1
}

/// The relation part of a possibly schema-qualified name.
pub fn relation_name(fq: &str) -> (r: String)
    ensures
        r@ == relation_of(fq@),
{
    match split_schema_rel(fq) {
        Some((_, rel)) => rel,
        None => fq.to_owned(),
    }
}

/// A column the similarity service ranked, with its type.
#[derive(Debug)]
pub struct TypedColumn {
    pub column: String,
    pub table: String,
    pub column_type: String,
    pub distance: u64,
}

pub open spec fn typed_key(t: TypedColumn) -> (Seq<char>, Seq<char>, u64) {
    (t.column@, t.table@, t.distance)
}

/// The rows whose type is among `compatible` (all rows when pruning is
/// off), in the service's order.
pub open spec fn filter_typed_v(rows: Seq<TypedColumn>, compatible: Seq<Seq<char>>, pruning: bool) -> Seq<(Seq<char>, Seq<char>, u64)>
    decreases rows.len(),
{
    if rows.len() == 0 {
        Seq::empty()
    } else {
        let rest = filter_typed_v(rows.drop_last(), compatible, pruning);
        if !pruning || compatible.contains(rows.last().column_type@) {
            rest.push(typed_key(rows.last()))
        } else {
            rest
        }
    }
}

/// The first `k` elements of `s` (all of them when there are fewer).
pub open spec fn take_v<A>(s: Seq<A>, k: nat) -> Seq<A> {
    if s.len() > k {
        s.subrange(0, k as int)
    } else {
        s
    }
}

fn contains_text(v: &Vec<String>, t: &str) -> (r: bool)
    ensures
        r == strings_view(v@).contains(t@),
{
    let ghost sv = strings_view(v@);
    let mut i: usize = 0;
    while i < v.len()
        invariant
            i <= v@.len(),
            sv == strings_view(v@),
            forall|k: int| 0 <= k < i ==> sv[k] != t@,
        decreases v@.len() - i,
    {
        if crate::parser::same_text(v[i].as_str(), t) {
            proof {
                assert(sv[i as int] == t@);
            }
            return true;
        }
        i = i + 1;
    }
    false
}

/// Columns that may replace an operand (or an argument): with pruning on,
/// only those whose type is in `compatible`; the service's order kept; at
/// most `top_k`.
pub fn compatible_columns(rows: &Vec<TypedColumn>, compatible: &Vec<String>, type_pruning: bool, top_k: usize) -> (r: Vec<SimilarColumn>)
    ensures
        r@.map_values(|c: SimilarColumn| column_key(c)) == take_v(
            filter_typed_v(rows@, strings_view(compatible@), type_pruning),
            top_k as nat,
        ),
{
    let ghost cv = strings_view(compatible@);
    let mut r: Vec<SimilarColumn> = Vec::new();
    let mut i: usize = 0;
    proof {
        assert(r@.map_values(|c: SimilarColumn| column_key(c)) =~= filter_typed_v(rows@.subrange(0, 0), cv, type_pruning));
    }
    while i < rows.len()
        invariant
            i <= rows@.len(),
            cv == strings_view(compatible@),
            r@.map_values(|c: SimilarColumn| column_key(c)) == filter_typed_v(rows@.subrange(0, i as int), cv, type_pruning),
        decreases rows@.len() - i,
    {
        let t = &rows[i];
        proof {
            let p = rows@.subrange(0, i + 1);
            assert(p.drop_last() =~= rows@.subrange(0, i as int));
            assert(p.last() == rows@[i as int]);
        }
        if !type_pruning || contains_text(compatible, t.column_type.as_str()) {
            let ghost before = r@;
            r.push(SimilarColumn { column: t.column.clone(), table: t.table.clone(), distance: t.distance });
            proof {
                assert(r@.map_values(|c: SimilarColumn| column_key(c)) =~= before.map_values(|c: SimilarColumn| column_key(c)).push(typed_key(*t)));
            }
        }
        i = i + 1;
    }
    proof {
        assert(rows@.subrange(0, rows@.len() as int) =~= rows@);
    }
    let ghost all = r@;
    if r.len() > top_k {
        r.truncate(top_k);
        proof {
            assert(r@.map_values(|c: SimilarColumn| column_key(c)) =~= all.map_values(|c: SimilarColumn| column_key(c)).subrange(0, top_k as int));
        }
    }
    r
}

/// The query that embeds the words of the identifier `name`.
pub open spec fn vector_query_v(name: Seq<char>) -> Seq<char> {
    VECTOR_QUERY_HEAD@ + escape_v(join_spaces(pieces(name, '_'))) + VECTOR_QUERY_TAIL@
}

/// The query that embeds the words of the identifier `name`, as column `v`.
pub fn vector_query_for(name: &str) -> (r: String)
    ensures
        r@ == vector_query_v(name@),
{
    let terms = prepare_search_terms(name);
    create_combined_vector_query(&terms)
}

pub const WITH_VECTOR_HEAD: &'static str = "\n        WITH q AS (\n            ";

/// Tables nearest to the embedded name; `$1` is the number of rows.
pub const TABLES_BODY: &'static str = "\n        )\n        SELECT\n            schemaname || '.' || tablename AS fqname,\n            (embedding <=> q.v) AS distance\n        FROM pg_vector_tables, q\n        WHERE schemaname = ANY (current_schemas(false))\n        ORDER BY distance\n        LIMIT $1\n    ";

/// Columns nearest to the embedded name, confined to table `$1` where the
/// catalog has it; `$2` is the name, which `$3` excludes when true.
pub const COLUMNS_IN_TABLE_HEAD: &'static str = "\n        ),\n        check_table AS (\n            SELECT EXISTS (\n                SELECT 1\n                FROM pg_vector_fields\n                WHERE schemaname = ANY (current_schemas(false))\n                  AND tablename = $1\n            ) AS has_table\n        )\n        SELECT\n            f.fieldname,\n            f.tablename,\n            f.fieldtype,\n            (f.embedding <=> q.v) AS distance\n        FROM pg_vector_fields f, q, check_table c\n        WHERE f.schemaname = ANY (current_schemas(false))\n          AND ( $3::bool = false OR f.fieldname <> $2 )\n          AND (\n                (c.has_table AND f.tablename = $1)\n                OR (NOT c.has_table)\n          )\n          ";

/// Columns nearest to the embedded name in any table; `$1` is the name,
/// which `$2` excludes when true.
pub const COLUMNS_ANY_HEAD: &'static str = "\n        )\n        SELECT\n            f.fieldname,\n            f.tablename,\n            f.fieldtype,\n            (f.embedding <=> q.v) AS distance\n        FROM pg_vector_fields f, q\n        WHERE f.schemaname = ANY (current_schemas(false))\n          AND ( $2::bool = false OR f.fieldname <> $1 )\n          ";

/// Ordering of the table-confined column query; `$4` is the number of rows.
pub const COLUMNS_IN_TABLE_TAIL: &'static str = "\n        ORDER BY distance\n        LIMIT $4\n    ";

/// Ordering of the catalog-wide column query; `$3` is the number of rows.
pub const COLUMNS_ANY_TAIL: &'static str = "\n        ORDER BY distance\n        LIMIT $3\n    ";

pub const TYPE_FILTER_HEAD: &'static str = "AND f.fieldtype = ANY(ARRAY[";
pub const TYPE_FILTER_TAIL: &'static str = "])";

/// `t` as an SQL string literal.
pub open spec fn quoted_v(t: Seq<char>) -> Seq<char> {
    seq!['\''] + escape_v(t) + seq!['\'']
}

/// The clause that keeps the columns of the given types; nothing when no
/// type is given.
pub open spec fn type_filter_v(types: Seq<Seq<char>>) -> Seq<char> {
    if types.len() == 0 {
        Seq::empty()
    } else {
        TYPE_FILTER_HEAD@ + crate::tree::join_with(Seq::new(types.len(), |k: int| quoted_v(types[k])), ","@)
            + TYPE_FILTER_TAIL@
    }
}

fn quoted(t: &str) -> (r: String)
    ensures
        r@ == quoted_v(t@),
{
    let q = "'";
    proof {
        reveal_strlit("'");
        assert(q@ =~= seq!['\'']);
    }
    let mut r = q.to_owned();
    r.append(escape_sql_literal(t).as_str());
    r.append(q);
    r
}

/// The type filter of a column query (see `type_filter_v`).
pub fn type_filter_clause(types: &Vec<String>) -> (r: String)
    ensures
        r@ == type_filter_v(strings_view(types@)),
{
    let mut out = String::new();
    if types.len() == 0 {
        proof {
            assert(out@ =~= type_filter_v(strings_view(types@)));
        }
        return out;
    }
    out.append(TYPE_FILTER_HEAD);
    let ghost prefix = out@;
    let ghost parts = Seq::new(types@.len(), |k: int| quoted_v(types@[k]@));
    proof {
        assert(parts.subrange(0, 0) =~= Seq::<Seq<char>>::empty());
        assert(prefix + Seq::<char>::empty() =~= prefix);
    }
    let mut i: usize = 0;
    while i < types.len()
        invariant
            i <= types@.len(),
            parts == Seq::new(types@.len(), |k: int| quoted_v(types@[k]@)),
            out@ == prefix + crate::tree::join_with(parts.subrange(0, i as int), ","@),
        decreases types@.len() - i,
    {
        let part = quoted(types[i].as_str());
        crate::tree::append_joined(&mut out, i, part.as_str(), ",", Ghost(parts), Ghost(prefix));
        i = i + 1;
    }
    out.append(TYPE_FILTER_TAIL);
    proof {
        assert(parts.subrange(0, parts.len() as int) =~= parts);
        assert(parts =~= Seq::new(strings_view(types@).len(), |k: int| quoted_v(strings_view(types@)[k])));
        assert(out@ =~= type_filter_v(strings_view(types@)));
    }
    out
}

/// The query for the tables nearest to `name`.
pub fn table_similarity_sql(name: &str) -> (r: String)
    ensures
        r@ == WITH_VECTOR_HEAD@ + vector_query_v(name@) + TABLES_BODY@,
{
    let mut r = WITH_VECTOR_HEAD.to_owned();
    r.append(vector_query_for(name).as_str());
    r.append(TABLES_BODY);
    r
}

/// The query for the columns nearest to `name` (confined to a table when
/// `in_table`), keeping only `types` when any are given, nearest first.
pub fn column_similarity_sql(name: &str, in_table: bool, types: &Vec<String>) -> (r: String)
    ensures
        r@ == WITH_VECTOR_HEAD@ + vector_query_v(name@) + (if in_table {
            COLUMNS_IN_TABLE_HEAD@
        } else {
            COLUMNS_ANY_HEAD@
        }) + type_filter_v(strings_view(types@)) + (if in_table {
            COLUMNS_IN_TABLE_TAIL@
        } else {
            COLUMNS_ANY_TAIL@
        }),
{
    let mut r = WITH_VECTOR_HEAD.to_owned();
    r.append(vector_query_for(name).as_str());
    if in_table {
        r.append(COLUMNS_IN_TABLE_HEAD);
    } else {
        r.append(COLUMNS_ANY_HEAD);
    }
    r.append(type_filter_clause(types).as_str());
    if in_table {
        r.append(COLUMNS_IN_TABLE_TAIL);
    } else {
        r.append(COLUMNS_ANY_TAIL);
    }
    r
}

} // verus!
