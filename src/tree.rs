//! The SQL `SELECT` tree that the repair search edits, its model, its
//! canonical serialization and its deep copy.

use vstd::prelude::*;

verus! {

/// A column reference: one field when unqualified, the qualifier first when
/// qualified. `location` is the byte offset in the statement text, or -1.
#[derive(Debug)]
pub struct ColumnRef {
    pub fields: Vec<String>,
    pub location: i32,
}

/// An expression node of the shapes that the repairs touch.
#[derive(Debug)]
pub enum Expr {
    Column(ColumnRef),
    /// A string constant, without quotes.
    Text(String, i32),
    /// A numeric constant as written.
    Number(String, i32),
    /// `*` in a select list.
    Star,
    /// A binary operator application.
    Op(String, Box<Expr>, Box<Expr>, i32),
    And(Box<Expr>, Box<Expr>),
    Or(Box<Expr>, Box<Expr>),
    Not(Box<Expr>),
    /// A function call: name, arguments, location.
    Call(String, Vec<Expr>, i32),
    /// `CAST(arg AS type)`.
    Cast(Box<Expr>, String),
}

/// An entry of the `FROM` list: a table and the alias it was given.
#[derive(Debug)]
pub struct TableInfo {
    pub table_name: String,
    pub alias: Option<String>,
}

/// `c` with ASCII upper case folded to lower case, as a code point.
pub open spec fn fold_char(c: char) -> u32 {
    if 'A' <= c && c <= 'Z' {
        (c as u32 + 32) as u32
    } else {
        c as u32
    }
}

/// `a` and `b` are the same identifier, up to ASCII case.
pub open spec fn same_name(a: Seq<char>, b: Seq<char>) -> bool {
    a.len() == b.len() && forall|i: int| 0 <= i < a.len() ==> fold_char(#[trigger] a[i]) == fold_char(b[i])
}

fn fold_char_exec(c: char) -> (r: u32)
    ensures
        r == fold_char(c),
{
    if 'A' <= c && c <= 'Z' {
        c as u32 + 32
    } else {
        c as u32
    }
}

/// Whether `a` and `b` are the same identifier, up to ASCII case.
pub fn same_name_exec(a: &str, b: &str) -> (r: bool)
    ensures
        r == same_name(a@, b@),
{
    let n = a.unicode_len();
    if n != b.unicode_len() {
        return false;
    }
    let mut i: usize = 0;
    while i < n
        invariant
            n == a@.len(),
            n == b@.len(),
            i <= n,
            forall|k: int| 0 <= k < i ==> fold_char(#[trigger] a@[k]) == fold_char(b@[k]),
        decreases n - i,
    {
        if fold_char_exec(a.get_char(i)) != fold_char_exec(b.get_char(i)) {
            return false;
        }
        i = i + 1;
    }
    true
}

/// The name by which the rest of a statement refers to a `FROM` entry.
pub open spec fn reference_name(t: TableV) -> Seq<char> {
    match t.alias {
        Some(a) => a,
        None => t.table_name,
    }
}

impl TableInfo {
    pub fn new(table_name: String, alias: Option<String>) -> (r: TableInfo)
        ensures
            r.table_name == table_name,
            r.alias == alias,
    {
        TableInfo { table_name, alias }
    }

    /// The alias if there is one, else the table name.
    pub fn get_reference_name(&self) -> (r: &str)
        ensures
            r@ == reference_name(self@),
    {
        match &self.alias {
            Some(a) => a.as_str(),
            None => self.table_name.as_str(),
        }
    }
}

/// A `SELECT` statement.
#[derive(Debug)]
pub struct Select {
    pub targets: Vec<Expr>,
    pub from: Vec<TableInfo>,
    pub where_clause: Option<Expr>,
}

pub struct ColumnV {
    pub fields: Seq<Seq<char>>,
    pub location: i32,
}

/// Model of an [`Expr`].
pub enum ExprV {
    Column(ColumnV),
    Text(Seq<char>, i32),
    Number(Seq<char>, i32),
    Star,
    Op(Seq<char>, Box<ExprV>, Box<ExprV>, i32),
    And(Box<ExprV>, Box<ExprV>),
    Or(Box<ExprV>, Box<ExprV>),
    Not(Box<ExprV>),
    Call(Seq<char>, Seq<ExprV>, i32),
    Cast(Box<ExprV>, Seq<char>),
}

pub struct TableV {
    pub table_name: Seq<char>,
    pub alias: Option<Seq<char>>,
}

/// Model of a [`Select`].
pub struct SelectV {
    pub targets: Seq<ExprV>,
    pub from: Seq<TableV>,
    pub where_clause: Option<ExprV>,
}

pub open spec fn strings_view(v: Seq<String>) -> Seq<Seq<char>> {
    v.map_values(|s: String| s@)
}

impl View for ColumnRef {
    type V = ColumnV;

    open spec fn view(&self) -> ColumnV {
        ColumnV { fields: strings_view(self.fields@), location: self.location }
    }
}

impl View for TableInfo {
    type V = TableV;

    open spec fn view(&self) -> TableV {
        TableV {
            table_name: self.table_name@,
            alias: match self.alias {
                Some(a) => Some(a@),
                None => None,
            },
        }
    }
}

pub open spec fn exprs_v(v: Seq<Expr>) -> Seq<ExprV>
    decreases v,
{
    if v.len() == 0 {
        Seq::empty()
    } else {
        exprs_v(v.drop_last()).push(expr_v(v.last()))
    }
}

pub open spec fn expr_v(e: Expr) -> ExprV
    decreases e,
{
    match e {
        Expr::Column(c) => ExprV::Column(c@),
        Expr::Text(s, l) => ExprV::Text(s@, l),
        Expr::Number(s, l) => ExprV::Number(s@, l),
        Expr::Star => ExprV::Star,
        Expr::Op(n, a, b, l) => ExprV::Op(n@, Box::new(expr_v(*a)), Box::new(expr_v(*b)), l),
        Expr::And(a, b) => ExprV::And(Box::new(expr_v(*a)), Box::new(expr_v(*b))),
        Expr::Or(a, b) => ExprV::Or(Box::new(expr_v(*a)), Box::new(expr_v(*b))),
        Expr::Not(a) => ExprV::Not(Box::new(expr_v(*a))),
        Expr::Call(n, args, l) => ExprV::Call(n@, exprs_v(args@), l),
        Expr::Cast(a, t) => ExprV::Cast(Box::new(expr_v(*a)), t@),
    }
}

impl View for Expr {
    type V = ExprV;

    open spec fn view(&self) -> ExprV {
        expr_v(*self)
    }
}

impl View for Select {
    type V = SelectV;

    open spec fn view(&self) -> SelectV {
        SelectV {
            targets: exprs_v(self.targets@),
            from: self.from@.map_values(|t: TableInfo| t@),
            where_clause: match self.where_clause {
                Some(w) => Some(expr_v(w)),
                None => None,
            },
        }
    }
}

pub proof fn lemma_exprs_v(v: Seq<Expr>)
    ensures
        exprs_v(v).len() == v.len(),
        forall|k: int| 0 <= k < v.len() ==> #[trigger] exprs_v(v)[k] == expr_v(v[k]),
    decreases v.len(),
{
    if v.len() > 0 {
        lemma_exprs_v(v.drop_last());
    }
}

fn copy_string(s: &String) -> (r: String)
    ensures
        r@ == s@,
{
    s.clone()
}

fn copy_strings(v: &Vec<String>) -> (r: Vec<String>)
    ensures
        strings_view(r@) == strings_view(v@),
{
    let mut r: Vec<String> = Vec::new();
    let mut i: usize = 0;
    while i < v.len()
        invariant
            i <= v@.len(),
            r@.len() == i,
            forall|k: int| 0 <= k < i ==> r@[k]@ == v@[k]@,
        decreases v@.len() - i,
    {
        r.push(copy_string(&v[i]));
        i = i + 1;
    }
    proof {
        assert(strings_view(r@) =~= strings_view(v@));
    }
    r
}

/// An independent copy of `e`, sharing no storage with it.
pub fn copy_expr(e: &Expr) -> (r: Expr)
    ensures
        r@ == e@,
    decreases e,
{
    match e {
        Expr::Column(c) => Expr::Column(
            ColumnRef { fields: copy_strings(&c.fields), location: c.location },
        ),
        Expr::Text(s, l) => Expr::Text(copy_string(s), *l),
        Expr::Number(s, l) => Expr::Number(copy_string(s), *l),
        Expr::Star => Expr::Star,
        Expr::Op(n, a, b, l) => Expr::Op(
            copy_string(n),
            Box::new(copy_expr(a)),
            Box::new(copy_expr(b)),
            *l,
        ),
        Expr::And(a, b) => Expr::And(Box::new(copy_expr(a)), Box::new(copy_expr(b))),
        Expr::Or(a, b) => Expr::Or(Box::new(copy_expr(a)), Box::new(copy_expr(b))),
        Expr::Not(a) => Expr::Not(Box::new(copy_expr(a))),
        Expr::Call(n, args, l) => Expr::Call(copy_string(n), copy_exprs(args), *l),
        Expr::Cast(a, t) => Expr::Cast(Box::new(copy_expr(a)), copy_string(t)),
    }
}

pub fn copy_exprs(v: &Vec<Expr>) -> (r: Vec<Expr>)
    ensures
        exprs_v(r@) == exprs_v(v@),
    decreases v,
{
    let mut r: Vec<Expr> = Vec::new();
    let mut i: usize = 0;
    while i < v.len()
        invariant
            i <= v@.len(),
            exprs_v(r@) == exprs_v(v@.subrange(0, i as int)),
        decreases v@.len() - i,
    {
        proof {
            assert(decreases_to!(v => v@[i as int]));
        }
        let e = copy_expr(&v[i]);
        proof {
            assert(v@.subrange(0, i + 1).drop_last() =~= v@.subrange(0, i as int));
            assert(r@.push(e).drop_last() =~= r@);
        }
        r.push(e);
        i = i + 1;
    }
    proof {
        assert(v@.subrange(0, v@.len() as int) =~= v@);
    }
    r
}

fn copy_opt_string(s: &Option<String>) -> (r: Option<String>)
    ensures
        match (r, *s) {
            (Some(a), Some(b)) => a@ == b@,
            (None, None) => true,
            _ => false,
        },
{
    match s {
        Some(a) => Some(copy_string(a)),
        None => None,
    }
}

/// An independent copy of `t`, sharing no storage with it.
pub fn deep_copy(t: &Select) -> (r: Select)
    ensures
        r@ == t@,
{
    let targets = copy_exprs(&t.targets);
    let mut from: Vec<TableInfo> = Vec::new();
    let mut i: usize = 0;
    while i < t.from.len()
        invariant
            i <= t.from@.len(),
            from@.len() == i,
            forall|k: int| 0 <= k < i ==> #[trigger] from@[k]@ == t.from@[k]@,
        decreases t.from@.len() - i,
    {
        let tr = &t.from[i];
        from.push(TableInfo { table_name: copy_string(&tr.table_name), alias: copy_opt_string(&tr.alias) });
        i = i + 1;
    }
    let where_clause = match &t.where_clause {
        Some(w) => Some(copy_expr(w)),
        None => None,
    };
    let r = Select { targets, from, where_clause };
    proof {
        assert(r.from@.map_values(|x: TableInfo| x@) =~= t.from@.map_values(|x: TableInfo| x@));
    }
    r
}

/// `parts` joined with `sep` between neighbours.
pub open spec fn join_with(parts: Seq<Seq<char>>, sep: Seq<char>) -> Seq<char>
    decreases parts.len(),
{
    if parts.len() == 0 {
        Seq::empty()
    } else if parts.len() == 1 {
        parts[0]
    } else {
        join_with(parts.drop_last(), sep) + sep + parts.last()
    }
}

pub open spec fn ser_exprs(v: Seq<ExprV>) -> Seq<Seq<char>>
    decreases v,
{
    if v.len() == 0 {
        Seq::empty()
    } else {
        ser_exprs(v.drop_last()).push(ser_expr(v.last()))
    }
}

/// Canonical text of an expression.
pub open spec fn ser_expr(e: ExprV) -> Seq<char>
    decreases e,
{
    match e {
        ExprV::Column(c) => join_with(c.fields, "."@),
        ExprV::Text(s, _) => "'"@ + s + "'"@,
        ExprV::Number(s, _) => s,
        ExprV::Star => "*"@,
        ExprV::Op(n, a, b, _) => "("@ + ser_expr(*a) + " "@ + n + " "@ + ser_expr(*b) + ")"@,
        ExprV::And(a, b) => "("@ + ser_expr(*a) + " AND "@ + ser_expr(*b) + ")"@,
        ExprV::Or(a, b) => "("@ + ser_expr(*a) + " OR "@ + ser_expr(*b) + ")"@,
        ExprV::Not(a) => "(NOT "@ + ser_expr(*a) + ")"@,
        ExprV::Call(n, args, _) => n + "("@ + join_with(ser_exprs(args), ", "@) + ")"@,
        ExprV::Cast(a, t) => "CAST("@ + ser_expr(*a) + " AS "@ + t + ")"@,
    }
}

pub open spec fn ser_table(t: TableV) -> Seq<char> {
    match t.alias {
        Some(a) => t.table_name + " "@ + a,
        None => t.table_name,
    }
}

/// Canonical text of a statement: the key of the search's visited set.
pub open spec fn ser_select(s: SelectV) -> Seq<char> {
    "SELECT "@ + join_with(ser_exprs(s.targets), ", "@) + " FROM "@ + join_with(
        s.from.map_values(|t: TableV| ser_table(t)),
        ", "@,
    ) + match s.where_clause {
        Some(w) => " WHERE "@ + ser_expr(w),
        None => Seq::empty(),
    }
}

proof fn lemma_ser_exprs_len(v: Seq<ExprV>)
    ensures
        ser_exprs(v).len() == v.len(),
        forall|k: int| 0 <= k < v.len() ==> #[trigger] ser_exprs(v)[k] == ser_expr(v[k]),
    decreases v.len(),
{
    if v.len() > 0 {
        lemma_ser_exprs_len(v.drop_last());
    }
}

/// Appends `parts[i]`, preceded by `sep` unless it is the first.
pub(crate) fn append_joined(out: &mut String, i: usize, part: &str, sep: &str, Ghost(parts): Ghost<
    Seq<Seq<char>>,
>, Ghost(prefix): Ghost<Seq<char>>)
    requires
        i < parts.len(),
        part@ == parts[i as int],
        old(out)@ == prefix + join_with(parts.subrange(0, i as int), sep@),
    ensures
        final(out)@ == prefix + join_with(parts.subrange(0, i + 1), sep@),
{
    let ghost sub = parts.subrange(0, i + 1);
    assert(sub.drop_last() =~= parts.subrange(0, i as int));
    if i > 0 {
        out.append(sep);
    }
    out.append(part);
    proof {
        if i == 0 {
            assert(parts.subrange(0, 0) =~= Seq::<Seq<char>>::empty());
        }
        assert(final(out)@ =~= prefix + join_with(sub, sep@));
    }
}

fn write_column(out: &mut String, c: &ColumnRef)
    ensures
        final(out)@ == old(out)@ + join_with(c@.fields, "."@),
{
    let ghost prefix = old(out)@;
    let ghost parts = strings_view(c.fields@);
    proof {
        assert(parts.subrange(0, 0) =~= Seq::<Seq<char>>::empty());
        assert(prefix + Seq::<char>::empty() =~= prefix);
    }
    let mut i: usize = 0;
    while i < c.fields.len()
        invariant
            i <= c.fields@.len(),
            parts == strings_view(c.fields@),
            out@ == prefix + join_with(parts.subrange(0, i as int), "."@),
        decreases c.fields@.len() - i,
    {
        append_joined(out, i, c.fields[i].as_str(), ".", Ghost(parts), Ghost(prefix));
        i = i + 1;
    }
    proof {
        assert(parts.subrange(0, parts.len() as int) =~= parts);
    }
}

/// Appends the canonical text of `e` to `out`.
pub fn write_expr(out: &mut String, e: &Expr)
    ensures
        final(out)@ == old(out)@ + ser_expr(e@),
    decreases e,
{
    let ghost o = old(out)@;
    match e {
        Expr::Column(c) => write_column(out, c),
        Expr::Text(s, _) => {
            out.append("'");
            out.append(s.as_str());
            out.append("'");
            proof { assert(out@ =~= o + ser_expr(e@)); }
        },
        Expr::Number(s, _) => {
            out.append(s.as_str());
        },
        Expr::Star => {
            out.append("*");
        },
        Expr::Op(n, a, b, _) => {
            out.append("(");
            write_expr(out, a);
            out.append(" ");
            out.append(n.as_str());
            out.append(" ");
            write_expr(out, b);
            out.append(")");
            proof { assert(out@ =~= o + ser_expr(e@)); }
        },
        Expr::And(a, b) => {
            out.append("(");
            write_expr(out, a);
            out.append(" AND ");
            write_expr(out, b);
            out.append(")");
            proof { assert(out@ =~= o + ser_expr(e@)); }
        },
        Expr::Or(a, b) => {
            out.append("(");
            write_expr(out, a);
            out.append(" OR ");
            write_expr(out, b);
            out.append(")");
            proof { assert(out@ =~= o + ser_expr(e@)); }
        },
        Expr::Not(a) => {
            out.append("(NOT ");
            write_expr(out, a);
            out.append(")");
            proof { assert(out@ =~= o + ser_expr(e@)); }
        },
        Expr::Call(n, args, _) => {
            out.append(n.as_str());
            out.append("(");
            write_exprs(out, args);
            out.append(")");
            proof { assert(out@ =~= o + ser_expr(e@)); }
        },
        Expr::Cast(a, t) => {
            out.append("CAST(");
            write_expr(out, a);
            out.append(" AS ");
            out.append(t.as_str());
            out.append(")");
            proof { assert(out@ =~= o + ser_expr(e@)); }
        },
    }
}

/// Appends the canonical texts of `v`, separated by `", "`.
pub fn write_exprs(out: &mut String, v: &Vec<Expr>)
    ensures
        final(out)@ == old(out)@ + join_with(ser_exprs(exprs_v(v@)), ", "@),
    decreases v,
{
    let ghost prefix = old(out)@;
    let ghost parts = ser_exprs(exprs_v(v@));
    proof {
        lemma_exprs_v(v@);
        lemma_ser_exprs_len(exprs_v(v@));
        assert(parts.subrange(0, 0) =~= Seq::<Seq<char>>::empty());
        assert(prefix + Seq::<char>::empty() =~= prefix);
    }
    let mut i: usize = 0;
    while i < v.len()
        invariant
            i <= v@.len(),
            parts == ser_exprs(exprs_v(v@)),
            parts.len() == v@.len(),
            forall|k: int| 0 <= k < v@.len() ==> #[trigger] parts[k] == ser_expr(expr_v(v@[k])),
            out@ == prefix + join_with(parts.subrange(0, i as int), ", "@),
        decreases v@.len() - i,
    {
        proof {
            assert(decreases_to!(v => v@[i as int]));
        }
        let mut part = String::new();
        write_expr(&mut part, &v[i]);
        proof {
            assert(part@ =~= parts[i as int]);
        }
        append_joined(out, i, part.as_str(), ", ", Ghost(parts), Ghost(prefix));
        i = i + 1;
    }
    proof {
        assert(parts.subrange(0, parts.len() as int) =~= parts);
    }
}

/// The canonical text of `t`.
pub fn serialize(t: &Select) -> (r: String)
    ensures
        r@ == ser_select(t@),
{
    let mut out = String::new();
    out.append("SELECT ");
    write_exprs(&mut out, &t.targets);
    out.append(" FROM ");
    let ghost prefix = out@;
    let ghost parts = t@.from.map_values(|x: TableV| ser_table(x));
    proof {
        assert(parts.subrange(0, 0) =~= Seq::<Seq<char>>::empty());
        assert(prefix + Seq::<char>::empty() =~= prefix);
    }
    let mut i: usize = 0;
    while i < t.from.len()
        invariant
            i <= t.from@.len(),
            parts == t@.from.map_values(|x: TableV| ser_table(x)),
            out@ == prefix + join_with(parts.subrange(0, i as int), ", "@),
        decreases t.from@.len() - i,
    {
        let tr = &t.from[i];
        let mut part = String::new();
        part.append(tr.table_name.as_str());
        match &tr.alias {
            Some(a) => {
                part.append(" ");
                part.append(a.as_str());
            },
            None => {},
        }
        proof {
            assert(part@ =~= parts[i as int]);
        }
        append_joined(&mut out, i, part.as_str(), ", ", Ghost(parts), Ghost(prefix));
        i = i + 1;
    }
    proof {
        assert(parts.subrange(0, parts.len() as int) =~= parts);
    }
    match &t.where_clause {
        Some(w) => {
            out.append(" WHERE ");
            write_expr(&mut out, w);
        },
        None => {},
    }
    proof {
        assert(out@ =~= ser_select(t@));
    }
    out
}

/// Copying a statement keeps its canonical text.
pub proof fn lemma_copy_keeps_text(t: Select, c: Select)
    requires
        c@ == t@,
    ensures
        ser_select(c@) == ser_select(t@),
{
}

} // verus!
