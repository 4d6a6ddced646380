//! The error classifier: from an analyzer or executor error (code, message,
//! cursor) to the repair case it calls for, with its parameters.

use vstd::prelude::*;
use crate::catalog::{FunctionInfo, OperatorInfo};
use crate::generate::{strip, strip_exec};

verus! {

/// The capture groups (group 0 is the whole match) of the leftmost match of
/// the regular expression `pattern` in `text`; `None` where it does not
/// match or is not a valid expression.
pub uninterp spec fn captures_of(pattern: Seq<char>, text: Seq<char>) -> Option<Seq<Option<Seq<char>>>>;

pub open spec fn groups_view(v: Seq<Option<String>>) -> Seq<Option<Seq<char>>> {
    v.map_values(|g: Option<String>| match g {
        Some(s) => Some(s@),
        None => None,
    })
}

pub open spec fn caps_view(c: Option<Vec<Option<String>>>) -> Option<Seq<Option<Seq<char>>>> {
    match c {
        Some(v) => Some(groups_view(v@)),
        None => None,
    }
}

/// Relies on `regex::Regex::new` and `regex::Regex::captures` (regex 1.x):
/// compiles `pattern` and returns the groups of the leftmost match in
/// `text`, each as owned text; a pattern that does not compile matches
/// nothing.
#[verifier::external_body]
fn regex_captures(pattern: &str, text: &str) -> (r: Option<Vec<Option<String>>>)
    ensures
        caps_view(r) == captures_of(pattern@, text@),
{
    let re = regex::Regex::new(pattern).ok()?;
    re.captures(text).map(|c| c.iter().map(|m| m.map(|m| m.as_str().to_string())).collect())
}

pub const RELATION_MISSING: &'static str = r#"(?i)relation\s+"([^"]+)"\s+does\s+not\s+exist"#;
pub const FROM_ENTRY_MISSING: &'static str = r#"(?i)missing\s+FROM-clause\s+entry\s+for\s+table\s+"([^"]+)""#;
pub const COLUMN_OF_RELATION: &'static str = r#"(?i)column\s+"([^"]+)"\s+of\s+relation\s+"([^"]+)"\s+does\s+not\s+exist"#;
pub const COLUMN_QUALIFIED: &'static str = r#"(?i)column\s+([^.\s]+)\.([^.\s]+)\s+does\s+not\s+exist"#;
pub const COLUMN_QUOTED: &'static str = r#"(?i)column\s+"([^"]+)"\s+does\s+not\s+exist"#;
pub const COLUMN_QUALIFIED_WORDS: &'static str = r#"(?i)column\s+([^.\s]+)\.(.+?)\s+does\s+not\s+exist"#;
pub const COLUMN_WORDS: &'static str = r#"(?i)column\s+([^"]+?)\s+does\s+not\s+exist"#;
pub const FUNCTION_MISSING: &'static str = r#"(?i)function\s+(?:[^.]+\.)?([^(]+)\(([^)]*)\)\s+does\s+not\s+exist"#;
pub const AMBIGUOUS_REFERENCE: &'static str = r#"(?i)column\s+reference\s+"([^"]+)"\s+is\s+ambiguous"#;
pub const AMBIGUOUS_QUOTED: &'static str = r#"(?i)column\s+"([^"]+)"\s+is\s+ambiguous"#;
pub const AMBIGUOUS_NAME: &'static str = r#"(?i)ambiguous\s+column\s+name:\s*([^\s]+)"#;
pub const OPERATOR_MISSING: &'static str = r#"(?i)operator does not exist:\s*(\w+)\s*([^\s]+)\s*(\w+)"#;
pub const NO_EQUALITY: &'static str = r#"(?i)could not identify an equality operator for type\s+(\w+)"#;
pub const OPERATOR_NOT_UNIQUE: &'static str = r#"(?i)operator is not unique:"#;
pub const UNIT_UNKNOWN: &'static str = r#"(?i)unit\s+"([^"]+)"\s+not\s+recognized"#;
pub const FORMAT_INVALID: &'static str = r#"(?i)invalid\s+format\s+(?:string\s+)?"([^"]+)""#;

/// Group `k` of a match, if it matched and took part.
pub open spec fn group_v(c: Option<Seq<Option<Seq<char>>>>, k: int) -> Option<Seq<char>> {
    match c {
        Some(gs) => if 0 <= k < gs.len() {
            gs[k]
        } else {
            None
        },
        None => None,
    }
}

/// Group `k` of a match, if it matched and took part.
pub fn group(c: &Option<Vec<Option<String>>>, k: usize) -> (r: Option<String>)
    ensures
        match r {
            Some(s) => group_v(caps_view(*c), k as int) == Some(s@),
            None => group_v(caps_view(*c), k as int) is None,
        },
{
    match c {
        Some(gs) => {
            if k < gs.len() {
                match &gs[k] {
                    Some(s) => Some(s.clone()),
                    None => None,
                }
            } else {
                None
            }
        },
        None => None,
    }
}

pub open spec fn opt_view(o: Option<String>) -> Option<Seq<char>> {
    match o {
        Some(s) => Some(s@),
        None => None,
    }
}

/// The relation named by the first of two matches that matched.
pub open spec fn first_group_v(c1: Option<Seq<Option<Seq<char>>>>, c2: Option<Seq<Option<Seq<char>>>>, k: int) -> Option<Seq<char>> {
    if c1 is Some {
        group_v(c1, k)
    } else {
        group_v(c2, k)
    }
}

/// Group `k` of the first of two matches that matched.
pub fn first_group(c1: &Option<Vec<Option<String>>>, c2: &Option<Vec<Option<String>>>, k: usize) -> (r: Option<String>)
    ensures
        opt_view(r) == first_group_v(caps_view(*c1), caps_view(*c2), k as int),
{
    if c1.is_some() {
        group(c1, k)
    } else {
        group(c2, k)
    }
}

/// The relation that an "unknown relation" message names.
pub fn extract_missing_relation(errmsg: &str) -> (r: Option<String>)
    ensures
        opt_view(r) == first_group_v(
            captures_of(RELATION_MISSING@, errmsg@),
            captures_of(FROM_ENTRY_MISSING@, errmsg@),
            1,
        ),
{
    let c1 = regex_captures(RELATION_MISSING, errmsg);
    let c2 = regex_captures(FROM_ENTRY_MISSING, errmsg);
    first_group(&c1, &c2, 1)
}

/// The ambiguous column that a message names.
pub open spec fn ambiguous_v(c1: Option<Seq<Option<Seq<char>>>>, c2: Option<Seq<Option<Seq<char>>>>, c3: Option<Seq<Option<Seq<char>>>>) -> Option<Seq<char>> {
    if c1 is Some {
        group_v(c1, 1)
    } else if c2 is Some {
        group_v(c2, 1)
    } else {
        group_v(c3, 1)
    }
}

/// The column from the matches of the three "ambiguous column" forms.
pub fn ambiguous_from(
    c1: &Option<Vec<Option<String>>>,
    c2: &Option<Vec<Option<String>>>,
    c3: &Option<Vec<Option<String>>>,
) -> (r: Option<String>)
    ensures
        opt_view(r) == ambiguous_v(caps_view(*c1), caps_view(*c2), caps_view(*c3)),
{
    if c1.is_some() {
        group(c1, 1)
    } else if c2.is_some() {
        group(c2, 1)
    } else {
        group(c3, 1)
    }
}

/// The column that an "ambiguous column" message names.
pub fn extract_ambiguous_column(errmsg: &str) -> (r: Option<String>)
    ensures
        opt_view(r) == ambiguous_v(
            captures_of(AMBIGUOUS_REFERENCE@, errmsg@),
            captures_of(AMBIGUOUS_QUOTED@, errmsg@),
            captures_of(AMBIGUOUS_NAME@, errmsg@),
        ),
{
    let c1 = regex_captures(AMBIGUOUS_REFERENCE, errmsg);
    let c2 = regex_captures(AMBIGUOUS_QUOTED, errmsg);
    let c3 = regex_captures(AMBIGUOUS_NAME, errmsg);
    ambiguous_from(&c1, &c2, &c3)
}

/// The format literal that an executor "invalid parameter value" message
/// names.
pub fn extract_format_from_error(errmsg: &str) -> (r: Option<String>)
    ensures
        opt_view(r) == first_group_v(
            captures_of(UNIT_UNKNOWN@, errmsg@),
            captures_of(FORMAT_INVALID@, errmsg@),
            1,
        ),
{
    let c1 = regex_captures(UNIT_UNKNOWN, errmsg);
    let c2 = regex_captures(FORMAT_INVALID, errmsg);
    first_group(&c1, &c2, 1)
}

/// Whether a message reports an operator that does not fit its operands.
pub fn is_operator_type_error(message: &str) -> (r: bool)
    ensures
        r == (captures_of(OPERATOR_MISSING@, message@) is Some || captures_of(NO_EQUALITY@, message@) is Some
            || captures_of(OPERATOR_NOT_UNIQUE@, message@) is Some),
{
    regex_captures(OPERATOR_MISSING, message).is_some() || regex_captures(NO_EQUALITY, message).is_some()
        || regex_captures(OPERATOR_NOT_UNIQUE, message).is_some()
}

pub open spec fn operator_info_v(c1: Option<Seq<Option<Seq<char>>>>, c2: Option<Seq<Option<Seq<char>>>>) -> (Seq<char>, Option<Seq<char>>, Option<Seq<char>>) {
    if c1 is Some {
        (
            match group_v(c1, 2) {
                Some(op) => op,
                None => "="@,
            },
            group_v(c1, 1),
            group_v(c1, 3),
        )
    } else if c2 is Some {
        ("="@, group_v(c2, 1), group_v(c2, 1))
    } else {
        ("="@, None, None)
    }
}

/// The operator and operand types from the groups of the two operator
/// messages: `T1 op T2`, or `=` on one type, or `=` with no types.
pub fn operator_info_from(c1: &Option<Vec<Option<String>>>, c2: &Option<Vec<Option<String>>>) -> (r: OperatorInfo)
    ensures
        (r.operator_name@, opt_view(r.left_type), opt_view(r.right_type)) == operator_info_v(caps_view(*c1), caps_view(*c2)),
{
    if c1.is_some() {
        let operator_name = match group(c1, 2) {
            Some(op) => op,
            None => "=".to_owned(),
        };
        OperatorInfo { operator_name, left_type: group(c1, 1), right_type: group(c1, 3) }
    } else if c2.is_some() {
        OperatorInfo { operator_name: "=".to_owned(), left_type: group(c2, 1), right_type: group(c2, 1) }
    } else {
        OperatorInfo { operator_name: "=".to_owned(), left_type: None, right_type: None }
    }
}

/// The operator and operand types that an operator error names.
pub fn extract_operator_info_from_error(error_message: &str) -> (r: OperatorInfo)
    ensures
        (r.operator_name@, opt_view(r.left_type), opt_view(r.right_type)) == operator_info_v(
            captures_of(OPERATOR_MISSING@, error_message@),
            captures_of(NO_EQUALITY@, error_message@),
        ),
{
    let c1 = regex_captures(OPERATOR_MISSING, error_message);
    let c2 = regex_captures(NO_EQUALITY, error_message);
    operator_info_from(&c1, &c2)
}

pub type Caps = Option<Seq<Option<Seq<char>>>>;

/// The table (if named) and column that an "unknown column" message names,
/// from the matches of its five forms in order.
pub open spec fn column_from_v(c1: Caps, c2: Caps, c3: Caps, c4: Caps, c5: Caps) -> Option<(Option<Seq<char>>, Seq<char>)> {
    if c1 is Some {
        match group_v(c1, 1) {
            Some(col) => Some((group_v(c1, 2), col)),
            None => None,
        }
    } else if c2 is Some {
        match group_v(c2, 2) {
            Some(col) => Some((group_v(c2, 1), col)),
            None => None,
        }
    } else if c3 is Some {
        match group_v(c3, 1) {
            Some(col) => Some((None, col)),
            None => None,
        }
    } else if c4 is Some && group_v(c4, 2) is Some && strip(group_v(c4, 2)->0, false).len() > 0 {
        Some((group_v(c4, 1), strip(group_v(c4, 2)->0, false)))
    } else if c5 is Some && group_v(c5, 1) is Some && strip(group_v(c5, 1)->0, false).len() > 0
        && !strip(group_v(c5, 1)->0, false).contains('.') {
        Some((None, strip(group_v(c5, 1)->0, false)))
    } else {
        None
    }
}

pub open spec fn column_view(r: Option<(Option<String>, String)>) -> Option<(Option<Seq<char>>, Seq<char>)> {
    match r {
        Some((t, c)) => Some((opt_view(t), c@)),
        None => None,
    }
}

fn has_dot(s: &str) -> (r: bool)
    ensures
        r == s@.contains('.'),
{
    let n = s.unicode_len();
    let mut i: usize = 0;
    while i < n
        invariant
            n == s@.len(),
            i <= n,
            forall|k: int| 0 <= k < i ==> s@[k] != '.',
        decreases n - i,
    {
        if s.get_char(i) == '.' {
            return true;
        }
        i = i + 1;
    }
    false
}

fn stripped_group(c: &Option<Vec<Option<String>>>, k: usize) -> (r: Option<String>)
    ensures
        match r {
            Some(s) => group_v(caps_view(*c), k as int) is Some && s@ == strip(group_v(caps_view(*c), k as int)->0, false),
            None => group_v(caps_view(*c), k as int) is None,
        },
{
    match group(c, k) {
        Some(g) => Some(strip_exec(g.as_str(), false).to_owned()),
        None => None,
    }
}

/// The table and column from the matches of the five "unknown column"
/// forms.
pub fn column_from(
    c1: &Option<Vec<Option<String>>>,
    c2: &Option<Vec<Option<String>>>,
    c3: &Option<Vec<Option<String>>>,
    c4: &Option<Vec<Option<String>>>,
    c5: &Option<Vec<Option<String>>>,
) -> (r: Option<(Option<String>, String)>)
    ensures
        column_view(r) == column_from_v(caps_view(*c1), caps_view(*c2), caps_view(*c3), caps_view(*c4), caps_view(*c5)),
{
    if c1.is_some() {
        match group(c1, 1) {
            Some(col) => Some((group(c1, 2), col)),
            None => None,
        }
    } else if c2.is_some() {
        match group(c2, 2) {
            Some(col) => Some((group(c2, 1), col)),
            None => None,
        }
    } else if c3.is_some() {
        match group(c3, 1) {
            Some(col) => Some((None, col)),
            None => None,
        }
    } else {
        if c4.is_some() {
            match stripped_group(c4, 2) {
                Some(col) => {
                    if col.unicode_len() > 0 {
                        return Some((group(c4, 1), col));
                    }
                },
                None => {},
            }
        }
        if c5.is_some() {
            match stripped_group(c5, 1) {
                Some(col) => {
                    if col.unicode_len() > 0 && !has_dot(col.as_str()) {
                        return Some((None, col));
                    }
                },
                None => {},
            }
        }
        None
    }
}

/// The table (if named) and column that an "unknown column" message names.
pub fn extract_missing_column(errmsg: &str) -> (r: Option<(Option<String>, String)>)
    ensures
        column_view(r) == column_from_v(
            captures_of(COLUMN_OF_RELATION@, errmsg@),
            captures_of(COLUMN_QUALIFIED@, errmsg@),
            captures_of(COLUMN_QUOTED@, errmsg@),
            captures_of(COLUMN_QUALIFIED_WORDS@, errmsg@),
            captures_of(COLUMN_WORDS@, errmsg@),
        ),
{
    let c1 = regex_captures(COLUMN_OF_RELATION, errmsg);
    let c2 = regex_captures(COLUMN_QUALIFIED, errmsg);
    let c3 = regex_captures(COLUMN_QUOTED, errmsg);
    let c4 = regex_captures(COLUMN_QUALIFIED_WORDS, errmsg);
    let c5 = regex_captures(COLUMN_WORDS, errmsg);
    column_from(&c1, &c2, &c3, &c4, &c5)
}

/// Pieces of `s[0..i]` between commas: those already closed (stripped,
/// empty ones dropped) and where the open one starts.
pub open spec fn split_fold(s: Seq<char>, i: int) -> (Seq<Seq<char>>, int)
    decreases i,
{
    if i <= 0 {
        (Seq::empty(), 0)
    } else {
        let (done, start) = split_fold(s, i - 1);
        if s[i - 1] == ',' {
            (keep_piece(done, s.subrange(start, i - 1)), i)
        } else {
            (done, start)
        }
    }
}

pub open spec fn keep_piece(done: Seq<Seq<char>>, piece: Seq<char>) -> Seq<Seq<char>> {
    if strip(piece, false).len() > 0 {
        done.push(strip(piece, false))
    } else {
        done
    }
}

/// The comma-separated items of `s`, each stripped of blanks, empty ones
/// dropped.
pub open spec fn split_list(s: Seq<char>) -> Seq<Seq<char>> {
    let (done, start) = split_fold(s, s.len() as int);
    keep_piece(done, s.subrange(start, s.len() as int))
}

fn keep_piece_exec(done: &mut Vec<String>, s: &str, start: usize, end: usize)
    requires
        start <= end <= s@.len(),
    ensures
        final(done)@.map_values(|x: String| x@) == keep_piece(old(done)@.map_values(|x: String| x@), s@.subrange(start as int, end as int)),
{
    let piece = strip_exec(s.substring_char(start, end), false);
    if piece.unicode_len() > 0 {
        let ghost before = done@;
        done.push(piece.to_owned());
        proof {
            assert(done@.map_values(|x: String| x@) =~= before.map_values(|x: String| x@).push(piece@));
        }
    }
}

/// The comma-separated items of `s`, each stripped of blanks, empty ones
/// dropped.
pub fn split_arg_types(s: &str) -> (r: Vec<String>)
    ensures
        r@.map_values(|x: String| x@) == split_list(s@),
{
    let n = s.unicode_len();
    let mut done: Vec<String> = Vec::new();
    let mut start: usize = 0;
    let mut i: usize = 0;
    proof {
        assert(done@.map_values(|x: String| x@) =~= Seq::<Seq<char>>::empty());
    }
    while i < n
        invariant
            n == s@.len(),
            i <= n,
            start <= i,
            (done@.map_values(|x: String| x@), start as int) == split_fold(s@, i as int),
        decreases n - i,
    {
        if s.get_char(i) == ',' {
            keep_piece_exec(&mut done, s, start, i);
            start = i + 1;
        }
        i = i + 1;
    }
    keep_piece_exec(&mut done, s, start, n);
    done
}

pub open spec fn function_from_v(c: Caps) -> Option<(Seq<char>, Seq<Seq<char>>)> {
    match group_v(c, 1) {
        Some(name) => Some(
            (
                strip(name, false),
                match group_v(c, 2) {
                    Some(args) => split_list(args),
                    None => Seq::empty(),
                },
            ),
        ),
        None => None,
    }
}

/// The function name and argument types from the match of the "unknown
/// function" form.
pub fn function_from(c: &Option<Vec<Option<String>>>) -> (r: Option<(String, Vec<String>)>)
    ensures
        match r {
            Some((name, args)) => function_from_v(caps_view(*c)) == Some((name@, args@.map_values(|x: String| x@))),
            None => function_from_v(caps_view(*c)) is None,
        },
{
    match stripped_group(c, 1) {
        Some(name) => {
            let args = match group(c, 2) {
                Some(a) => split_arg_types(a.as_str()),
                None => {
                    let v: Vec<String> = Vec::new();
                    proof {
                        assert(v@.map_values(|x: String| x@) =~= Seq::<Seq<char>>::empty());
                    }
                    v
                },
            };
            Some((name, args))
        },
        None => None,
    }
}

/// The function and argument types that an "unknown function" message names.
pub fn extract_missing_function(errmsg: &str) -> (r: Option<(String, Vec<String>)>)
    ensures
        match r {
            Some((name, args)) => function_from_v(captures_of(FUNCTION_MISSING@, errmsg@)) == Some((name@, args@.map_values(|x: String| x@))),
            None => function_from_v(captures_of(FUNCTION_MISSING@, errmsg@)) is None,
        },
{
    let c = regex_captures(FUNCTION_MISSING, errmsg);
    function_from(&c)
}

/// The analyzer and executor error codes that lead to a repair.
#[derive(Debug, Clone, Copy, PartialEq, Eq, Structural)]
pub enum ErrorCode {
    UndefinedTable,
    UndefinedColumn,
    UndefinedFunction,
    AmbiguousColumn,
    InvalidParameterValue,
    Other,
}

/// The function and argument types that an "unknown function" message
/// names; the name `unknown` and no types where it names none.
pub fn extract_function_info_from_error(error_message: &str) -> (r: FunctionInfo)
    ensures
        match function_from_v(captures_of(FUNCTION_MISSING@, error_message@)) {
            Some((n, a)) => r.function_name@ == n && r.arg_types@.map_values(|x: String| x@) == a,
            None => r.function_name@ == "unknown"@ && r.arg_types@.len() == 0,
        },
{
    match extract_missing_function(error_message) {
        Some((function_name, arg_types)) => FunctionInfo { function_name, arg_types },
        None => FunctionInfo { function_name: "unknown".to_owned(), arg_types: Vec::new() },
    }
}

/// What an analyzer error calls for.
#[derive(Debug)]
pub enum RepairCase {
    /// An unknown relation.
    UnknownRelation(String),
    /// An unknown column, with the table that qualified it, if any.
    UnknownColumn(Option<String>, String),
    /// An unknown function (name and argument types) at the cursor.
    UnknownFunction(String, Vec<String>, i32),
    /// An operator that does not fit its operands, at the cursor.
    OperatorMismatch(OperatorInfo, i32),
    /// An ambiguous column reference.
    AmbiguousColumn(String),
    /// No repair is proposed; the search goes on with what is queued.
    NoRepair,
}

pub enum CaseV {
    UnknownRelation(Seq<char>),
    UnknownColumn(Option<Seq<char>>, Seq<char>),
    UnknownFunction(Seq<char>, Seq<Seq<char>>, i32),
    OperatorMismatch((Seq<char>, Option<Seq<char>>, Option<Seq<char>>), i32),
    AmbiguousColumn(Seq<char>),
    NoRepair,
}

impl View for RepairCase {
    type V = CaseV;

    open spec fn view(&self) -> CaseV {
        match self {
            RepairCase::UnknownRelation(r) => CaseV::UnknownRelation(r@),
            RepairCase::UnknownColumn(t, c) => CaseV::UnknownColumn(opt_view(*t), c@),
            RepairCase::UnknownFunction(n, a, p) => CaseV::UnknownFunction(n@, a@.map_values(|x: String| x@), *p),
            RepairCase::OperatorMismatch(o, p) => CaseV::OperatorMismatch(
                (o.operator_name@, opt_view(o.left_type), opt_view(o.right_type)),
                *p,
            ),
            RepairCase::AmbiguousColumn(c) => CaseV::AmbiguousColumn(c@),
            RepairCase::NoRepair => CaseV::NoRepair,
        }
    }
}

/// The repair case of an analyzer error with code `code`, message `m` and
/// cursor `cursor`.
pub open spec fn classify_v(code: ErrorCode, m: Seq<char>, cursor: Option<i32>) -> CaseV {
    match code {
        ErrorCode::UndefinedTable => match first_group_v(captures_of(RELATION_MISSING@, m), captures_of(FROM_ENTRY_MISSING@, m), 1) {
            Some(r) => CaseV::UnknownRelation(r),
            None => CaseV::NoRepair,
        },
        ErrorCode::UndefinedColumn => match column_from_v(
            captures_of(COLUMN_OF_RELATION@, m),
            captures_of(COLUMN_QUALIFIED@, m),
            captures_of(COLUMN_QUOTED@, m),
            captures_of(COLUMN_QUALIFIED_WORDS@, m),
            captures_of(COLUMN_WORDS@, m),
        ) {
            Some((t, c)) => CaseV::UnknownColumn(t, c),
            None => CaseV::NoRepair,
        },
        ErrorCode::UndefinedFunction => match (function_from_v(captures_of(FUNCTION_MISSING@, m)), cursor) {
            (Some((n, a)), Some(p)) => CaseV::UnknownFunction(n, a, p),
            (Some(_), None) => CaseV::NoRepair,
            (None, _) => if (captures_of(OPERATOR_MISSING@, m) is Some || captures_of(NO_EQUALITY@, m) is Some
                || captures_of(OPERATOR_NOT_UNIQUE@, m) is Some) && cursor is Some {
                CaseV::OperatorMismatch(
                    operator_info_v(captures_of(OPERATOR_MISSING@, m), captures_of(NO_EQUALITY@, m)),
                    cursor->0,
                )
            } else {
                CaseV::NoRepair
            },
        },
        ErrorCode::AmbiguousColumn => match ambiguous_v(
            captures_of(AMBIGUOUS_REFERENCE@, m),
            captures_of(AMBIGUOUS_QUOTED@, m),
            captures_of(AMBIGUOUS_NAME@, m),
        ) {
            Some(c) => CaseV::AmbiguousColumn(c),
            None => CaseV::NoRepair,
        },
        _ => CaseV::NoRepair,
    }
}

/// Classifies an analyzer error.
pub fn classify_analyzer_error(code: ErrorCode, message: &str, cursor: Option<i32>) -> (r: RepairCase)
    ensures
        r@ == classify_v(code, message@, cursor),
{
    match code {
        ErrorCode::UndefinedTable => match extract_missing_relation(message) {
            Some(rel) => RepairCase::UnknownRelation(rel),
            None => RepairCase::NoRepair,
        },
        ErrorCode::UndefinedColumn => match extract_missing_column(message) {
            Some((t, c)) => RepairCase::UnknownColumn(t, c),
            None => RepairCase::NoRepair,
        },
        ErrorCode::UndefinedFunction => match extract_missing_function(message) {
            Some((n, a)) => match cursor {
                Some(p) => RepairCase::UnknownFunction(n, a, p),
                None => RepairCase::NoRepair,
            },
            None => {
                if is_operator_type_error(message) && cursor.is_some() {
                    let p = match cursor {
                        Some(p) => p,
                        None => 0,
                    };
                    RepairCase::OperatorMismatch(extract_operator_info_from_error(message), p)
                } else {
                    RepairCase::NoRepair
                }
            },
        },
        ErrorCode::AmbiguousColumn => match extract_ambiguous_column(message) {
            Some(c) => RepairCase::AmbiguousColumn(c),
            None => RepairCase::NoRepair,
        },
        _ => RepairCase::NoRepair,
    }
}

/// The format literal of an executor error that calls for a format-string
/// repair: an "invalid parameter value" error that names one.
pub fn classify_executor_error(code: ErrorCode, message: &str) -> (r: Option<String>)
    ensures
        opt_view(r) == if code == ErrorCode::InvalidParameterValue {
            first_group_v(captures_of(UNIT_UNKNOWN@, message@), captures_of(FORMAT_INVALID@, message@), 1)
        } else {
            None
        },
{
    if code == ErrorCode::InvalidParameterValue {
        extract_format_from_error(message)
    } else {
        None
    }
}

} // verus!
