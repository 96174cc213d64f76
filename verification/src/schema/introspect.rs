//! Reading what the live database holds about a managed table: its definition, what
//! blocks rewriting it, and which statements must be replayed after a rebuild.

use vstd::prelude::*;

use crate::text::{
    chars_of, contains_chars, contains_str, doubled, has_infix, is_ascii_alphanumeric, lower_chars,
    lower_text, matches_at, push_char, push_doubled, strings_view, upper_chars, upper_text,
};

use super::diff::names_ascending;
use super::sorting::{
    lemma_text_strict, lemma_text_total, lemma_text_transitive, merged_names, str_less,
    strictly_ascending, text_before,
};

use super::types::{
    affinity_of, columns_view, SchemaDef, trim_chars, trimmed, ColumnDef, ColumnView, PrimaryKeyDef, PrimaryKeyView,
    SqlAffinity, TableDef, TableView,
};

verus! {

/// A statement to replay after a table rebuild (an index or trigger definition).
#[derive(Debug)]
pub struct ReplaySql {
    pub sql: String,
}

/// A live table as introspected, with what blocks rebuilding or dropping it.
#[derive(Debug)]
pub struct ActualTable {
    pub table: TableDef,
    pub unsupported_inline_features: Vec<String>,
    pub has_real_foreign_keys: bool,
    pub dependent_views: Vec<String>,
    pub dependent_external_triggers: Vec<String>,
    pub replay_sql: Vec<ReplaySql>,
}

/// The content of an [`ActualTable`] that planning reads.
pub ghost struct ActualView {
    pub table: TableView,
    pub features: Seq<Seq<char>>,
    pub has_real_foreign_keys: bool,
    pub views: Seq<Seq<char>>,
    pub triggers: Seq<Seq<char>>,
    pub replay: Seq<Seq<char>>,
}

/// The statements of a list of replayable definitions.
pub open spec fn replay_view(s: Seq<ReplaySql>) -> Seq<Seq<char>> {
    s.map_values(|r: ReplaySql| r.sql@)
}

impl View for ActualTable {
    type V = ActualView;

    open spec fn view(&self) -> ActualView {
        ActualView {
            table: self.table@,
            features: strings_view(self.unsupported_inline_features@),
            has_real_foreign_keys: self.has_real_foreign_keys,
            views: strings_view(self.dependent_views@),
            triggers: strings_view(self.dependent_external_triggers@),
            replay: replay_view(self.replay_sql@),
        }
    }
}

/// The views of a sequence of live tables.
pub open spec fn actuals_view(s: Seq<ActualTable>) -> Seq<ActualView> {
    s.map_values(|a: ActualTable| a@)
}

/// The live tables' definitions.
pub open spec fn actual_tables(s: Seq<ActualView>) -> Seq<TableView> {
    s.map_values(|a: ActualView| a.table)
}

/// The live tables read so far, one per name, kept in name order as a map keyed by the
/// table name keeps them.
pub struct LiveTables {
    tables: Vec<ActualTable>,
}

impl View for LiveTables {
    type V = Seq<ActualView>;

    closed spec fn view(&self) -> Seq<ActualView> {
        actuals_view(self.tables@)
    }
}

impl LiveTables {
    #[verifier::type_invariant]
    spec fn in_name_order(self) -> bool {
        names_ascending(actual_tables(actuals_view(self.tables@)))
    }

    /// No live tables.
    pub fn new() -> (r: Self)
        ensures
            r@ == Seq::<ActualView>::empty(),
    {
        let r = LiveTables { tables: Vec::new() };
        assert(r@ =~= Seq::<ActualView>::empty());
        r
    }

    /// Adds a table, in place of a table of the same name if there is one.
    pub fn insert(&mut self, t: ActualTable)
        ensures
            names_ascending(actual_tables(final(self)@)),
            forall|a: ActualView|
                final(self)@.contains(a) <==> (a == t@ || (old(self)@.contains(a) && a.table.name
                    != t@.table.name)),
    {
        proof {
            use_type_invariant(&*self);
        }
        let ghost tv = t@;
        let mut v: Vec<ActualTable> = Vec::new();
        std::mem::swap(&mut v, &mut self.tables);
        let ghost s = actuals_view(v@);
        assert(s == old(self)@);
        let mut i: usize = 0;
        while i < v.len() && str_less(v[i].table.name.as_str(), t.table.name.as_str())
            invariant
                i <= v@.len(),
                s == actuals_view(v@),
                tv == t@,
                names_ascending(actual_tables(s)),
                forall|j: int| 0 <= j < i ==> text_before(#[trigger] s[j].table.name, tv.table.name),
            decreases v@.len() - i,
        {
            i = i + 1;
        }
        let same = i < v.len() && !str_less(t.table.name.as_str(), v[i].table.name.as_str());
        let ghost n = tv.table.name;
        if same {
            proof {
                lemma_text_strict(s[i as int].table.name, n);
                if s[i as int].table.name != n {
                    lemma_text_total(s[i as int].table.name, n);
                }
            }
            v.set(i, t);
            let ghost r = actuals_view(v@);
            assert(r =~= s.update(i as int, tv));
            proof {
                assert forall|j: int, k: int| 0 <= j < k < r.len() implies text_before(
                    #[trigger] actual_tables(r)[j].name,
                    #[trigger] actual_tables(r)[k].name,
                ) by {
                    assert(text_before(actual_tables(s)[j].name, actual_tables(s)[k].name));
                }
                assert forall|a: ActualView| r.contains(a) <==> (a == tv || (s.contains(a)
                    && a.table.name != n)) by {
                    if r.contains(a) {
                        let w = choose|w: int| 0 <= w < r.len() && r[w] == a;
                        if w != i {
                            assert(s[w] == a);
                            if a.table.name == n {
                                let (lo, hi) = if w < i { (w, i as int) } else { (i as int, w) };
                                assert(text_before(actual_tables(s)[lo].name, actual_tables(s)[hi].name));
                                lemma_text_strict(n, n);
                            }
                        }
                    }
                    if a == tv {
                        assert(r[i as int] == a);
                    } else if s.contains(a) && a.table.name != n {
                        let w = choose|w: int| 0 <= w < s.len() && s[w] == a;
                        assert(w != i);
                        assert(r[w] == a);
                    }
                }
            }
        } else {
            proof {
                if i < s.len() {
                    lemma_text_total(s[i as int].table.name, n);
                }
            }
            v.insert(i, t);
            let ghost r = actuals_view(v@);
            assert(r =~= s.insert(i as int, tv));
            proof {
                assert forall|j: int, k: int| 0 <= j < k < r.len() implies text_before(
                    #[trigger] actual_tables(r)[j].name,
                    #[trigger] actual_tables(r)[k].name,
                ) by {
                    if k < i {
                        assert(text_before(actual_tables(s)[j].name, actual_tables(s)[k].name));
                    } else if k == i {
                        assert(text_before(s[j].table.name, n));
                    } else if j < i {
                        assert(text_before(actual_tables(s)[j].name, actual_tables(s)[k - 1].name));
                    } else if j == i {
                        if k - 1 > i {
                            assert(text_before(actual_tables(s)[i as int].name, actual_tables(s)[k - 1].name));
                            lemma_text_transitive(n, s[i as int].table.name, s[k - 1].table.name);
                        }
                    } else {
                        assert(text_before(actual_tables(s)[j - 1].name, actual_tables(s)[k - 1].name));
                    }
                }
                assert forall|a: ActualView| r.contains(a) <==> (a == tv || (s.contains(a)
                    && a.table.name != n)) by {
                    if r.contains(a) {
                        let w = choose|w: int| 0 <= w < r.len() && r[w] == a;
                        if w < i {
                            assert(s[w] == a);
                            lemma_text_strict(n, n);
                        } else if w > i {
                            assert(s[w - 1] == a);
                            assert(text_before(actual_tables(s)[i as int].name, actual_tables(s)[w - 1].name) || w - 1 == i);
                            lemma_text_strict(n, n);
                            if w - 1 > i {
                                lemma_text_transitive(n, s[i as int].table.name, s[w - 1].table.name);
                            }
                        }
                    }
                    if a == tv {
                        assert(r[i as int] == a);
                    } else if s.contains(a) && a.table.name != n {
                        let w = choose|w: int| 0 <= w < s.len() && s[w] == a;
                        if w < i {
                            assert(r[w] == a);
                        } else {
                            assert(r[w + 1] == a);
                        }
                    }
                }
            }
        }
        self.tables = v;
    }

    /// The tables, in name order.
    pub fn tables(&self) -> (r: &Vec<ActualTable>)
        ensures
            actuals_view(r@) == self@,
            names_ascending(actual_tables(actuals_view(r@))),
    {
        proof {
            use_type_invariant(self);
        }
        &self.tables
    }
}

/// One row of `PRAGMA table_xinfo`.
#[derive(Debug)]
pub struct ColumnRow {
    pub name: String,
    pub sql_type: String,
    pub not_null: bool,
    pub default_sql: Option<String>,
    pub pk: i64,
    pub hidden: i64,
}

/// The content of a [`ColumnRow`] that introspection reads.
pub ghost struct RowView {
    pub name: Seq<char>,
    pub sql_type: Seq<char>,
    pub not_null: bool,
    pub has_default: bool,
    pub pk: int,
    pub hidden: int,
}

impl View for ColumnRow {
    type V = RowView;

    open spec fn view(&self) -> RowView {
        RowView {
            name: self.name@,
            sql_type: self.sql_type@,
            not_null: self.not_null,
            has_default: self.default_sql is Some,
            pk: self.pk as int,
            hidden: self.hidden as int,
        }
    }
}

/// The views of a sequence of column rows.
pub open spec fn rows_view(rows: Seq<ColumnRow>) -> Seq<RowView> {
    rows.map_values(|r: ColumnRow| r@)
}

/// The kind of a schema object that depends on a table.
#[derive(Debug, Clone, Copy, PartialEq, Eq, Structural)]
pub enum ReplayKind {
    Index,
    Trigger,
    View,
}

/// A view or trigger definition that may reference other tables.
#[derive(Debug)]
pub struct DependencyCandidate {
    pub name: String,
    pub kind: ReplayKind,
    pub tbl_name: String,
    pub sql: String,
}

/// The content of a [`DependencyCandidate`].
pub ghost struct CandidateView {
    pub name: Seq<char>,
    pub kind: ReplayKind,
    pub tbl_name: Seq<char>,
    pub sql: Seq<char>,
}

impl View for DependencyCandidate {
    type V = CandidateView;

    open spec fn view(&self) -> CandidateView {
        CandidateView { name: self.name@, kind: self.kind, tbl_name: self.tbl_name@, sql: self.sql@ }
    }
}

/// The views of a sequence of candidates.
pub open spec fn candidates_view(c: Seq<DependencyCandidate>) -> Seq<CandidateView> {
    c.map_values(|x: DependencyCandidate| x@)
}

/// Characters that make up a bare SQL identifier token.
pub open spec fn is_token_char(c: char) -> bool {
    is_ascii_alphanumeric(c) || c == '_'
}

/// `s[a..b]` is a whole token: its characters are token characters and neither
/// neighbour is.
pub open spec fn is_token_at(s: Seq<char>, a: int, b: int) -> bool {
    &&& 0 <= a <= b <= s.len()
    &&& (a == 0 || !is_token_char(s[a - 1]))
    &&& (b == s.len() || !is_token_char(s[b]))
    &&& forall|k: int| a <= k < b ==> is_token_char(#[trigger] s[k])
}

/// Some whole token of `s` is `id`.
pub open spec fn has_token(s: Seq<char>, id: Seq<char>) -> bool {
    exists|a: int, b: int| #[trigger] is_token_at(s, a, b) && s.subrange(a, b) == id
}

/// Whether `sql` mentions `identifier`, ignoring ASCII case: quoted with `"`, `[]` or
/// backticks, or as a whole bare token.
pub open spec fn references_identifier(sql: Seq<char>, identifier: Seq<char>) -> bool {
    let s = lower_text(sql);
    let id = lower_text(identifier);
    ||| has_infix(s, seq!['"'] + id + seq!['"'])
    ||| has_infix(s, seq!['['] + id + seq![']'])
    ||| has_infix(s, seq!['`'] + id + seq!['`'])
    ||| has_token(s, id)
}

fn token_char(c: char) -> (r: bool)
    ensures
        r == is_token_char(c),
{
    ('a' <= c && c <= 'z') || ('A' <= c && c <= 'Z') || ('0' <= c && c <= '9') || c == '_'
}

/// Whether `s[a..b]` equals `id`.
fn slice_is(s: &Vec<char>, a: usize, b: usize, id: &Vec<char>) -> (r: bool)
    requires
        a <= b <= s@.len(),
    ensures
        r == (s@.subrange(a as int, b as int) == id@),
{
    if b - a != id.len() {
        return false;
    }
    matches_at(s.as_slice(), id.as_slice(), a)
}

/// Whether some whole token of `s` equals `id`.
fn scan_tokens(s: &Vec<char>, id: &Vec<char>) -> (r: bool)
    ensures
        r == has_token(s@, id@),
{
    let n = s.len();
    let mut start: usize = 0;
    let mut i: usize = 0;
    while i < n
        invariant
            n == s@.len(),
            start <= i <= n,
            start == 0 || !is_token_char(s@[start - 1]),
            forall|k: int| start <= k < i ==> is_token_char(#[trigger] s@[k]),
            forall|a: int, b: int| #[trigger] is_token_at(s@, a, b) && b < i ==> s@.subrange(a, b) != id@,
        decreases n - i,
    {
        if !token_char(s[i]) {
            if slice_is(s, start, i, id) {
                assert(is_token_at(s@, start as int, i as int));
                return true;
            }
            assert forall|a: int, b: int| #[trigger] is_token_at(s@, a, b) && b < i + 1 implies s@.subrange(
                a,
                b,
            ) != id@ by {
                if b == i {
                    if a < start {
                        assert(is_token_char(s@[start - 1]));
                    } else if a > start {
                        assert(is_token_char(s@[a - 1]));
                    }
                }
            }
            start = i + 1;
        } else {
            assert forall|a: int, b: int| #[trigger] is_token_at(s@, a, b) && b < i + 1 implies s@.subrange(
                a,
                b,
            ) != id@ by {
                if b == i {
                    assert(is_token_char(s@[b]));
                }
            }
        }
        i = i + 1;
    }
    let last = slice_is(s, start, n, id);
    if last {
        assert(is_token_at(s@, start as int, n as int));
    } else {
        assert forall|a: int, b: int| #[trigger] is_token_at(s@, a, b) implies s@.subrange(a, b) != id@ by {
            if b == n {
                if a < start {
                    assert(is_token_char(s@[start - 1]));
                } else if a > start {
                    assert(is_token_char(s@[a - 1]));
                }
            }
        }
    }
    last
}

/// `c`, then `inner`, then `d`.
fn framed(c: char, inner: &Vec<char>, d: char) -> (r: Vec<char>)
    ensures
        r@ == seq![c] + inner@ + seq![d],
{
    let mut out: Vec<char> = Vec::new();
    out.push(c);
    let mut i: usize = 0;
    while i < inner.len()
        invariant
            i <= inner@.len(),
            out@ == seq![c] + inner@.take(i as int),
        decreases inner@.len() - i,
    {
        out.push(inner[i]);
        assert(out@ =~= seq![c] + inner@.take(i + 1));
        i = i + 1;
    }
    out.push(d);
    assert(out@ =~= seq![c] + inner@ + seq![d]);
    out
}

/// Whether `sql` references `identifier`, ignoring ASCII case, either quoted or as a
/// whole bare token.
pub fn sql_references_identifier(sql: &str, identifier: &str) -> (r: bool)
    ensures
        r == references_identifier(sql@, identifier@),
{
    let id = lower_chars(chars_of(identifier).as_slice());
    let s = lower_chars(chars_of(sql).as_slice());
    if contains_chars(s.as_slice(), framed('"', &id, '"').as_slice()) || contains_chars(
        s.as_slice(),
        framed('[', &id, ']').as_slice(),
    ) || contains_chars(s.as_slice(), framed('`', &id, '`').as_slice()) {
        return true;
    }
    scan_tokens(&s, &id)
}

/// How many rows belong to the primary key.
pub open spec fn key_count(rows: Seq<RowView>) -> nat
    decreases rows.len(),
{
    if rows.len() == 0 {
        0
    } else {
        key_count(rows.drop_last()) + if rows.last().pk > 0 {
            1nat
        } else {
            0nat
        }
    }
}

/// The first row that is the primary key's first column, if any.
pub open spec fn key_row(rows: Seq<RowView>) -> Option<RowView>
    decreases rows.len(),
{
    if rows.len() == 0 {
        None
    } else if key_row(rows.drop_last()) is Some {
        key_row(rows.drop_last())
    } else if rows.last().pk == 1 {
        Some(rows.last())
    } else {
        None
    }
}

/// The primary key's name: its column's, or `id` without one.
pub open spec fn key_name(rows: Seq<RowView>) -> Seq<char> {
    match key_row(rows) {
        Some(r) => r.name,
        None => "id"@,
    }
}

/// The primary key's declared type: its column's, or `INTEGER` without one.
pub open spec fn key_type(rows: Seq<RowView>) -> Seq<char> {
    match key_row(rows) {
        Some(r) => r.sql_type,
        None => "INTEGER"@,
    }
}

/// The table has exactly one primary-key column, a visible one declared `INTEGER`
/// (ignoring ASCII case and surrounding white space).
pub open spec fn key_is_exact(rows: Seq<RowView>) -> bool {
    match key_row(rows) {
        Some(r) => {
            &&& key_count(rows) == 1
            &&& affinity_of(r.sql_type) == SqlAffinity::Integer
            &&& lower_text(trimmed(r.sql_type)) == lower_text("INTEGER"@)
            &&& r.hidden == 0
        },
        None => false,
    }
}

/// Some column is generated or hidden.
pub open spec fn any_hidden(rows: Seq<RowView>) -> bool {
    exists|i: int| 0 <= i < rows.len() && #[trigger] rows[i].hidden != 0
}

/// Some column other than the primary key has a default value.
pub open spec fn any_default(rows: Seq<RowView>, key: Seq<char>) -> bool {
    exists|i: int| 0 <= i < rows.len() && #[trigger] rows[i].has_default && rows[i].name != key
}

/// The features of a live table that managed tables do not support, in a fixed order.
pub open spec fn inline_features(rows: Seq<RowView>, table_sql: Seq<char>) -> Seq<Seq<char>> {
    let u = upper_text(table_sql);
    (if !key_is_exact(rows) {
        seq!["managed tables must use a single `<name> INTEGER PRIMARY KEY` column"@]
    } else {
        Seq::empty()
    }) + (if key_count(rows) > 1 {
        seq!["composite primary keys are not supported"@]
    } else {
        Seq::empty()
    }) + (if any_hidden(rows) {
        seq!["generated or hidden columns are not supported"@]
    } else {
        Seq::empty()
    }) + (if any_default(rows, key_name(rows)) {
        seq!["default column values are not supported"@]
    } else {
        Seq::empty()
    }) + (if has_infix(u, "CHECK"@) {
        seq!["CHECK constraints are not supported"@]
    } else {
        Seq::empty()
    }) + (if has_infix(u, "WITHOUT ROWID"@) {
        seq!["WITHOUT ROWID tables are not supported"@]
    } else {
        Seq::empty()
    }) + (if has_infix(u, "GENERATED ALWAYS"@) {
        seq!["generated columns are not supported"@]
    } else {
        Seq::empty()
    })
}

/// The visible columns other than the primary key, in order.
pub open spec fn kept_columns(rows: Seq<RowView>, key: Seq<char>) -> Seq<ColumnView>
    decreases rows.len(),
{
    if rows.len() == 0 {
        Seq::empty()
    } else {
        kept_columns(rows.drop_last(), key) + if rows.last().hidden == 0 && rows.last().name != key {
            seq![
                ColumnView {
                    name: rows.last().name,
                    sql_type: rows.last().sql_type,
                    nullable: !rows.last().not_null,
                },
            ]
        } else {
            Seq::empty()
        }
    }
}

/// The names of the objects of kind `kind`, defined on other tables, whose SQL
/// references `table`, in order.
pub open spec fn dependents(c: Seq<CandidateView>, table: Seq<char>, kind: ReplayKind) -> Seq<Seq<char>>
    decreases c.len(),
{
    if c.len() == 0 {
        Seq::empty()
    } else {
        dependents(c.drop_last(), table, kind) + if c.last().kind == kind && c.last().tbl_name != table
            && references_identifier(c.last().sql, table) {
            seq![c.last().name]
        } else {
            Seq::empty()
        }
    }
}

/// What introspection records of a live table.
pub open spec fn introspected(
    table: Seq<char>,
    table_sql: Seq<char>,
    rows: Seq<RowView>,
    candidates: Seq<CandidateView>,
    has_real_foreign_keys: bool,
    replay: Seq<Seq<char>>,
) -> ActualView {
    ActualView {
        table: TableView {
            name: table,
            primary_key: PrimaryKeyView { name: key_name(rows), sql_type: key_type(rows) },
            columns: kept_columns(rows, key_name(rows)),
        },
        features: inline_features(rows, table_sql),
        has_real_foreign_keys,
        views: dependents(candidates, table, ReplayKind::View),
        triggers: dependents(candidates, table, ReplayKind::Trigger),
        replay,
    }
}

/// The number of primary-key rows and the position of the primary key's first column.
fn key_info(rows: &Vec<ColumnRow>) -> (r: (usize, Option<usize>))
    ensures
        r.0 == key_count(rows_view(rows@)),
        match key_row(rows_view(rows@)) {
            None => r.1 is None,
            Some(k) => r.1 matches Some(i) && i < rows@.len() && rows@[i as int]@ == k,
        },
{
    let ghost rv = rows_view(rows@);
    let mut count: usize = 0;
    let mut first: Option<usize> = None;
    let mut i: usize = 0;
    while i < rows.len()
        invariant
            i <= rows@.len(),
            rv == rows_view(rows@),
            count == key_count(rv.take(i as int)),
            count <= i,
            match key_row(rv.take(i as int)) {
                None => first is None,
                Some(k) => first matches Some(j) && j < i && rows@[j as int]@ == k,
            },
        decreases rows@.len() - i,
    {
        assert(rv.take(i + 1).drop_last() =~= rv.take(i as int));
        assert(rv.take(i + 1).last() == rows@[i as int]@);
        if rows[i].pk > 0 {
            count = count + 1;
        }
        if first.is_none() && rows[i].pk == 1 {
            first = Some(i);
        }
        i = i + 1;
    }
    assert(rv.take(rows@.len() as int) =~= rv);
    (count, first)
}

/// Whether two character sequences are equal.
fn chars_equal(a: &Vec<char>, b: &Vec<char>) -> (r: bool)
    ensures
        r == (a@ == b@),
{
    if a.len() != b.len() {
        return false;
    }
    let r = matches_at(a.as_slice(), b.as_slice(), 0);
    assert(a@.subrange(0, b@.len() as int) =~= a@);
    r
}

/// Whether some row is generated or hidden.
fn hidden_rows(rows: &Vec<ColumnRow>) -> (r: bool)
    ensures
        r == any_hidden(rows_view(rows@)),
{
    let mut i: usize = 0;
    while i < rows.len()
        invariant
            i <= rows@.len(),
            forall|k: int| 0 <= k < i ==> rows@[k].hidden == 0,
        decreases rows@.len() - i,
    {
        if rows[i].hidden != 0 {
            assert(rows_view(rows@)[i as int].hidden != 0);
            return true;
        }
        i = i + 1;
    }
    assert forall|k: int| 0 <= k < rows@.len() implies #[trigger] rows_view(rows@)[k].hidden == 0 by {
        assert(rows_view(rows@)[k] == rows@[k]@);
    }
    false
}

/// Whether some row other than `key` has a default value.
fn defaulted_rows(rows: &Vec<ColumnRow>, key: &String) -> (r: bool)
    ensures
        r == any_default(rows_view(rows@), key@),
{
    let mut i: usize = 0;
    while i < rows.len()
        invariant
            i <= rows@.len(),
            forall|k: int| 0 <= k < i ==> !(#[trigger] rows@[k]@.has_default && rows@[k]@.name != key@),
        decreases rows@.len() - i,
    {
        if rows[i].name != *key && rows[i].default_sql.is_some() {
            assert(rows_view(rows@)[i as int].has_default);
            return true;
        }
        i = i + 1;
    }
    assert forall|k: int| 0 <= k < rows@.len() implies !(#[trigger] rows_view(rows@)[k].has_default
        && rows_view(rows@)[k].name != key@) by {
        assert(rows_view(rows@)[k] == rows@[k]@);
    }
    false
}

/// The unsupported features of a live table.
fn features_of(rows: &Vec<ColumnRow>, table_sql: &str) -> (r: Vec<String>)
    ensures
        strings_view(r@) == inline_features(rows_view(rows@), table_sql@),
{
    let ghost rv = rows_view(rows@);
    let (count, first) = key_info(rows);
    let exact = match first {
        Some(i) => {
            let row = &rows[i];
            let declared = lower_chars(trim_chars(&chars_of(row.sql_type.as_str())).as_slice());
            let integer = lower_chars(chars_of("INTEGER").as_slice());
            count == 1 && row.sql_type_affinity_is_integer() && chars_equal(&declared, &integer)
                && row.hidden == 0
        },
        None => false,
    };
    let key = match first {
        Some(i) => rows[i].name.clone(),
        None => String::from_str("id"),
    };
    assert(key@ == key_name(rv));
    let upper = upper_chars(chars_of(table_sql).as_slice());
    let mut out: Vec<String> = Vec::new();
    if !exact {
        out.push(String::from_str("managed tables must use a single `<name> INTEGER PRIMARY KEY` column"));
    }
    if count > 1 {
        out.push(String::from_str("composite primary keys are not supported"));
    }
    if hidden_rows(rows) {
        out.push(String::from_str("generated or hidden columns are not supported"));
    }
    if defaulted_rows(rows, &key) {
        out.push(String::from_str("default column values are not supported"));
    }
    if contains_str(&upper, "CHECK") {
        out.push(String::from_str("CHECK constraints are not supported"));
    }
    if contains_str(&upper, "WITHOUT ROWID") {
        out.push(String::from_str("WITHOUT ROWID tables are not supported"));
    }
    if contains_str(&upper, "GENERATED ALWAYS") {
        out.push(String::from_str("generated columns are not supported"));
    }
    assert(strings_view(out@) =~= inline_features(rv, table_sql@));
    out
}

impl ColumnRow {
    /// Whether the declared type has integer affinity.
    fn sql_type_affinity_is_integer(&self) -> (r: bool)
        ensures
            r == (affinity_of(self.sql_type@) == SqlAffinity::Integer),
    {
        match SqlAffinity::from_declared_type(self.sql_type.as_str()) {
            SqlAffinity::Integer => true,
            _ => false,
        }
    }
}

/// The visible non-key columns of the rows.
fn columns_of(rows: &Vec<ColumnRow>, key: &String) -> (r: Vec<ColumnDef>)
    ensures
        columns_view(r@) == kept_columns(rows_view(rows@), key@),
{
    let ghost rv = rows_view(rows@);
    let mut out: Vec<ColumnDef> = Vec::new();
    let mut i: usize = 0;
    while i < rows.len()
        invariant
            i <= rows@.len(),
            rv == rows_view(rows@),
            columns_view(out@) == kept_columns(rv.take(i as int), key@),
        decreases rows@.len() - i,
    {
        let row = &rows[i];
        assert(rv.take(i + 1).drop_last() =~= rv.take(i as int));
        assert(rv.take(i + 1).last() == row@);
        let ghost before = out@;
        if row.hidden == 0 && row.name != *key {
            out.push(ColumnDef { name: row.name.clone(), sql_type: row.sql_type.clone(), nullable: !row.not_null });
            assert(columns_view(out@) =~= columns_view(before).push(out@.last()@));
        }
        assert(columns_view(out@) =~= kept_columns(rv.take(i + 1), key@));
        i = i + 1;
    }
    assert(rv.take(rows@.len() as int) =~= rv);
    out
}

/// The names of objects of kind `kind`, on other tables, that reference `table`.
fn dependents_of(candidates: &Vec<DependencyCandidate>, table: &String, kind: ReplayKind) -> (r: Vec<String>)
    ensures
        strings_view(r@) == dependents(candidates_view(candidates@), table@, kind),
{
    let ghost cv = candidates_view(candidates@);
    let mut out: Vec<String> = Vec::new();
    let mut i: usize = 0;
    while i < candidates.len()
        invariant
            i <= candidates@.len(),
            cv == candidates_view(candidates@),
            strings_view(out@) == dependents(cv.take(i as int), table@, kind),
        decreases candidates@.len() - i,
    {
        let c = &candidates[i];
        assert(cv.take(i + 1).drop_last() =~= cv.take(i as int));
        assert(cv.take(i + 1).last() == c@);
        if c.kind == kind && c.tbl_name != *table && sql_references_identifier(c.sql.as_str(), table.as_str()) {
            out.push(c.name.clone());
        }
        assert(strings_view(out@) =~= dependents(cv.take(i + 1), table@, kind));
        i = i + 1;
    }
    assert(cv.take(candidates@.len() as int) =~= cv);
    out
}

/// Assembles what introspection knows of the live table `table`: its definition from
/// `PRAGMA table_xinfo` rows, the features that block rewriting it, the views and
/// triggers of other tables that reference it, and the statements to replay after a
/// rebuild.
pub fn actual_table(
    table: &String,
    table_sql: &str,
    rows: &Vec<ColumnRow>,
    candidates: &Vec<DependencyCandidate>,
    replay_sql: Vec<ReplaySql>,
    has_real_foreign_keys: bool,
) -> (r: ActualTable)
    ensures
        r@ == introspected(
            table@,
            table_sql@,
            rows_view(rows@),
            candidates_view(candidates@),
            has_real_foreign_keys,
            replay_view(replay_sql@),
        ),
{
    let (_count, first) = key_info(rows);
    let (key, key_type) = match first {
        Some(i) => (rows[i].name.clone(), rows[i].sql_type.clone()),
        None => (String::from_str("id"), String::from_str("INTEGER")),
    };
    let columns = columns_of(rows, &key);
    let features = features_of(rows, table_sql);
    let views = dependents_of(candidates, table, ReplayKind::View);
    let triggers = dependents_of(candidates, table, ReplayKind::Trigger);
    ActualTable {
        table: TableDef {
            name: table.clone(),
            primary_key: PrimaryKeyDef { name: key, sql_type: key_type },
            columns,
        },
        unsupported_inline_features: features,
        has_real_foreign_keys,
        dependent_views: views,
        dependent_external_triggers: triggers,
        replay_sql,
    }
}

/// A `PRAGMA` string argument: single quotes around the identifier, inner single quotes
/// doubled.
pub open spec fn pragma_string_text(identifier: Seq<char>) -> Seq<char> {
    seq!['\''] + doubled(identifier, '\'') + seq!['\'']
}

/// Quotes an identifier as a `PRAGMA` string argument.
pub fn pragma_string_arg(identifier: &str) -> (r: String)
    ensures
        r@ == pragma_string_text(identifier@),
{
    let mut out = String::new();
    push_char(&mut out, '\'');
    push_doubled(&mut out, identifier, '\'');
    push_char(&mut out, '\'');
    assert(out@ =~= pragma_string_text(identifier@));
    out
}

/// The tables that another table's foreign keys point at.
#[derive(Debug)]
pub struct ForeignKeyList {
    pub table: String,
    pub targets: Vec<String>,
}

/// Whether a table takes part in real foreign keys: it declares some itself, or another
/// table has one that points at it (table names compared ignoring ASCII case).
pub open spec fn in_foreign_keys(own_count: nat, table: Seq<char>, others: Seq<ForeignKeyList>) -> bool {
    ||| own_count > 0
    ||| exists|i: int, k: int|
        0 <= i < others.len() && others[i].table@ != table && 0 <= k < others[i].targets@.len()
            && lower_text(#[trigger] others[i].targets@[k]@) == lower_text(table)
}

/// Decides whether a table takes part in real foreign keys.
pub fn has_real_foreign_keys(own_count: usize, table: &str, others: &Vec<ForeignKeyList>) -> (r: bool)
    ensures
        r == in_foreign_keys(own_count as nat, table@, others@),
{
    if own_count > 0 {
        return true;
    }
    let name = lower_chars(chars_of(table).as_slice());
    let mut i: usize = 0;
    while i < others.len()
        invariant
            i <= others@.len(),
            name@ == lower_text(table@),
            own_count == 0,
            forall|p: int, k: int|
                0 <= p < i && others@[p].table@ != table@ && 0 <= k < others@[p].targets@.len()
                    ==> lower_text(#[trigger] others@[p].targets@[k]@) != lower_text(table@),
        decreases others@.len() - i,
    {
        let other = &others[i];
        if other.table.as_str().unicode_len() != table.unicode_len() || !str_same(other.table.as_str(), table) {
            assert(other.table@ != table@);
            let mut k: usize = 0;
            while k < other.targets.len()
                invariant
                    k <= other.targets@.len(),
                    name@ == lower_text(table@),
                    i < others@.len(),
                    *other == others@[i as int],
                    other.table@ != table@,
                    forall|q: int| 0 <= q < k ==> lower_text(#[trigger] other.targets@[q]@) != lower_text(table@),
                decreases other.targets@.len() - k,
            {
                let target = lower_chars(chars_of(other.targets[k].as_str()).as_slice());
                if chars_same_vec(&target, &name) {
                    assert(lower_text(other.targets@[k as int]@) == lower_text(table@));
                    assert(others@[i as int].table@ != table@);
                    assert(lower_text(others@[i as int].targets@[k as int]@) == lower_text(table@));
                    return true;
                }
                k = k + 1;
            }
        }
        i = i + 1;
    }
    false
}

/// Whether two strings have the same characters.
fn str_same(a: &str, b: &str) -> (r: bool)
    ensures
        r == (a@ == b@),
{
    let x = chars_of(a);
    let y = chars_of(b);
    chars_same_vec(&x, &y)
}

/// Whether two character vectors are equal.
fn chars_same_vec(a: &Vec<char>, b: &Vec<char>) -> (r: bool)
    ensures
        r == (a@ == b@),
{
    if a.len() != b.len() {
        return false;
    }
    let r = matches_at(a.as_slice(), b.as_slice(), 0);
    assert(a@.subrange(0, b@.len() as int) =~= a@);
    r
}

/// The tables that introspection looks at: those of the target and of the previously
/// applied target, each once, in name order.
pub fn managed_scope(target: &SchemaDef, previous: Option<&SchemaDef>) -> (r: Vec<String>)
    ensures
        strictly_ascending(strings_view(r@)),
        forall|y: Seq<char>|
            strings_view(r@).contains(y) <==> ((exists|i: int| 0 <= i < target@.len() && #[trigger] target@[i].name == y)
                || (previous matches Some(p) && exists|i: int| 0 <= i < p@.len() && #[trigger] p@[i].name == y)),
{
    let a = target.table_names();
    let b = match previous {
        Some(p) => p.table_names(),
        None => Vec::new(),
    };
    let r = merged_names(&a, &b);
    proof {
        assert forall|y: Seq<char>| strings_view(a@).contains(y) <==> (exists|i: int|
            0 <= i < target@.len() && #[trigger] target@[i].name == y) by {
            if strings_view(a@).contains(y) {
                let k = choose|k: int| 0 <= k < a@.len() && strings_view(a@)[k] == y;
                assert(target@[k].name == y);
            }
            if exists|i: int| 0 <= i < target@.len() && #[trigger] target@[i].name == y {
                let k = choose|k: int| 0 <= k < target@.len() && #[trigger] target@[k].name == y;
                assert(strings_view(a@)[k] == y);
            }
        }
        assert forall|y: Seq<char>| strings_view(b@).contains(y) <==> (previous matches Some(p)
            && exists|i: int| 0 <= i < p@.len() && #[trigger] p@[i].name == y) by {
            match previous {
                Some(p) => {
                    if strings_view(b@).contains(y) {
                        let k = choose|k: int| 0 <= k < b@.len() && strings_view(b@)[k] == y;
                        assert(p@[k].name == y);
                    }
                    if exists|i: int| 0 <= i < p@.len() && #[trigger] p@[i].name == y {
                        let k = choose|k: int| 0 <= k < p@.len() && #[trigger] p@[k].name == y;
                        assert(strings_view(b@)[k] == y);
                    }
                },
                None => {
                    assert(b@.len() == 0);
                },
            }
        }
    }
    r
}

} // verus!
