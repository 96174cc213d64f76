//! Normalized schema snapshots, their canonical text and fingerprints.

use vstd::prelude::*;
use vstd::utf8::encode_utf8;

use crate::error::Error;
use super::sorting::{
    key_before, lemma_map_same_elements, sort_by_key, sorted_by_key, str_less, text_before, Keyed,
    SortKey,
};

use crate::text::{
    chars_of, contains_str, has_infix, hex_fixed, is_white_space, push_char, push_hex_fixed,
    upper_chars, upper_text, white_space,
};

verus! {

/// A managed non-primary-key SQLite column definition.
#[derive(Debug, Clone, PartialEq, Eq)]
pub struct ColumnDef {
    /// The SQLite column name.
    pub name: String,
    /// The declared SQLite type used for DDL and in rendered plans.
    pub sql_type: String,
    /// Whether the column may store `NULL`.
    pub nullable: bool,
}

/// A managed SQLite primary-key definition.
#[derive(Debug, Clone, PartialEq, Eq)]
pub struct PrimaryKeyDef {
    /// The SQLite primary-key column name.
    pub name: String,
    /// The declared SQLite type used for DDL and in rendered plans.
    pub sql_type: String,
}

/// A managed SQLite table definition.
#[derive(Debug, Clone, PartialEq, Eq)]
pub struct TableDef {
    /// The SQLite table name.
    pub name: String,
    /// The SQLite primary-key column.
    pub primary_key: PrimaryKeyDef,
    /// All managed non-primary-key columns.
    pub columns: Vec<ColumnDef>,
}

/// A normalized schema snapshot for managed tables.
#[derive(Debug, Clone, PartialEq, Eq)]
pub struct SchemaDef {
    /// Managed tables.
    pub tables: Vec<TableDef>,
}

impl Default for SchemaDef {
    /// A schema with no tables.
    fn default() -> (r: Self)
        ensures
            r.tables@.len() == 0,
    {
        SchemaDef { tables: Vec::new() }
    }
}

/// The content of a [`ColumnDef`].
pub ghost struct ColumnView {
    pub name: Seq<char>,
    pub sql_type: Seq<char>,
    pub nullable: bool,
}

/// The content of a [`PrimaryKeyDef`].
pub ghost struct PrimaryKeyView {
    pub name: Seq<char>,
    pub sql_type: Seq<char>,
}

/// The content of a [`TableDef`].
pub ghost struct TableView {
    pub name: Seq<char>,
    pub primary_key: PrimaryKeyView,
    pub columns: Seq<ColumnView>,
}

impl View for ColumnDef {
    type V = ColumnView;

    open spec fn view(&self) -> ColumnView {
        ColumnView { name: self.name@, sql_type: self.sql_type@, nullable: self.nullable }
    }
}

impl View for PrimaryKeyDef {
    type V = PrimaryKeyView;

    open spec fn view(&self) -> PrimaryKeyView {
        PrimaryKeyView { name: self.name@, sql_type: self.sql_type@ }
    }
}

/// The views of a sequence of columns.
pub open spec fn columns_view(columns: Seq<ColumnDef>) -> Seq<ColumnView> {
    columns.map_values(|c: ColumnDef| c@)
}

impl View for TableDef {
    type V = TableView;

    open spec fn view(&self) -> TableView {
        TableView {
            name: self.name@,
            primary_key: self.primary_key@,
            columns: columns_view(self.columns@),
        }
    }
}

/// The views of a sequence of tables.
pub open spec fn tables_view(tables: Seq<TableDef>) -> Seq<TableView> {
    tables.map_values(|t: TableDef| t@)
}

impl View for SchemaDef {
    type V = Seq<TableView>;

    open spec fn view(&self) -> Seq<TableView> {
        tables_view(self.tables@)
    }
}

impl ColumnDef {
    /// A copy of this column definition.
    pub fn duplicate(&self) -> (r: ColumnDef)
        ensures
            r@ == self@,
    {
        ColumnDef { name: self.name.clone(), sql_type: self.sql_type.clone(), nullable: self.nullable }
    }
}

impl PrimaryKeyDef {
    /// A copy of this primary-key definition.
    pub fn duplicate(&self) -> (r: PrimaryKeyDef)
        ensures
            r@ == self@,
    {
        PrimaryKeyDef { name: self.name.clone(), sql_type: self.sql_type.clone() }
    }

    /// The type affinity of the declared key type.
    pub fn affinity(&self) -> (r: SqlAffinity)
        ensures
            r == affinity_of(self.sql_type@),
    {
        SqlAffinity::from_declared_type(self.sql_type.as_str())
    }
}

impl ColumnDef {
    /// The type affinity of the declared column type.
    pub fn affinity(&self) -> (r: SqlAffinity)
        ensures
            r == affinity_of(self.sql_type@),
    {
        SqlAffinity::from_declared_type(self.sql_type.as_str())
    }
}

/// Copies a list of column definitions.
pub fn duplicate_columns(columns: &Vec<ColumnDef>) -> (r: Vec<ColumnDef>)
    ensures
        columns_view(r@) == columns_view(columns@),
{
    let mut out: Vec<ColumnDef> = Vec::new();
    let mut i: usize = 0;
    while i < columns.len()
        invariant
            i <= columns@.len(),
            out@.len() == i,
            forall|k: int| 0 <= k < i ==> (#[trigger] out@[k])@ == columns@[k]@,
        decreases columns@.len() - i,
    {
        out.push(columns[i].duplicate());
        i = i + 1;
    }
    assert(columns_view(out@) =~= columns_view(columns@));
    out
}

impl TableDef {
    /// A copy of this table definition.
    pub fn duplicate(&self) -> (r: TableDef)
        ensures
            r@ == self@,
    {
        TableDef {
            name: self.name.clone(),
            primary_key: self.primary_key.duplicate(),
            columns: duplicate_columns(&self.columns),
        }
    }
}

/// Copies a list of table definitions.
pub fn duplicate_tables(tables: &Vec<TableDef>) -> (r: Vec<TableDef>)
    ensures
        tables_view(r@) == tables_view(tables@),
{
    let mut out: Vec<TableDef> = Vec::new();
    let mut i: usize = 0;
    while i < tables.len()
        invariant
            i <= tables@.len(),
            out@.len() == i,
            forall|k: int| 0 <= k < i ==> (#[trigger] out@[k])@ == tables@[k]@,
        decreases tables@.len() - i,
    {
        out.push(tables[i].duplicate());
        i = i + 1;
    }
    assert(tables_view(out@) =~= tables_view(tables@));
    out
}

impl SchemaDef {
    /// A copy of this schema.
    pub fn duplicate(&self) -> (r: SchemaDef)
        ensures
            r@ == self@,
    {
        SchemaDef { tables: duplicate_tables(&self.tables) }
    }
}

/// SQLite type affinity used for supported column comparison.
#[derive(Debug, Clone, Copy, PartialEq, Eq, Structural)]
pub enum SqlAffinity {
    Integer,
    Real,
    Text,
    Blob,
    Numeric,
}

/// The number of white-space characters that start `s`.
pub open spec fn leading_blanks(s: Seq<char>) -> nat
    decreases s.len(),
{
    if s.len() > 0 && is_white_space(s[0]) {
        1 + leading_blanks(s.drop_first())
    } else {
        0
    }
}

/// The number of white-space characters that end `s`.
pub open spec fn trailing_blanks(s: Seq<char>) -> nat
    decreases s.len(),
{
    if s.len() > 0 && is_white_space(s.last()) {
        1 + trailing_blanks(s.drop_last())
    } else {
        0
    }
}

/// `s` without leading and trailing white space.
pub open spec fn trimmed(s: Seq<char>) -> Seq<char> {
    let t = s.skip(leading_blanks(s) as int);
    t.take(t.len() - trailing_blanks(t))
}

/// SQLite's affinity rules applied to a declared type, in their order.
pub open spec fn affinity_of(declared: Seq<char>) -> SqlAffinity {
    let u = upper_text(trimmed(declared));
    if has_infix(u, "INT"@) {
        SqlAffinity::Integer
    } else if has_infix(u, "CHAR"@) || has_infix(u, "CLOB"@) || has_infix(u, "TEXT"@) {
        SqlAffinity::Text
    } else if has_infix(u, "BLOB"@) || u.len() == 0 {
        SqlAffinity::Blob
    } else if has_infix(u, "REAL"@) || has_infix(u, "FLOA"@) || has_infix(u, "DOUB"@) {
        SqlAffinity::Real
    } else {
        SqlAffinity::Numeric
    }
}

proof fn lemma_leading_step(s: Seq<char>, i: int)
    requires
        0 <= i < s.len(),
        leading_blanks(s) == i + leading_blanks(s.skip(i)),
    ensures
        is_white_space(s[i]) ==> leading_blanks(s) == i + 1 + leading_blanks(s.skip(i + 1)),
        !is_white_space(s[i]) ==> leading_blanks(s) == i,
{
    assert(s.skip(i).drop_first() =~= s.skip(i + 1));
    assert(s.skip(i)[0] == s[i]);
}

proof fn lemma_trailing_step(s: Seq<char>, j: int)
    requires
        0 < j <= s.len(),
        trailing_blanks(s) == (s.len() - j) + trailing_blanks(s.take(j)),
    ensures
        is_white_space(s[j - 1]) ==> trailing_blanks(s) == (s.len() - j + 1) + trailing_blanks(
            s.take(j - 1),
        ),
        !is_white_space(s[j - 1]) ==> trailing_blanks(s) == s.len() - j,
{
    assert(s.take(j).drop_last() =~= s.take(j - 1));
    assert(s.take(j).last() == s[j - 1]);
}

/// The characters of `s` without leading and trailing white space.
pub fn trim_chars(s: &Vec<char>) -> (r: Vec<char>)
    ensures
        r@ == trimmed(s@),
{
    let n = s.len();
    let mut a: usize = 0;
    assert(s@.skip(0) =~= s@);
    while a < n && white_space(s[a])
        invariant
            n == s@.len(),
            a <= n,
            leading_blanks(s@) == a + leading_blanks(s@.skip(a as int)),
        decreases n - a,
    {
        proof {
            lemma_leading_step(s@, a as int);
        }
        a = a + 1;
    }
    proof {
        if a < n {
            lemma_leading_step(s@, a as int);
        } else {
            assert(s@.skip(a as int).len() == 0);
        }
    }
    let ghost t = s@.skip(a as int);
    let mut b: usize = n;
    assert(t.take(t.len() as int) =~= t);
    while b > a && white_space(s[b - 1])
        invariant
            n == s@.len(),
            a <= b <= n,
            t == s@.skip(a as int),
            trailing_blanks(t) == (t.len() - (b - a)) + trailing_blanks(t.take(b - a)),
        decreases b - a,
    {
        proof {
            lemma_trailing_step(t, (b - a) as int);
            assert(t[b - a - 1] == s@[b - 1]);
        }
        b = b - 1;
    }
    proof {
        if b > a {
            lemma_trailing_step(t, (b - a) as int);
            assert(t[b - a - 1] == s@[b - 1]);
        } else {
            assert(t.take(0).len() == 0);
        }
    }
    let mut out: Vec<char> = Vec::new();
    let mut i: usize = a;
    while i < b
        invariant
            n == s@.len(),
            a <= i <= b <= n,
            out@ == s@.subrange(a as int, i as int),
        decreases b - i,
    {
        out.push(s[i]);
        assert(out@ =~= s@.subrange(a as int, i + 1));
        i = i + 1;
    }
    assert(out@ =~= trimmed(s@));
    out
}

impl SqlAffinity {
    /// Applies SQLite's type-affinity rules to a declared column type.
    pub fn from_declared_type(declared: &str) -> (r: Self)
        ensures
            r == affinity_of(declared@),
    {
        let chars = chars_of(declared);
        let t = trim_chars(&chars);
        let upper = upper_chars(t.as_slice());
        if contains_str(&upper, "INT") {
            SqlAffinity::Integer
        } else if contains_str(&upper, "CHAR") || contains_str(&upper, "CLOB") || contains_str(
            &upper,
            "TEXT",
        ) {
            SqlAffinity::Text
        } else if contains_str(&upper, "BLOB") || upper.len() == 0 {
            SqlAffinity::Blob
        } else if contains_str(&upper, "REAL") || contains_str(&upper, "FLOA") || contains_str(
            &upper,
            "DOUB",
        ) {
            SqlAffinity::Real
        } else {
            SqlAffinity::Numeric
        }
    }
}

/// The canonical line of one column: kind, table, name, type and a `0`/`1` nullability flag,
/// separated by tabs.
pub open spec fn column_line(table: Seq<char>, c: ColumnView) -> Seq<char> {
    "column\t"@ + table + "\t"@ + c.name + "\t"@ + c.sql_type + "\t"@ + (if c.nullable {
        "1"@
    } else {
        "0"@
    }) + "\n"@
}

/// The canonical lines of a table's columns, in order.
pub open spec fn column_lines(table: Seq<char>, columns: Seq<ColumnView>) -> Seq<char>
    decreases columns.len(),
{
    if columns.len() == 0 {
        Seq::empty()
    } else {
        column_lines(table, columns.drop_last()) + column_line(table, columns.last())
    }
}

/// The canonical lines of one table: its header line, then its columns.
pub open spec fn table_lines(t: TableView) -> Seq<char> {
    "table\t"@ + t.name + "\t"@ + t.primary_key.name + "\t"@ + t.primary_key.sql_type + "\n"@
        + column_lines(t.name, t.columns)
}

/// The canonical text of a schema: the lines of each table in order.
pub open spec fn canonical_text(tables: Seq<TableView>) -> Seq<char>
    decreases tables.len(),
{
    if tables.len() == 0 {
        Seq::empty()
    } else {
        canonical_text(tables.drop_last()) + table_lines(tables.last())
    }
}

/// FNV-1a, 64-bit, over a byte sequence.
pub open spec fn fnv1a64_spec(bytes: Seq<u8>) -> u64
    decreases bytes.len(),
{
    if bytes.len() == 0 {
        0xcbf29ce484222325u64
    } else {
        (fnv1a64_spec(bytes.drop_last()) ^ (bytes.last() as u64)).wrapping_mul(0x100000001b3u64)
    }
}

/// FNV-1a, 64-bit.
pub fn fnv1a64(bytes: &[u8]) -> (r: u64)
    ensures
        r == fnv1a64_spec(bytes@),
{
    let mut hash: u64 = 0xcbf29ce484222325u64;
    let mut i: usize = 0;
    while i < bytes.len()
        invariant
            i <= bytes@.len(),
            hash == fnv1a64_spec(bytes@.take(i as int)),
        decreases bytes@.len() - i,
    {
        assert(bytes@.take(i + 1).drop_last() =~= bytes@.take(i as int));
        hash = (hash ^ (bytes[i] as u64)).wrapping_mul(0x100000001b3u64);
        i = i + 1;
    }
    assert(bytes@.take(bytes@.len() as int) =~= bytes@);
    hash
}

/// The sixteen lower-case hexadecimal digits of the FNV-1a hash of `bytes`.
pub open spec fn stable_hash_text(bytes: Seq<u8>) -> Seq<char> {
    hex_fixed(fnv1a64_spec(bytes) as nat, 16, false)
}

/// The stable hash of `bytes` as sixteen lower-case hexadecimal digits.
pub fn stable_hash_hex(bytes: &[u8]) -> (r: String)
    ensures
        r@ == stable_hash_text(bytes@),
{
    let mut out = String::new();
    push_hex_fixed(&mut out, fnv1a64(bytes), 16, false);
    assert(out@ =~= stable_hash_text(bytes@));
    out
}

/// The fingerprint of a schema: the stable hash of the UTF-8 bytes of its canonical text.
pub open spec fn schema_fingerprint(tables: Seq<TableView>) -> Seq<char> {
    stable_hash_text(encode_utf8(canonical_text(tables)))
}

/// Appends the canonical lines of a table's columns.
fn push_column_lines(out: &mut String, table: &String, columns: &Vec<ColumnDef>)
    ensures
        final(out)@ == old(out)@ + column_lines(table@, columns_view(columns@)),
{
    let ghost start = out@;
    let ghost cv = columns_view(columns@);
    let mut i: usize = 0;
    while i < columns.len()
        invariant
            i <= columns@.len(),
            cv == columns_view(columns@),
            out@ == start + column_lines(table@, cv.take(i as int)),
        decreases columns@.len() - i,
    {
        let c = &columns[i];
        out.append("column\t");
        out.append(table.as_str());
        out.append("\t");
        out.append(c.name.as_str());
        out.append("\t");
        out.append(c.sql_type.as_str());
        out.append("\t");
        out.append(if c.nullable { "1" } else { "0" });
        out.append("\n");
        assert(cv.take(i + 1).drop_last() =~= cv.take(i as int));
        assert(cv.take(i + 1).last() == c@);
        assert(out@ =~= start + column_lines(table@, cv.take(i + 1)));
        i = i + 1;
    }
    assert(cv.take(columns@.len() as int) =~= cv);
}

impl SchemaDef {
    /// The canonical text of this schema: one tab-separated line per table and per column.
    pub fn canonical_string(&self) -> (r: String)
        ensures
            r@ == canonical_text(self@),
    {
        let ghost tv = self@;
        let mut out = String::new();
        let mut i: usize = 0;
        while i < self.tables.len()
            invariant
                i <= self.tables@.len(),
                tv == tables_view(self.tables@),
                out@ == canonical_text(tv.take(i as int)),
            decreases self.tables@.len() - i,
        {
            let ghost before = out@;
            let t = &self.tables[i];
            out.append("table\t");
            out.append(t.name.as_str());
            out.append("\t");
            out.append(t.primary_key.name.as_str());
            out.append("\t");
            out.append(t.primary_key.sql_type.as_str());
            out.append("\n");
            push_column_lines(&mut out, &t.name, &t.columns);
            assert(tv.take(i + 1).drop_last() =~= tv.take(i as int));
            assert(tv.take(i + 1).last() == t@);
            assert(out@ =~= canonical_text(tv.take(i + 1)));
            i = i + 1;
        }
        assert(tv.take(self.tables@.len() as int) =~= tv);
        out
    }

    /// Returns a stable fingerprint for the schema: the stable hash of the UTF-8 bytes of
    /// its canonical text.
    pub fn fingerprint(&self) -> (r: String)
        ensures
            r@ == schema_fingerprint(self@),
    {
        let canonical = self.canonical_string();
        stable_hash_hex(canonical.as_str().as_bytes())
    }

    /// The names of the tables, in order.
    pub fn table_names(&self) -> (r: Vec<String>)
        ensures
            r@.len() == self.tables@.len(),
            forall|i: int| 0 <= i < r@.len() ==> (#[trigger] r@[i])@ == self.tables@[i].name@,
    {
        let mut out: Vec<String> = Vec::new();
        let mut i: usize = 0;
        while i < self.tables.len()
            invariant
                i <= self.tables@.len(),
                out@.len() == i,
                forall|k: int| 0 <= k < i ==> (#[trigger] out@[k])@ == self.tables@[k].name@,
            decreases self.tables@.len() - i,
        {
            out.push(self.tables[i].name.clone());
            i = i + 1;
        }
        out
    }
}

/// Unicode control characters (general category `Cc`).
pub open spec fn is_control(c: char) -> bool {
    (c as u32) <= 0x1f || (0x7f <= (c as u32) && (c as u32) <= 0x9f)
}

/// The JSON string-body escape of one character.
pub open spec fn json_char(c: char) -> Seq<char> {
    if c == '"' {
        seq!['\\', '"']
    } else if c == '\\' {
        seq!['\\', '\\']
    } else if c == '\n' {
        seq!['\\', 'n']
    } else if c == '\r' {
        seq!['\\', 'r']
    } else if c == '\t' {
        seq!['\\', 't']
    } else if is_control(c) {
        seq!['\\', 'u'] + hex_fixed((c as u32) as nat, 4, false)
    } else {
        seq![c]
    }
}

/// A string escaped for use between JSON double quotes.
pub open spec fn json_escaped(s: Seq<char>) -> Seq<char>
    decreases s.len(),
{
    if s.len() == 0 {
        Seq::empty()
    } else {
        json_escaped(s.drop_last()) + json_char(s.last())
    }
}

/// Escapes a string for use between JSON double quotes.
pub fn json_escape(value: &str) -> (r: String)
    ensures
        r@ == json_escaped(value@),
{
    let chars = chars_of(value);
    let mut out = String::new();
    let mut i: usize = 0;
    while i < chars.len()
        invariant
            i <= chars@.len(),
            chars@ == value@,
            out@ == json_escaped(chars@.take(i as int)),
        decreases chars@.len() - i,
    {
        let c = chars[i];
        let ghost before = out@;
        assert(chars@.take(i + 1).drop_last() =~= chars@.take(i as int));
        if c == '"' {
            out.append("\\\"");
            assert(out@ =~= before + seq!['\\', '"']) by { reveal_strlit("\\\""); }
        } else if c == '\\' {
            out.append("\\\\");
            assert(out@ =~= before + seq!['\\', '\\']) by { reveal_strlit("\\\\"); }
        } else if c == '\n' {
            out.append("\\n");
            assert(out@ =~= before + seq!['\\', 'n']) by { reveal_strlit("\\n"); }
        } else if c == '\r' {
            out.append("\\r");
            assert(out@ =~= before + seq!['\\', 'r']) by { reveal_strlit("\\r"); }
        } else if c == '\t' {
            out.append("\\t");
            assert(out@ =~= before + seq!['\\', 't']) by { reveal_strlit("\\t"); }
        } else if (c as u32) <= 0x1f || (0x7f <= (c as u32) && (c as u32) <= 0x9f) {
            push_char(&mut out, '\\');
            push_char(&mut out, 'u');
            let code = c as u32;
            push_hex_fixed(&mut out, code as u64, 4, false);
            assert(out@ =~= before + (seq!['\\', 'u'] + hex_fixed((c as u32) as nat, 4, false)));
        } else {
            push_char(&mut out, c);
        }
        assert(out@ =~= json_escaped(chars@.take(i + 1)));
        i = i + 1;
    }
    assert(chars@.take(chars@.len() as int) =~= chars@);
    out
}

impl Keyed for ColumnDef {
    open spec fn sort_key(&self) -> SortKey {
        SortKey { rank: 0, first: encode_utf8(self.name@), second: Seq::empty() }
    }

    fn key_less(&self, other: &Self) -> (r: bool) {
        str_less(self.name.as_str(), other.name.as_str())
    }
}

impl Keyed for TableDef {
    open spec fn sort_key(&self) -> SortKey {
        SortKey { rank: 0, first: encode_utf8(self.name@), second: Seq::empty() }
    }

    fn key_less(&self, other: &Self) -> (r: bool) {
        str_less(self.name.as_str(), other.name.as_str())
    }
}

/// Columns in `str` order of their names.
pub open spec fn columns_in_name_order(c: Seq<ColumnView>) -> bool {
    forall|i: int, j: int|
        0 <= i < j < c.len() ==> !text_before(#[trigger] c[j].name, #[trigger] c[i].name)
}

/// Tables in `str` order of their names.
pub open spec fn tables_in_name_order(t: Seq<TableView>) -> bool {
    forall|i: int, j: int|
        0 <= i < j < t.len() ==> !text_before(#[trigger] t[j].name, #[trigger] t[i].name)
}

/// `out` is `inp` with its columns put in name order.
pub open spec fn with_sorted_columns(out: TableView, inp: TableView) -> bool {
    &&& out.name == inp.name
    &&& out.primary_key == inp.primary_key
    &&& out.columns.to_multiset() == inp.columns.to_multiset()
    &&& columns_in_name_order(out.columns)
}

/// `n` holds the tables of `input`, each with its columns in name order, in table-name
/// order.
pub open spec fn is_normalization(n: Seq<TableView>, input: Seq<TableView>) -> bool {
    exists|mid: Seq<TableView>|
        {
            &&& mid.len() == input.len()
            &&& forall|i: int| 0 <= i < mid.len() ==> with_sorted_columns(#[trigger] mid[i], input[i])
            &&& n.to_multiset() == mid.to_multiset()
            &&& tables_in_name_order(n)
        }
}

/// The first neighbouring pair of tables, from `i` on, with the same name.
pub open spec fn duplicate_table_problem(s: Seq<TableView>, i: int) -> Option<Seq<char>>
    decreases s.len() - i,
{
    if i < 0 || i + 1 >= s.len() {
        None
    } else if s[i].name == s[i + 1].name {
        Some("duplicate managed table `"@ + s[i].name + "`"@)
    } else {
        duplicate_table_problem(s, i + 1)
    }
}

/// The name of the first neighbouring pair of columns, from `i` on, with the same name.
pub open spec fn duplicate_column_name(c: Seq<ColumnView>, i: int) -> Option<Seq<char>>
    decreases c.len() - i,
{
    if i < 0 || i + 1 >= c.len() {
        None
    } else if c[i].name == c[i + 1].name {
        Some(c[i].name)
    } else {
        duplicate_column_name(c, i + 1)
    }
}

/// What is wrong with one table's columns, if anything: a repeated column name, or a
/// column named like the primary key.
pub open spec fn table_problem(t: TableView) -> Option<Seq<char>> {
    match duplicate_column_name(t.columns, 0) {
        Some(c) => Some("duplicate column `"@ + c + "` in table `"@ + t.name + "`"@),
        None => if exists|k: int| 0 <= k < t.columns.len() && #[trigger] t.columns[k].name
            == t.primary_key.name {
            Some(
                "table `"@ + t.name + "` duplicates primary key column `"@ + t.primary_key.name
                    + "` in managed columns"@,
            )
        } else {
            None
        },
    }
}

/// The problem of the first table, from `i` on, that has one.
pub open spec fn column_problems(s: Seq<TableView>, i: int) -> Option<Seq<char>>
    decreases s.len() - i,
{
    if i < 0 || i >= s.len() {
        None
    } else {
        match table_problem(s[i]) {
            Some(m) => Some(m),
            None => column_problems(s, i + 1),
        }
    }
}

/// The first problem of a normalized schema: repeated table names first, then the tables'
/// column problems in order.
pub open spec fn schema_problem(s: Seq<TableView>) -> Option<Seq<char>> {
    match duplicate_table_problem(s, 0) {
        Some(m) => Some(m),
        None => column_problems(s, 0),
    }
}

fn check_table(t: &TableDef) -> (r: Option<String>)
    ensures
        match table_problem(t@) {
            Some(m) => r is Some && r->0@ == m,
            None => r is None,
        },
{
    let ghost cv = columns_view(t.columns@);
    let n = t.columns.len();
    let mut i: usize = 0;
    while n > 0 && i < n - 1
        invariant
            n == t.columns@.len(),
            cv == columns_view(t.columns@),
            duplicate_column_name(cv, 0) == duplicate_column_name(cv, i as int),
        decreases n - i,
    {
        if t.columns[i].name == t.columns[i + 1].name {
            let mut m = String::from_str("duplicate column `");
            m.append(t.columns[i].name.as_str());
            m.append("` in table `");
            m.append(t.name.as_str());
            m.append("`");
            return Some(m);
        }
        i = i + 1;
    }
    let mut k: usize = 0;
    while k < n
        invariant
            n == t.columns@.len(),
            cv == columns_view(t.columns@),
            duplicate_column_name(cv, 0) is None,
            forall|q: int| 0 <= q < k ==> #[trigger] cv[q].name != t.primary_key.name@,
        decreases n - k,
    {
        if t.columns[k].name == t.primary_key.name {
            let mut m = String::from_str("table `");
            m.append(t.name.as_str());
            m.append("` duplicates primary key column `");
            m.append(t.primary_key.name.as_str());
            m.append("` in managed columns");
            assert(t@.columns[k as int].name == t@.primary_key.name);
            return Some(m);
        }
        k = k + 1;
    }
    None
}

fn check_schema(tables: &Vec<TableDef>) -> (r: Option<String>)
    ensures
        match schema_problem(tables_view(tables@)) {
            Some(m) => r is Some && r->0@ == m,
            None => r is None,
        },
{
    let ghost tv = tables_view(tables@);
    let n = tables.len();
    let mut i: usize = 0;
    while n > 0 && i < n - 1
        invariant
            n == tables@.len(),
            tv == tables_view(tables@),
            duplicate_table_problem(tv, 0) == duplicate_table_problem(tv, i as int),
        decreases n - i,
    {
        if tables[i].name == tables[i + 1].name {
            let mut m = String::from_str("duplicate managed table `");
            m.append(tables[i].name.as_str());
            m.append("`");
            return Some(m);
        }
        i = i + 1;
    }
    let mut k: usize = 0;
    while k < n
        invariant
            n == tables@.len(),
            tv == tables_view(tables@),
            duplicate_table_problem(tv, 0) is None,
            column_problems(tv, 0) == column_problems(tv, k as int),
        decreases n - k,
    {
        match check_table(&tables[k]) {
            Some(m) => {
                return Some(m);
            },
            None => {},
        }
        k = k + 1;
    }
    None
}

/// `r` is the outcome of normalizing the tables `input`: for some normalization `n` of
/// them, the problem of `n` as the error, or `n` itself.
pub open spec fn normalizes_to(input: Seq<TableView>, r: Result<SchemaDef, Error>) -> bool {
    exists|n: Seq<TableView>|
        {
            &&& is_normalization(n, input)
            &&& match schema_problem(n) {
                None => r is Ok && r->Ok_0@ == n,
                Some(m) => r is Err && (r->Err_0 matches Error::InvalidSchema(x) && x@ == m),
            }
        }
}

fn sort_columns_of(t: TableDef) -> (r: TableDef)
    ensures
        with_sorted_columns(r@, t@),
{
    let TableDef { name, primary_key, columns } = t;
    let ghost before = columns@;
    let sorted = sort_by_key(columns);
    proof {
        lemma_map_same_elements(sorted@, before, |c: ColumnDef| c@);
        assert(columns_view(sorted@) =~= sorted@.map_values(|c: ColumnDef| c@));
        assert(columns_view(before) =~= before.map_values(|c: ColumnDef| c@));
        let cv = columns_view(sorted@);
        assert forall|i: int, j: int| 0 <= i < j < cv.len() implies !text_before(
            #[trigger] cv[j].name,
            #[trigger] cv[i].name,
        ) by {
            assert(!key_before(sorted@[j].sort_key(), sorted@[i].sort_key()));
        }
    }
    TableDef { name, primary_key, columns: sorted }
}

impl SchemaDef {
    /// Sorts the tables, and each table's columns, by name, then refuses repeated table
    /// names, repeated column names and columns named like the primary key.
    pub fn normalized(self) -> (r: Result<SchemaDef, Error>)
        ensures
            normalizes_to(self@, r),
    {
        let ghost input = self@;
        let SchemaDef { tables } = self;
        let ghost all = tables@;
        let total = tables.len();
        let mut rest = tables;
        let mut mid: Vec<TableDef> = Vec::new();
        let mut k: usize = 0;
        while rest.len() > 0
            invariant
                k + rest@.len() == all.len(),
                all.len() == total,
                rest@ == all.skip(k as int),
                input == tables_view(all),
                mid@.len() == k,
                forall|i: int| 0 <= i < k ==> with_sorted_columns(#[trigger] mid@[i]@, all[i]@),
            decreases rest@.len(),
        {
            let t = rest.remove(0);
            mid.push(sort_columns_of(t));
            assert(rest@ =~= all.skip(k + 1));
            k = k + 1;
        }
        let ghost mv = tables_view(mid@);
        let ghost mid_seq = mid@;
        let sorted = sort_by_key(mid);
        let ghost n = tables_view(sorted@);
        proof {
            lemma_map_same_elements(sorted@, mid_seq, |t: TableDef| t@);
            assert(n =~= sorted@.map_values(|t: TableDef| t@));
            assert(mv =~= mid_seq.map_values(|t: TableDef| t@));
            assert forall|i: int, j: int| 0 <= i < j < n.len() implies !text_before(
                #[trigger] n[j].name,
                #[trigger] n[i].name,
            ) by {
                assert(!key_before(sorted@[j].sort_key(), sorted@[i].sort_key()));
            }
            assert(mv.len() == input.len());
            assert forall|i: int| 0 <= i < mv.len() implies with_sorted_columns(
                #[trigger] mv[i],
                input[i],
            ) by {
                assert(mv[i] == mid_seq[i]@);
            }
            assert(is_normalization(n, input));
        }
        match check_schema(&sorted) {
            Some(m) => Err(Error::InvalidSchema(m)),
            None => Ok(SchemaDef { tables: sorted }),
        }
    }
}

/// Tables in strictly increasing name order, each with its columns in strictly increasing
/// name order.
pub open spec fn strictly_sorted(s: Seq<TableView>) -> bool {
    &&& forall|i: int, j: int| 0 <= i < j < s.len() ==> text_before(#[trigger] s[i].name, #[trigger] s[j].name)
    &&& forall|i: int, p: int, q: int|
        0 <= i < s.len() && 0 <= p < q < s[i].columns.len() ==> text_before(
            #[trigger] s[i].columns[p].name,
            #[trigger] s[i].columns[q].name,
        )
}

/// Two arrangements of the same elements, one in non-decreasing key order and the other in
/// strictly increasing key order, are the same sequence.
pub proof fn lemma_sorted_unique<A>(a: Seq<A>, b: Seq<A>, key: spec_fn(A) -> Seq<char>)
    requires
        a.to_multiset() == b.to_multiset(),
        forall|i: int, j: int| 0 <= i < j < a.len() ==> !text_before(key(#[trigger] a[j]), key(#[trigger] a[i])),
        forall|i: int, j: int| 0 <= i < j < b.len() ==> text_before(key(#[trigger] b[i]), key(#[trigger] b[j])),
    ensures
        a == b,
    decreases a.len(),
{
    broadcast use vstd::multiset::group_multiset_axioms;

    vstd::seq_lib::to_multiset_len(a);
    vstd::seq_lib::to_multiset_len(b);
    if a.len() == 0 {
        assert(a =~= b);
    } else {
        let x = a.last();
        let y = b.last();
        let a1 = a.drop_last();
        let b1 = b.drop_last();
        assert(a =~= a1.push(x));
        assert(b =~= b1.push(y));
        vstd::seq_lib::to_multiset_contains(a, y);
        vstd::seq_lib::to_multiset_contains(b, x);
        vstd::seq_lib::to_multiset_contains(b, y);
        assert(b[b.len() - 1] == y);
        assert(b.contains(y));
        assert(a.contains(y));
        assert(a[a.len() - 1] == x);
        vstd::seq_lib::to_multiset_contains(a, x);
        assert(a.contains(x));
        assert(b.contains(x));
        if x != y {
            let m = choose|m: int| 0 <= m < a.len() && a[m] == y;
            let k = choose|k: int| 0 <= k < b.len() && b[k] == x;
            assert(k < b.len() - 1);
            assert(m < a.len() - 1);
            assert(text_before(key(b[k]), key(b[b.len() - 1])));
            assert(!text_before(key(a[a.len() - 1]), key(a[m])));
        }
        assert(x == y);
        vstd::seq_lib::to_multiset_build(a1, x);
        vstd::seq_lib::to_multiset_build(b1, y);
        assert(a.to_multiset() =~= a1.to_multiset().insert(x));
        assert(b.to_multiset() =~= b1.to_multiset().insert(x));
        assert(a1.to_multiset() =~= b1.to_multiset()) by {
            assert forall|v: A| a1.to_multiset().count(v) == b1.to_multiset().count(v) by {
                assert(a.to_multiset().count(v) == b.to_multiset().count(v));
                assert(a1.to_multiset().insert(x).count(v) == a1.to_multiset().count(v) + if v == x {
                    1nat
                } else {
                    0nat
                });
                assert(b1.to_multiset().insert(x).count(v) == b1.to_multiset().count(v) + if v == x {
                    1nat
                } else {
                    0nat
                });
            }
        }
        assert forall|i: int, j: int| 0 <= i < j < a1.len() implies !text_before(
            key(#[trigger] a1[j]),
            key(#[trigger] a1[i]),
        ) by {
            assert(a1[i] == a[i] && a1[j] == a[j]);
        }
        assert forall|i: int, j: int| 0 <= i < j < b1.len() implies text_before(
            key(#[trigger] b1[i]),
            key(#[trigger] b1[j]),
        ) by {
            assert(b1[i] == b[i] && b1[j] == b[j]);
        }
        lemma_sorted_unique(a1, b1, key);
    }
}

/// A schema with tables and columns in strictly increasing name order is its own only
/// normalization.
pub proof fn lemma_normalization_unique(n: Seq<TableView>, s: Seq<TableView>)
    requires
        strictly_sorted(s),
        is_normalization(n, s),
    ensures
        n == s,
{
    let mid = choose|mid: Seq<TableView>|
        {
            &&& mid.len() == s.len()
            &&& forall|i: int| 0 <= i < mid.len() ==> with_sorted_columns(#[trigger] mid[i], s[i])
            &&& n.to_multiset() == mid.to_multiset()
            &&& tables_in_name_order(n)
        };
    let ckey = |c: ColumnView| c.name;
    let tkey = |t: TableView| t.name;
    assert forall|i: int| 0 <= i < mid.len() implies #[trigger] mid[i] == s[i] by {
        assert(with_sorted_columns(mid[i], s[i]));
        let a = mid[i].columns;
        let b = s[i].columns;
        assert forall|p: int, q: int| 0 <= p < q < a.len() implies !text_before(
            ckey(#[trigger] a[q]),
            ckey(#[trigger] a[p]),
        ) by {
            assert(!text_before(a[q].name, a[p].name));
        }
        assert forall|p: int, q: int| 0 <= p < q < b.len() implies text_before(
            ckey(#[trigger] b[p]),
            ckey(#[trigger] b[q]),
        ) by {
            assert(text_before(s[i].columns[p].name, s[i].columns[q].name));
        }
        lemma_sorted_unique(a, b, ckey);
    }
    assert(mid =~= s);
    assert forall|p: int, q: int| 0 <= p < q < n.len() implies !text_before(
        tkey(#[trigger] n[q]),
        tkey(#[trigger] n[p]),
    ) by {
        assert(!text_before(n[q].name, n[p].name));
    }
    assert forall|p: int, q: int| 0 <= p < q < s.len() implies text_before(
        tkey(#[trigger] s[p]),
        tkey(#[trigger] s[q]),
    ) by {
        assert(text_before(s[p].name, s[q].name));
    }
    lemma_sorted_unique(n, s, tkey);
}

/// Strictness spreads along a chain of neighbours.
proof fn lemma_chain(names: Seq<Seq<char>>, i: int, j: int)
    requires
        0 <= i < j < names.len(),
        forall|k: int| 0 <= k && k + 1 < names.len() ==> text_before(#[trigger] names[k], names[k + 1]),
    ensures
        text_before(names[i], names[j]),
    decreases j - i,
{
    if j > i + 1 {
        lemma_chain(names, i, j - 1);
        assert(text_before(names[j - 1], names[j]));
        super::sorting::lemma_text_transitive(names[i], names[j - 1], names[j]);
    }
}

/// Names in non-decreasing order with no two equal neighbours are strictly increasing.
pub proof fn lemma_strict_from_neighbours(names: Seq<Seq<char>>)
    requires
        forall|i: int, j: int| 0 <= i < j < names.len() ==> !text_before(#[trigger] names[j], #[trigger] names[i]),
        forall|k: int| 0 <= k && k + 1 < names.len() ==> #[trigger] names[k] != names[k + 1],
    ensures
        forall|i: int, j: int| 0 <= i < j < names.len() ==> text_before(#[trigger] names[i], #[trigger] names[j]),
{
    assert forall|k: int| 0 <= k && k + 1 < names.len() implies text_before(#[trigger] names[k], names[k + 1]) by {
        assert(names[k] != names[k + 1]);
        assert(!text_before(names[k + 1], names[k]));
        super::sorting::lemma_text_total(names[k], names[k + 1]);
    }
    assert forall|i: int, j: int| 0 <= i < j < names.len() implies text_before(#[trigger] names[i], #[trigger] names[j]) by {
        lemma_chain(names, i, j);
    }
}

proof fn lemma_no_duplicate_table_from(s: Seq<TableView>, i: int)
    requires
        0 <= i,
        duplicate_table_problem(s, i) is None,
    ensures
        forall|k: int| i <= k && k + 1 < s.len() ==> #[trigger] s[k].name != s[k + 1].name,
    decreases s.len() - i,
{
    if i + 1 < s.len() {
        lemma_no_duplicate_table_from(s, i + 1);
    }
}

proof fn lemma_no_duplicate_column_from(c: Seq<ColumnView>, i: int)
    requires
        0 <= i,
        duplicate_column_name(c, i) is None,
    ensures
        forall|k: int| i <= k && k + 1 < c.len() ==> #[trigger] c[k].name != c[k + 1].name,
    decreases c.len() - i,
{
    if i + 1 < c.len() {
        lemma_no_duplicate_column_from(c, i + 1);
    }
}

proof fn lemma_no_column_problem_from(s: Seq<TableView>, i: int)
    requires
        0 <= i,
        column_problems(s, i) is None,
    ensures
        forall|k: int| i <= k < s.len() ==> table_problem(#[trigger] s[k]) is None,
    decreases s.len() - i,
{
    if i < s.len() {
        lemma_no_column_problem_from(s, i + 1);
    }
}

/// Normalizing a schema that normalized without a problem gives it back unchanged:
/// normalization is idempotent.
pub proof fn lemma_normalized_is_stable(s: Seq<TableView>, n: Seq<TableView>)
    requires
        is_normalization(n, s),
        schema_problem(n) is None,
    ensures
        strictly_sorted(n),
        forall|r: Result<SchemaDef, Error>| normalizes_to(n, r) ==> (r is Ok && r->Ok_0@ == n),
{
    let mid = choose|mid: Seq<TableView>|
        {
            &&& mid.len() == s.len()
            &&& forall|i: int| 0 <= i < mid.len() ==> with_sorted_columns(#[trigger] mid[i], s[i])
            &&& n.to_multiset() == mid.to_multiset()
            &&& tables_in_name_order(n)
        };
    lemma_no_duplicate_table_from(n, 0);
    let names = n.map_values(|t: TableView| t.name);
    assert forall|i: int, j: int| 0 <= i < j < names.len() implies !text_before(
        #[trigger] names[j],
        #[trigger] names[i],
    ) by {
        assert(!text_before(n[j].name, n[i].name));
    }
    assert forall|k: int| 0 <= k && k + 1 < names.len() implies #[trigger] names[k] != names[k + 1] by {
        assert(n[k].name != n[k + 1].name);
    }
    lemma_strict_from_neighbours(names);
    lemma_no_column_problem_from(n, 0);
    assert forall|i: int, p: int, q: int|
        0 <= i < n.len() && 0 <= p < q < n[i].columns.len() implies text_before(
        #[trigger] n[i].columns[p].name,
        #[trigger] n[i].columns[q].name,
    ) by {
        let c = n[i].columns;
        assert(table_problem(n[i]) is None);
        lemma_no_duplicate_column_from(c, 0);
        vstd::seq_lib::to_multiset_contains(n, n[i]);
        assert(n.contains(n[i]));
        vstd::seq_lib::to_multiset_contains(mid, n[i]);
        let m = choose|m: int| 0 <= m < mid.len() && mid[m] == n[i];
        assert(with_sorted_columns(mid[m], s[m]));
        let cn = c.map_values(|x: ColumnView| x.name);
        assert forall|a: int, b: int| 0 <= a < b < cn.len() implies !text_before(
            #[trigger] cn[b],
            #[trigger] cn[a],
        ) by {
            assert(!text_before(c[b].name, c[a].name));
        }
        assert forall|k: int| 0 <= k && k + 1 < cn.len() implies #[trigger] cn[k] != cn[k + 1] by {
            assert(c[k].name != c[k + 1].name);
        }
        lemma_strict_from_neighbours(cn);
        assert(text_before(cn[p], cn[q]));
    }
    assert forall|i: int, j: int| 0 <= i < j < n.len() implies text_before(
        #[trigger] n[i].name,
        #[trigger] n[j].name,
    ) by {
        assert(text_before(names[i], names[j]));
    }
    assert(strictly_sorted(n));
    assert forall|r: Result<SchemaDef, Error>| normalizes_to(n, r) implies (r is Ok && r->Ok_0@ == n) by {
        let m = choose|m: Seq<TableView>|
            {
                &&& is_normalization(m, n)
                &&& match schema_problem(m) {
                    None => r is Ok && r->Ok_0@ == m,
                    Some(msg) => r is Err && (r->Err_0 matches Error::InvalidSchema(x) && x@ == msg),
                }
            };
        lemma_normalization_unique(m, n);
    }
}

/// Normalizing the same tables twice gives the same outcome: the same normalized schema,
/// or the same `InvalidSchema` error.
pub proof fn lemma_normalizes_to_unique(
    input: Seq<TableView>,
    r1: Result<SchemaDef, Error>,
    r2: Result<SchemaDef, Error>,
)
    requires
        normalizes_to(input, r1),
        normalizes_to(input, r2),
    ensures
        r1 is Ok <==> r2 is Ok,
        r1 is Ok ==> r1->Ok_0@ == r2->Ok_0@,
        r1 is Err ==> (r1->Err_0 matches Error::InvalidSchema(m1) && r2->Err_0 matches Error::InvalidSchema(
            m2,
        ) && m1@ == m2@),
{
    let n1 = choose|n: Seq<TableView>|
        {
            &&& is_normalization(n, input)
            &&& match schema_problem(n) {
                None => r1 is Ok && r1->Ok_0@ == n,
                Some(m) => r1 is Err && (r1->Err_0 matches Error::InvalidSchema(x) && x@ == m),
            }
        };
    let n2 = choose|n: Seq<TableView>|
        {
            &&& is_normalization(n, input)
            &&& match schema_problem(n) {
                None => r2 is Ok && r2->Ok_0@ == n,
                Some(m) => r2 is Err && (r2->Err_0 matches Error::InvalidSchema(x) && x@ == m),
            }
        };
    if schema_problem(n1) is None {
        lemma_same_normalization(input, n1, n2);
    } else if schema_problem(n2) is None {
        lemma_same_normalization(input, n2, n1);
    } else {
        lemma_same_problem(input, n1, n2);
    }
}

/// Names in non-decreasing `str` order are fixed by which names occur how often.
proof fn lemma_sorted_names_unique(a: Seq<Seq<char>>, b: Seq<Seq<char>>)
    requires
        a.to_multiset() == b.to_multiset(),
        forall|i: int, j: int| 0 <= i < j < a.len() ==> !text_before(#[trigger] a[j], #[trigger] a[i]),
        forall|i: int, j: int| 0 <= i < j < b.len() ==> !text_before(#[trigger] b[j], #[trigger] b[i]),
    ensures
        a == b,
    decreases a.len(),
{
    broadcast use vstd::multiset::group_multiset_axioms;

    vstd::seq_lib::to_multiset_len(a);
    vstd::seq_lib::to_multiset_len(b);
    if a.len() == 0 {
        assert(a =~= b);
    } else {
        let x = a.last();
        let y = b.last();
        let a1 = a.drop_last();
        let b1 = b.drop_last();
        assert(a =~= a1.push(x));
        assert(b =~= b1.push(y));
        assert(b[b.len() - 1] == y);
        assert(a[a.len() - 1] == x);
        vstd::seq_lib::to_multiset_contains(b, y);
        vstd::seq_lib::to_multiset_contains(a, y);
        vstd::seq_lib::to_multiset_contains(a, x);
        vstd::seq_lib::to_multiset_contains(b, x);
        assert(b.contains(y));
        assert(a.contains(x));
        if x != y {
            let m = choose|m: int| 0 <= m < a.len() && a[m] == y;
            let k = choose|k: int| 0 <= k < b.len() && b[k] == x;
            assert(!text_before(a[a.len() - 1], a[m]));
            assert(!text_before(b[b.len() - 1], b[k]));
            super::sorting::lemma_text_total(x, y);
        }
        assert(x == y);
        vstd::seq_lib::to_multiset_build(a1, x);
        vstd::seq_lib::to_multiset_build(b1, y);
        assert(a.to_multiset() =~= a1.to_multiset().insert(x));
        assert(b.to_multiset() =~= b1.to_multiset().insert(x));
        assert(a1.to_multiset() =~= b1.to_multiset()) by {
            assert forall|v: Seq<char>| a1.to_multiset().count(v) == b1.to_multiset().count(v) by {
                assert(a.to_multiset().count(v) == b.to_multiset().count(v));
                assert(a1.to_multiset().insert(x).count(v) == a1.to_multiset().count(v) + if v == x {
                    1nat
                } else {
                    0nat
                });
                assert(b1.to_multiset().insert(x).count(v) == b1.to_multiset().count(v) + if v == x {
                    1nat
                } else {
                    0nat
                });
            }
        }
        assert forall|i: int, j: int| 0 <= i < j < a1.len() implies !text_before(#[trigger] a1[j], #[trigger] a1[i]) by {
            assert(a1[i] == a[i] && a1[j] == a[j]);
        }
        assert forall|i: int, j: int| 0 <= i < j < b1.len() implies !text_before(#[trigger] b1[j], #[trigger] b1[i]) by {
            assert(b1[i] == b[i] && b1[j] == b[j]);
        }
        lemma_sorted_names_unique(a1, b1);
    }
}

/// The names of a table's columns, in order.
pub open spec fn column_names(t: TableView) -> Seq<Seq<char>> {
    t.columns.map_values(|c: ColumnView| c.name)
}

/// What a table's problem depends on: its name, its key's name and its columns' names.
pub open spec fn problem_inputs(t: TableView) -> (Seq<char>, Seq<char>, Seq<Seq<char>>) {
    (t.name, t.primary_key.name, column_names(t))
}

proof fn lemma_duplicate_column_same(c1: Seq<ColumnView>, c2: Seq<ColumnView>, i: int)
    requires
        c1.map_values(|c: ColumnView| c.name) == c2.map_values(|c: ColumnView| c.name),
    ensures
        duplicate_column_name(c1, i) == duplicate_column_name(c2, i),
    decreases c1.len() - i,
{
    assert(c1.len() == c2.map_values(|c: ColumnView| c.name).len());
    if 0 <= i && i + 1 < c1.len() {
        assert(c1.map_values(|c: ColumnView| c.name)[i] == c2.map_values(|c: ColumnView| c.name)[i]);
        assert(c1.map_values(|c: ColumnView| c.name)[i + 1] == c2.map_values(|c: ColumnView| c.name)[i + 1]);
        lemma_duplicate_column_same(c1, c2, i + 1);
    }
}

/// A table's problem depends only on [`problem_inputs`].
proof fn lemma_table_problem_same(t1: TableView, t2: TableView)
    requires
        problem_inputs(t1) == problem_inputs(t2),
    ensures
        table_problem(t1) == table_problem(t2),
{
    lemma_duplicate_column_same(t1.columns, t2.columns, 0);
    let n1 = column_names(t1);
    assert(n1.len() == t1.columns.len());
    assert(column_names(t2).len() == t2.columns.len());
    if exists|k: int| 0 <= k < t1.columns.len() && #[trigger] t1.columns[k].name == t1.primary_key.name {
        let k = choose|k: int| 0 <= k < t1.columns.len() && #[trigger] t1.columns[k].name == t1.primary_key.name;
        assert(n1[k] == column_names(t2)[k]);
        assert(t2.columns[k].name == t2.primary_key.name);
    }
    if exists|k: int| 0 <= k < t2.columns.len() && #[trigger] t2.columns[k].name == t2.primary_key.name {
        let k = choose|k: int| 0 <= k < t2.columns.len() && #[trigger] t2.columns[k].name == t2.primary_key.name;
        assert(n1[k] == column_names(t2)[k]);
        assert(t1.columns[k].name == t1.primary_key.name);
    }
}

proof fn lemma_duplicate_table_same(s1: Seq<TableView>, s2: Seq<TableView>, i: int)
    requires
        s1.map_values(|t: TableView| t.name) == s2.map_values(|t: TableView| t.name),
    ensures
        duplicate_table_problem(s1, i) == duplicate_table_problem(s2, i),
    decreases s1.len() - i,
{
    assert(s1.len() == s2.map_values(|t: TableView| t.name).len());
    if 0 <= i && i + 1 < s1.len() {
        assert(s1.map_values(|t: TableView| t.name)[i] == s2.map_values(|t: TableView| t.name)[i]);
        assert(s1.map_values(|t: TableView| t.name)[i + 1] == s2.map_values(|t: TableView| t.name)[i + 1]);
        lemma_duplicate_table_same(s1, s2, i + 1);
    }
}

proof fn lemma_column_problems_same(s1: Seq<TableView>, s2: Seq<TableView>, i: int)
    requires
        s1.map_values(|t: TableView| problem_inputs(t)) == s2.map_values(|t: TableView| problem_inputs(t)),
    ensures
        column_problems(s1, i) == column_problems(s2, i),
    decreases s1.len() - i,
{
    assert(s1.len() == s2.map_values(|t: TableView| problem_inputs(t)).len());
    if 0 <= i && i < s1.len() {
        assert(s1.map_values(|t: TableView| problem_inputs(t))[i] == s2.map_values(|t: TableView| problem_inputs(t))[i]);
        lemma_table_problem_same(s1[i], s2[i]);
        lemma_column_problems_same(s1, s2, i + 1);
    }
}

/// Two normalizations of the same tables have the same problem.
proof fn lemma_same_problem(input: Seq<TableView>, n1: Seq<TableView>, n2: Seq<TableView>)
    requires
        is_normalization(n1, input),
        is_normalization(n2, input),
    ensures
        schema_problem(n1) == schema_problem(n2),
{
    broadcast use vstd::multiset::group_multiset_axioms;

    let mid1 = choose|mid: Seq<TableView>|
        {
            &&& mid.len() == input.len()
            &&& forall|i: int| 0 <= i < mid.len() ==> with_sorted_columns(#[trigger] mid[i], input[i])
            &&& n1.to_multiset() == mid.to_multiset()
            &&& tables_in_name_order(n1)
        };
    let mid2 = choose|mid: Seq<TableView>|
        {
            &&& mid.len() == input.len()
            &&& forall|i: int| 0 <= i < mid.len() ==> with_sorted_columns(#[trigger] mid[i], input[i])
            &&& n2.to_multiset() == mid.to_multiset()
            &&& tables_in_name_order(n2)
        };
    let name_of = |t: TableView| t.name;
    let inputs_of = |t: TableView| problem_inputs(t);
    // The table names come out the same.
    lemma_map_same_elements(n1, mid1, name_of);
    lemma_map_same_elements(n2, mid2, name_of);
    assert(mid1.map_values(name_of) =~= mid2.map_values(name_of)) by {
        assert forall|i: int| 0 <= i < mid1.len() implies mid1.map_values(name_of)[i] == mid2.map_values(name_of)[i] by {
            assert(with_sorted_columns(mid1[i], input[i]));
            assert(with_sorted_columns(mid2[i], input[i]));
        }
    }
    let names1 = n1.map_values(name_of);
    let names2 = n2.map_values(name_of);
    assert forall|i: int, j: int| 0 <= i < j < names1.len() implies !text_before(#[trigger] names1[j], #[trigger] names1[i]) by {
        assert(!text_before(n1[j].name, n1[i].name));
    }
    assert forall|i: int, j: int| 0 <= i < j < names2.len() implies !text_before(#[trigger] names2[j], #[trigger] names2[i]) by {
        assert(!text_before(n2[j].name, n2[i].name));
    }
    lemma_sorted_names_unique(names1, names2);
    assert(n1.map_values(|t: TableView| t.name) =~= names1);
    assert(n2.map_values(|t: TableView| t.name) =~= names2);
    lemma_duplicate_table_same(n1, n2, 0);
    if duplicate_table_problem(n1, 0) is None {
        // Distinct names: the tables line up one to one, and so do their problems.
        lemma_no_duplicate_table_from(n1, 0);
        assert forall|k: int| 0 <= k && k + 1 < names1.len() implies #[trigger] names1[k] != names1[k + 1] by {
            assert(n1[k].name != n1[k + 1].name);
        }
        lemma_strict_from_neighbours(names1);
        assert(mid1.map_values(inputs_of) =~= mid2.map_values(inputs_of)) by {
            assert forall|i: int| 0 <= i < mid1.len() implies mid1.map_values(inputs_of)[i] == mid2.map_values(inputs_of)[i] by {
                assert(with_sorted_columns(mid1[i], input[i]));
                assert(with_sorted_columns(mid2[i], input[i]));
                let c1 = mid1[i].columns;
                let c2 = mid2[i].columns;
                lemma_map_same_elements(c1, c2, |c: ColumnView| c.name);
                let cn1 = c1.map_values(|c: ColumnView| c.name);
                let cn2 = c2.map_values(|c: ColumnView| c.name);
                assert forall|p: int, q: int| 0 <= p < q < cn1.len() implies !text_before(#[trigger] cn1[q], #[trigger] cn1[p]) by {
                    assert(!text_before(c1[q].name, c1[p].name));
                }
                assert forall|p: int, q: int| 0 <= p < q < cn2.len() implies !text_before(#[trigger] cn2[q], #[trigger] cn2[p]) by {
                    assert(!text_before(c2[q].name, c2[p].name));
                }
                lemma_sorted_names_unique(cn1, cn2);
                assert(column_names(mid1[i]) =~= cn1);
                assert(column_names(mid2[i]) =~= cn2);
            }
        }
        lemma_map_same_elements(n1, mid1, inputs_of);
        lemma_map_same_elements(n2, mid2, inputs_of);
        let f1 = n1.map_values(inputs_of);
        let f2 = n2.map_values(inputs_of);
        let key = |x: (Seq<char>, Seq<char>, Seq<Seq<char>>)| x.0;
        assert forall|i: int, j: int| 0 <= i < j < f2.len() implies !text_before(key(#[trigger] f2[j]), key(#[trigger] f2[i])) by {
            assert(!text_before(n2[j].name, n2[i].name));
        }
        assert forall|i: int, j: int| 0 <= i < j < f1.len() implies text_before(key(#[trigger] f1[i]), key(#[trigger] f1[j])) by {
            assert(text_before(names1[i], names1[j]));
        }
        lemma_sorted_unique(f2, f1, key);
        assert(n1.map_values(|t: TableView| problem_inputs(t)) =~= f1);
        assert(n2.map_values(|t: TableView| problem_inputs(t)) =~= f2);
        lemma_column_problems_same(n1, n2, 0);
    }
}

/// A normalization without a problem is the only normalization of its input.
proof fn lemma_same_normalization(input: Seq<TableView>, n1: Seq<TableView>, n2: Seq<TableView>)
    requires
        is_normalization(n1, input),
        is_normalization(n2, input),
        schema_problem(n1) is None,
    ensures
        n2 == n1,
{
    broadcast use vstd::multiset::group_multiset_axioms;

    lemma_normalized_is_stable(input, n1);
    let mid1 = choose|mid: Seq<TableView>|
        {
            &&& mid.len() == input.len()
            &&& forall|i: int| 0 <= i < mid.len() ==> with_sorted_columns(#[trigger] mid[i], input[i])
            &&& n1.to_multiset() == mid.to_multiset()
            &&& tables_in_name_order(n1)
        };
    let mid2 = choose|mid: Seq<TableView>|
        {
            &&& mid.len() == input.len()
            &&& forall|i: int| 0 <= i < mid.len() ==> with_sorted_columns(#[trigger] mid[i], input[i])
            &&& n2.to_multiset() == mid.to_multiset()
            &&& tables_in_name_order(n2)
        };
    let ckey = |c: ColumnView| c.name;
    let tkey = |t: TableView| t.name;
    assert forall|i: int| 0 <= i < mid1.len() implies #[trigger] mid2[i] == mid1[i] by {
        assert(with_sorted_columns(mid1[i], input[i]));
        assert(with_sorted_columns(mid2[i], input[i]));
        vstd::seq_lib::to_multiset_contains(mid1, mid1[i]);
        assert(mid1.contains(mid1[i]));
        vstd::seq_lib::to_multiset_contains(n1, mid1[i]);
        let k = choose|k: int| 0 <= k < n1.len() && n1[k] == mid1[i];
        let a = mid2[i].columns;
        let b = mid1[i].columns;
        assert forall|p: int, q: int| 0 <= p < q < a.len() implies !text_before(
            ckey(#[trigger] a[q]),
            ckey(#[trigger] a[p]),
        ) by {
            assert(!text_before(a[q].name, a[p].name));
        }
        assert forall|p: int, q: int| 0 <= p < q < b.len() implies text_before(
            ckey(#[trigger] b[p]),
            ckey(#[trigger] b[q]),
        ) by {
            assert(text_before(n1[k].columns[p].name, n1[k].columns[q].name));
        }
        lemma_sorted_unique(a, b, ckey);
    }
    assert(mid2 =~= mid1);
    assert forall|p: int, q: int| 0 <= p < q < n2.len() implies !text_before(
        tkey(#[trigger] n2[q]),
        tkey(#[trigger] n2[p]),
    ) by {
        assert(!text_before(n2[q].name, n2[p].name));
    }
    assert forall|p: int, q: int| 0 <= p < q < n1.len() implies text_before(
        tkey(#[trigger] n1[p]),
        tkey(#[trigger] n1[q]),
    ) by {
        assert(text_before(n1[p].name, n1[q].name));
    }
    lemma_sorted_unique(n2, n1, tkey);
}

} // verus!
