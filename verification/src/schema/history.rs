//! The schema history: reading back the canonical text of an applied target schema, and
//! the statements that keep the history table.

use vstd::prelude::*;

use crate::error::Error;
use crate::text::{chars_of, joined, string_of};

use super::sorting::text_before;

use super::types::{
    is_normalization, lemma_normalization_unique, strictly_sorted, normalizes_to, schema_problem, tables_view, ColumnDef, ColumnView, PrimaryKeyDef,
    PrimaryKeyView, SchemaDef, TableDef, TableView,
};

verus! {

/// The table that records applied plans.
pub const HISTORY_TABLE: &'static str = "_seekwel_schema_history";

/// Creates the history table when it is missing.
pub const CREATE_HISTORY_SQL: &'static str = "CREATE TABLE IF NOT EXISTS _seekwel_schema_history (id INTEGER PRIMARY KEY, plan_id TEXT NOT NULL, artifact_version INTEGER NOT NULL, source_fingerprint TEXT NOT NULL, target_fingerprint TEXT NOT NULL, target_schema TEXT NOT NULL, created_at TEXT NOT NULL DEFAULT CURRENT_TIMESTAMP)";

/// Records an applied plan: its id, artifact version, both fingerprints and the canonical
/// text of its target.
pub const INSERT_HISTORY_SQL: &'static str = "INSERT INTO _seekwel_schema_history (plan_id, artifact_version, source_fingerprint, target_fingerprint, target_schema) VALUES (?1, ?2, ?3, ?4, ?5)";

/// Reads the canonical text of the most recently applied target.
pub const LATEST_TARGET_SQL: &'static str = "SELECT target_schema FROM _seekwel_schema_history ORDER BY id DESC LIMIT 1";

/// Asks whether the history table exists.
pub const HISTORY_EXISTS_SQL: &'static str = "SELECT EXISTS(SELECT 1 FROM sqlite_schema WHERE type = 'table' AND name = ?1)";

/// The pieces of `s` between occurrences of `sep`: one more piece than separators.
pub open spec fn split_on(s: Seq<char>, sep: char) -> Seq<Seq<char>>
    decreases s.len(),
{
    if s.len() == 0 {
        seq![Seq::empty()]
    } else {
        let p = split_on(s.drop_last(), sep);
        if s.last() == sep {
            p.push(Seq::empty())
        } else {
            p.update(p.len() - 1, p.last().push(s.last()))
        }
    }
}

/// Splitting always gives at least one piece.
pub proof fn lemma_split_nonempty(s: Seq<char>, sep: char)
    ensures
        split_on(s, sep).len() >= 1,
    decreases s.len(),
{
    if s.len() > 0 {
        lemma_split_nonempty(s.drop_last(), sep);
    }
}

/// `s` without one trailing carriage return.
pub open spec fn strip_cr(s: Seq<char>) -> Seq<char> {
    if s.len() > 0 && s.last() == '\r' {
        s.drop_last()
    } else {
        s
    }
}

/// The lines of `s` as `str::lines` yields them, except that an empty piece after a final
/// newline is kept (the parser skips empty lines): split at each `\n`, with a `\r` right
/// before a `\n` removed.
pub open spec fn text_lines(s: Seq<char>) -> Seq<Seq<char>> {
    let p = split_on(s, '\n');
    Seq::new(p.len(), |i: int| if i < p.len() - 1 { strip_cr(p[i]) } else { p[i] })
}

/// The position of the first table called `name`, if any.
pub open spec fn table_index(tables: Seq<TableView>, name: Seq<char>) -> Option<int>
    decreases tables.len(),
{
    if tables.len() == 0 {
        None
    } else {
        match table_index(tables.drop_last(), name) {
            Some(i) => Some(i),
            None => if tables.last().name == name {
                Some(tables.len() - 1)
            } else {
                None
            },
        }
    }
}

/// The outcome of one history line, given the tables read so far: a `table` line adds a
/// table (its key defaulting to `id INTEGER`), a `column` line adds a column to the first
/// table of that name, an empty line changes nothing, and anything else is an error.
pub open spec fn parse_line(tables: Seq<TableView>, line: Seq<char>) -> Result<Seq<TableView>, Seq<char>> {
    if line.len() == 0 {
        Ok(tables)
    } else {
        let f = split_on(line, '\t');
        if f[0] == "table"@ {
            if f.len() < 2 {
                Err("history row is missing table name"@)
            } else if f.len() > 4 {
                Err("history table row for `"@ + f[1] + "` has trailing data"@)
            } else {
                Ok(
                    tables.push(
                        TableView {
                            name: f[1],
                            primary_key: PrimaryKeyView {
                                name: if f.len() > 2 {
                                    f[2]
                                } else {
                                    "id"@
                                },
                                sql_type: if f.len() > 3 {
                                    f[3]
                                } else {
                                    "INTEGER"@
                                },
                            },
                            columns: Seq::empty(),
                        },
                    ),
                )
            }
        } else if f[0] == "column"@ {
            if f.len() < 2 {
                Err("history row is missing column table name"@)
            } else if f.len() < 3 {
                Err("history row is missing column name"@)
            } else if f.len() < 4 {
                Err("history row is missing column type"@)
            } else if f.len() < 5 {
                Err("history row is missing column nullability"@)
            } else if f.len() > 5 {
                Err("history column row for `"@ + f[1] + "."@ + f[2] + "` has trailing data"@)
            } else {
                match table_index(tables, f[1]) {
                    None => Err("history column row references unknown table `"@ + f[1] + "`"@),
                    Some(k) => if f[4] == "0"@ || f[4] == "1"@ {
                        Ok(
                            tables.update(
                                k,
                                TableView {
                                    columns: tables[k].columns.push(
                                        ColumnView { name: f[2], sql_type: f[3], nullable: f[4] == "1"@ },
                                    ),
                                    ..tables[k]
                                },
                            ),
                        )
                    } else {
                        Err(
                            "history column `"@ + f[1] + "."@ + f[2] + "` has invalid nullability flag `"@
                                + f[4] + "`"@,
                        )
                    },
                }
            }
        } else {
            Err("history row has unknown record kind `"@ + f[0] + "`"@)
        }
    }
}

/// The outcome of reading `lines` in order, starting from the tables `init`; the first
/// error stops the reading.
pub open spec fn parse_from(init: Seq<TableView>, lines: Seq<Seq<char>>) -> Result<Seq<TableView>, Seq<char>>
    decreases lines.len(),
{
    if lines.len() == 0 {
        Ok(init)
    } else {
        match parse_from(init, lines.drop_last()) {
            Ok(t) => parse_line(t, lines.last()),
            Err(e) => Err(e),
        }
    }
}

/// The tables that the canonical text `s` describes, before normalization, or the first
/// error in it.
pub open spec fn parse_canonical(s: Seq<char>) -> Result<Seq<TableView>, Seq<char>> {
    parse_from(Seq::empty(), text_lines(s))
}

/// The views of a list of character vectors.
pub open spec fn pieces_view(v: Seq<Vec<char>>) -> Seq<Seq<char>> {
    v.map_values(|x: Vec<char>| x@)
}

/// Splits `s` at every `sep`.
fn split_chars(s: &[char], sep: char) -> (r: Vec<Vec<char>>)
    ensures
        pieces_view(r@) == split_on(s@, sep),
{
    let mut out: Vec<Vec<char>> = Vec::new();
    let mut cur: Vec<char> = Vec::new();
    let mut i: usize = 0;
    assert(s@.take(0) =~= Seq::<char>::empty());
    while i < s.len()
        invariant
            i <= s@.len(),
            pieces_view(out@).push(cur@) == split_on(s@.take(i as int), sep),
        decreases s@.len() - i,
    {
        let c = s[i];
        let ghost p = split_on(s@.take(i as int), sep);
        assert(s@.take(i + 1).drop_last() =~= s@.take(i as int));
        assert(s@.take(i + 1).last() == c);
        if c == sep {
            let ghost before = out@;
            let ghost cv = cur@;
            let done = cur;
            out.push(done);
            cur = Vec::new();
            assert(pieces_view(out@) =~= pieces_view(before).push(cv));
            assert(pieces_view(out@).push(cur@) =~= p.push(Seq::empty()));
        } else {
            cur.push(c);
            assert(pieces_view(out@).push(cur@) =~= p.update(p.len() - 1, p.last().push(c)));
        }
        i = i + 1;
    }
    assert(s@.take(s@.len() as int) =~= s@);
    let ghost before = out@;
    let ghost cv = cur@;
    out.push(cur);
    assert(pieces_view(out@) =~= pieces_view(before).push(cv));
    out
}

/// Whether the characters `a` spell `b`.
fn spells(a: &Vec<char>, b: &str) -> (r: bool)
    ensures
        r == (a@ == b@),
{
    let bc = chars_of(b);
    if a.len() != bc.len() {
        return false;
    }
    let mut i: usize = 0;
    while i < a.len()
        invariant
            a@.len() == bc@.len(),
            bc@ == b@,
            i <= a@.len(),
            forall|k: int| 0 <= k < i ==> a@[k] == bc@[k],
        decreases a@.len() - i,
    {
        if a[i] != bc[i] {
            return false;
        }
        i = i + 1;
    }
    assert(a@ =~= bc@);
    true
}

/// The position of the first table called `name`.
fn find_first_table(tables: &Vec<TableDef>, name: &String) -> (r: Option<usize>)
    ensures
        match table_index(tables_view(tables@), name@) {
            None => r is None,
            Some(k) => r matches Some(i) && i == k,
        },
{
    let ghost tv = tables_view(tables@);
    let mut i: usize = 0;
    while i < tables.len()
        invariant
            i <= tables@.len(),
            tv == tables_view(tables@),
            table_index(tv.take(i as int), name@) is None,
        decreases tables@.len() - i,
    {
        assert(tv.take(i + 1).drop_last() =~= tv.take(i as int));
        assert(tv.take(i + 1).last() == tables@[i as int]@);
        if tables[i].name == *name {
            proof {
                lemma_table_index_prefix(tv, i + 1, name@);
            }
            return Some(i);
        }
        i = i + 1;
    }
    assert(tv.take(tables@.len() as int) =~= tv);
    None
}

/// A found position holds a table of that name.
proof fn lemma_table_index_found(tv: Seq<TableView>, name: Seq<char>)
    ensures
        table_index(tv, name) matches Some(k) ==> 0 <= k < tv.len() && tv[k].name == name,
    decreases tv.len(),
{
    if tv.len() > 0 {
        lemma_table_index_found(tv.drop_last(), name);
    }
}

/// A match in a prefix is the first match overall.
proof fn lemma_table_index_prefix(tv: Seq<TableView>, n: int, name: Seq<char>)
    requires
        0 <= n <= tv.len(),
        table_index(tv.take(n), name) is Some,
    ensures
        table_index(tv, name) == table_index(tv.take(n), name),
    decreases tv.len() - n,
{
    if n < tv.len() {
        assert(tv.take(n + 1).drop_last() =~= tv.take(n));
        lemma_table_index_prefix(tv, n + 1, name);
    } else {
        assert(tv.take(n) =~= tv);
    }
}

/// Applies one history line to the tables read so far.
fn apply_line(tables: &mut Vec<TableDef>, line: &Vec<char>) -> (r: Result<(), Error>)
    ensures
        match parse_line(tables_view(old(tables)@), line@) {
            Ok(t) => r is Ok && tables_view(final(tables)@) == t,
            Err(m) => r matches Err(Error::InvalidSchema(x)) && x@ == m,
        },
{
    let ghost before = tables_view(tables@);
    if line.len() == 0 {
        return Ok(());
    }
    let f = split_chars(line.as_slice(), '\t');
    proof {
        lemma_split_nonempty(line@, '\t');
    }
    assert(pieces_view(f@)[0] == f@[0]@);
    if spells(&f[0], "table") {
        if f.len() < 2 {
            return Err(Error::InvalidSchema(String::from_str("history row is missing table name")));
        }
        let name = string_of(f[1].as_slice());
        if f.len() > 4 {
            let mut m = String::from_str("history table row for `");
            m.append(name.as_str());
            m.append("` has trailing data");
            return Err(Error::InvalidSchema(m));
        }
        let key = if f.len() > 2 {
            string_of(f[2].as_slice())
        } else {
            String::from_str("id")
        };
        let key_type = if f.len() > 3 {
            string_of(f[3].as_slice())
        } else {
            String::from_str("INTEGER")
        };
        assert(pieces_view(f@)[1] == f@[1]@);
        assert(f@.len() > 2 ==> pieces_view(f@)[2] == f@[2]@);
        assert(f@.len() > 3 ==> pieces_view(f@)[3] == f@[3]@);
        let t = TableDef {
            name,
            primary_key: PrimaryKeyDef { name: key, sql_type: key_type },
            columns: Vec::new(),
        };
        let ghost tv = t@;
        assert(t@.columns =~= Seq::<ColumnView>::empty());
        tables.push(t);
        assert(tables_view(tables@) =~= before.push(tv));
        assert(tables_view(tables@) =~= parse_line(before, line@)->Ok_0);
        Ok(())
    } else if spells(&f[0], "column") {
        if f.len() < 2 {
            return Err(Error::InvalidSchema(String::from_str("history row is missing column table name")));
        }
        if f.len() < 3 {
            return Err(Error::InvalidSchema(String::from_str("history row is missing column name")));
        }
        if f.len() < 4 {
            return Err(Error::InvalidSchema(String::from_str("history row is missing column type")));
        }
        if f.len() < 5 {
            return Err(Error::InvalidSchema(String::from_str("history row is missing column nullability")));
        }
        let table_name = string_of(f[1].as_slice());
        let column_name = string_of(f[2].as_slice());
        if f.len() > 5 {
            let mut m = String::from_str("history column row for `");
            m.append(table_name.as_str());
            m.append(".");
            m.append(column_name.as_str());
            m.append("` has trailing data");
            return Err(Error::InvalidSchema(m));
        }
        assert(pieces_view(f@)[1] == f@[1]@);
        assert(pieces_view(f@)[2] == f@[2]@);
        assert(pieces_view(f@)[3] == f@[3]@);
        assert(pieces_view(f@)[4] == f@[4]@);
        proof {
            lemma_table_index_found(before, table_name@);
        }
        match find_first_table(tables, &table_name) {
            None => {
                let mut m = String::from_str("history column row references unknown table `");
                m.append(table_name.as_str());
                m.append("`");
                Err(Error::InvalidSchema(m))
            },
            Some(k) => {
                proof {
                    reveal_strlit("0");
                    reveal_strlit("1");
                }
                assert("0"@[0] != "1"@[0]);
                let nullable = if spells(&f[4], "0") {
                    false
                } else if spells(&f[4], "1") {
                    true
                } else {
                    let mut m = String::from_str("history column `");
                    m.append(table_name.as_str());
                    m.append(".");
                    m.append(column_name.as_str());
                    m.append("` has invalid nullability flag `");
                    m.append(string_of(f[4].as_slice()).as_str());
                    m.append("`");
                    return Err(Error::InvalidSchema(m));
                };
                assert(nullable == (f@[4]@ == "1"@));
                let column = ColumnDef { name: column_name, sql_type: string_of(f[3].as_slice()), nullable };
                let ghost cv = column@;
                let ghost all = tables@;
                let mut t = tables.remove(k);
                let ghost tb = t@;
                t.columns.push(column);
                assert(t@.columns =~= tb.columns.push(cv));
                let ghost tn = t@;
                tables.insert(k, t);
                assert(tables@ =~= all.update(k as int, tables@[k as int]));
                assert(tables_view(tables@) =~= before.update(k as int, tn));
                assert(tb == before[k as int]);
                assert(cv == ColumnView { name: f@[2]@, sql_type: f@[3]@, nullable: f@[4]@ == "1"@ });
                assert(tn == TableView { columns: before[k as int].columns.push(cv), ..before[k as int] });
                assert(table_index(before, pieces_view(f@)[1]) == Some(k as int));
                assert(tables_view(tables@) =~= parse_line(before, line@)->Ok_0);
                Ok(())
            },
        }
    } else {
        let mut m = String::from_str("history row has unknown record kind `");
        m.append(string_of(f[0].as_slice()).as_str());
        m.append("`");
        Err(Error::InvalidSchema(m))
    }
}

impl SchemaDef {
    /// Reads a schema back from its canonical text, then normalizes it.
    pub fn from_canonical(input: &str) -> (r: Result<SchemaDef, Error>)
        ensures
            match parse_canonical(input@) {
                Err(m) => r matches Err(Error::InvalidSchema(x)) && x@ == m,
                Ok(parsed) => normalizes_to(parsed, r),
            },
    {
        let chars = chars_of(input);
        let pieces = split_chars(chars.as_slice(), '\n');
        let ghost lines = text_lines(input@);
        let mut tables: Vec<TableDef> = Vec::new();
        assert(tables_view(tables@) =~= Seq::<TableView>::empty());
        let n = pieces.len();
        let mut i: usize = 0;
        assert(lines.take(0) =~= Seq::<Seq<char>>::empty());
        while i < n
            invariant
                n == pieces@.len(),
                pieces_view(pieces@) == split_on(input@, '\n'),
                lines == text_lines(input@),
                i <= n,
                parse_from(Seq::empty(), lines.take(i as int)) == Ok::<Seq<TableView>, Seq<char>>(tables_view(tables@)),
            decreases n - i,
        {
            let piece = &pieces[i];
            let line: Vec<char> = if i + 1 < n && piece.len() > 0 && piece[piece.len() - 1] == '\r' {
                let mut l = piece.clone();
                l.pop();
                l
            } else {
                piece.clone()
            };
            assert(line@ == lines[i as int]);
            assert(lines.take(i + 1).drop_last() =~= lines.take(i as int));
            match apply_line(&mut tables, &line) {
                Ok(()) => {},
                Err(e) => {
                    assert(parse_from(Seq::empty(), lines.take(i + 1)) is Err);
                    proof {
                        lemma_parse_error_stays(Seq::empty(), lines, i + 1);
                    }
                    assert(parse_canonical(input@) == parse_from(Seq::empty(), lines.take(i + 1)));
                    return Err(e);
                },
            }
            i = i + 1;
        }
        assert(lines.take(n as int) =~= lines);
        assert(parse_canonical(input@) == Ok::<Seq<TableView>, Seq<char>>(tables_view(tables@)));
        let schema = SchemaDef { tables };
        let ghost parsed = schema@;
        assert(parse_canonical(input@) == Ok::<Seq<TableView>, Seq<char>>(parsed));
        schema.normalized()
    }
}

/// Once reading fails, reading more lines gives the same error.
proof fn lemma_parse_error_stays(init: Seq<TableView>, lines: Seq<Seq<char>>, n: int)
    requires
        0 <= n <= lines.len(),
        parse_from(init, lines.take(n)) is Err,
    ensures
        parse_from(init, lines) == parse_from(init, lines.take(n)),
    decreases lines.len() - n,
{
    if n < lines.len() {
        assert(lines.take(n + 1).drop_last() =~= lines.take(n));
        lemma_parse_error_stays(init, lines, n + 1);
    } else {
        assert(lines.take(n) =~= lines);
    }
}

/// A field that canonical text carries unchanged: no tab, newline or carriage return.
pub open spec fn plain_field(s: Seq<char>) -> bool {
    forall|k: int| 0 <= k < s.len() ==> #[trigger] s[k] != '\t' && s[k] != '\n' && s[k] != '\r'
}

/// A normalized schema whose names and types are plain fields: tables in strictly
/// increasing name order, each with its columns in strictly increasing name order, and
/// no column named like the table's primary key.
pub open spec fn history_safe(s: Seq<TableView>) -> bool {
    &&& strictly_sorted(s)
    &&& forall|i: int| 0 <= i < s.len() ==> table_safe(#[trigger] s[i])
}

/// One table of a history-safe schema.
pub open spec fn table_safe(t: TableView) -> bool {
    &&& plain_field(t.name)
    &&& plain_field(t.primary_key.name)
    &&& plain_field(t.primary_key.sql_type)
    &&& forall|i: int, j: int|
        0 <= i < j < t.columns.len() ==> text_before(#[trigger] t.columns[i].name, #[trigger] t.columns[j].name)
    &&& forall|k: int|
        0 <= k < t.columns.len() ==> {
            &&& plain_field(#[trigger] t.columns[k].name)
            &&& plain_field(t.columns[k].sql_type)
            &&& t.columns[k].name != t.primary_key.name
        }
}

/// Pieces without the separator split into themselves.
proof fn lemma_split_plain(x: Seq<char>, sep: char)
    requires
        forall|k: int| 0 <= k < x.len() ==> #[trigger] x[k] != sep,
    ensures
        split_on(x, sep) == seq![x],
    decreases x.len(),
{
    if x.len() > 0 {
        lemma_split_plain(x.drop_last(), sep);
        assert(x.last() != sep);
        assert(x.drop_last().push(x.last()) =~= x);
        assert(seq![x.drop_last()].update(0, x.drop_last().push(x.last())) =~= seq![x]);
    } else {
        assert(x =~= Seq::<char>::empty());
    }
}

/// Splitting text that follows a separator continues the pieces before it.
proof fn lemma_split_concat(a: Seq<char>, b: Seq<char>, sep: char)
    requires
        a.len() > 0,
        a.last() == sep,
    ensures
        split_on(a + b, sep) == split_on(a, sep).drop_last() + split_on(b, sep),
    decreases b.len(),
{
    lemma_split_nonempty(a.drop_last(), sep);
    if b.len() == 0 {
        assert(a + b =~= a);
        assert(split_on(a, sep).drop_last() + split_on(b, sep) =~= split_on(a, sep));
    } else {
        let b1 = b.drop_last();
        lemma_split_concat(a, b1, sep);
        lemma_split_nonempty(b1, sep);
        assert((a + b).drop_last() =~= a + b1);
        assert((a + b).last() == b.last());
        let p = split_on(a, sep).drop_last();
        let q = split_on(b1, sep);
        if b.last() == sep {
            assert((p + q).push(Seq::empty()) =~= p + q.push(Seq::empty()));
        } else {
            assert((p + q).update((p + q).len() - 1, (p + q).last().push(b.last())) =~= p + q.update(
                q.len() - 1,
                q.last().push(b.last()),
            ));
        }
    }
}

/// Joining plain pieces with a separator and splitting at it gives the pieces back.
proof fn lemma_split_joined(parts: Seq<Seq<char>>, sep: char)
    requires
        parts.len() > 0,
        forall|i: int, k: int| 0 <= i < parts.len() && 0 <= k < parts[i].len() ==> #[trigger] parts[i][k] != sep,
    ensures
        split_on(joined(parts, seq![sep]), sep) == parts,
    decreases parts.len(),
{
    if parts.len() == 1 {
        assert forall|k: int| 0 <= k < parts[0].len() implies #[trigger] parts[0][k] != sep by {
            assert(parts[0][k] == parts[0][k]);
        }
        lemma_split_plain(parts[0], sep);
        assert(seq![parts[0]] =~= parts);
    } else {
        let rest = parts.drop_last();
        assert forall|i: int, k: int| 0 <= i < rest.len() && 0 <= k < rest[i].len() implies #[trigger] rest[i][k]
            != sep by {
            assert(rest[i] == parts[i]);
            assert(parts[i][k] != sep);
        }
        lemma_split_joined(rest, sep);
        let a = joined(rest, seq![sep]) + seq![sep];
        assert(a.drop_last() =~= joined(rest, seq![sep]));
        lemma_split_concat(a, parts.last(), sep);
        assert forall|k: int| 0 <= k < parts.last().len() implies #[trigger] parts.last()[k] != sep by {
            assert(parts[parts.len() - 1][k] != sep);
        }
        lemma_split_plain(parts.last(), sep);
        assert(joined(parts, seq![sep]) =~= a + parts.last());
        assert(split_on(a, sep) == split_on(joined(rest, seq![sep]), sep).push(Seq::empty()));
        assert(split_on(a, sep).drop_last() + seq![parts.last()] =~= parts);
    }
}

/// The content of a table's canonical header line.
pub open spec fn header_content(t: TableView) -> Seq<char> {
    joined(seq!["table"@, t.name, t.primary_key.name, t.primary_key.sql_type], seq!['\t'])
}

/// The content of a column's canonical line.
pub open spec fn column_content(table: Seq<char>, c: ColumnView) -> Seq<char> {
    joined(
        seq![
            "column"@,
            table,
            c.name,
            c.sql_type,
            if c.nullable {
                "1"@
            } else {
                "0"@
            },
        ],
        seq!['\t'],
    )
}

/// The contents of a table's column lines.
pub open spec fn column_contents(table: Seq<char>, columns: Seq<ColumnView>) -> Seq<Seq<char>>
    decreases columns.len(),
{
    if columns.len() == 0 {
        Seq::empty()
    } else {
        column_contents(table, columns.drop_last()).push(column_content(table, columns.last()))
    }
}

/// The contents of a schema's canonical lines.
pub open spec fn canonical_contents(s: Seq<TableView>) -> Seq<Seq<char>>
    decreases s.len(),
{
    if s.len() == 0 {
        Seq::empty()
    } else {
        canonical_contents(s.drop_last()) + seq![header_content(s.last())] + column_contents(
            s.last().name,
            s.last().columns,
        )
    }
}

proof fn lemma_literals()
    ensures
        "table\t"@ == "table"@ + seq!['\t'],
        "column\t"@ == "column"@ + seq!['\t'],
        "\t"@ == seq!['\t'],
        "\n"@ == seq!['\n'],
        "table"@ != "column"@,
        "0"@ != "1"@,
        "0"@.len() == 1 && "0"@[0] == '0',
        "1"@.len() == 1 && "1"@[0] == '1',
        forall|k: int| 0 <= k < "table"@.len() ==> #[trigger] "table"@[k] != '\t' && "table"@[k] != '\n' && "table"@[k] != '\r',
        forall|k: int| 0 <= k < "column"@.len() ==> #[trigger] "column"@[k] != '\t' && "column"@[k] != '\n' && "column"@[k] != '\r',
{
    reveal_strlit("table\t");
    reveal_strlit("column\t");
    reveal_strlit("table");
    reveal_strlit("column");
    reveal_strlit("\t");
    reveal_strlit("\n");
    reveal_strlit("0");
    reveal_strlit("1");
    assert("table\t"@ =~= "table"@ + seq!['\t']);
    assert("column\t"@ =~= "column"@ + seq!['\t']);
    assert("table"@.len() != "column"@.len());
    assert("0"@[0] != "1"@[0]);
}

/// The header line content equals the canonical header text without its newline.
proof fn lemma_header_text(t: TableView)
    ensures
        "table\t"@ + t.name + "\t"@ + t.primary_key.name + "\t"@ + t.primary_key.sql_type + "\n"@
            == header_content(t) + seq!['\n'],
{
    lemma_literals();
    let sep = seq!['\t'];
    let p1 = seq!["table"@];
    let p2 = seq!["table"@, t.name];
    let p3 = seq!["table"@, t.name, t.primary_key.name];
    let parts = seq!["table"@, t.name, t.primary_key.name, t.primary_key.sql_type];
    assert(p2.drop_last() =~= p1);
    assert(p3.drop_last() =~= p2);
    assert(parts.drop_last() =~= p3);
    assert(joined(p1, sep) == "table"@);
    assert(joined(p2, sep) == joined(p1, sep) + sep + t.name);
    assert(joined(p3, sep) == joined(p2, sep) + sep + t.primary_key.name);
    assert(joined(parts, sep) == joined(p3, sep) + sep + t.primary_key.sql_type);
    assert(header_content(t) =~= "table"@ + seq!['\t'] + t.name + seq!['\t'] + t.primary_key.name + seq!['\t']
        + t.primary_key.sql_type);
    assert("table\t"@ + t.name + "\t"@ + t.primary_key.name + "\t"@ + t.primary_key.sql_type + "\n"@
        =~= header_content(t) + seq!['\n']);
}

/// A column line equals its content and a newline.
proof fn lemma_column_text(table: Seq<char>, c: ColumnView)
    ensures
        super::types::column_line(table, c) == column_content(table, c) + seq!['\n'],
{
    lemma_literals();
    let flag = if c.nullable {
        "1"@
    } else {
        "0"@
    };
    let sep = seq!['\t'];
    let p1 = seq!["column"@];
    let p2 = seq!["column"@, table];
    let p3 = seq!["column"@, table, c.name];
    let p4 = seq!["column"@, table, c.name, c.sql_type];
    let parts = seq!["column"@, table, c.name, c.sql_type, flag];
    assert(p2.drop_last() =~= p1);
    assert(p3.drop_last() =~= p2);
    assert(p4.drop_last() =~= p3);
    assert(parts.drop_last() =~= p4);
    assert(joined(p1, sep) == "column"@);
    assert(joined(p2, sep) == joined(p1, sep) + sep + table);
    assert(joined(p3, sep) == joined(p2, sep) + sep + c.name);
    assert(joined(p4, sep) == joined(p3, sep) + sep + c.sql_type);
    assert(joined(parts, sep) == joined(p4, sep) + sep + flag);
    assert(column_content(table, c) =~= "column"@ + seq!['\t'] + table + seq!['\t'] + c.name + seq!['\t']
        + c.sql_type + seq!['\t'] + flag);
    assert(super::types::column_line(table, c) =~= column_content(table, c) + seq!['\n']);
}

/// A plain-field content has no newline.
proof fn lemma_no_newline(parts: Seq<Seq<char>>)
    requires
        parts.len() > 0,
        forall|i: int| 0 <= i < parts.len() ==> plain_field(#[trigger] parts[i]),
    ensures
        forall|k: int| 0 <= k < joined(parts, seq!['\t']).len() ==> #[trigger] joined(parts, seq!['\t'])[k] != '\n'
            && joined(parts, seq!['\t'])[k] != '\r',
    decreases parts.len(),
{
    if parts.len() > 1 {
        let rest = parts.drop_last();
        assert forall|i: int| 0 <= i < rest.len() implies plain_field(#[trigger] rest[i]) by {
            assert(rest[i] == parts[i]);
        }
        lemma_no_newline(rest);
        let j = joined(parts, seq!['\t']);
        let jr = joined(rest, seq!['\t']);
        assert(j =~= jr + seq!['\t'] + parts.last());
        assert(plain_field(parts[parts.len() - 1]));
        assert forall|k: int| 0 <= k < j.len() implies #[trigger] j[k] != '\n' && j[k] != '\r' by {
            if k < jr.len() {
                assert(j[k] == jr[k]);
            } else if k == jr.len() {
                assert(j[k] == '\t');
            } else {
                assert(j[k] == parts.last()[k - jr.len() - 1]);
            }
        }
    } else {
        assert(plain_field(parts[0]));
    }
}

/// Splitting the canonical lines of a table's columns.
proof fn lemma_split_columns(table: Seq<char>, columns: Seq<ColumnView>)
    requires
        plain_field(table),
        forall|k: int| 0 <= k < columns.len() ==> plain_field(#[trigger] columns[k].name) && plain_field(
            columns[k].sql_type,
        ),
    ensures
        split_on(super::types::column_lines(table, columns), '\n') == column_contents(table, columns).push(
            Seq::empty(),
        ),
    decreases columns.len(),
{
    lemma_literals();
    if columns.len() == 0 {
        assert(super::types::column_lines(table, columns) =~= Seq::<char>::empty());
    } else {
        let rest = columns.drop_last();
        let c = columns.last();
        assert(plain_field(columns[columns.len() - 1].name));
        lemma_split_columns(table, rest);
        lemma_column_text(table, c);
        let content = column_content(table, c);
        let flag = if c.nullable {
            "1"@
        } else {
            "0"@
        };
        let parts = seq!["column"@, table, c.name, c.sql_type, flag];
        assert forall|i: int| 0 <= i < parts.len() implies plain_field(#[trigger] parts[i]) by {
            if i == 4 {
                assert forall|k: int| 0 <= k < flag.len() implies #[trigger] flag[k] != '\t' && flag[k] != '\n'
                    && flag[k] != '\r' by {
                    assert(k == 0);
                }
            }
        }
        lemma_no_newline(parts);
        lemma_split_plain(content, '\n');
        let line = content + seq!['\n'];
        assert(line.drop_last() =~= content);
        assert(split_on(line, '\n') =~= seq![content, Seq::empty()]);
        let prev = super::types::column_lines(table, rest);
        if prev.len() == 0 {
            assert(prev + line =~= line);
            assert(column_contents(table, rest).len() == 0) by {
                lemma_split_nonempty(prev, '\n');
                assert(split_on(prev, '\n') =~= seq![Seq::<char>::empty()]);
            }
            assert(column_contents(table, columns) =~= seq![content]);
        } else {
            assert(prev.last() == '\n') by {
                if columns.len() > 1 {
                    lemma_column_text(table, rest.last());
                }
                assert(prev == super::types::column_lines(table, rest.drop_last()) + super::types::column_line(
                    table,
                    rest.last(),
                ));
            }
            lemma_split_concat(prev, line, '\n');
            assert(column_contents(table, rest).push(Seq::empty()).drop_last() =~= column_contents(
                table,
                rest,
            ));
        }
        assert(super::types::column_lines(table, columns) == prev + line);
        assert(split_on(super::types::column_lines(table, columns), '\n') =~= column_contents(
            table,
            columns,
        ).push(Seq::empty()));
    }
}

/// The fields of a plain table: none has a tab, newline or carriage return.
proof fn lemma_header_fields(t: TableView)
    requires
        table_safe(t),
    ensures
        split_on(header_content(t), '\t') == seq!["table"@, t.name, t.primary_key.name, t.primary_key.sql_type],
        forall|k: int| 0 <= k < header_content(t).len() ==> #[trigger] header_content(t)[k] != '\n'
            && header_content(t)[k] != '\r',
        header_content(t).len() > 0,
{
    lemma_literals();
    let parts = seq!["table"@, t.name, t.primary_key.name, t.primary_key.sql_type];
    assert forall|i: int| 0 <= i < parts.len() implies plain_field(#[trigger] parts[i]) by {}
    assert forall|i: int, k: int| 0 <= i < parts.len() && 0 <= k < parts[i].len() implies #[trigger] parts[i][k]
        != '\t' by {
        assert(plain_field(parts[i]));
    }
    lemma_split_joined(parts, '\t');
    lemma_no_newline(parts);
    if header_content(t).len() == 0 {
        assert(split_on(header_content(t), '\t') =~= seq![Seq::<char>::empty()]);
    }
}

/// The fields of a plain column line.
proof fn lemma_column_fields(table: Seq<char>, c: ColumnView)
    requires
        plain_field(table),
        plain_field(c.name),
        plain_field(c.sql_type),
    ensures
        split_on(column_content(table, c), '\t') == seq![
            "column"@,
            table,
            c.name,
            c.sql_type,
            if c.nullable {
                "1"@
            } else {
                "0"@
            },
        ],
        column_content(table, c).len() > 0,
{
    lemma_literals();
    let flag = if c.nullable {
        "1"@
    } else {
        "0"@
    };
    let parts = seq!["column"@, table, c.name, c.sql_type, flag];
    assert forall|k: int| 0 <= k < flag.len() implies #[trigger] flag[k] != '\t' && flag[k] != '\n' && flag[k]
        != '\r' by {
        assert(k == 0);
    }
    assert forall|i: int| 0 <= i < parts.len() implies plain_field(#[trigger] parts[i]) by {}
    assert forall|i: int, k: int| 0 <= i < parts.len() && 0 <= k < parts[i].len() implies #[trigger] parts[i][k]
        != '\t' by {
        assert(plain_field(parts[i]));
    }
    lemma_split_joined(parts, '\t');
    if column_content(table, c).len() == 0 {
        assert(split_on(column_content(table, c), '\t') =~= seq![Seq::<char>::empty()]);
    }
}

/// Canonical text is empty or ends with a newline.
proof fn lemma_canonical_ends(s: Seq<TableView>)
    ensures
        super::types::canonical_text(s).len() == 0 || super::types::canonical_text(s).last() == '\n',
        s.len() > 0 ==> super::types::canonical_text(s).len() > 0,
    decreases s.len(),
{
    lemma_literals();
    if s.len() > 0 {
        let t = s.last();
        lemma_header_text(t);
        let cl = super::types::column_lines(t.name, t.columns);
        if t.columns.len() > 0 {
            lemma_column_text(t.name, t.columns.last());
            assert(cl == super::types::column_lines(t.name, t.columns.drop_last()) + super::types::column_line(
                t.name,
                t.columns.last(),
            ));
            assert(cl.last() == '\n');
        } else {
            assert(cl =~= Seq::<char>::empty());
        }
        let tl = super::types::table_lines(t);
        assert(tl == header_content(t) + seq!['\n'] + cl);
        assert(tl.last() == '\n');
        assert(super::types::canonical_text(s) == super::types::canonical_text(s.drop_last()) + tl);
    }
}

/// No content line ends with a carriage return.
pub open spec fn no_trailing_cr(lines: Seq<Seq<char>>) -> bool {
    forall|i: int| 0 <= i < lines.len() ==> strip_cr(#[trigger] lines[i]) == lines[i]
}

/// Splitting canonical text at newlines gives its line contents and an empty last piece.
proof fn lemma_split_canonical(s: Seq<TableView>)
    requires
        forall|i: int| 0 <= i < s.len() ==> table_safe(#[trigger] s[i]),
    ensures
        split_on(super::types::canonical_text(s), '\n') == canonical_contents(s).push(Seq::empty()),
        no_trailing_cr(canonical_contents(s)),
    decreases s.len(),
{
    lemma_literals();
    if s.len() == 0 {
        assert(super::types::canonical_text(s) =~= Seq::<char>::empty());
        assert(canonical_contents(s).push(Seq::empty()) =~= seq![Seq::<char>::empty()]);
    } else {
        let rest = s.drop_last();
        let t = s.last();
        assert(table_safe(s[s.len() - 1]));
        assert forall|i: int| 0 <= i < rest.len() implies table_safe(#[trigger] rest[i]) by {
            assert(rest[i] == s[i]);
        }
        lemma_split_canonical(rest);
        lemma_canonical_ends(rest);
        lemma_header_text(t);
        lemma_header_fields(t);
        let hc = header_content(t);
        let cl = super::types::column_lines(t.name, t.columns);
        lemma_split_columns(t.name, t.columns);
        let cc = column_contents(t.name, t.columns);
        let head = hc + seq!['\n'];
        lemma_split_plain(hc, '\n');
        assert(head.drop_last() =~= hc);
        assert(split_on(head, '\n') =~= seq![hc, Seq::empty()]);
        lemma_split_concat(head, cl, '\n');
        let tl = super::types::table_lines(t);
        assert(tl =~= head + cl);
        assert(split_on(tl, '\n') =~= seq![hc] + cc.push(Seq::empty()));
        let prev = super::types::canonical_text(rest);
        assert(super::types::canonical_text(s) == prev + tl);
        if prev.len() == 0 {
            assert(prev + tl =~= tl);
            assert(rest.len() == 0);
            assert(canonical_contents(rest) =~= Seq::<Seq<char>>::empty());
        } else {
            lemma_split_concat(prev, tl, '\n');
            assert(canonical_contents(rest).push(Seq::empty()).drop_last() =~= canonical_contents(rest));
        }
        assert(canonical_contents(s) =~= canonical_contents(rest) + seq![hc] + cc);
        assert(split_on(super::types::canonical_text(s), '\n') =~= canonical_contents(s).push(Seq::empty()));
        lemma_column_contents_plain(t.name, t.columns);
        assert forall|i: int| 0 <= i < canonical_contents(s).len() implies strip_cr(
            #[trigger] canonical_contents(s)[i],
        ) == canonical_contents(s)[i] by {
            let cs = canonical_contents(s);
            let cr = canonical_contents(rest);
            if i < cr.len() {
                assert(cs[i] == cr[i]);
            } else if i == cr.len() {
                assert(cs[i] == hc);
                if hc.len() > 0 {
                    assert(hc[hc.len() - 1] != '\r');
                }
            } else {
                assert(cs[i] == cc[i - cr.len() - 1]);
            }
        }
    }
}

/// Column line contents do not end with a carriage return.
proof fn lemma_column_contents_plain(table: Seq<char>, columns: Seq<ColumnView>)
    requires
        plain_field(table),
        forall|k: int| 0 <= k < columns.len() ==> plain_field(#[trigger] columns[k].name) && plain_field(
            columns[k].sql_type,
        ),
    ensures
        no_trailing_cr(column_contents(table, columns)),
        column_contents(table, columns).len() == columns.len(),
    decreases columns.len(),
{
    if columns.len() > 0 {
        let rest = columns.drop_last();
        assert forall|k: int| 0 <= k < rest.len() implies plain_field(#[trigger] rest[k].name) && plain_field(
            rest[k].sql_type,
        ) by {
            assert(rest[k] == columns[k]);
        }
        lemma_column_contents_plain(table, rest);
        let c = columns.last();
        assert(plain_field(columns[columns.len() - 1].name));
        let flag = if c.nullable {
            "1"@
        } else {
            "0"@
        };
        lemma_literals();
        let parts = seq!["column"@, table, c.name, c.sql_type, flag];
        assert forall|k: int| 0 <= k < flag.len() implies #[trigger] flag[k] != '\t' && flag[k] != '\n'
            && flag[k] != '\r' by {
            assert(k == 0);
        }
        assert forall|i: int| 0 <= i < parts.len() implies plain_field(#[trigger] parts[i]) by {}
        lemma_no_newline(parts);
        let cc = column_content(table, c);
        if cc.len() > 0 {
            assert(cc[cc.len() - 1] != '\r');
        }
        let all = column_contents(table, columns);
        assert forall|i: int| 0 <= i < all.len() implies strip_cr(#[trigger] all[i]) == all[i] by {
            if i < rest.len() {
                assert(all[i] == column_contents(table, rest)[i]);
            }
        }
    }
}

/// Reading lines after other lines continues from where those left off.
proof fn lemma_parse_concat(init: Seq<TableView>, a: Seq<Seq<char>>, b: Seq<Seq<char>>)
    ensures
        parse_from(init, a + b) == match parse_from(init, a) {
            Ok(t) => parse_from(t, b),
            Err(e) => Err(e),
        },
    decreases b.len(),
{
    if b.len() == 0 {
        assert(a + b =~= a);
    } else {
        lemma_parse_concat(init, a, b.drop_last());
        assert((a + b).drop_last() =~= a + b.drop_last());
        assert((a + b).last() == b.last());
    }
}

/// Reading one table's canonical lines appends that table.
proof fn lemma_parse_table(init: Seq<TableView>, t: TableView, j: int)
    requires
        table_safe(t),
        table_index(init, t.name) is None,
        0 <= j <= t.columns.len(),
    ensures
        parse_from(init, seq![header_content(t)] + column_contents(t.name, t.columns.take(j))) == Ok::<
            Seq<TableView>,
            Seq<char>,
        >(init.push(TableView { columns: t.columns.take(j), ..t })),
    decreases j,
{
    lemma_literals();
    if j == 0 {
        lemma_header_fields(t);
        assert(column_contents(t.name, t.columns.take(0)) =~= Seq::<Seq<char>>::empty());
        let lines = seq![header_content(t)];
        assert(seq![header_content(t)] + column_contents(t.name, t.columns.take(0)) =~= lines);
        assert(lines.drop_last() =~= Seq::<Seq<char>>::empty());
        assert(t.columns.take(0) =~= Seq::<ColumnView>::empty());
        assert(parse_line(init, header_content(t)) == Ok::<Seq<TableView>, Seq<char>>(
            init.push(TableView { columns: t.columns.take(0), ..t }),
        ));
        assert(parse_from(init, lines.drop_last()) == Ok::<Seq<TableView>, Seq<char>>(init));
        assert(lines.last() == header_content(t));
        assert(parse_from(init, lines) == parse_line(init, header_content(t)));
    } else {
        lemma_parse_table(init, t, j - 1);
        let c = t.columns[j - 1];
        assert(plain_field(t.columns[j - 1].name));
        lemma_column_fields(t.name, c);
        let prev_cols = t.columns.take(j - 1);
        assert(t.columns.take(j).drop_last() =~= prev_cols);
        assert(t.columns.take(j).last() == c);
        let lines = seq![header_content(t)] + column_contents(t.name, t.columns.take(j));
        assert(lines.drop_last() =~= seq![header_content(t)] + column_contents(t.name, prev_cols));
        assert(lines.last() == column_content(t.name, c));
        let before = init.push(TableView { columns: prev_cols, ..t });
        assert(before.drop_last() =~= init);
        assert(table_index(before, t.name) == Some(init.len() as int));
        let updated = before.update(
            init.len() as int,
            TableView {
                columns: before[init.len() as int].columns.push(
                    ColumnView {
                        name: c.name,
                        sql_type: c.sql_type,
                        nullable: (if c.nullable {
                            "1"@
                        } else {
                            "0"@
                        }) == "1"@,
                    },
                ),
                ..before[init.len() as int]
            },
        );
        assert(parse_line(before, column_content(t.name, c)) == Ok::<Seq<TableView>, Seq<char>>(updated));
        let flag = if c.nullable {
            "1"@
        } else {
            "0"@
        };
        assert((flag == "1"@) == c.nullable);
        assert(ColumnView { name: c.name, sql_type: c.sql_type, nullable: flag == "1"@ } == c);
        assert(prev_cols.push(c) =~= t.columns.take(j));
        assert(before[init.len() as int].columns == prev_cols);
        assert(updated =~= init.push(TableView { columns: t.columns.take(j), ..t }));
        assert(parse_from(init, lines.drop_last()) == Ok::<Seq<TableView>, Seq<char>>(before));
        assert(parse_from(init, lines) == parse_line(before, lines.last()));
    }
}

/// Reading the canonical lines of a history-safe schema gives the schema back.
proof fn lemma_parse_tables(s: Seq<TableView>)
    requires
        history_safe(s),
    ensures
        parse_from(Seq::empty(), canonical_contents(s)) == Ok::<Seq<TableView>, Seq<char>>(s),
    decreases s.len(),
{
    if s.len() == 0 {
        assert(canonical_contents(s) =~= Seq::<Seq<char>>::empty());
        assert(s =~= Seq::<TableView>::empty());
    } else {
        let rest = s.drop_last();
        let t = s.last();
        assert(table_safe(s[s.len() - 1]));
        assert forall|i: int, j: int| 0 <= i < j < rest.len() implies text_before(
            #[trigger] rest[i].name,
            #[trigger] rest[j].name,
        ) by {
            assert(rest[i] == s[i] && rest[j] == s[j]);
        }
        assert forall|i: int| 0 <= i < rest.len() implies table_safe(#[trigger] rest[i]) by {
            assert(rest[i] == s[i]);
        }
        lemma_parse_tables(rest);
        lemma_table_index_found(rest, t.name);
        if table_index(rest, t.name) is Some {
            let k = table_index(rest, t.name)->0;
            assert(text_before(s[k].name, s[s.len() - 1].name));
            super::sorting::lemma_text_strict(t.name, t.name);
        }
        lemma_parse_table(rest, t, t.columns.len() as int);
        assert(t.columns.take(t.columns.len() as int) =~= t.columns);
        let tc = seq![header_content(t)] + column_contents(t.name, t.columns);
        assert(canonical_contents(s) =~= canonical_contents(rest) + tc);
        lemma_parse_concat(Seq::empty(), canonical_contents(rest), tc);
        assert(TableView { columns: t.columns, ..t } == t);
        assert(rest.push(t) =~= s);
    }
}

/// A history-safe schema has no repeated table from position `i` on.
proof fn lemma_no_duplicate_tables(s: Seq<TableView>, i: int)
    requires
        history_safe(s),
        0 <= i,
    ensures
        super::types::duplicate_table_problem(s, i) is None,
    decreases s.len() - i,
{
    if i + 1 < s.len() {
        assert(text_before(s[i].name, s[i + 1].name));
        super::sorting::lemma_text_strict(s[i].name, s[i].name);
        lemma_no_duplicate_tables(s, i + 1);
    }
}

/// A safe table's columns have no repeated name from position `i` on.
proof fn lemma_no_duplicate_columns(t: TableView, i: int)
    requires
        table_safe(t),
        0 <= i,
    ensures
        super::types::duplicate_column_name(t.columns, i) is None,
    decreases t.columns.len() - i,
{
    if i + 1 < t.columns.len() {
        assert(text_before(t.columns[i].name, t.columns[i + 1].name));
        super::sorting::lemma_text_strict(t.columns[i].name, t.columns[i].name);
        lemma_no_duplicate_columns(t, i + 1);
    }
}

/// The tables of a history-safe schema have no column problem from position `i` on.
proof fn lemma_no_column_problems(s: Seq<TableView>, i: int)
    requires
        history_safe(s),
        0 <= i,
    ensures
        super::types::column_problems(s, i) is None,
    decreases s.len() - i,
{
    if i < s.len() {
        assert(table_safe(s[i]));
        lemma_no_duplicate_columns(s[i], 0);
        assert(!exists|k: int| 0 <= k < s[i].columns.len() && #[trigger] s[i].columns[k].name
            == s[i].primary_key.name);
        lemma_no_column_problems(s, i + 1);
    }
}

/// Reading back the canonical text of a history-safe schema gives the schema itself, and
/// normalizing it changes nothing: what the history stores is what it loads.
pub proof fn lemma_canonical_round_trip(s: Seq<TableView>)
    requires
        history_safe(s),
    ensures
        parse_canonical(super::types::canonical_text(s)) == Ok::<Seq<TableView>, Seq<char>>(s),
        forall|r: Result<SchemaDef, Error>| normalizes_to(s, r) ==> (r is Ok && r->Ok_0@ == s),
{
    assert forall|i: int| 0 <= i < s.len() implies table_safe(#[trigger] s[i]) by {}
    lemma_split_canonical(s);
    let text = super::types::canonical_text(s);
    let contents = canonical_contents(s);
    let p = split_on(text, '\n');
    assert(text_lines(text) =~= contents.push(Seq::empty()));
    lemma_parse_tables(s);
    assert(contents.push(Seq::empty()).drop_last() =~= contents);
    assert(parse_from(Seq::empty(), contents.push(Seq::empty())) == Ok::<Seq<TableView>, Seq<char>>(s));
    lemma_no_duplicate_tables(s, 0);
    lemma_no_column_problems(s, 0);
    assert(schema_problem(s) is None);
    assert forall|r: Result<SchemaDef, Error>| normalizes_to(s, r) implies (r is Ok && r->Ok_0@ == s) by {
        let n = choose|n: Seq<TableView>|
            {
                &&& is_normalization(n, s)
                &&& match schema_problem(n) {
                    None => r is Ok && r->Ok_0@ == n,
                    Some(m) => r is Err && (r->Err_0 matches Error::InvalidSchema(x) && x@ == m),
                }
            };
        lemma_normalization_unique(n, s);
    }
}

} // verus!
