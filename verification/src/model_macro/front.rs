//! The model macros' input from its text, below the level of a field: the `key = value`
//! lists that the attribute and `#[seekwel(...)]` take, and the types, expressions and
//! attribute metas that `syn` parses, turned into the syntax that the model rules read.

use vstd::prelude::*;

use crate::model_macro::raw::{
    opt_text_view, RawSegment, parse_expr, parse_segment, parse_type, parsed_expr, parsed_segment, parsed_type, RawArgs,
    RawArgsView, RawExpr, RawExprView, RawType, RawTypeView,
};
use crate::model_macro::attribute::ModelArgSyntax;
use crate::model_macro::raw::{
    parse_lit_bool, parse_lit_str, parse_meta, parse_path, parsed_lit_bool, parsed_lit_str,
    parsed_meta, parsed_path, RawMeta, RawMetaView,
};
use crate::model_macro::syntax::{
    text_is, ExprSyntax, FieldAttrSyntax, FieldOptionSyntax, GenericArgSyntax, ModelAttrSyntax,
    ModelOptionSyntax, PathArgsSyntax, SegmentSyntax, TypeSyntax,
};
use crate::schema::types::{trim_chars, trimmed};
use crate::text::{chars_of, string_of, strings_view};

verus! {

/// Where a scan of a list's text stands: how deep inside brackets, and whether inside a
/// string literal (just after a backslash in it).
pub ghost struct ScanState {
    pub depth: nat,
    pub in_str: bool,
    pub escaped: bool,
}

/// The scan state after one more character: `(`, `[`, `{` and `<` open a level and
/// their closers close one; inside a string literal only an unescaped `"` counts.
pub open spec fn scan_step(s: ScanState, c: char) -> ScanState {
    if s.in_str {
        if s.escaped {
            ScanState { escaped: false, ..s }
        } else if c == '\\' {
            ScanState { escaped: true, ..s }
        } else if c == '"' {
            ScanState { in_str: false, ..s }
        } else {
            s
        }
    } else if c == '"' {
        ScanState { in_str: true, escaped: false, ..s }
    } else if c == '(' || c == '[' || c == '{' || c == '<' {
        ScanState { depth: s.depth + 1, ..s }
    } else if (c == ')' || c == ']' || c == '}' || c == '>') && s.depth > 0 {
        ScanState { depth: (s.depth - 1) as nat, ..s }
    } else {
        s
    }
}

/// The scan state after a text.
pub open spec fn scan(s: Seq<char>) -> ScanState
    decreases s.len(),
{
    if s.len() == 0 {
        ScanState { depth: 0, in_str: false, escaped: false }
    } else {
        scan_step(scan(s.drop_last()), s.last())
    }
}

/// Whether the character at `i` is a comma outside brackets and string literals.
pub open spec fn splits_at(s: Seq<char>, i: int) -> bool {
    s[i] == ',' && scan(s.take(i)).depth == 0 && !scan(s.take(i)).in_str
}

/// The pieces of a text between the commas that split it.
pub open spec fn pieces(s: Seq<char>) -> Seq<Seq<char>>
    decreases s.len(),
{
    if s.len() == 0 {
        seq![Seq::empty()]
    } else {
        let p = pieces(s.drop_last());
        if splits_at(s, s.len() - 1) {
            p.push(Seq::empty())
        } else {
            p.update(p.len() - 1, p.last().push(s.last()))
        }
    }
}

/// The pieces of a text, trimmed.
pub open spec fn trimmed_pieces(s: Seq<char>) -> Seq<Seq<char>> {
    pieces(s).map_values(|p: Seq<char>| trimmed(p))
}

/// The items of a comma-separated list, trimmed; a blank list has none, a trailing comma
/// is allowed, and an empty item anywhere else makes the list malformed.
pub open spec fn list_items(s: Seq<char>) -> Option<Seq<Seq<char>>> {
    let ps = trimmed_pieces(s);
    if ps.len() == 1 && ps[0].len() == 0 {
        Some(Seq::empty())
    } else if has_empty_item(list_body(ps)) {
        None
    } else {
        Some(list_body(ps))
    }
}

/// The pieces of a list without an empty last one (a trailing comma).
pub open spec fn list_body(ps: Seq<Seq<char>>) -> Seq<Seq<char>> {
    if ps.len() > 0 && ps.last().len() == 0 {
        ps.drop_last()
    } else {
        ps
    }
}

/// Whether one of the items is empty.
pub open spec fn has_empty_item(b: Seq<Seq<char>>) -> bool {
    exists|i: int| 0 <= i < b.len() && #[trigger] b[i].len() == 0
}

/// The position of the first `=` in a text, or its length when there is none.
pub open spec fn first_eq_from(s: Seq<char>, i: int) -> int
    decreases s.len() - i,
{
    if i < 0 || i >= s.len() {
        s.len() as int
    } else if s[i] == '=' {
        i
    } else {
        first_eq_from(s, i + 1)
    }
}

/// The key of a list item: what comes before its first `=`, trimmed.
pub open spec fn item_key(item: Seq<char>) -> Seq<char> {
    trimmed(item.take(first_eq_from(item, 0)))
}

/// The value of a list item: what comes after its first `=`, trimmed, if it has one.
pub open spec fn item_value(item: Seq<char>) -> Option<Seq<char>> {
    let e = first_eq_from(item, 0);
    if e < item.len() {
        Some(trimmed(item.skip(e + 1)))
    } else {
        None
    }
}

/// Splits a comma-separated list's text into its items (see [`list_items`]).
pub fn split_list(text: &str) -> (r: Option<Vec<String>>)
    ensures
        match r {
            Some(v) => list_items(text@) == Some(v@.map_values(|s: String| s@)),
            None => list_items(text@) is None,
        },
{
    let chars = chars_of(text);
    let ghost s = chars@;
    let mut depth: usize = 0;
    let mut in_str = false;
    let mut escaped = false;
    let mut done: Vec<Vec<char>> = Vec::new();
    let mut cur: Vec<char> = Vec::new();
    let mut i: usize = 0;
    while i < chars.len()
        invariant
            s == chars@,
            i <= s.len(),
            depth <= i,
            scan(s.take(i as int)) == (ScanState { depth: depth as nat, in_str, escaped }),
            pieces(s.take(i as int)) == done@.map_values(|v: Vec<char>| v@).push(cur@),
        decreases s.len() - i,
    {
        let c = chars[i];
        let ghost pre = s.take(i as int);
        assert(s.take(i + 1).drop_last() =~= pre);
        assert(s.take(i + 1).last() == c);
        assert(s.take(i + 1).take(i as int) =~= pre);
        let ghost before = done@.map_values(|v: Vec<char>| v@);
        if !in_str && c == ',' && depth == 0 {
            done.push(cur);
            cur = Vec::new();
            assert(done@.map_values(|v: Vec<char>| v@) =~= before.push(pieces(pre).last()));
            assert(pieces(s.take(i + 1)) =~= done@.map_values(|v: Vec<char>| v@).push(cur@));
        } else {
            let ghost old_cur = cur@;
            cur.push(c);
            assert(pieces(s.take(i + 1)) =~= before.push(old_cur.push(c)));
        }
        if in_str {
            if escaped {
                escaped = false;
            } else if c == '\\' {
                escaped = true;
            } else if c == '"' {
                in_str = false;
            }
        } else if c == '"' {
            in_str = true;
            escaped = false;
        } else if c == '(' || c == '[' || c == '{' || c == '<' {
            depth = depth + 1;
        } else if (c == ')' || c == ']' || c == '}' || c == '>') && depth > 0 {
            depth = depth - 1;
        }
        i = i + 1;
    }
    assert(s.take(s.len() as int) =~= s);
    done.push(cur);
    let ghost all = done@.map_values(|v: Vec<char>| v@);
    assert(all =~= pieces(s));
    let mut items: Vec<String> = Vec::new();
    let mut k: usize = 0;
    while k < done.len()
        invariant
            k <= done@.len(),
            all == done@.map_values(|v: Vec<char>| v@),
            items@.map_values(|x: String| x@) =~= all.take(k as int).map_values(|p: Seq<char>| trimmed(p)),
        decreases done@.len() - k,
    {
        let t = trim_chars(&done[k]);
        let ghost before = items@.map_values(|x: String| x@);
        items.push(string_of(t.as_slice()));
        assert(items@.map_values(|x: String| x@) =~= before.push(trimmed(all[k as int])));
        assert(all.take(k + 1).map_values(|p: Seq<char>| trimmed(p)) =~= all.take(k as int).map_values(
            |p: Seq<char>| trimmed(p),
        ).push(trimmed(all[k as int])));
        k = k + 1;
    }
    assert(all.take(done@.len() as int) =~= all);
    let ghost ps = trimmed_pieces(s);
    assert(items@.map_values(|x: String| x@) =~= ps);
    let n = items.len();
    if n == 1 && items[0].unicode_len() == 0 {
        assert(Seq::<String>::empty().map_values(|x: String| x@) =~= Seq::<Seq<char>>::empty());
        return Some(Vec::new());
    }
    if items[n - 1].unicode_len() == 0 {
        items.pop();
        assert(items@.map_values(|x: String| x@) =~= ps.drop_last());
    }
    let ghost body = items@.map_values(|x: String| x@);
    assert(!(ps.len() == 1 && ps[0].len() == 0));
    assert(body =~= list_body(ps));
    let mut j: usize = 0;
    while j < items.len()
        invariant
            j <= items@.len(),
            body == items@.map_values(|x: String| x@),
            forall|q: int| 0 <= q < j ==> #[trigger] body[q].len() != 0,
            s == text@,
            ps == trimmed_pieces(s),
            !(ps.len() == 1 && ps[0].len() == 0),
            body == list_body(ps),
        decreases items@.len() - j,
    {
        if items[j].unicode_len() == 0 {
            assert(body[j as int].len() == 0);
            assert(exists|q: int| 0 <= q < body.len() && #[trigger] body[q].len() == 0);
            assert(s == text@);
            assert(list_items(s) is None);
            return None;
        }
        j = j + 1;
    }
    Some(items)
}

/// Splits a list item at its first `=` into its key and its value (see [`item_key`] and
/// [`item_value`]).
pub fn split_item(item: &str) -> (r: (String, Option<String>))
    ensures
        r.0@ == item_key(item@),
        match r.1 {
            Some(v) => item_value(item@) == Some(v@),
            None => item_value(item@) is None,
        },
{
    let chars = chars_of(item);
    let mut e: usize = 0;
    while e < chars.len() && chars[e] != '='
        invariant
            e <= chars@.len(),
            first_eq_from(chars@, 0) == first_eq_from(chars@, e as int),
        decreases chars@.len() - e,
    {
        e = e + 1;
    }
    let mut before: Vec<char> = Vec::new();
    let mut k: usize = 0;
    while k < e
        invariant
            k <= e,
            e <= chars@.len(),
            before@ == chars@.take(k as int),
        decreases e - k,
    {
        before.push(chars[k]);
        assert(chars@.take(k + 1) =~= chars@.take(k as int).push(chars@[k as int]));
        k = k + 1;
    }
    let key = string_of(trim_chars(&before).as_slice());
    if e == chars.len() {
        return (key, None);
    }
    let mut after: Vec<char> = Vec::new();
    let mut m: usize = e + 1;
    while m < chars.len()
        invariant
            e < chars@.len(),
            e + 1 <= m <= chars@.len(),
            after@ == chars@.subrange(e + 1, m as int),
        decreases chars@.len() - m,
    {
        after.push(chars[m]);
        assert(chars@.subrange(e + 1, m + 1) =~= chars@.subrange(e + 1, m as int).push(chars@[m as int]));
        m = m + 1;
    }
    assert(chars@.subrange(e + 1, chars@.len() as int) =~= chars@.skip(e + 1));
    (key, Some(string_of(trim_chars(&after).as_slice())))
}

/// Whether a type's text converts: every parse below it succeeds, with `fuel` levels of
/// nested type arguments to spare.
pub open spec fn type_ok(text: Seq<char>, fuel: nat) -> bool
    decreases fuel, 2nat,
{
    match parsed_type(text) {
        None => false,
        Some(RawTypeView::Other) => true,
        Some(RawTypeView::Path { segments, .. }) => forall|i: int|
            0 <= i < segments.len() ==> segment_ok(#[trigger] segments[i], fuel),
    }
}

/// Whether a path segment's text converts.
pub open spec fn segment_ok(text: Seq<char>, fuel: nat) -> bool
    decreases fuel, 1nat,
{
    match parsed_segment(text) {
        None => false,
        Some(rs) => match rs.args {
            RawArgsView::Angle(xs) => forall|i: int|
                0 <= i < xs.len() ==> (#[trigger] xs[i] matches Some(t) ==> fuel > 0 && type_ok(
                    t,
                    (fuel - 1) as nat,
                )),
            _ => true,
        },
    }
}

/// `t` is what a type's text converts to: the parsed path's qualification and segments,
/// or any other type.
pub open spec fn type_matches(t: TypeSyntax, text: Seq<char>, fuel: nat) -> bool
    decreases fuel, 2nat,
{
    match parsed_type(text) {
        None => false,
        Some(RawTypeView::Other) => t is Other,
        Some(RawTypeView::Path { qualified, segments }) => match t {
            TypeSyntax::Path { qualified: q, segments: segs } => q == qualified && segs@.len()
                == segments.len() && forall|i: int|
                0 <= i < segments.len() ==> segment_matches(#[trigger] segs@[i], segments[i], fuel),
            TypeSyntax::Other => false,
        },
    }
}

/// `seg` is what a path segment's text converts to: its identifier, and its arguments
/// with each type argument converted in turn.
pub open spec fn segment_matches(seg: SegmentSyntax, text: Seq<char>, fuel: nat) -> bool
    decreases fuel, 1nat,
{
    match parsed_segment(text) {
        None => false,
        Some(rs) => seg.ident@ == rs.ident && match rs.args {
            RawArgsView::Bare => seg.args is Bare,
            RawArgsView::Paren => seg.args is Parenthesized,
            RawArgsView::Angle(xs) => match seg.args {
                PathArgsSyntax::AngleBracketed(args) => args@.len() == xs.len() && forall|i: int|
                    0 <= i < xs.len() ==> match #[trigger] xs[i] {
                        None => args@[i] is Other,
                        Some(t) => fuel > 0 && match args@[i] {
                            GenericArgSyntax::Type(ty) => type_matches(ty, t, (fuel - 1) as nat),
                            GenericArgSyntax::Other => false,
                        },
                    },
                _ => false,
            },
        },
    }
}

/// Converts a type's text, with `fuel` levels of nested type arguments to spare.
pub fn type_from(text: &str, fuel: usize) -> (r: Option<TypeSyntax>)
    ensures
        r is Some <==> type_ok(text@, fuel as nat),
        r matches Some(t) ==> type_matches(t, text@, fuel as nat),
    decreases fuel, 2nat,
{
    match parse_type(text) {
        None => None,
        Some(RawType::Other) => Some(TypeSyntax::Other),
        Some(RawType::Path { qualified, segments }) => {
            let ghost sv = strings_view(segments@);
            let mut segs: Vec<SegmentSyntax> = Vec::new();
            let mut i: usize = 0;
            while i < segments.len()
                invariant
                    i <= segments@.len(),
                    sv == strings_view(segments@),
                    parsed_type(text@) == Some(RawTypeView::Path { qualified, segments: sv }),
                    segs@.len() == i,
                    forall|j: int| 0 <= j < i ==> segment_ok(#[trigger] sv[j], fuel as nat),
                    forall|j: int| 0 <= j < i ==> segment_matches(#[trigger] segs@[j], sv[j], fuel as nat),
                decreases segments@.len() - i,
            {
                match segment_from(segments[i].as_str(), fuel) {
                    None => {
                        assert(!segment_ok(sv[i as int], fuel as nat));
                        assert(0 <= i < sv.len());
                        assert(parsed_type(text@) == Some(RawTypeView::Path { qualified, segments: sv }));
                        assert(type_ok(text@, fuel as nat) == match parsed_type(text@) {
                            None => false,
                            Some(RawTypeView::Other) => true,
                            Some(RawTypeView::Path { segments, .. }) => forall|i: int|
                                0 <= i < segments.len() ==> segment_ok(#[trigger] segments[i], fuel as nat),
                        });
                        assert(!type_ok(text@, fuel as nat));
                        return None;
                    },
                    Some(seg) => {
                        segs.push(seg);
                    },
                }
                i = i + 1;
            }
            let t = TypeSyntax::Path { qualified, segments: segs };
            proof {
                assert forall|j: int| 0 <= j < sv.len() implies segment_matches(
                    #[trigger] segs@[j],
                    sv[j],
                    fuel as nat,
                ) by {}
            }
            Some(t)
        },
    }
}

/// Converts a path segment's text.
pub fn segment_from(text: &str, fuel: usize) -> (r: Option<SegmentSyntax>)
    ensures
        r is Some <==> segment_ok(text@, fuel as nat),
        r matches Some(s) ==> segment_matches(s, text@, fuel as nat),
    decreases fuel, 1nat,
{
    let rs = match parse_segment(text) {
        None => {
            return None;
        },
        Some(rs) => rs,
    };
    let ghost rv = rs@;
    let RawSegment { ident, args } = rs;
    let args = match args {
        RawArgs::Bare => PathArgsSyntax::Bare,
        RawArgs::Paren => PathArgsSyntax::Parenthesized,
        RawArgs::Angle(xs) => {
            let ghost xv = xs@.map_values(|o: Option<String>| opt_text_view(o));
            let mut out: Vec<GenericArgSyntax> = Vec::new();
            let mut i: usize = 0;
            while i < xs.len()
                invariant
                    i <= xs@.len(),
                    xv == xs@.map_values(|o: Option<String>| opt_text_view(o)),
                    parsed_segment(text@) == Some(rv),
                    rv.args == RawArgsView::Angle(xv),
                    out@.len() == i,
                    forall|j: int|
                        0 <= j < i ==> (#[trigger] xv[j] matches Some(t) ==> fuel > 0 && type_ok(
                            t,
                            (fuel - 1) as nat,
                        )),
                    forall|j: int|
                        0 <= j < i ==> match #[trigger] xv[j] {
                            None => out@[j] is Other,
                            Some(t) => fuel > 0 && match out@[j] {
                                GenericArgSyntax::Type(ty) => type_matches(ty, t, (fuel - 1) as nat),
                                GenericArgSyntax::Other => false,
                            },
                        },
                decreases xs@.len() - i,
            {
                match &xs[i] {
                    None => {
                        out.push(GenericArgSyntax::Other);
                    },
                    Some(t) => {
                        if fuel == 0 {
                            assert(xv[i as int] == Some(t@));
                            return None;
                        }
                        match type_from(t.as_str(), fuel - 1) {
                            None => {
                                assert(xv[i as int] == Some(t@));
                                return None;
                            },
                            Some(ty) => {
                                out.push(GenericArgSyntax::Type(ty));
                            },
                        }
                    },
                }
                i = i + 1;
            }
            PathArgsSyntax::AngleBracketed(out)
        },
    };
    Some(SegmentSyntax { ident, args })
}

/// Whether an expression's text converts.
pub open spec fn expr_ok(text: Seq<char>) -> bool {
    match parsed_expr(text) {
        None => false,
        Some(RawExprView::Path { segments, .. }) => forall|i: int|
            0 <= i < segments.len() ==> segment_ok(#[trigger] segments[i], text.len()),
        Some(_) => true,
    }
}

/// `e` is what an expression's text converts to.
pub open spec fn expr_matches(e: ExprSyntax, text: Seq<char>) -> bool {
    match parsed_expr(text) {
        None => false,
        Some(RawExprView::Str(v)) => e matches ExprSyntax::Str(x) && x@ == v,
        Some(RawExprView::Bool(b)) => e matches ExprSyntax::Bool(x) && x == b,
        Some(RawExprView::OtherLit) => e is OtherLiteral,
        Some(RawExprView::Other) => e is Other,
        Some(RawExprView::Path { qualified, segments }) => match e {
            ExprSyntax::Path { qualified: q, segments: segs } => q == qualified && segs@.len()
                == segments.len() && forall|i: int|
                0 <= i < segments.len() ==> segment_matches(
                    #[trigger] segs@[i],
                    segments[i],
                    text.len(),
                ),
            _ => false,
        },
    }
}

/// Converts an expression's text.
pub fn expr_from(text: &str) -> (r: Option<ExprSyntax>)
    ensures
        r is Some <==> expr_ok(text@),
        r matches Some(e) ==> expr_matches(e, text@),
{
    let fuel = text.unicode_len();
    match parse_expr(text) {
        None => None,
        Some(RawExpr::Str(v)) => Some(ExprSyntax::Str(v)),
        Some(RawExpr::Bool(b)) => Some(ExprSyntax::Bool(b)),
        Some(RawExpr::OtherLit) => Some(ExprSyntax::OtherLiteral),
        Some(RawExpr::Other) => Some(ExprSyntax::Other),
        Some(RawExpr::Path { qualified, segments }) => {
            let ghost sv = strings_view(segments@);
            let mut segs: Vec<SegmentSyntax> = Vec::new();
            let mut i: usize = 0;
            while i < segments.len()
                invariant
                    i <= segments@.len(),
                    sv == strings_view(segments@),
                    parsed_expr(text@) == Some(RawExprView::Path { qualified, segments: sv }),
                    fuel == text@.len(),
                    segs@.len() == i,
                    forall|j: int| 0 <= j < i ==> segment_ok(#[trigger] sv[j], fuel as nat),
                    forall|j: int| 0 <= j < i ==> segment_matches(#[trigger] segs@[j], sv[j], fuel as nat),
                decreases segments@.len() - i,
            {
                match segment_from(segments[i].as_str(), fuel) {
                    None => {
                        assert(!segment_ok(sv[i as int], fuel as nat));
                        assert(0 <= i < sv.len());
                        assert(expr_ok(text@) == match parsed_expr(text@) {
                            None => false,
                            Some(RawExprView::Path { segments, .. }) => forall|i: int|
                                0 <= i < segments.len() ==> segment_ok(#[trigger] segments[i], text@.len()),
                            Some(_) => true,
                        });
                        assert(!expr_ok(text@));
                        return None;
                    },
                    Some(seg) => {
                        segs.push(seg);
                    },
                }
                i = i + 1;
            }
            Some(ExprSyntax::Path { qualified, segments: segs })
        },
    }
}

/// Whether an item of `#[seekwel(...)]` on a struct converts: a known option needs a
/// value of its kind (a string literal for `table_name` and `primary_key`, an expression
/// for `auto_increment`, a path for `validator`); an unknown one converts as unsupported.
pub open spec fn model_option_ok(item: Seq<char>) -> bool {
    let k = item_key(item);
    if k == "table_name"@ || k == "primary_key"@ {
        item_value(item) matches Some(v) && parsed_lit_str(v) is Some
    } else if k == "auto_increment"@ {
        item_value(item) matches Some(v) && expr_ok(v)
    } else if k == "validator"@ {
        item_value(item) matches Some(v) && parsed_path(v) is Some
    } else {
        true
    }
}

/// `o` is what an item of `#[seekwel(...)]` on a struct converts to.
pub open spec fn model_option_matches(o: ModelOptionSyntax, item: Seq<char>) -> bool {
    let k = item_key(item);
    if k == "table_name"@ {
        o matches ModelOptionSyntax::TableName(x) && (item_value(item) matches Some(v) && parsed_lit_str(v)
            == Some(x@))
    } else if k == "primary_key"@ {
        o matches ModelOptionSyntax::PrimaryKey(x) && (item_value(item) matches Some(v) && parsed_lit_str(v)
            == Some(x@))
    } else if k == "auto_increment"@ {
        o matches ModelOptionSyntax::AutoIncrement(e) && (item_value(item) matches Some(v) && expr_matches(e, v))
    } else if k == "validator"@ {
        o matches ModelOptionSyntax::Validator(x) && (item_value(item) matches Some(v) && parsed_path(v) == Some(
            x@,
        ))
    } else {
        o is Unsupported
    }
}

/// Converts an item of `#[seekwel(...)]` on a struct.
pub fn model_option_from(item: &str) -> (r: Option<ModelOptionSyntax>)
    ensures
        r is Some <==> model_option_ok(item@),
        r matches Some(o) ==> model_option_matches(o, item@),
{
    let (key, value) = split_item(item);
    if text_is(&key, "table_name") || text_is(&key, "primary_key") {
        let v = match value {
            None => {
                return None;
            },
            Some(v) => v,
        };
        match parse_lit_str(v.as_str()) {
            None => None,
            Some(x) => if text_is(&key, "table_name") {
                Some(ModelOptionSyntax::TableName(x))
            } else {
                Some(ModelOptionSyntax::PrimaryKey(x))
            },
        }
    } else if text_is(&key, "auto_increment") {
        match value {
            None => None,
            Some(v) => match expr_from(v.as_str()) {
                None => None,
                Some(e) => Some(ModelOptionSyntax::AutoIncrement(e)),
            },
        }
    } else if text_is(&key, "validator") {
        match value {
            None => None,
            Some(v) => match parse_path(v.as_str()) {
                None => None,
                Some(p) => Some(ModelOptionSyntax::Validator(p)),
            },
        }
    } else {
        Some(ModelOptionSyntax::Unsupported)
    }
}

/// Whether an item of `#[seekwel(...)]` on a field converts: `key` needs an expression.
pub open spec fn field_option_ok(item: Seq<char>) -> bool {
    item_key(item) == "key"@ ==> (item_value(item) matches Some(v) && expr_ok(v))
}

/// `o` is what an item of `#[seekwel(...)]` on a field converts to.
pub open spec fn field_option_matches(o: FieldOptionSyntax, item: Seq<char>) -> bool {
    if item_key(item) == "key"@ {
        o matches FieldOptionSyntax::Key(e) && (item_value(item) matches Some(v) && expr_matches(e, v))
    } else {
        o is Unsupported
    }
}

/// Converts an item of `#[seekwel(...)]` on a field.
pub fn field_option_from(item: &str) -> (r: Option<FieldOptionSyntax>)
    ensures
        r is Some <==> field_option_ok(item@),
        r matches Some(o) ==> field_option_matches(o, item@),
{
    let (key, value) = split_item(item);
    if text_is(&key, "key") {
        match value {
            None => None,
            Some(v) => match expr_from(v.as_str()) {
                None => None,
                Some(e) => Some(FieldOptionSyntax::Key(e)),
            },
        }
    } else {
        Some(FieldOptionSyntax::Unsupported)
    }
}

/// Whether an argument of `#[seekwel::model(...)]` converts: every argument needs `=`
/// and a value of its kind (a string literal for `table_name` and `primary_key`, a
/// boolean literal for `auto_increment`, a path for `validator`).
pub open spec fn model_arg_ok(item: Seq<char>) -> bool {
    let k = item_key(item);
    item_value(item) matches Some(v) && (if k == "table_name"@ || k == "primary_key"@ {
        parsed_lit_str(v) is Some
    } else if k == "auto_increment"@ {
        parsed_lit_bool(v) is Some
    } else if k == "validator"@ {
        parsed_path(v) is Some
    } else {
        true
    })
}

/// `a` is what an argument of `#[seekwel::model(...)]` converts to.
pub open spec fn model_arg_matches(a: ModelArgSyntax, item: Seq<char>) -> bool {
    let k = item_key(item);
    item_value(item) matches Some(v) && (if k == "table_name"@ {
        a matches ModelArgSyntax::TableName(x) && parsed_lit_str(v) == Some(x@)
    } else if k == "primary_key"@ {
        a matches ModelArgSyntax::PrimaryKey(x) && parsed_lit_str(v) == Some(x@)
    } else if k == "auto_increment"@ {
        a matches ModelArgSyntax::AutoIncrement(b) && parsed_lit_bool(v) == Some(b)
    } else if k == "validator"@ {
        a matches ModelArgSyntax::Validator(x) && parsed_path(v) == Some(x@)
    } else {
        a is Unsupported
    })
}

/// Converts an argument of `#[seekwel::model(...)]`.
pub fn model_arg_from(item: &str) -> (r: Option<ModelArgSyntax>)
    ensures
        r is Some <==> model_arg_ok(item@),
        r matches Some(a) ==> model_arg_matches(a, item@),
{
    let (key, value) = split_item(item);
    let v = match value {
        None => {
            return None;
        },
        Some(v) => v,
    };
    if text_is(&key, "table_name") || text_is(&key, "primary_key") {
        match parse_lit_str(v.as_str()) {
            None => None,
            Some(x) => if text_is(&key, "table_name") {
                Some(ModelArgSyntax::TableName(x))
            } else {
                Some(ModelArgSyntax::PrimaryKey(x))
            },
        }
    } else if text_is(&key, "auto_increment") {
        match parse_lit_bool(v.as_str()) {
            None => None,
            Some(b) => Some(ModelArgSyntax::AutoIncrement(b)),
        }
    } else if text_is(&key, "validator") {
        match parse_path(v.as_str()) {
            None => None,
            Some(p) => Some(ModelArgSyntax::Validator(p)),
        }
    } else {
        Some(ModelArgSyntax::Unsupported)
    }
}

/// Whether every item converts as an option of `#[seekwel(...)]` on a struct.
pub open spec fn model_options_ok(items: Seq<Seq<char>>) -> bool {
    forall|i: int| 0 <= i < items.len() ==> model_option_ok(#[trigger] items[i])
}

/// `opts` is what the items convert to, one for one.
pub open spec fn model_options_match(opts: Seq<ModelOptionSyntax>, items: Seq<Seq<char>>) -> bool {
    opts.len() == items.len() && forall|i: int|
        0 <= i < items.len() ==> model_option_matches(#[trigger] opts[i], items[i])
}

/// Converts the list inside `#[seekwel(...)]` on a struct.
pub fn model_options_from(text: &str) -> (r: Option<Vec<ModelOptionSyntax>>)
    ensures
        r is Some <==> (list_items(text@) matches Some(items) && model_options_ok(items)),
        r matches Some(v) ==> (list_items(text@) matches Some(items) && model_options_match(v@, items)),
{
    let items = match split_list(text) {
        None => {
            return None;
        },
        Some(items) => items,
    };
    let ghost iv = strings_view(items@);
    let mut out: Vec<ModelOptionSyntax> = Vec::new();
    let mut i: usize = 0;
    while i < items.len()
        invariant
            i <= items@.len(),
            iv == strings_view(items@),
            list_items(text@) == Some(iv),
            out@.len() == i,
            forall|j: int| 0 <= j < i ==> model_option_ok(#[trigger] iv[j]),
            forall|j: int| 0 <= j < i ==> model_option_matches(#[trigger] out@[j], iv[j]),
        decreases items@.len() - i,
    {
        match model_option_from(items[i].as_str()) {
            None => {
                assert(!model_option_ok(iv[i as int]));
                return None;
            },
            Some(o) => {
                out.push(o);
            },
        }
        i = i + 1;
    }
    Some(out)
}

/// Whether every item converts as an option of `#[seekwel(...)]` on a field.
pub open spec fn field_options_ok(items: Seq<Seq<char>>) -> bool {
    forall|i: int| 0 <= i < items.len() ==> field_option_ok(#[trigger] items[i])
}

/// `opts` is what the items convert to, one for one.
pub open spec fn field_options_match(opts: Seq<FieldOptionSyntax>, items: Seq<Seq<char>>) -> bool {
    opts.len() == items.len() && forall|i: int|
        0 <= i < items.len() ==> field_option_matches(#[trigger] opts[i], items[i])
}

/// Converts the list inside `#[seekwel(...)]` on a field.
pub fn field_options_from(text: &str) -> (r: Option<Vec<FieldOptionSyntax>>)
    ensures
        r is Some <==> (list_items(text@) matches Some(items) && field_options_ok(items)),
        r matches Some(v) ==> (list_items(text@) matches Some(items) && field_options_match(v@, items)),
{
    let items = match split_list(text) {
        None => {
            return None;
        },
        Some(items) => items,
    };
    let ghost iv = strings_view(items@);
    let mut out: Vec<FieldOptionSyntax> = Vec::new();
    let mut i: usize = 0;
    while i < items.len()
        invariant
            i <= items@.len(),
            iv == strings_view(items@),
            list_items(text@) == Some(iv),
            out@.len() == i,
            forall|j: int| 0 <= j < i ==> field_option_ok(#[trigger] iv[j]),
            forall|j: int| 0 <= j < i ==> field_option_matches(#[trigger] out@[j], iv[j]),
        decreases items@.len() - i,
    {
        match field_option_from(items[i].as_str()) {
            None => {
                assert(!field_option_ok(iv[i as int]));
                return None;
            },
            Some(o) => {
                out.push(o);
            },
        }
        i = i + 1;
    }
    Some(out)
}

/// Whether every item converts as an argument of `#[seekwel::model(...)]`.
pub open spec fn model_args_ok(items: Seq<Seq<char>>) -> bool {
    forall|i: int| 0 <= i < items.len() ==> model_arg_ok(#[trigger] items[i])
}

/// `args` is what the items convert to, one for one.
pub open spec fn model_args_match(args: Seq<ModelArgSyntax>, items: Seq<Seq<char>>) -> bool {
    args.len() == items.len() && forall|i: int|
        0 <= i < items.len() ==> model_arg_matches(#[trigger] args[i], items[i])
}

/// Converts the arguments of `#[seekwel::model(...)]` from their text.
pub fn model_args_from(text: &str) -> (r: Option<Vec<ModelArgSyntax>>)
    ensures
        r is Some <==> (list_items(text@) matches Some(items) && model_args_ok(items)),
        r matches Some(v) ==> (list_items(text@) matches Some(items) && model_args_match(v@, items)),
{
    let items = match split_list(text) {
        None => {
            return None;
        },
        Some(items) => items,
    };
    let ghost iv = strings_view(items@);
    let mut out: Vec<ModelArgSyntax> = Vec::new();
    let mut i: usize = 0;
    while i < items.len()
        invariant
            i <= items@.len(),
            iv == strings_view(items@),
            list_items(text@) == Some(iv),
            out@.len() == i,
            forall|j: int| 0 <= j < i ==> model_arg_ok(#[trigger] iv[j]),
            forall|j: int| 0 <= j < i ==> model_arg_matches(#[trigger] out@[j], iv[j]),
        decreases items@.len() - i,
    {
        match model_arg_from(items[i].as_str()) {
            None => {
                assert(!model_arg_ok(iv[i as int]));
                return None;
            },
            Some(a) => {
                out.push(a);
            },
        }
        i = i + 1;
    }
    Some(out)
}

/// Whether an attribute meta of a struct converts: `seekwel` must be a list whose items
/// convert.
pub open spec fn model_attr_ok(text: Seq<char>) -> bool {
    match parsed_meta(text) {
        None => false,
        Some(RawMetaView::List(p, toks)) => p == "seekwel"@ ==> (list_items(toks) matches Some(items)
            && model_options_ok(items)),
        Some(RawMetaView::Path(p)) => p != "seekwel"@,
        Some(RawMetaView::NameValue(p, _)) => p != "seekwel"@,
    }
}

/// `a` is what an attribute meta of a struct converts to: `seekwel(...)` with its
/// options, or any other attribute.
pub open spec fn model_attr_matches(a: ModelAttrSyntax, text: Seq<char>) -> bool {
    match parsed_meta(text) {
        None => false,
        Some(RawMetaView::List(p, toks)) => if p == "seekwel"@ {
            a matches ModelAttrSyntax::Seekwel(opts) && (list_items(toks) matches Some(items)
                && model_options_match(opts@, items))
        } else {
            a is Other
        },
        Some(_) => a is Other,
    }
}

/// Converts an attribute meta of a struct.
pub fn model_attr_from(text: &str) -> (r: Option<ModelAttrSyntax>)
    ensures
        r is Some <==> model_attr_ok(text@),
        r matches Some(a) ==> model_attr_matches(a, text@),
{
    match parse_meta(text) {
        None => None,
        Some(RawMeta::List(p, toks)) => if text_is(&p, "seekwel") {
            match model_options_from(toks.as_str()) {
                None => None,
                Some(opts) => Some(ModelAttrSyntax::Seekwel(opts)),
            }
        } else {
            Some(ModelAttrSyntax::Other)
        },
        Some(RawMeta::Path(p)) => if text_is(&p, "seekwel") {
            None
        } else {
            Some(ModelAttrSyntax::Other)
        },
        Some(RawMeta::NameValue(p, _)) => if text_is(&p, "seekwel") {
            None
        } else {
            Some(ModelAttrSyntax::Other)
        },
    }
}

/// Whether an attribute meta of a field converts: `key = ...` needs an expression, and
/// `seekwel` must be a list whose items convert.
pub open spec fn field_attr_ok(text: Seq<char>) -> bool {
    match parsed_meta(text) {
        None => false,
        Some(RawMetaView::NameValue(p, v)) => p != "seekwel"@ && (p == "key"@ ==> expr_ok(v)),
        Some(RawMetaView::List(p, toks)) => p == "seekwel"@ ==> (list_items(toks) matches Some(items)
            && field_options_ok(items)),
        Some(RawMetaView::Path(p)) => p != "seekwel"@,
    }
}

/// `a` is what an attribute meta of a field converts to.
pub open spec fn field_attr_matches(a: FieldAttrSyntax, text: Seq<char>) -> bool {
    match parsed_meta(text) {
        None => false,
        Some(RawMetaView::NameValue(p, v)) => if p == "key"@ {
            a matches FieldAttrSyntax::Key(e) && expr_matches(e, v)
        } else {
            a is Other
        },
        Some(RawMetaView::List(p, toks)) => if p == "key"@ {
            a is KeyNotNameValue
        } else if p == "seekwel"@ {
            a matches FieldAttrSyntax::Seekwel(opts) && (list_items(toks) matches Some(items)
                && field_options_match(opts@, items))
        } else {
            a is Other
        },
        Some(RawMetaView::Path(p)) => if p == "key"@ {
            a is KeyNotNameValue
        } else {
            a is Other
        },
    }
}

/// Converts an attribute meta of a field.
pub fn field_attr_from(text: &str) -> (r: Option<FieldAttrSyntax>)
    ensures
        r is Some <==> field_attr_ok(text@),
        r matches Some(a) ==> field_attr_matches(a, text@),
{
    proof {
        reveal_strlit("key");
        reveal_strlit("seekwel");
        assert("key"@.len() != "seekwel"@.len());
    }
    match parse_meta(text) {
        None => None,
        Some(RawMeta::NameValue(p, v)) => if text_is(&p, "key") {
            match expr_from(v.as_str()) {
                None => None,
                Some(e) => Some(FieldAttrSyntax::Key(e)),
            }
        } else if text_is(&p, "seekwel") {
            None
        } else {
            Some(FieldAttrSyntax::Other)
        },
        Some(RawMeta::List(p, toks)) => if text_is(&p, "key") {
            Some(FieldAttrSyntax::KeyNotNameValue)
        } else if text_is(&p, "seekwel") {
            match field_options_from(toks.as_str()) {
                None => None,
                Some(opts) => Some(FieldAttrSyntax::Seekwel(opts)),
            }
        } else {
            Some(FieldAttrSyntax::Other)
        },
        Some(RawMeta::Path(p)) => if text_is(&p, "key") {
            Some(FieldAttrSyntax::KeyNotNameValue)
        } else if text_is(&p, "seekwel") {
            None
        } else {
            Some(FieldAttrSyntax::Other)
        },
    }
}

} // verus!
