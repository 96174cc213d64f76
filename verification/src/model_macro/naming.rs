//! The names the model macros derive from identifiers and column names.

use vstd::prelude::*;

use crate::text::{
    chars_of, is_ascii_alphanumeric, lower_char, push_char, string_of, to_lower_char,
    ascii_alphanumeric,
};

verus! {

/// What `str::to_lowercase` gives for a text: its Unicode lower-case mapping.
pub uninterp spec fn unicode_lowercase(s: Seq<char>) -> Seq<char>;

/// What `char::to_uppercase` yields for a character: its Unicode upper-case mapping.
pub uninterp spec fn unicode_uppercase(c: char) -> Seq<char>;

/// std's `str::to_lowercase`; the result is the Unicode lower-case mapping of `s`, which
/// is named here and not spelled out.
#[verifier::external_body]
fn lowercase(s: &str) -> (r: String)
    ensures
        r@ == unicode_lowercase(s@),
{
    s.to_lowercase()
}

/// std's `char::to_uppercase`, collected into a string; the characters are the Unicode
/// upper-case mapping of `c`, which is named here and not spelled out.
#[verifier::external_body]
fn uppercase(c: char) -> (r: String)
    ensures
        r@ == unicode_uppercase(c),
{
    c.to_uppercase().collect()
}

/// An identifier's name without the `r#` of a raw identifier.
pub open spec fn ident_text(raw: Seq<char>) -> Seq<char> {
    if raw.len() >= 2 && raw[0] == 'r' && raw[1] == '#' {
        raw.skip(2)
    } else {
        raw
    }
}

/// The name of an identifier, without the `r#` of a raw identifier.
pub fn ident_name(raw: &str) -> (r: String)
    ensures
        r@ == ident_text(raw@),
{
    let c = chars_of(raw);
    if c.len() >= 2 && c[0] == 'r' && c[1] == '#' {
        let mut out: Vec<char> = Vec::new();
        let mut i: usize = 2;
        while i < c.len()
            invariant
                2 <= i <= c@.len(),
                out@ == c@.subrange(2, i as int),
            decreases c@.len() - i,
        {
            out.push(c[i]);
            assert(out@ =~= c@.subrange(2, i + 1));
            i = i + 1;
        }
        assert(c@.skip(2) =~= c@.subrange(2, c@.len() as int));
        string_of(out.as_slice())
    } else {
        string_of(c.as_slice())
    }
}

/// The lower-case form of a text, as `str::to_lowercase` gives it.
pub fn lowercase_text(s: &str) -> (r: String)
    ensures
        r@ == unicode_lowercase(s@),
{
    lowercase(s)
}

/// A column name reduced to ASCII letters, digits and single underscores, read from the
/// left: letters are lowered, and each run of other characters becomes one underscore.
pub open spec fn handler_scan(s: Seq<char>) -> Seq<char>
    decreases s.len(),
{
    if s.len() == 0 {
        Seq::empty()
    } else {
        let acc = handler_scan(s.drop_last());
        let c = s.last();
        if is_ascii_alphanumeric(c) || c == '_' {
            acc.push(lower_char(c))
        } else if acc.len() > 0 && acc.last() == '_' {
            acc
        } else {
            acc.push('_')
        }
    }
}

/// `s` without the underscores at its end.
pub open spec fn trim_underscores_end(s: Seq<char>) -> Seq<char>
    decreases s.len(),
{
    if s.len() > 0 && s.last() == '_' {
        trim_underscores_end(s.drop_last())
    } else {
        s
    }
}

/// The name of the hidden item that holds the has-many handlers keyed by a column.
pub open spec fn handler_name(column: Seq<char>) -> Seq<char> {
    let t = trim_underscores_end(handler_scan(column));
    "__seekwel_has_many_handlers_for_"@ + (if t.len() == 0 {
        "column"@
    } else {
        t
    })
}

/// The name of the hidden item that holds the has-many handlers keyed by `column`.
pub fn association_handler_name(column: &str) -> (r: String)
    ensures
        r@ == handler_name(column@),
{
    let s = chars_of(column);
    let mut out: Vec<char> = Vec::new();
    let mut i: usize = 0;
    while i < s.len()
        invariant
            i <= s@.len(),
            out@ == handler_scan(s@.take(i as int)),
        decreases s@.len() - i,
    {
        let c = s[i];
        assert(s@.take(i + 1).drop_last() =~= s@.take(i as int));
        if ascii_alphanumeric(c) || c == '_' {
            out.push(to_lower_char(c));
        } else if out.len() > 0 && out[out.len() - 1] == '_' {
        } else {
            out.push('_');
        }
        i = i + 1;
    }
    assert(s@.take(s@.len() as int) =~= s@);
    while out.len() > 0 && out[out.len() - 1] == '_'
        invariant
            trim_underscores_end(out@) == trim_underscores_end(handler_scan(s@)),
        decreases out@.len(),
    {
        let ghost before = out@;
        out.pop();
        assert(out@ =~= before.drop_last());
    }
    let mut name = string_of(chars_of("__seekwel_has_many_handlers_for_").as_slice());
    if out.len() == 0 {
        name.append("column");
    } else {
        let tail = string_of(out.as_slice());
        name.append(tail.as_str());
    }
    name
}

/// The words of a column name read from the left: the words finished so far, and the
/// word being read. Underscores end words and are dropped.
pub open spec fn word_scan(s: Seq<char>) -> (Seq<Seq<char>>, Seq<char>)
    decreases s.len(),
{
    if s.len() == 0 {
        (Seq::empty(), Seq::empty())
    } else {
        let (done, current) = word_scan(s.drop_last());
        let c = s.last();
        if c == '_' {
            if current.len() > 0 {
                (done.push(current), Seq::empty())
            } else {
                (done, Seq::empty())
            }
        } else {
            (done, current.push(c))
        }
    }
}

/// The words of a column name: its runs of characters other than `_`, in order.
pub open spec fn words_of(s: Seq<char>) -> Seq<Seq<char>> {
    let (done, current) = word_scan(s);
    if current.len() > 0 {
        done.push(current)
    } else {
        done
    }
}

/// A word with its first character upper-cased.
pub open spec fn capitalized(w: Seq<char>) -> Seq<char> {
    if w.len() == 0 {
        Seq::empty()
    } else {
        unicode_uppercase(w[0]) + w.drop_first()
    }
}

/// The capitalized words, one after another.
pub open spec fn camel_case(words: Seq<Seq<char>>) -> Seq<char>
    decreases words.len(),
{
    if words.len() == 0 {
        Seq::empty()
    } else {
        camel_case(words.drop_last()) + capitalized(words.last())
    }
}

/// The name of the `...Columns` variant for a column.
pub open spec fn variant_name(column: Seq<char>) -> Seq<char> {
    let v = camel_case(words_of(column));
    if v.len() == 0 {
        "Column"@
    } else {
        v
    }
}

/// The views of a list of character vectors.
pub open spec fn words_view(words: Seq<Vec<char>>) -> Seq<Seq<char>> {
    words.map_values(|w: Vec<char>| w@)
}

/// The words of a column name: its runs of characters other than `_`, in order, as in
/// `owner` and `id` for `owner_id`.
pub fn column_words(column: &str) -> (r: Vec<Vec<char>>)
    ensures
        words_view(r@) == words_of(column@),
{
    let s = chars_of(column);
    let mut done: Vec<Vec<char>> = Vec::new();
    let mut current: Vec<char> = Vec::new();
    let mut i: usize = 0;
    while i < s.len()
        invariant
            i <= s@.len(),
            (words_view(done@), current@) == word_scan(s@.take(i as int)),
        decreases s@.len() - i,
    {
        let c = s[i];
        assert(s@.take(i + 1).drop_last() =~= s@.take(i as int));
        if c == '_' {
            if current.len() > 0 {
                let ghost before = done@;
                let ghost cv = current@;
                let mut word: Vec<char> = Vec::new();
                std::mem::swap(&mut word, &mut current);
                done.push(word);
                assert(words_view(done@) =~= words_view(before).push(cv));
            } else {
                current = Vec::new();
            }
        } else {
            current.push(c);
        }
        i = i + 1;
    }
    assert(s@.take(s@.len() as int) =~= s@);
    if current.len() > 0 {
        let ghost before = done@;
        let ghost cv = current@;
        done.push(current);
        assert(words_view(done@) =~= words_view(before).push(cv));
    }
    done
}

/// The name of the `...Columns` variant for `column`: its words with their first
/// characters upper-cased, run together, as in `OwnerId` for `owner_id`; `Column` when
/// there are no words.
pub fn column_variant_name(column: &str) -> (r: String)
    ensures
        r@ == variant_name(column@),
{
    let words = column_words(column);
    let ghost wv = words_view(words@);
    let mut out = String::new();
    let mut i: usize = 0;
    while i < words.len()
        invariant
            i <= words@.len(),
            wv == words_view(words@),
            out@ == camel_case(wv.take(i as int)),
        decreases words@.len() - i,
    {
        assert(wv.take(i + 1).drop_last() =~= wv.take(i as int));
        let w = &words[i];
        if w.len() > 0 {
            let up = uppercase(w[0]);
            out.append(up.as_str());
            let mut k: usize = 1;
            while k < w.len()
                invariant
                    1 <= k <= w@.len(),
                    out@ == camel_case(wv.take(i as int)) + unicode_uppercase(w@[0]) + w@.subrange(
                        1,
                        k as int,
                    ),
                decreases w@.len() - k,
            {
                push_char(&mut out, w[k]);
                assert(w@.subrange(1, k + 1) =~= w@.subrange(1, k as int).push(w@[k as int]));
                k = k + 1;
            }
            assert(w@.subrange(1, w@.len() as int) =~= w@.drop_first());
        }
        assert(wv.take(i + 1).last() == w@);
        i = i + 1;
    }
    assert(wv.take(words@.len() as int) =~= wv);
    if out.as_str().unicode_len() == 0 {
        String::from_str("Column")
    } else {
        out
    }
}

/// `name` followed by `suffix`, with the `r#` of a raw identifier dropped, as
/// `format_ident!("{}Builder", name)` spells it.
pub fn suffixed_ident(name: &str, suffix: &str) -> (r: String)
    ensures
        r@ == ident_text(name@) + suffix@,
{
    let mut out = ident_name(name);
    out.append(suffix);
    out
}

} // verus!
