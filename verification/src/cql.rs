//! The pieces of CQL text that the services build: identifiers and literals.
use vstd::prelude::*;
use crate::json::{json_reading, parse_json_literal, JsonLiteral, JsonLiteralView, JsonValue};
use crate::text::{
    chars_of, contains, contains_chars, escape_quotes, is_ascii_alphanumeric, strip_end, strip_start, Strip,
    is_ascii_alphanumeric_exec, push_char, push_escaped, to_lowercase, trim, trim_chars, unicode_lowercase,
    string_of, owned_str, pair_views,
};

verus! {

/// A character that a CQL identifier may hold here.
pub open spec fn is_ident_char(c: char) -> bool {
    is_ascii_alphanumeric(c) || c == '_'
}

pub open spec fn all_ident_chars(t: Seq<char>) -> bool {
    forall|i: int| 0 <= i < t.len() ==> is_ident_char(#[trigger] t[i])
}

/// The check of an identifier: the trimmed text, or the message that refuses it.
pub open spec fn identifier_check(s: Seq<char>) -> Result<Seq<char>, Seq<char>> {
    let t = trim(s);
    if t.len() == 0 {
        Err("identifier cannot be empty"@)
    } else if !all_ident_chars(t) {
        Err("identifier '"@ + t + "' may only contain ASCII letters, digits, and underscores"@)
    } else {
        Ok(t)
    }
}

/// Checks an identifier: trimmed, it must be non-empty and only ASCII letters, digits and `_`.
pub fn check_identifier(s: &str) -> (r: Result<String, String>)
    ensures
        match r {
            Ok(t) => identifier_check(s@) == Ok::<Seq<char>, Seq<char>>(t@),
            Err(m) => identifier_check(s@) == Err::<Seq<char>, Seq<char>>(m@),
        },
{
    let v = chars_of(s);
    let t = trim_chars(&v);
    if t.len() == 0 {
        return Err(owned_str("identifier cannot be empty"));
    }
    let n = t.len();
    let mut i: usize = 0;
    while i < n
        invariant
            i <= n == t@.len(),
            t@ == trim(s@),
            forall|j: int| 0 <= j < i ==> is_ident_char(#[trigger] t@[j]),
        decreases n - i,
    {
        let c = t[i];
        if !(is_ascii_alphanumeric_exec(c) || c == '_') {
            assert(!is_ident_char(t@[i as int]));
            let mut m = owned_str("identifier '");
            m.append(string_of(&t).as_str());
            m.append("' may only contain ASCII letters, digits, and underscores");
            return Err(m);
        }
        i = i + 1;
    }
    Ok(string_of(&t))
}

/// The declared CQL types of a table's columns, as `system_schema.columns` lists them.
pub struct ColumnTypes {
    /// Pairs of column name and CQL type.
    pub entries: Vec<(String, String)>,
}

impl View for ColumnTypes {
    type V = Seq<(Seq<char>, Seq<char>)>;

    open spec fn view(&self) -> Seq<(Seq<char>, Seq<char>)> {
        pair_views(self.entries@)
    }
}

/// The type of a column: that of its last entry, as a map collected from the entries keeps;
/// `text` for a column that has none.
pub open spec fn column_type(entries: Seq<(Seq<char>, Seq<char>)>, col: Seq<char>) -> Seq<char>
    decreases entries.len(),
{
    if entries.len() == 0 {
        "text"@
    } else if entries.last().0 == col {
        entries.last().1
    } else {
        column_type(entries.drop_last(), col)
    }
}

impl ColumnTypes {
    /// The declared type of a column, or `text` when it is not declared.
    pub fn type_of(&self, col: &str) -> (r: String)
        ensures
            r@ == column_type(self@, col@),
    {
        let k = owned_str(col);
        let mut j: usize = self.entries.len();
        assert(self@.take(j as int) =~= self@);
        while j > 0
            invariant
                j <= self.entries@.len(),
                k@ == col@,
                column_type(self@, col@) == column_type(self@.take(j as int), col@),
            decreases j,
        {
            assert(self@.take(j as int).drop_last() =~= self@.take(j - 1));
            if self.entries[j - 1].0 == k {
                return self.entries[j - 1].1.clone();
            }
            j = j - 1;
        }
        owned_str("text")
    }
}

/// A column type whose literals stand unquoted: one that names `uuid` or `inet`, in any case.
pub open spec fn unquoted_type(dt: Seq<char>) -> bool {
    let l = unicode_lowercase(dt);
    contains(l, "uuid"@) || contains(l, "inet"@)
}

/// A CQL string literal: in single quotes, each single quote inside doubled.
pub open spec fn quote(s: Seq<char>) -> Seq<char> {
    seq!['\''] + escape_quotes(s) + seq!['\'']
}

/// The literal for a text value in a column of type `dt`.
pub open spec fn text_literal(s: Seq<char>, dt: Seq<char>) -> Seq<char> {
    if unquoted_type(dt) {
        s
    } else {
        quote(s)
    }
}

/// The CQL literal for a JSON value in a column of type `dt`.
pub open spec fn literal_text(l: JsonLiteralView, dt: Seq<char>) -> Seq<char> {
    match l {
        JsonLiteralView::Null => "null"@,
        JsonLiteralView::Bool(b) => if b {
            "true"@
        } else {
            "false"@
        },
        JsonLiteralView::Number(n) => n,
        JsonLiteralView::Str(s) => text_literal(s, dt),
        JsonLiteralView::Compound(t) => t,
    }
}

/// The CQL literal for a raw text in a column of type `dt`: read as JSON where it is JSON.
pub open spec fn raw_literal(raw: Seq<char>, dt: Seq<char>) -> Seq<char> {
    match json_reading(raw) {
        Some(l) => literal_text(l, dt),
        None => text_literal(raw, dt),
    }
}

fn is_unquoted_type(dt: &str) -> (b: bool)
    ensures
        b == unquoted_type(dt@),
{
    let l = chars_of(to_lowercase(dt).as_str());
    let uuid = chars_of("uuid");
    let inet = chars_of("inet");
    contains_chars(&l, &uuid) || contains_chars(&l, &inet)
}

fn text_to_literal(s: &str, dt: &str) -> (r: String)
    ensures
        r@ == text_literal(s@, dt@),
{
    if is_unquoted_type(dt) {
        owned_str(s)
    } else {
        let mut r = String::new();
        push_char(&mut r, '\'');
        let v = chars_of(s);
        push_escaped(&mut r, &v);
        push_char(&mut r, '\'');
        assert(r@ =~= quote(s@));
        r
    }
}

/// The CQL literal for a literal reading of JSON.
pub fn literal_to_cql(l: &JsonLiteral, dt: &str) -> (r: String)
    ensures
        r@ == literal_text(l@, dt@),
{
    match l {
        JsonLiteral::Null => owned_str("null"),
        JsonLiteral::Bool(b) => if *b {
            owned_str("true")
        } else {
            owned_str("false")
        },
        JsonLiteral::Number(n) => n.clone(),
        JsonLiteral::Str(s) => text_to_literal(s.as_str(), dt),
        JsonLiteral::Compound(t) => t.clone(),
    }
}

/// Converts a JSON value into a CQL literal appropriate for the declared column type.
pub fn json_to_cql_literal(val: &JsonValue, data_type: &str) -> (r: String)
    ensures
        r@ == literal_text(val.literal(), data_type@),
{
    literal_to_cql(&val.to_literal(), data_type)
}

/// Converts a raw query-param string value into a CQL literal.
/// Tries JSON parsing first so `123`, `true`, `null` are handled correctly.
pub fn str_to_cql_literal(raw: &str, data_type: &str) -> (r: String)
    ensures
        r@ == raw_literal(raw@, data_type@),
{
    match parse_json_literal(raw) {
        Some(l) => literal_to_cql(&l, data_type),
        None => text_to_literal(raw, data_type),
    }
}

} // verus!

verus! {

/// A checked identifier is never empty and holds only ASCII letters, digits and `_`: no
/// quote, space, dot or semicolon can reach a statement through it.
pub proof fn law_identifier_is_plain(s: Seq<char>)
    ensures
        identifier_check(s) matches Ok(t) ==> t.len() > 0 && all_ident_chars(t),
{
}

/// Checking a checked identifier again accepts it unchanged.
pub proof fn law_identifier_check_is_stable(s: Seq<char>)
    ensures
        identifier_check(s) matches Ok(t) ==> identifier_check(t) == Ok::<Seq<char>, Seq<char>>(
            t,
        ),
{
    if let Ok(t) = identifier_check(s) {
        assert(is_ident_char(t[0]));
        assert(is_ident_char(t.last()));
        assert(strip_start(Strip::Whitespace, t) == t);
        assert(strip_end(Strip::Whitespace, t) == t);
    }
}

/// What the database reads from the inside of a CQL string literal: two single quotes stand
/// for one, a lone single quote would end the literal (`None`).
pub open spec fn unescape_literal(b: Seq<char>) -> Option<Seq<char>>
    decreases b.len(),
{
    if b.len() == 0 {
        Some(Seq::empty())
    } else if b[0] == '\'' {
        if b.len() >= 2 && b[1] == '\'' {
            match unescape_literal(b.skip(2)) {
                Some(r) => Some(seq!['\''] + r),
                None => None,
            }
        } else {
            None
        }
    } else {
        match unescape_literal(b.skip(1)) {
            Some(r) => Some(seq![b[0]] + r),
            None => None,
        }
    }
}

/// The text a CQL string literal stands for, `None` if it is no single literal.
pub open spec fn read_string_literal(t: Seq<char>) -> Option<Seq<char>> {
    if t.len() >= 2 && t[0] == '\'' && t.last() == '\'' {
        unescape_literal(t.subrange(1, t.len() - 1))
    } else {
        None
    }
}

proof fn lemma_escape_front(c: char, rest: Seq<char>)
    ensures
        escape_quotes(seq![c] + rest) == (if c == '\'' {
            seq!['\'', '\'']
        } else {
            seq![c]
        }) + escape_quotes(rest),
    decreases rest.len(),
{
    if rest.len() == 0 {
        assert(seq![c] + rest =~= seq![c]);
        assert((seq![c] + rest).drop_last() =~= Seq::<char>::empty());
        assert(escape_quotes(Seq::<char>::empty()) == Seq::<char>::empty());
        assert(rest =~= Seq::<char>::empty());
        if c == '\'' {
            assert(escape_quotes(seq![c] + rest) =~= seq!['\'', '\''] + escape_quotes(rest));
        } else {
            assert(escape_quotes(seq![c] + rest) =~= seq![c] + escape_quotes(rest));
        }
    } else {
        lemma_escape_front(c, rest.drop_last());
        assert((seq![c] + rest).drop_last() =~= seq![c] + rest.drop_last());
        assert((seq![c] + rest).last() == rest.last());
        let head = if c == '\'' {
            seq!['\'', '\'']
        } else {
            seq![c]
        };
        if rest.last() == '\'' {
            assert(escape_quotes(seq![c] + rest) =~= head + escape_quotes(rest));
        } else {
            assert(escape_quotes(seq![c] + rest) =~= head + escape_quotes(rest));
        }
    }
}

proof fn lemma_unescape_escape(s: Seq<char>)
    ensures
        unescape_literal(escape_quotes(s)) == Some(s),
    decreases s.len(),
{
    if s.len() == 0 {
    } else {
        let c = s[0];
        let rest = s.skip(1);
        assert(s =~= seq![c] + rest);
        lemma_escape_front(c, rest);
        lemma_unescape_escape(rest);
        let e = escape_quotes(s);
        if c == '\'' {
            assert(e.skip(2) =~= escape_quotes(rest));
            assert(seq!['\''] + rest =~= s);
        } else {
            assert(e.skip(1) =~= escape_quotes(rest));
            assert(seq![c] + rest =~= s);
        }
    }
}

/// A text quoted as a CQL string literal is read back by the database as that very text: an
/// embedded quote cannot end the literal early.
pub proof fn law_quoted_text_reads_back(s: Seq<char>)
    ensures
        read_string_literal(quote(s)) == Some(s),
{
    let q = quote(s);
    lemma_unescape_escape(s);
    assert(q.subrange(1, q.len() - 1) =~= escape_quotes(s));
}

} // verus!
