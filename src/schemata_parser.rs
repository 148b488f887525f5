//! The Schemata reader: a recursive-descent parser from source text to the Schemata
//! document model.
//!
//! Grammar (whitespace and `//` line comments may stand between tokens):
//!
//! ```text
//! file        := namespace*
//! namespace   := "namespace" name ( "{" item* "}" | item* )
//! item        := annotation* ( "schema" word "{" field* "}" | "enum" word "{" (word | ",")* "}" )
//! field       := annotation* word ":"? ( inline | type "?"? annotation* inline? ) comment?
//! type        := (word character | ":" | "<" | ">" | "[" | "]")+
//! inline      := "{" field* "}"
//! annotation  := "@" word ( "(" param ("," param)* ")" )?
//! param       := word "=" value | value
//! value       := "\"" text "\"" | "-"? digit+ | "true" | "false"
//! ```
//!
//! A namespace written without braces holds the items up to the next `namespace` keyword
//! or the end of the text. Trailing annotations and the comment of a field stand on the
//! field's own line.
use vstd::prelude::*;
use crate::schemata_types::{
    annotations_view, fields_view, lemma_fields_view_push, params_view, AnnotationModel, AnnotationValue, EnumModel, FieldModel, NamespaceModel, ParseError,
    RecordModel, SchemataAnnotation, SchemataEnum, SchemataField, SchemataFile, SchemataNamespace,
    SchemataSchema, ValueModel,
};
use crate::text::{assoc_insert, assoc_put, chars_at, chars_of, digits_upto, digits_value, entries_view, is_digit, string_of};

verus! {

/// Reads Schemata source text.
pub struct SchemataParser;

// ---------------------------------------------------------------- characters

pub open spec fn is_space(c: char) -> bool {
    c == ' ' || c == '\t' || c == '\n' || c == '\r'
}

pub open spec fn is_word_char(c: char) -> bool {
    ('a' <= c && c <= 'z') || ('A' <= c && c <= 'Z') || ('0' <= c && c <= '9') || c == '_' || c == '-' || c == '.'
}

/// The classes of characters that a token is made of.
#[derive(Clone, Copy, PartialEq, Eq, Structural)]
pub enum CharClass {
    /// letters, digits, `_`, `-`, `.`
    Word,
    /// word characters, `:`, `<`, `>`, `[`, `]`
    Type,
    /// anything but whitespace and braces
    Name,
    /// decimal digits
    Digit,
    /// anything but a double quote
    Quoted,
    /// anything but a line break
    Line,
}

pub open spec fn in_class(c: char, k: CharClass) -> bool {
    match k {
        CharClass::Word => is_word_char(c),
        CharClass::Type => is_word_char(c) || c == ':' || c == '<' || c == '>' || c == '[' || c == ']',
        CharClass::Name => !is_space(c) && c != '{' && c != '}',
        CharClass::Digit => is_digit(c),
        CharClass::Quoted => c != '"',
        CharClass::Line => c != '\n',
    }
}

/// The end of the run of characters of class `k` that starts at `i`.
pub open spec fn scan_while(s: Seq<char>, i: int, k: CharClass) -> int
    decreases s.len() - i,
{
    if 0 <= i < s.len() && in_class(s[i], k) {
        scan_while(s, i + 1, k)
    } else {
        i
    }
}

/// The position after the whitespace and comments that start at `i`.
pub open spec fn skip_ws(s: Seq<char>, i: int) -> int
    decreases s.len() - i,
{
    if 0 <= i < s.len() && is_space(s[i]) {
        skip_ws(s, i + 1)
    } else if 0 <= i && i + 1 < s.len() && s[i] == '/' && s[i + 1] == '/' {
        let e = scan_while(s, i + 2, CharClass::Line);
        if i < e <= s.len() {
            skip_ws(s, e)
        } else {
            i
        }
    } else {
        i
    }
}

/// The position after the blanks (spaces and tabs) that start at `i`.
pub open spec fn skip_blanks(s: Seq<char>, i: int) -> int
    decreases s.len() - i,
{
    if 0 <= i < s.len() && (s[i] == ' ' || s[i] == '\t') {
        skip_blanks(s, i + 1)
    } else {
        i
    }
}

pub open spec fn char_at(s: Seq<char>, i: int, c: char) -> bool {
    0 <= i < s.len() && s[i] == c
}

/// Whether the keyword `kw` stands at `i`, followed by the end, whitespace or a brace.
pub open spec fn keyword_at(s: Seq<char>, i: int, kw: Seq<char>) -> bool {
    0 <= i && i + kw.len() <= s.len() && s.subrange(i, i + kw.len()) == kw && (i + kw.len() == s.len()
        || is_space(s[i + kw.len()]) || s[i + kw.len()] == '{' || s[i + kw.len()] == '}')
}

// ---------------------------------------------------------------- values and annotations

pub open spec fn int_value(digits: Seq<char>, negative: bool) -> Result<i32, ParseError> {
    let v = digits_value(digits);
    if negative {
        if v <= 0x8000_0000 {
            Ok((-v) as i32)
        } else {
            Err(ParseError::InvalidStructure)
        }
    } else {
        if v <= 0x7fff_ffff {
            Ok(v as i32)
        } else {
            Err(ParseError::InvalidStructure)
        }
    }
}

/// The error for text that stops following the grammar at position `at`.
pub open spec fn syntax_error(at: int) -> ParseError {
    ParseError::SyntaxError(at as usize)
}

/// A parameter value starting at `i`, and the position after it: a string, integer or
/// boolean literal.
pub open spec fn value_at(s: Seq<char>, i: int) -> Result<(ValueModel, int), ParseError> {
    if char_at(s, i, '"') {
        let e = scan_while(s, i + 1, CharClass::Quoted);
        if char_at(s, e, '"') {
            Ok((ValueModel::Str(s.subrange(i + 1, e)), e + 1))
        } else {
            Err(syntax_error(e))
        }
    } else if char_at(s, i, '-') || (0 <= i < s.len() && is_digit(s[i])) {
        let d = if char_at(s, i, '-') { i + 1 } else { i };
        let e = scan_while(s, d, CharClass::Digit);
        if e == d {
            Err(syntax_error(d))
        } else {
            match int_value(s.subrange(d, e), char_at(s, i, '-')) {
                Ok(v) => Ok((ValueModel::Int(v), e)),
                Err(x) => Err(x),
            }
        }
    } else {
        let e = scan_while(s, i, CharClass::Word);
        let w = s.subrange(i, e);
        if w == seq!['t', 'r', 'u', 'e'] {
            Ok((ValueModel::Bool(true), e))
        } else if w == seq!['f', 'a', 'l', 's', 'e'] {
            Ok((ValueModel::Bool(false), e))
        } else {
            Err(syntax_error(i))
        }
    }
}

pub open spec fn value_key() -> Seq<char> {
    seq!['v', 'a', 'l', 'u', 'e']
}

/// A parameter starting at `i`: `key = value`, or a value alone, whose key is `value`.
pub open spec fn param_at(s: Seq<char>, i: int) -> Result<((Seq<char>, ValueModel), int), ParseError> {
    let e = scan_while(s, i, CharClass::Word);
    let m = skip_ws(s, e);
    if e > i && char_at(s, m, '=') {
        match value_at(s, skip_ws(s, m + 1)) {
            Ok((v, k)) => Ok(((s.subrange(i, e), v), k)),
            Err(x) => Err(x),
        }
    } else {
        match value_at(s, i) {
            Ok((v, k)) => Ok(((value_key(), v), k)),
            Err(x) => Err(x),
        }
    }
}

/// The parameters from `i` (just after `(` or `,`) up to and including `)`; a key given
/// twice keeps its place and takes the later value.
pub open spec fn params_scan(s: Seq<char>, i: int, acc: Seq<(Seq<char>, ValueModel)>) -> Result<(Seq<(Seq<char>, ValueModel)>, int), ParseError>
    decreases s.len() - i,
{
    match param_at(s, skip_ws(s, i)) {
        Ok((p, k)) => {
            let acc1 = assoc_insert(acc, p.0, p.1);
            let m = skip_ws(s, k);
            if char_at(s, m, ',') && i <= m {
                params_scan(s, m + 1, acc1)
            } else if char_at(s, m, ')') {
                Ok((acc1, m + 1))
            } else {
                Err(syntax_error(m))
            }
        },
        Err(x) => Err(x),
    }
}

/// An annotation whose `@` stands at `i`; its name keeps the `@`.
pub open spec fn annotation_at(s: Seq<char>, i: int) -> Result<(AnnotationModel, int), ParseError> {
    let e = scan_while(s, i + 1, CharClass::Word);
    if e == i + 1 {
        Err(syntax_error(i + 1))
    } else if char_at(s, e, '(') {
        match params_scan(s, e + 1, Seq::empty()) {
            Ok((ps, k)) => Ok((AnnotationModel { name: s.subrange(i, e), params: ps }, k)),
            Err(x) => Err(x),
        }
    } else {
        Ok((AnnotationModel { name: s.subrange(i, e), params: Seq::empty() }, e))
    }
}

/// The annotations from `i`, each after whitespace (`inline` false) or after blanks on the
/// same line (`inline` true); the position after the last one and the space before the next
/// token.
pub open spec fn annotations_scan(s: Seq<char>, i: int, acc: Seq<AnnotationModel>, inline: bool) -> Result<(Seq<AnnotationModel>, int), ParseError>
    decreases s.len() - i,
{
    let j = if inline { skip_blanks(s, i) } else { skip_ws(s, i) };
    if char_at(s, j, '@') {
        match annotation_at(s, j) {
            Ok((a, k)) => if i < k <= s.len() {
                annotations_scan(s, k, acc.push(a), inline)
            } else {
                Err(syntax_error(k))
            },
            Err(x) => Err(x),
        }
    } else {
        Ok((acc, j))
    }
}

// ---------------------------------------------------------------- records and fields

pub open spec fn inline_record(fields: Seq<FieldModel>) -> RecordModel {
    RecordModel {
        name: seq!['I', 'n', 'l', 'i', 'n', 'e', 'S', 'c', 'h', 'e', 'm', 'a'],
        comment: None,
        annotations: Seq::empty(),
        fields,
    }
}

/// A `//` comment on the rest of the line from `i`, and the position after it.
pub open spec fn comment_at(s: Seq<char>, i: int) -> (Option<Seq<char>>, int) {
    let c = skip_blanks(s, i);
    if char_at(s, c, '/') && char_at(s, c + 1, '/') {
        let e = scan_while(s, c, CharClass::Line);
        (Some(s.subrange(c, e)), e)
    } else {
        (None, i)
    }
}

/// The fields from `i` up to and including the `}` that closes them.
pub open spec fn fields_scan(s: Seq<char>, i: int, acc: Seq<FieldModel>) -> Result<(Seq<FieldModel>, int), ParseError>
    decreases s.len() - i, 1int,
{
    let j = skip_ws(s, i);
    if j < 0 || j >= s.len() {
        Err(syntax_error(j))
    } else if s[j] == '}' {
        Ok((acc, j + 1))
    } else {
        match field_at(s, i) {
            Ok((f, k)) => if i < k <= s.len() {
                fields_scan(s, k, acc.push(f))
            } else {
                Err(syntax_error(k))
            },
            Err(x) => Err(x),
        }
    }
}

/// A field, with its leading annotations, starting after the whitespace at `i`.
pub open spec fn field_at(s: Seq<char>, i: int) -> Result<(FieldModel, int), ParseError>
    decreases s.len() - i, 0int,
{
    match annotations_scan(s, i, Seq::empty(), false) {
        Ok((lead, a)) => {
            let e = scan_while(s, a, CharClass::Word);
            let c0 = skip_ws(s, e);
            let c = if char_at(s, c0, ':') { c0 + 1 } else { e };
            let t = skip_ws(s, c);
            if e == a || a < i {
                Err(syntax_error(a))
            } else if char_at(s, t, '{') && i <= t {
                match fields_scan(s, t + 1, Seq::empty()) {
                    Ok((fs, k)) => {
                        let (comment, end) = comment_at(s, k);
                        Ok((
                            FieldModel {
                                name: s.subrange(a, e),
                                type_ref: Seq::empty(),
                                nullable: false,
                                annotations: lead,
                                comment,
                                inline_schema: Some(inline_record(fs)),
                            },
                            end,
                        ))
                    },
                    Err(x) => Err(x),
                }
            } else {
                let te = scan_while(s, t, CharClass::Type);
                let nullable = char_at(s, te, '?');
                let q = if nullable { te + 1 } else { te };
                if te == t {
                    Err(syntax_error(t))
                } else {
                    match annotations_scan(s, q, Seq::empty(), true) {
                        Ok((trail, r)) => {
                            let b = skip_ws(s, r);
                            let field = FieldModel {
                                name: s.subrange(a, e),
                                type_ref: s.subrange(t, te),
                                nullable,
                                annotations: lead + trail,
                                comment: None,
                                inline_schema: None,
                            };
                            if char_at(s, b, '{') && i <= b {
                                match fields_scan(s, b + 1, Seq::empty()) {
                                    Ok((fs, k)) => {
                                        let (comment, end) = comment_at(s, k);
                                        Ok((FieldModel { comment, inline_schema: Some(inline_record(fs)), ..field }, end))
                                    },
                                    Err(x) => Err(x),
                                }
                            } else {
                                let (comment, end) = comment_at(s, r);
                                Ok((FieldModel { comment, ..field }, end))
                            }
                        },
                        Err(x) => Err(x),
                    }
                }
            }
        },
        Err(x) => Err(x),
    }
}

/// A record type after its annotations `anns` and its `schema` keyword, which ends at `i`.
pub open spec fn record_at(s: Seq<char>, i: int, anns: Seq<AnnotationModel>) -> Result<(RecordModel, int), ParseError> {
    let a = skip_ws(s, i);
    let e = scan_while(s, a, CharClass::Word);
    let b = skip_ws(s, e);
    if e == a {
        Err(syntax_error(a))
    } else if !char_at(s, b, '{') {
        Err(syntax_error(b))
    } else {
        match fields_scan(s, b + 1, Seq::empty()) {
            Ok((fs, k)) => Ok((RecordModel { name: s.subrange(a, e), comment: None, annotations: anns, fields: fs }, k)),
            Err(x) => Err(x),
        }
    }
}

/// The values of an enumeration from `i` up to and including the closing `}`.
pub open spec fn values_scan(s: Seq<char>, i: int, acc: Seq<Seq<char>>) -> Result<(Seq<Seq<char>>, int), ParseError>
    decreases s.len() - i,
{
    let j = skip_ws(s, i);
    if j < i || j >= s.len() {
        Err(syntax_error(j))
    } else if s[j] == '}' {
        Ok((acc, j + 1))
    } else if s[j] == ',' {
        values_scan(s, j + 1, acc)
    } else {
        let e = scan_while(s, j, CharClass::Word);
        if e <= j || e > s.len() {
            Err(syntax_error(j))
        } else {
            values_scan(s, e, acc.push(s.subrange(j, e)))
        }
    }
}

/// An enumeration after its annotations `anns` and its `enum` keyword, which ends at `i`.
pub open spec fn enum_at(s: Seq<char>, i: int, anns: Seq<AnnotationModel>) -> Result<(EnumModel, int), ParseError> {
    let a = skip_ws(s, i);
    let e = scan_while(s, a, CharClass::Word);
    let b = skip_ws(s, e);
    if e == a {
        Err(syntax_error(a))
    } else if !char_at(s, b, '{') {
        Err(syntax_error(b))
    } else {
        match values_scan(s, b + 1, Seq::empty()) {
            Ok((vs, k)) => Ok((EnumModel { name: s.subrange(a, e), comment: None, annotations: anns, values: vs }, k)),
            Err(x) => Err(x),
        }
    }
}

// ---------------------------------------------------------------- namespaces and files

pub open spec fn kw_namespace() -> Seq<char> {
    seq!['n', 'a', 'm', 'e', 's', 'p', 'a', 'c', 'e']
}

pub open spec fn kw_schema() -> Seq<char> {
    seq!['s', 'c', 'h', 'e', 'm', 'a']
}

pub open spec fn kw_enum() -> Seq<char> {
    seq!['e', 'n', 'u', 'm']
}

pub ghost struct Items {
    pub schemas: Seq<RecordModel>,
    pub enums: Seq<EnumModel>,
}

/// The items of a namespace from `i`: up to and including `}` when `braced`, else up to the
/// next `namespace` keyword or the end of the text.
pub open spec fn items_scan(s: Seq<char>, i: int, acc: Items, braced: bool) -> Result<(Items, int), ParseError>
    decreases s.len() - i,
{
    let j = skip_ws(s, i);
    if braced && char_at(s, j, '}') {
        Ok((acc, j + 1))
    } else if !braced && (j >= s.len() || keyword_at(s, j, kw_namespace())) {
        Ok((acc, j))
    } else {
        match annotations_scan(s, i, Seq::empty(), false) {
            Ok((anns, m)) => if keyword_at(s, m, kw_schema()) {
                match record_at(s, m + 6, anns) {
                    Ok((r, k)) => if i < k <= s.len() {
                        items_scan(s, k, Items { schemas: acc.schemas.push(r), ..acc }, braced)
                    } else {
                        Err(syntax_error(k))
                    },
                    Err(x) => Err(x),
                }
            } else if keyword_at(s, m, kw_enum()) {
                match enum_at(s, m + 4, anns) {
                    Ok((en, k)) => if i < k <= s.len() {
                        items_scan(s, k, Items { enums: acc.enums.push(en), ..acc }, braced)
                    } else {
                        Err(syntax_error(k))
                    },
                    Err(x) => Err(x),
                }
            } else {
                Err(syntax_error(m))
            },
            Err(x) => Err(x),
        }
    }
}

/// A namespace after its keyword, which ends at `i`.
pub open spec fn namespace_at(s: Seq<char>, i: int) -> Result<(NamespaceModel, int), ParseError> {
    let a = skip_ws(s, i);
    let e = scan_while(s, a, CharClass::Name);
    let b = skip_ws(s, e);
    let braced = char_at(s, b, '{');
    if e == a {
        Err(syntax_error(a))
    } else {
        match items_scan(s, if braced { b + 1 } else { e }, Items { schemas: Seq::empty(), enums: Seq::empty() }, braced) {
            Ok((items, k)) => Ok((NamespaceModel { name: s.subrange(a, e), schemas: items.schemas, enums: items.enums }, k)),
            Err(x) => Err(x),
        }
    }
}

/// The namespaces from `i` to the end of the text.
pub open spec fn file_scan(s: Seq<char>, i: int, acc: Seq<NamespaceModel>) -> Result<Seq<NamespaceModel>, ParseError>
    decreases s.len() - i,
{
    let j = skip_ws(s, i);
    if j < 0 || j >= s.len() {
        Ok(acc)
    } else if keyword_at(s, j, kw_namespace()) {
        match namespace_at(s, j + 9) {
            Ok((ns, k)) => if i < k <= s.len() {
                file_scan(s, k, acc.push(ns))
            } else {
                Err(syntax_error(k))
            },
            Err(x) => Err(x),
        }
    } else {
        Err(syntax_error(j))
    }
}

/// The document that the source text `s` writes.
pub open spec fn file_spec(s: Seq<char>) -> Result<Seq<NamespaceModel>, ParseError> {
    file_scan(s, 0, Seq::empty())
}

/// The record type that the source text `s` writes alone, with its annotations.
pub open spec fn schema_spec(s: Seq<char>) -> Result<RecordModel, ParseError> {
    match annotations_scan(s, 0, Seq::empty(), false) {
        Ok((anns, m)) => if keyword_at(s, m, kw_schema()) {
            match record_at(s, m + 6, anns) {
                Ok((r, k)) => if skip_ws(s, k) >= s.len() {
                    Ok(r)
                } else {
                    Err(syntax_error(skip_ws(s, k)))
                },
                Err(x) => Err(x),
            }
        } else {
            Err(syntax_error(m))
        },
        Err(x) => Err(x),
    }
}


proof fn lemma_scan_while(s: Seq<char>, i: int, k: CharClass)
    requires
        0 <= i <= s.len(),
    ensures
        i <= scan_while(s, i, k) <= s.len(),
        forall|m: int| i <= m < scan_while(s, i, k) ==> in_class(#[trigger] s[m], k),
    decreases s.len() - i,
{
    if i < s.len() && in_class(s[i], k) {
        lemma_scan_while(s, i + 1, k);
    }
}

fn class_has(c: char, k: CharClass) -> (r: bool)
    ensures
        r == in_class(c, k),
{
    let word = ('a' <= c && c <= 'z') || ('A' <= c && c <= 'Z') || ('0' <= c && c <= '9') || c == '_' || c == '-' || c == '.';
    match k {
        CharClass::Word => word,
        CharClass::Type => word || c == ':' || c == '<' || c == '>' || c == '[' || c == ']',
        CharClass::Name => !(c == ' ' || c == '\t' || c == '\n' || c == '\r') && c != '{' && c != '}',
        CharClass::Digit => '0' <= c && c <= '9',
        CharClass::Quoted => c != '"',
        CharClass::Line => c != '\n',
    }
}

fn scan(cs: &Vec<char>, i: usize, k: CharClass) -> (r: usize)
    requires
        i <= cs.len(),
    ensures
        r == scan_while(cs@, i as int, k),
        i <= r <= cs.len(),
{
    let mut j = i;
    while j < cs.len() && class_has(cs[j], k)
        invariant
            i <= j <= cs.len(),
            scan_while(cs@, i as int, k) == scan_while(cs@, j as int, k),
        decreases cs.len() - j,
    {
        j = j + 1;
    }
    j
}

fn skip_space(cs: &Vec<char>, i: usize) -> (r: usize)
    requires
        i <= cs.len(),
    ensures
        r == skip_ws(cs@, i as int),
        i <= r <= cs.len(),
{
    let mut j = i;
    while j < cs.len()
        invariant
            i <= j <= cs.len(),
            skip_ws(cs@, i as int) == skip_ws(cs@, j as int),
        decreases cs.len() - j,
    {
        let c = cs[j];
        if c == ' ' || c == '\t' || c == '\n' || c == '\r' {
            j = j + 1;
        } else if c == '/' && j + 1 < cs.len() && cs[j + 1] == '/' {
            j = scan(cs, j + 2, CharClass::Line);
        } else {
            return j;
        }
    }
    j
}

fn skip_blank_run(cs: &Vec<char>, i: usize) -> (r: usize)
    requires
        i <= cs.len(),
    ensures
        r == skip_blanks(cs@, i as int),
        i <= r <= cs.len(),
{
    let mut j = i;
    while j < cs.len() && (cs[j] == ' ' || cs[j] == '\t')
        invariant
            i <= j <= cs.len(),
            skip_blanks(cs@, i as int) == skip_blanks(cs@, j as int),
        decreases cs.len() - j,
    {
        j = j + 1;
    }
    j
}

fn has_char(cs: &Vec<char>, i: usize, c: char) -> (r: bool)
    ensures
        r == char_at(cs@, i as int, c),
{
    i < cs.len() && cs[i] == c
}

fn has_keyword(cs: &Vec<char>, i: usize, kw: &Vec<char>) -> (r: bool)
    requires
        i <= cs.len(),
    ensures
        r == keyword_at(cs@, i as int, kw@),
{
    if !chars_at(cs, i, kw) {
        return false;
    }
    let e = i + kw.len();
    e == cs.len() || cs[e] == ' ' || cs[e] == '\t' || cs[e] == '\n' || cs[e] == '\r' || cs[e] == '{' || cs[e] == '}'
}

fn keyword(which: u8) -> (r: Vec<char>)
    ensures
        which == 0 ==> r@ == kw_namespace(),
        which == 1 ==> r@ == kw_schema(),
        which >= 2 ==> r@ == kw_enum(),
{
    let r = if which == 0 {
        vec!['n', 'a', 'm', 'e', 's', 'p', 'a', 'c', 'e']
    } else if which == 1 {
        vec!['s', 'c', 'h', 'e', 'm', 'a']
    } else {
        vec!['e', 'n', 'u', 'm']
    };
    assert(which == 0 ==> r@ =~= kw_namespace());
    assert(which == 1 ==> r@ =~= kw_schema());
    assert(which >= 2 ==> r@ =~= kw_enum());
    r
}

pub open spec fn value_result(r: Result<(AnnotationValue, usize), ParseError>) -> Result<(ValueModel, int), ParseError> {
    match r {
        Ok((v, p)) => Ok((v@, p as int)),
        Err(x) => Err(x),
    }
}

impl SchemataParser {
    fn value_at(cs: &Vec<char>, i: usize) -> (r: Result<(AnnotationValue, usize), ParseError>)
        requires
            i <= cs.len(),
        ensures
            value_result(r) == value_at(cs@, i as int),
            r matches Ok((_, p)) ==> i < p <= cs.len(),
    {
        if has_char(cs, i, '"') {
            let e = scan(cs, i + 1, CharClass::Quoted);
            if has_char(cs, e, '"') {
                Ok((AnnotationValue::String(string_of(cs, i + 1, e)), e + 1))
            } else {
                Err(ParseError::SyntaxError(e))
            }
        } else if has_char(cs, i, '-') || (i < cs.len() && '0' <= cs[i] && cs[i] <= '9') {
            let negative = has_char(cs, i, '-');
            let d = if negative { i + 1 } else { i };
            let e = scan(cs, d, CharClass::Digit);
            if e == d {
                return Err(ParseError::SyntaxError(d));
            }
            proof {
                lemma_scan_while(cs@, d as int, CharClass::Digit);
                assert(crate::text::all_digits(cs@.subrange(d as int, e as int)));
            }
            if negative {
                match digits_upto(cs, d, e, 0x8000_0000) {
                    Some(v) => Ok((AnnotationValue::Integer((-(v as i64)) as i32), e)),
                    None => Err(ParseError::InvalidStructure),
                }
            } else {
                match digits_upto(cs, d, e, 0x7fff_ffff) {
                    Some(v) => Ok((AnnotationValue::Integer(v as i32), e)),
                    None => Err(ParseError::InvalidStructure),
                }
            }
        } else {
            let e = scan(cs, i, CharClass::Word);
            let t = vec!['t', 'r', 'u', 'e'];
            let f = vec!['f', 'a', 'l', 's', 'e'];
            assert(t@ =~= seq!['t', 'r', 'u', 'e']);
            assert(f@ =~= seq!['f', 'a', 'l', 's', 'e']);
            if e - i == 4 && chars_at(cs, i, &t) {
                Ok((AnnotationValue::Boolean(true), e))
            } else if e - i == 5 && chars_at(cs, i, &f) {
                Ok((AnnotationValue::Boolean(false), e))
            } else {
                Err(ParseError::SyntaxError(i))
            }
        }
    }

    fn param_at(cs: &Vec<char>, i: usize) -> (r: Result<((String, AnnotationValue), usize), ParseError>)
        requires
            i <= cs.len(),
        ensures
            match r {
                Ok((p, k)) => param_at(cs@, i as int) == Ok::<((Seq<char>, ValueModel), int), ParseError>(((p.0@, p.1@), k as int))
                    && i < k <= cs.len(),
                Err(x) => param_at(cs@, i as int) == Err::<((Seq<char>, ValueModel), int), ParseError>(x),
            },
    {
        let e = scan(cs, i, CharClass::Word);
        let m = skip_space(cs, e);
        if e > i && has_char(cs, m, '=') {
            match Self::value_at(cs, skip_space(cs, m + 1)) {
                Ok((v, k)) => Ok(((string_of(cs, i, e), v), k)),
                Err(x) => Err(x),
            }
        } else {
            match Self::value_at(cs, i) {
                Ok((v, k)) => {
                    let key = vec!['v', 'a', 'l', 'u', 'e'];
                    assert(key@ =~= value_key());
                    assert(key@.subrange(0, 5) =~= value_key());
                    Ok(((string_of(&key, 0, 5), v), k))
                },
                Err(x) => Err(x),
            }
        }
    }

    fn params_scan(cs: &Vec<char>, i: usize) -> (r: Result<(Vec<(String, AnnotationValue)>, usize), ParseError>)
        requires
            i <= cs.len(),
        ensures
            match r {
                Ok((ps, k)) => params_scan(cs@, i as int, Seq::empty()) == Ok::<(Seq<(Seq<char>, ValueModel)>, int), ParseError>((params_view(ps@), k as int))
                    && i < k <= cs.len(),
                Err(x) => params_scan(cs@, i as int, Seq::empty()) == Err::<(Seq<(Seq<char>, ValueModel)>, int), ParseError>(x),
            },
    {
        let mut ps: Vec<(String, AnnotationValue)> = Vec::new();
        let mut j = i;
        assert(params_view(ps@) =~= Seq::<(Seq<char>, ValueModel)>::empty());
        loop
            invariant
                i <= j <= cs.len(),
                params_scan(cs@, i as int, Seq::empty()) == params_scan(cs@, j as int, params_view(ps@)),
            decreases cs.len() - j,
        {
            match Self::param_at(cs, skip_space(cs, j)) {
                Ok((p, k)) => {
                    assert(entries_view(ps@) == params_view(ps@));
                    assoc_put(&mut ps, p.0, p.1);
                    assert(entries_view(ps@) == params_view(ps@));
                    let m = skip_space(cs, k);
                    if has_char(cs, m, ',') {
                        j = m + 1;
                    } else if has_char(cs, m, ')') {
                        return Ok((ps, m + 1));
                    } else {
                        return Err(ParseError::SyntaxError(m));
                    }
                },
                Err(x) => {
                    return Err(x);
                },
            }
        }
    }

    fn annotation_at(cs: &Vec<char>, i: usize) -> (r: Result<(SchemataAnnotation, usize), ParseError>)
        requires
            i < cs.len(),
        ensures
            match r {
                Ok((a, k)) => annotation_at(cs@, i as int) == Ok::<(AnnotationModel, int), ParseError>((a@, k as int)) && i < k <= cs.len(),
                Err(x) => annotation_at(cs@, i as int) == Err::<(AnnotationModel, int), ParseError>(x),
            },
    {
        let e = scan(cs, i + 1, CharClass::Word);
        if e == i + 1 {
            Err(ParseError::SyntaxError(i + 1))
        } else if has_char(cs, e, '(') {
            match Self::params_scan(cs, e + 1) {
                Ok((ps, k)) => Ok((SchemataAnnotation { name: string_of(cs, i, e), params: ps }, k)),
                Err(x) => Err(x),
            }
        } else {
            let ps: Vec<(String, AnnotationValue)> = Vec::new();
            assert(params_view(ps@) =~= Seq::<(Seq<char>, ValueModel)>::empty());
            Ok((SchemataAnnotation { name: string_of(cs, i, e), params: ps }, e))
        }
    }

    fn annotations_scan(cs: &Vec<char>, i: usize, inline: bool) -> (r: Result<(Vec<SchemataAnnotation>, usize), ParseError>)
        requires
            i <= cs.len(),
        ensures
            match r {
                Ok((anns, k)) => annotations_scan(cs@, i as int, Seq::empty(), inline)
                    == Ok::<(Seq<AnnotationModel>, int), ParseError>((annotations_view(anns@), k as int)) && i <= k <= cs.len(),
                Err(x) => annotations_scan(cs@, i as int, Seq::empty(), inline) == Err::<(Seq<AnnotationModel>, int), ParseError>(x),
            },
    {
        let mut anns: Vec<SchemataAnnotation> = Vec::new();
        let mut j = i;
        assert(annotations_view(anns@) =~= Seq::<AnnotationModel>::empty());
        loop
            invariant
                i <= j <= cs.len(),
                annotations_scan(cs@, i as int, Seq::empty(), inline) == annotations_scan(cs@, j as int, annotations_view(anns@), inline),
            decreases cs.len() - j,
        {
            let b = if inline { skip_blank_run(cs, j) } else { skip_space(cs, j) };
            if !has_char(cs, b, '@') {
                return Ok((anns, b));
            }
            match Self::annotation_at(cs, b) {
                Ok((a, k)) => {
                    let ghost before = anns@;
                    anns.push(a);
                    assert(annotations_view(anns@) =~= annotations_view(before).push(a@));
                    j = k;
                },
                Err(x) => {
                    return Err(x);
                },
            }
        }
    }
}


impl SchemataParser {
    fn comment_at(cs: &Vec<char>, i: usize) -> (r: (Option<String>, usize))
        requires
            i <= cs.len(),
        ensures
            (r.0.deep_view(), r.1 as int) == comment_at(cs@, i as int),
            i <= r.1 <= cs.len(),
    {
        let c = skip_blank_run(cs, i);
        if has_char(cs, c, '/') && has_char(cs, c + 1, '/') {
            let e = scan(cs, c, CharClass::Line);
            (Some(string_of(cs, c, e)), e)
        } else {
            (None, i)
        }
    }

    pub(crate) fn inline_schema(fields: Vec<SchemataField>) -> (r: SchemataSchema)
        ensures
            r@ == inline_record(fields_view(fields@)),
    {
        let n = vec!['I', 'n', 'l', 'i', 'n', 'e', 'S', 'c', 'h', 'e', 'm', 'a'];
        let name = string_of(&n, 0, 12);
        let annotations: Vec<SchemataAnnotation> = Vec::new();
        let r = SchemataSchema { name, comment: None, annotations, fields };
        assert(name@ =~= inline_record(fields_view(fields@)).name);
        assert(annotations_view(annotations@) =~= Seq::<AnnotationModel>::empty());
        r
    }

    fn fields_scan(cs: &Vec<char>, i: usize) -> (r: Result<(Vec<SchemataField>, usize), ParseError>)
        requires
            i <= cs.len(),
        ensures
            match r {
                Ok((fs, k)) => fields_scan(cs@, i as int, Seq::empty()) == Ok::<(Seq<FieldModel>, int), ParseError>((fields_view(fs@), k as int))
                    && i < k <= cs.len(),
                Err(x) => fields_scan(cs@, i as int, Seq::empty()) == Err::<(Seq<FieldModel>, int), ParseError>(x),
            },
        decreases cs.len() - i, 1int,
    {
        let mut fs: Vec<SchemataField> = Vec::new();
        let mut j = i;
        assert(fields_view(fs@) =~= Seq::<FieldModel>::empty());
        loop
            invariant
                i <= j <= cs.len(),
                fields_scan(cs@, i as int, Seq::empty()) == fields_scan(cs@, j as int, fields_view(fs@)),
            decreases cs.len() - j,
        {
            let b = skip_space(cs, j);
            if b >= cs.len() {
                return Err(ParseError::SyntaxError(b));
            }
            if cs[b] == '}' {
                return Ok((fs, b + 1));
            }
            match Self::field_at(cs, j) {
                Ok((f, k)) => {
                    proof {
                        lemma_fields_view_push(fs@, f);
                    }
                    fs.push(f);
                    j = k;
                },
                Err(x) => {
                    return Err(x);
                },
            }
        }
    }

    fn field_at(cs: &Vec<char>, i: usize) -> (r: Result<(SchemataField, usize), ParseError>)
        requires
            i <= cs.len(),
        ensures
            match r {
                Ok((f, k)) => field_at(cs@, i as int) == Ok::<(FieldModel, int), ParseError>((f@, k as int)) && i < k <= cs.len(),
                Err(x) => field_at(cs@, i as int) == Err::<(FieldModel, int), ParseError>(x),
            },
        decreases cs.len() - i, 0int,
    {
        let (mut lead, a) = match Self::annotations_scan(cs, i, false) {
            Ok(x) => x,
            Err(x) => {
                return Err(x);
            },
        };
        let e = scan(cs, a, CharClass::Word);
        let c0 = skip_space(cs, e);
        let c = if has_char(cs, c0, ':') { c0 + 1 } else { e };
        let t = skip_space(cs, c);
        if e == a {
            return Err(ParseError::SyntaxError(a));
        }
        let name = string_of(cs, a, e);
        if has_char(cs, t, '{') {
            match Self::fields_scan(cs, t + 1) {
                Ok((fs, k)) => {
                    let (comment, end) = Self::comment_at(cs, k);
                    let f = SchemataField {
                        name,
                        type_ref: String::new(),
                        nullable: false,
                        annotations: lead,
                        comment,
                        inline_schema: Some(Self::inline_schema(fs)),
                    };
                    return Ok((f, end));
                },
                Err(x) => {
                    return Err(x);
                },
            }
        }
        let te = scan(cs, t, CharClass::Type);
        let nullable = has_char(cs, te, '?');
        let q = if nullable { te + 1 } else { te };
        if te == t {
            return Err(ParseError::SyntaxError(t));
        }
        let (mut trail, r) = match Self::annotations_scan(cs, q, true) {
            Ok(x) => x,
            Err(x) => {
                return Err(x);
            },
        };
        let b = skip_space(cs, r);
        let type_ref = string_of(cs, t, te);
        let ghost lv = lead@;
        let ghost tv = trail@;
        lead.append(&mut trail);
        assert(annotations_view(lead@) =~= annotations_view(lv) + annotations_view(tv));
        if has_char(cs, b, '{') {
            match Self::fields_scan(cs, b + 1) {
                Ok((fs, k)) => {
                    let (comment, end) = Self::comment_at(cs, k);
                    let f = SchemataField {
                        name,
                        type_ref,
                        nullable,
                        annotations: lead,
                        comment,
                        inline_schema: Some(Self::inline_schema(fs)),
                    };
                    Ok((f, end))
                },
                Err(x) => Err(x),
            }
        } else {
            let (comment, end) = Self::comment_at(cs, r);
            let f = SchemataField { name, type_ref, nullable, annotations: lead, comment, inline_schema: None };
            Ok((f, end))
        }
    }

    fn record_at(cs: &Vec<char>, i: usize, annotations: Vec<SchemataAnnotation>) -> (r: Result<(SchemataSchema, usize), ParseError>)
        requires
            i <= cs.len(),
        ensures
            match r {
                Ok((s, k)) => record_at(cs@, i as int, annotations_view(annotations@)) == Ok::<(RecordModel, int), ParseError>((s@, k as int))
                    && i < k <= cs.len(),
                Err(x) => record_at(cs@, i as int, annotations_view(annotations@)) == Err::<(RecordModel, int), ParseError>(x),
            },
    {
        let a = skip_space(cs, i);
        let e = scan(cs, a, CharClass::Word);
        let b = skip_space(cs, e);
        if e == a {
            return Err(ParseError::SyntaxError(a));
        }
        if !has_char(cs, b, '{') {
            return Err(ParseError::SyntaxError(b));
        }
        match Self::fields_scan(cs, b + 1) {
            Ok((fields, k)) => Ok((SchemataSchema { name: string_of(cs, a, e), comment: None, annotations, fields }, k)),
            Err(x) => Err(x),
        }
    }

    fn values_scan(cs: &Vec<char>, i: usize) -> (r: Result<(Vec<String>, usize), ParseError>)
        requires
            i <= cs.len(),
        ensures
            match r {
                Ok((vs, k)) => values_scan(cs@, i as int, Seq::empty()) == Ok::<(Seq<Seq<char>>, int), ParseError>((vs.deep_view(), k as int))
                    && i < k <= cs.len(),
                Err(x) => values_scan(cs@, i as int, Seq::empty()) == Err::<(Seq<Seq<char>>, int), ParseError>(x),
            },
    {
        let mut vs: Vec<String> = Vec::new();
        let mut j = i;
        assert(vs.deep_view() =~= Seq::<Seq<char>>::empty());
        loop
            invariant
                i <= j <= cs.len(),
                values_scan(cs@, i as int, Seq::empty()) == values_scan(cs@, j as int, vs.deep_view()),
            decreases cs.len() - j,
        {
            let b = skip_space(cs, j);
            if b >= cs.len() {
                return Err(ParseError::SyntaxError(b));
            }
            if cs[b] == '}' {
                return Ok((vs, b + 1));
            } else if cs[b] == ',' {
                j = b + 1;
            } else {
                let e = scan(cs, b, CharClass::Word);
                if e == b {
                    return Err(ParseError::SyntaxError(b));
                }
                let v = string_of(cs, b, e);
                let ghost before = vs.deep_view();
                vs.push(v);
                assert(vs.deep_view() =~= before.push(v@));
                j = e;
            }
        }
    }

    fn enum_at(cs: &Vec<char>, i: usize, annotations: Vec<SchemataAnnotation>) -> (r: Result<(SchemataEnum, usize), ParseError>)
        requires
            i <= cs.len(),
        ensures
            match r {
                Ok((en, k)) => enum_at(cs@, i as int, annotations_view(annotations@)) == Ok::<(EnumModel, int), ParseError>((en@, k as int))
                    && i < k <= cs.len(),
                Err(x) => enum_at(cs@, i as int, annotations_view(annotations@)) == Err::<(EnumModel, int), ParseError>(x),
            },
    {
        let a = skip_space(cs, i);
        let e = scan(cs, a, CharClass::Word);
        let b = skip_space(cs, e);
        if e == a {
            return Err(ParseError::SyntaxError(a));
        }
        if !has_char(cs, b, '{') {
            return Err(ParseError::SyntaxError(b));
        }
        match Self::values_scan(cs, b + 1) {
            Ok((values, k)) => Ok((SchemataEnum { name: string_of(cs, a, e), comment: None, annotations, values }, k)),
            Err(x) => Err(x),
        }
    }
}


pub open spec fn items_view(schemas: Seq<SchemataSchema>, enums: Seq<SchemataEnum>) -> Items {
    Items {
        schemas: schemas.map_values(|s: SchemataSchema| s@),
        enums: enums.map_values(|e: SchemataEnum| e@),
    }
}

impl SchemataParser {
    fn items_scan(cs: &Vec<char>, i: usize, braced: bool) -> (r: Result<(Vec<SchemataSchema>, Vec<SchemataEnum>, usize), ParseError>)
        requires
            i <= cs.len(),
        ensures
            ({
                let start = items_scan(cs@, i as int, Items { schemas: Seq::empty(), enums: Seq::empty() }, braced);
                match r {
                    Ok((ss, es, k)) => start == Ok::<(Items, int), ParseError>((items_view(ss@, es@), k as int)) && i <= k <= cs.len(),
                    Err(x) => start == Err::<(Items, int), ParseError>(x),
                }
            }),
    {
        let mut schemas: Vec<SchemataSchema> = Vec::new();
        let mut enums: Vec<SchemataEnum> = Vec::new();
        let ns = keyword(0);
        let sk = keyword(1);
        let ek = keyword(2);
        let mut j = i;
        assert(schemas@.map_values(|s: SchemataSchema| s@) =~= Seq::<RecordModel>::empty());
        assert(enums@.map_values(|e: SchemataEnum| e@) =~= Seq::<EnumModel>::empty());
        loop
            invariant
                i <= j <= cs.len(),
                ns@ == kw_namespace(),
                sk@ == kw_schema(),
                ek@ == kw_enum(),
                items_scan(cs@, i as int, Items { schemas: Seq::empty(), enums: Seq::empty() }, braced)
                    == items_scan(cs@, j as int, items_view(schemas@, enums@), braced),
            decreases cs.len() - j,
        {
            let b = skip_space(cs, j);
            if braced && has_char(cs, b, '}') {
                return Ok((schemas, enums, b + 1));
            }
            if !braced && (b >= cs.len() || has_keyword(cs, b, &ns)) {
                return Ok((schemas, enums, b));
            }
            let (anns, m) = match Self::annotations_scan(cs, j, false) {
                Ok(x) => x,
                Err(x) => {
                    return Err(x);
                },
            };
            if has_keyword(cs, m, &sk) {
                match Self::record_at(cs, m + 6, anns) {
                    Ok((rec, k)) => {
                        let ghost before = schemas@;
                        schemas.push(rec);
                        assert(schemas@.map_values(|s: SchemataSchema| s@) =~= before.map_values(|s: SchemataSchema| s@).push(rec@));
                        j = k;
                    },
                    Err(x) => {
                        return Err(x);
                    },
                }
            } else if has_keyword(cs, m, &ek) {
                match Self::enum_at(cs, m + 4, anns) {
                    Ok((en, k)) => {
                        let ghost before = enums@;
                        enums.push(en);
                        assert(enums@.map_values(|e: SchemataEnum| e@) =~= before.map_values(|e: SchemataEnum| e@).push(en@));
                        j = k;
                    },
                    Err(x) => {
                        return Err(x);
                    },
                }
            } else {
                return Err(ParseError::SyntaxError(m));
            }
        }
    }

    fn namespace_at(cs: &Vec<char>, i: usize) -> (r: Result<(SchemataNamespace, usize), ParseError>)
        requires
            i <= cs.len(),
        ensures
            match r {
                Ok((n, k)) => namespace_at(cs@, i as int) == Ok::<(NamespaceModel, int), ParseError>((n@, k as int)) && i < k <= cs.len(),
                Err(x) => namespace_at(cs@, i as int) == Err::<(NamespaceModel, int), ParseError>(x),
            },
    {
        let a = skip_space(cs, i);
        let e = scan(cs, a, CharClass::Name);
        let b = skip_space(cs, e);
        let braced = has_char(cs, b, '{');
        if e == a {
            return Err(ParseError::SyntaxError(a));
        }
        match Self::items_scan(cs, if braced { b + 1 } else { e }, braced) {
            Ok((schemas, enums, k)) => Ok((SchemataNamespace { name: string_of(cs, a, e), schemas, enums }, k)),
            Err(x) => Err(x),
        }
    }

    /// Reads Schemata source text into its document model.
    pub fn parse_schemata(input: &str) -> (r: Result<SchemataFile, ParseError>)
        ensures
            match r {
                Ok(f) => file_spec(input@) == Ok::<Seq<NamespaceModel>, ParseError>(f@),
                Err(x) => file_spec(input@) == Err::<Seq<NamespaceModel>, ParseError>(x),
            },
    {
        let cs = chars_of(input);
        let ns = keyword(0);
        let mut namespaces: Vec<SchemataNamespace> = Vec::new();
        let mut j: usize = 0;
        assert(namespaces@.map_values(|n: SchemataNamespace| n@) =~= Seq::<NamespaceModel>::empty());
        loop
            invariant
                j <= cs.len(),
                cs@ == input@,
                ns@ == kw_namespace(),
                file_spec(input@) == file_scan(cs@, j as int, namespaces@.map_values(|n: SchemataNamespace| n@)),
            decreases cs.len() - j,
        {
            let b = skip_space(&cs, j);
            if b >= cs.len() {
                return Ok(SchemataFile { namespaces });
            }
            if !has_keyword(&cs, b, &ns) {
                return Err(ParseError::SyntaxError(b));
            }
            match Self::namespace_at(&cs, b + 9) {
                Ok((n, k)) => {
                    let ghost before = namespaces@;
                    namespaces.push(n);
                    assert(namespaces@.map_values(|n: SchemataNamespace| n@) =~= before.map_values(|n: SchemataNamespace| n@).push(n@));
                    j = k;
                },
                Err(x) => {
                    return Err(x);
                },
            }
        }
    }

    /// Reads source text that holds one record type alone, with its annotations.
    pub fn parse_schema(input: &str) -> (r: Result<SchemataSchema, ParseError>)
        ensures
            match r {
                Ok(s) => schema_spec(input@) == Ok::<RecordModel, ParseError>(s@),
                Err(x) => schema_spec(input@) == Err::<RecordModel, ParseError>(x),
            },
    {
        let cs = chars_of(input);
        let sk = keyword(1);
        let (anns, m) = match Self::annotations_scan(&cs, 0, false) {
            Ok(x) => x,
            Err(x) => {
                return Err(x);
            },
        };
        if !has_keyword(&cs, m, &sk) {
            return Err(ParseError::SyntaxError(m));
        }
        match Self::record_at(&cs, m + 6, anns) {
            Ok((s, k)) => {
                if skip_space(&cs, k) >= cs.len() {
                    Ok(s)
                } else {
                    Err(ParseError::SyntaxError(skip_space(&cs, k)))
                }
            },
            Err(x) => Err(x),
        }
    }
}

} // verus!
