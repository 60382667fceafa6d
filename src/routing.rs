//! Path templates: converters, the template compiler, routes and the router.

use vstd::prelude::*;
use crate::error::{RustletteError, RustletteResult, kind_tag, ErrorKind};
use crate::text::{has_infix, texts_view, lowercase, lower_of, same, chars_of, text_of, replaced, replace_text};
use crate::types::{first_index, find_char, HTTPMethod, parsed_method};

verus! {

/// Whether `Regex::new` accepts the pattern.
pub uninterp spec fn regex_compiles(pattern: Seq<char>) -> bool;

/// What `Regex::captures` finds of the named groups `names` in `text`:
/// `None` where the pattern does not match, else one entry per name.
pub uninterp spec fn regex_captures(pattern: Seq<char>, text: Seq<char>, names: Seq<Seq<char>>)
    -> Option<Seq<Option<Seq<char>>>>;

/// Whether `uuid::Uuid::parse_str` accepts the text.
pub uninterp spec fn uuid_accepts(s: Seq<char>) -> bool;

/// The views of optional captures.
pub open spec fn captures_view(v: Seq<Option<String>>) -> Seq<Option<Seq<char>>> {
    v.map_values(|o: Option<String>| match o { Some(s) => Some(s@), None => None })
}

/// Relies on `regex::Regex::new`: `None` where it accepts the pattern, else the
/// text of its error.
#[verifier::external_body]
fn regex_error(pattern: &str) -> (r: Option<String>)
    ensures
        r is None <==> regex_compiles(pattern@),
{
    regex::Regex::new(pattern).err().map(|e| e.to_string())
}

/// Relies on `regex::Regex::captures` and `Captures::name`: where the pattern
/// matches `text`, the text of each named group, in the order of `names`.
#[verifier::external_body]
fn captures_of(pattern: &str, text: &str, names: &Vec<String>) -> (r: Option<Vec<Option<String>>>)
    ensures
        match r {
            None => regex_captures(pattern@, text@, texts_view(names@)) is None,
            Some(v) => regex_captures(pattern@, text@, texts_view(names@))
                == Some(captures_view(v@)),
        },
{
    let re = regex::Regex::new(pattern).ok()?;
    let caps = re.captures(text)?;
    Some(names.iter().map(|n| caps.name(n).map(|m| m.as_str().to_string())).collect())
}

/// Relies on `uuid::Uuid::parse_str`: whether it parses the text.
#[verifier::external_body]
fn uuid_parses(s: &str) -> (r: bool)
    ensures
        r == uuid_accepts(s@),
{
    uuid::Uuid::parse_str(s).is_ok()
}

/// Whether a character is an ASCII digit.
pub open spec fn is_digit(c: char) -> bool {
    '0' <= c && c <= '9'
}

/// Whether a text is one or more ASCII digits.
pub open spec fn all_digits(s: Seq<char>) -> bool {
    s.len() > 0 && forall|i: int| 0 <= i < s.len() ==> is_digit(#[trigger] s[i])
}

/// The value of a run of decimal digits.
pub open spec fn digits_value(s: Seq<char>) -> int
    decreases s.len(),
{
    if s.len() == 0 {
        0
    } else {
        digits_value(s.drop_last()) * 10 + ((s.last() as u32) as int - 48)
    }
}

/// The integer that a decimal literal with an optional sign denotes.
pub open spec fn int_literal(s: Seq<char>) -> Option<int> {
    if s.len() > 0 && s[0] == '-' && all_digits(s.skip(1)) {
        Some(-digits_value(s.skip(1)))
    } else if s.len() > 0 && s[0] == '+' && all_digits(s.skip(1)) {
        Some(digits_value(s.skip(1)))
    } else if all_digits(s) {
        Some(digits_value(s))
    } else {
        None
    }
}

/// Relies on `<i64 as FromStr>::from_str`: an optional sign, then digits only,
/// in range.
#[verifier::external_body]
pub(crate) fn parse_i64(s: &str) -> (r: Option<i64>)
    ensures
        r == match int_literal(s@) {
            Some(v) => if i64::MIN <= v <= i64::MAX { Some(v as i64) } else { None },
            None => None,
        },
{
    s.parse::<i64>().ok()
}

/// Digits, optionally followed by a dot and digits.
pub open spec fn unsigned_decimal(s: Seq<char>) -> bool {
    all_digits(s) || match first_index(s, '.') {
        Some(i) => all_digits(s.take(i)) && all_digits(s.skip(i + 1)),
        None => false,
    }
}

/// A decimal literal: an optional minus sign, digits, an optional fraction.
pub open spec fn float_literal(s: Seq<char>) -> bool {
    if s.len() > 0 && s[0] == '-' {
        unsigned_decimal(s.skip(1))
    } else {
        unsigned_decimal(s)
    }
}

/// Whether `v[from..to]` is one or more digits.
fn digits_between(v: &Vec<char>, from: usize, to: usize) -> (r: bool)
    requires
        from <= to <= v@.len(),
    ensures
        r == all_digits(v@.subrange(from as int, to as int)),
{
    if from == to {
        return false;
    }
    let mut i: usize = from;
    while i < to
        invariant
            from <= i <= to <= v@.len(),
            forall|j: int| from <= j < i ==> is_digit(#[trigger] v@[j]),
        decreases to - i,
    {
        if !('0' <= v[i] && v[i] <= '9') {
            assert(!is_digit(v@.subrange(from as int, to as int)[i - from]));
            return false;
        }
        i = i + 1;
    }
    assert forall|j: int| 0 <= j < to - from implies is_digit(#[trigger] v@.subrange(from as int, to as int)[j]) by {
        assert(v@.subrange(from as int, to as int)[j] == v@[from + j]);
    }
    true
}

/// Whether the text is a decimal literal of the float converter.
pub fn is_float_literal(s: &str) -> (r: bool)
    ensures
        r == float_literal(s@),
{
    let v = chars_of(s);
    let n = v.len();
    let start: usize = if n > 0 && v[0] == '-' { 1 } else { 0 };
    let rest = text_of(&v, start, n);
    let w = chars_of(rest.as_str());
    assert(w@ =~= s@.skip(start as int));
    assert(s@.skip(0) =~= s@);
    assert(float_literal(s@) == unsigned_decimal(w@));
    let m = w.len();
    if digits_between(&w, 0, m) {
        assert(w@.subrange(0, m as int) =~= w@);
        return true;
    }
    assert(w@.subrange(0, m as int) =~= w@);
    match find_char(&w, '.') {
        Some(i) => {
            assert(w@.subrange(0, i as int) =~= w@.take(i as int));
            assert(w@.subrange(i + 1, m as int) =~= w@.skip(i + 1));
            digits_between(&w, 0, i) && digits_between(&w, i + 1, m)
        },
        None => false,
    }
}

/// The kinds of path parameter.
#[derive(Clone, Copy, Debug, PartialEq, Eq, Structural)]
pub enum PathConverter {
    Str,
    Int,
    Float,
    Path,
    UUID,
    Slug,
}

/// The short name of a converter.
pub open spec fn converter_name(c: PathConverter) -> Seq<char> {
    match c {
        PathConverter::Str => "str"@,
        PathConverter::Int => "int"@,
        PathConverter::Float => "float"@,
        PathConverter::Path => "path"@,
        PathConverter::UUID => "uuid"@,
        PathConverter::Slug => "slug"@,
    }
}

/// The sub-pattern that a converter matches.
pub open spec fn converter_pattern(c: PathConverter) -> Seq<char> {
    match c {
        PathConverter::Str => "[^/]+"@,
        PathConverter::Int => "-?\\d+"@,
        PathConverter::Float => "-?\\d+(\\.\\d+)?"@,
        PathConverter::Path => ".+"@,
        PathConverter::UUID => "[0-9a-f]{8}-[0-9a-f]{4}-[0-9a-f]{4}-[0-9a-f]{4}-[0-9a-f]{12}"@,
        PathConverter::Slug => "[-a-zA-Z0-9_]+"@,
    }
}

/// The converter that a lower-cased name (or alias) selects.
pub open spec fn converter_named(s: Seq<char>) -> Option<PathConverter> {
    if s == "str"@ || s == "string"@ { Some(PathConverter::Str) }
    else if s == "int"@ || s == "integer"@ { Some(PathConverter::Int) }
    else if s == "float"@ { Some(PathConverter::Float) }
    else if s == "path"@ { Some(PathConverter::Path) }
    else if s == "uuid"@ { Some(PathConverter::UUID) }
    else if s == "slug"@ { Some(PathConverter::Slug) }
    else { None }
}

/// The converter that the kind after `:` in a template placeholder selects.
pub open spec fn converter_of_kind(s: Seq<char>) -> Option<PathConverter> {
    if s == "int"@ { Some(PathConverter::Int) }
    else if s == "float"@ { Some(PathConverter::Float) }
    else if s == "path"@ { Some(PathConverter::Path) }
    else if s == "uuid"@ { Some(PathConverter::UUID) }
    else if s == "slug"@ { Some(PathConverter::Slug) }
    else if s == "str"@ || s.len() == 0 { Some(PathConverter::Str) }
    else { None }
}

/// A converted path parameter. A float parameter keeps its literal text.
#[derive(Clone, Debug, PartialEq)]
pub enum ParamValue {
    Str(String),
    Int(i64),
    Float(String),
}

/// Whether a converter accepts the raw text.
pub open spec fn convertible(c: PathConverter, raw: Seq<char>) -> bool {
    match c {
        PathConverter::Int => match int_literal(raw) {
            Some(v) => i64::MIN <= v <= i64::MAX,
            None => false,
        },
        PathConverter::Float => float_literal(raw),
        PathConverter::UUID => uuid_accepts(raw),
        _ => true,
    }
}

/// Whether `v` is what the converter makes of the raw text.
pub open spec fn converts_to(c: PathConverter, raw: Seq<char>, v: ParamValue) -> bool {
    match c {
        PathConverter::Int => match v {
            ParamValue::Int(n) => int_literal(raw) == Some(n as int),
            _ => false,
        },
        PathConverter::Float => match v {
            ParamValue::Float(s) => s@ == raw,
            _ => false,
        },
        _ => match v {
            ParamValue::Str(s) => s@ == raw,
            _ => false,
        },
    }
}

impl PathConverter {
    /// The converter named by `converter_type`, case aside; `string` and
    /// `integer` are aliases.
    pub fn new(converter_type: &str) -> (r: Result<PathConverter, RustletteError>)
        ensures
            match converter_named(lower_of(converter_type@)) {
                Some(c) => r == Ok::<PathConverter, RustletteError>(c),
                None => r is Err && r->Err_0.error_type@ == kind_tag(ErrorKind::Validation),
            },
    {
        let low = lowercase(converter_type);
        let s = low.as_str();
        if same(s, "str") || same(s, "string") { Ok(PathConverter::Str) }
        else if same(s, "int") || same(s, "integer") { Ok(PathConverter::Int) }
        else if same(s, "float") { Ok(PathConverter::Float) }
        else if same(s, "path") { Ok(PathConverter::Path) }
        else if same(s, "uuid") { Ok(PathConverter::UUID) }
        else if same(s, "slug") { Ok(PathConverter::Slug) }
        else {
            let mut msg = String::from_str("Unknown path converter: ");
            msg.append(converter_type);
            Err(RustletteError::validation_error(msg.as_str()))
        }
    }

    /// The converter for the kind written after `:` in a placeholder.
    pub fn from_kind(s: &str) -> (r: Option<PathConverter>)
        ensures
            r == converter_of_kind(s@),
    {
        if same(s, "int") { Some(PathConverter::Int) }
        else if same(s, "float") { Some(PathConverter::Float) }
        else if same(s, "path") { Some(PathConverter::Path) }
        else if same(s, "uuid") { Some(PathConverter::UUID) }
        else if same(s, "slug") { Some(PathConverter::Slug) }
        else if same(s, "str") || s.unicode_len() == 0 { Some(PathConverter::Str) }
        else { None }
    }

    /// The short name of the converter.
    pub fn name(&self) -> (r: &'static str)
        ensures
            r@ == converter_name(*self),
    {
        match self {
            PathConverter::Str => "str",
            PathConverter::Int => "int",
            PathConverter::Float => "float",
            PathConverter::Path => "path",
            PathConverter::UUID => "uuid",
            PathConverter::Slug => "slug",
        }
    }

    /// The sub-pattern the converter matches.
    pub fn pattern(&self) -> (r: &'static str)
        ensures
            r@ == converter_pattern(*self),
    {
        match self {
            PathConverter::Str => "[^/]+",
            PathConverter::Int => "-?\\d+",
            PathConverter::Float => "-?\\d+(\\.\\d+)?",
            PathConverter::Path => ".+",
            PathConverter::UUID => "[0-9a-f]{8}-[0-9a-f]{4}-[0-9a-f]{4}-[0-9a-f]{4}-[0-9a-f]{12}",
            PathConverter::Slug => "[-a-zA-Z0-9_]+",
        }
    }

    /// Converts a matched segment; a text the converter rejects is a validation error.
    pub fn convert(&self, value: &str) -> (r: Result<ParamValue, RustletteError>)
        ensures
            r is Ok <==> convertible(*self, value@),
            r is Ok ==> converts_to(*self, value@, r->Ok_0),
            r is Err ==> r->Err_0.error_type@ == kind_tag(ErrorKind::Validation),
    {
        match self {
            PathConverter::Int => match parse_i64(value) {
                Some(n) => Ok(ParamValue::Int(n)),
                None => {
                    let mut msg = String::from_str("Cannot convert to integer: ");
                    msg.append(value);
                    Err(RustletteError::validation_error(msg.as_str()))
                },
            },
            PathConverter::Float => if is_float_literal(value) {
                Ok(ParamValue::Float(String::from_str(value)))
            } else {
                let mut msg = String::from_str("Cannot convert to float: ");
                msg.append(value);
                Err(RustletteError::validation_error(msg.as_str()))
            },
            PathConverter::UUID => if uuid_parses(value) {
                Ok(ParamValue::Str(String::from_str(value)))
            } else {
                let mut msg = String::from_str("Invalid UUID format: ");
                msg.append(value);
                Err(RustletteError::validation_error(msg.as_str()))
            },
            _ => Ok(ParamValue::Str(String::from_str(value))),
        }
    }
}


/// Characters that a template matches literally but a pattern must escape.
pub open spec fn is_meta(c: char) -> bool {
    c == '.' || c == '+' || c == '?' || c == '^' || c == '$' || c == '(' || c == ')'
        || c == '[' || c == ']' || c == '|' || c == '\\'
}

/// The position in `s` of the `}` that closes a placeholder opened `depth`
/// levels deep; inner braces nest.
pub open spec fn closing_brace(s: Seq<char>, depth: nat) -> Option<int>
    decreases s.len(),
{
    if s.len() == 0 {
        None
    } else if s[0] == '}' && depth <= 1 {
        Some(0)
    } else {
        let d = if s[0] == '{' { depth + 1 } else if s[0] == '}' { (depth - 1) as nat } else { depth };
        match closing_brace(s.skip(1), d) {
            Some(k) => Some(k + 1),
            None => None,
        }
    }
}

/// A closing brace lies inside the text.
pub proof fn lemma_closing_brace_bound(s: Seq<char>, depth: nat)
    ensures
        match closing_brace(s, depth) {
            Some(k) => 0 <= k < s.len(),
            None => true,
        },
    decreases s.len(),
{
    if s.len() > 0 {
        let d = if s[0] == '{' { depth + 1 } else if s[0] == '}' { (depth - 1) as nat } else { depth };
        lemma_closing_brace_bound(s.skip(1), d);
    }
}

/// A first occurrence lies inside the text.
pub proof fn lemma_first_index_bound(s: Seq<char>, c: char)
    ensures
        match first_index(s, c) {
            Some(k) => 0 <= k < s.len() && s[k] == c,
            None => true,
        },
    decreases s.len(),
{
    if s.len() > 0 {
        lemma_first_index_bound(s.drop_last(), c);
    }
}

/// The name and converter that the text inside a placeholder declares.
pub open spec fn placeholder(body: Seq<char>) -> Option<(Seq<char>, PathConverter)> {
    match first_index(body, ':') {
        Some(i) => match converter_of_kind(body.skip(i + 1)) {
            Some(c) => Some((body.take(i), c)),
            None => None,
        },
        None => Some((body, PathConverter::Str)),
    }
}

/// A named group with the given sub-pattern.
pub open spec fn group_text(name: Seq<char>, pattern: Seq<char>) -> Seq<char> {
    "(?P<"@ + name + ">"@ + pattern + ")"@
}

/// The first token of a non-empty template: the pattern text it gives, the
/// parameter it declares, and how many characters it spans; `None` for a
/// malformed token.
pub open spec fn token(s: Seq<char>) -> Option<(Seq<char>, Option<(Seq<char>, PathConverter)>, int)> {
    if s[0] == '{' {
        match closing_brace(s.skip(1), 1) {
            Some(k) => match placeholder(s.subrange(1, k + 1)) {
                Some((n, c)) => Some((group_text(n, converter_pattern(c)), Some((n, c)), k + 2)),
                None => None,
            },
            None => None,
        }
    } else if s[0] == '*' && s.len() > 1 && s[1] == '{' {
        match first_index(s.skip(2), '}') {
            Some(k) => {
                let n = s.subrange(2, k + 2);
                Some((group_text(n, converter_pattern(PathConverter::Path)), Some((n, PathConverter::Path)), k + 3))
            },
            None => None,
        }
    } else if s[0] == '*' {
        Some((".*"@, None, 1))
    } else if is_meta(s[0]) {
        Some((seq!['\\', s[0]], None, 1))
    } else {
        Some((seq![s[0]], None, 1))
    }
}

/// The parameters a token declares, as a list.
pub open spec fn declared(p: Option<(Seq<char>, PathConverter)>) -> Seq<(Seq<char>, PathConverter)> {
    match p {
        Some(x) => seq![x],
        None => Seq::empty(),
    }
}

/// Puts a pattern text and parameters in front of a scan result.
pub open spec fn glue(
    a: Seq<char>,
    pa: Seq<(Seq<char>, PathConverter)>,
    o: Option<(Seq<char>, Seq<(Seq<char>, PathConverter)>)>,
) -> Option<(Seq<char>, Seq<(Seq<char>, PathConverter)>)> {
    match o {
        Some((p, ps)) => Some((a + p, pa + ps)),
        None => None,
    }
}

/// The pattern body and the parameters of a template, token by token;
/// `None` for a malformed template.
pub open spec fn scan(s: Seq<char>) -> Option<(Seq<char>, Seq<(Seq<char>, PathConverter)>)>
    decreases s.len(),
{
    if s.len() == 0 {
        Some((Seq::empty(), Seq::empty()))
    } else {
        match token(s) {
            Some((p, prm, k)) => if 1 <= k <= s.len() {
                glue(p, declared(prm), scan(s.skip(k)))
            } else {
                None
            },
            None => None,
        }
    }
}

/// The whole-text pattern for a body.
pub open spec fn anchored(body: Seq<char>) -> Seq<char> {
    seq!['^'] + body + seq!['$']
}

proof fn lemma_glue(
    a: Seq<char>,
    pa: Seq<(Seq<char>, PathConverter)>,
    b: Seq<char>,
    pb: Seq<(Seq<char>, PathConverter)>,
    o: Option<(Seq<char>, Seq<(Seq<char>, PathConverter)>)>,
)
    ensures
        glue(a, pa, glue(b, pb, o)) == glue(a + b, pa + pb, o),
{
    match o {
        Some((p, ps)) => {
            assert(a + (b + p) =~= (a + b) + p);
            assert(pa + (pb + ps) =~= (pa + pb) + ps);
        },
        None => {},
    }
}

/// A declared path parameter.
#[derive(Clone, Debug)]
pub struct PathParam {
    pub name: String,
    pub converter: PathConverter,
    pub optional: bool,
}

impl PathParam {
    /// A parameter with the given name and converter.
    pub fn new(name: String, converter: PathConverter, optional: bool) -> (r: Self)
        ensures
            r.name@ == name@,
            r.converter == converter,
            r.optional == optional,
    {
        PathParam { name, converter, optional }
    }
}

/// Names and converters of a parameter list.
pub open spec fn params_view(ps: Seq<PathParam>) -> Seq<(Seq<char>, PathConverter)> {
    ps.map_values(|p: PathParam| (p.name@, p.converter))
}

/// The parameter a token declares, as a name and converter.
pub open spec fn param_opt_view(p: Option<PathParam>) -> Option<(Seq<char>, PathConverter)> {
    match p {
        Some(x) => Some((x.name@, x.converter)),
        None => None,
    }
}

/// The characters `v[from..to]`.
fn sub_chars(v: &Vec<char>, from: usize, to: usize) -> (r: Vec<char>)
    requires
        from <= to <= v@.len(),
    ensures
        r@ == v@.subrange(from as int, to as int),
{
    let mut out: Vec<char> = Vec::new();
    let mut i: usize = from;
    while i < to
        invariant
            from <= i <= to <= v@.len(),
            out@ == v@.subrange(from as int, i as int),
        decreases to - i,
    {
        out.push(v[i]);
        i = i + 1;
        assert(out@ =~= v@.subrange(from as int, i as int));
    }
    out
}

/// A named group text.
fn group(name: &str, pattern: &str) -> (r: String)
    ensures
        r@ == group_text(name@, pattern@),
{
    let mut s = String::from_str("(?P<");
    s.append(name);
    s.append(">");
    s.append(pattern);
    s.append(")");
    s
}

/// Reads the placeholder whose text is `body`.
fn read_placeholder(body: &Vec<char>) -> (r: Option<PathParam>)
    ensures
        param_opt_view(r) == placeholder(body@),
        r is Some ==> !r->Some_0.optional,
{
    match find_char(body, ':') {
        Some(i) => {
            proof { lemma_first_index_bound(body@, ':'); }
            let n = body.len();
            let kind = text_of(body, i + 1, n);
            assert(kind@ =~= body@.skip(i + 1));
            match PathConverter::from_kind(kind.as_str()) {
                Some(c) => {
                    let name = text_of(body, 0, i);
                    assert(name@ =~= body@.take(i as int));
                    Some(PathParam::new(name, c, false))
                },
                None => None,
            }
        },
        None => {
            let n = body.len();
            let name = text_of(body, 0, n);
            assert(name@ =~= body@);
            Some(PathParam::new(name, PathConverter::Str, false))
        },
    }
}

/// The message of the error for a malformed template.
pub open spec fn malformed_message(t: Seq<char>) -> Seq<char> {
    "Malformed route template: "@ + t
}

/// A text occurs in any text built around it.
pub proof fn lemma_infix(a: Seq<char>, p: Seq<char>, b: Seq<char>)
    ensures
        has_infix(a + p + b, p),
{
    assert((a + p + b).subrange(a.len() as int, (a.len() + p.len()) as int) =~= p);
}

fn malformed(t: &Vec<char>) -> (r: RustletteError)
    ensures
        r.error_type@ == kind_tag(ErrorKind::Routing),
        r.status_code == Some(404u16),
        r.message@ == malformed_message(t@),
{
    let n = t.len();
    let tt = text_of(t, 0, n);
    let mut msg = String::from_str("Malformed route template: ");
    msg.append(tt.as_str());
    assert(tt@ =~= t@);
    RustletteError::routing_error(msg.as_str())
}

/// Reads the token of the template `t` that starts at `i`.
fn next_token(t: &Vec<char>, i: usize) -> (r: Result<(String, Option<PathParam>, usize), RustletteError>)
    requires
        i < t@.len(),
    ensures
        match token(t@.skip(i as int)) {
            Some((p, prm, k)) => r is Ok && r->Ok_0.0@ == p && param_opt_view(r->Ok_0.1) == prm
                && r->Ok_0.2 == k && (r->Ok_0.1 is Some ==> !r->Ok_0.1->Some_0.optional),
            None => r is Err && r->Err_0.error_type@ == kind_tag(ErrorKind::Routing)
                && r->Err_0.status_code == Some(404u16)
                && r->Err_0.message@ == malformed_message(t@),
        },
{
    let ghost s = t@.skip(i as int);
    let n = t.len();
    let c = t[i];
    assert(s[0] == c);
    if c == '{' {
        let mut j: usize = i + 1;
        let mut depth: usize = 1;
        let mut found: Option<usize> = None;
        assert(s.skip(1) =~= t@.skip(i + 1));
        while j < n
            invariant_except_break
                found is None,
            invariant
                i < j <= n,
                n == t@.len(),
                1 <= depth <= j - i,
                s == t@.skip(i as int),
                closing_brace(s.skip(1), 1) == match closing_brace(t@.skip(j as int), depth as nat) {
                    Some(k) => Some(k + (j - i - 1)),
                    None => None,
                },
            ensures
                found is Some ==> found->Some_0 == j && j < n && t@[j as int] == '}' && depth <= 1,
                found is None ==> j >= n,
            decreases n - j,
        {
            let d = t[j];
            assert(t@.skip(j as int)[0] == d);
            assert(t@.skip(j as int).skip(1) =~= t@.skip(j + 1));
            if d == '}' && depth <= 1 {
                found = Some(j);
                break;
            }
            if d == '{' {
                depth = depth + 1;
            } else if d == '}' {
                depth = depth - 1;
            }
            j = j + 1;
        }
        match found {
            Some(j) => {
                let ghost k = j - i - 1;
                assert(t@.skip(j as int)[0] == '}');
                assert(closing_brace(s.skip(1), 1) == Some(k));
                let body = sub_chars(t, i + 1, j);
                assert(body@ =~= s.subrange(1, k + 1));
                match read_placeholder(&body) {
                    Some(prm) => {
                        let text = group(prm.name.as_str(), prm.converter.pattern());
                        Ok((text, Some(prm), j - i + 1))
                    },
                    None => Err(malformed(t)),
                }
            },
            None => {
                assert(t@.skip(n as int).len() == 0);
                Err(malformed(t))
            },
        }
    } else if c == '*' && i + 1 < n && t[i + 1] == '{' {
        let rest = sub_chars(t, i + 2, n);
        assert(rest@ =~= s.skip(2));
        match find_char(&rest, '}') {
            Some(k) => {
                proof { lemma_first_index_bound(rest@, '}'); }
                let name = text_of(&rest, 0, k);
                assert(name@ =~= s.subrange(2, k + 2));
                let text = group(name.as_str(), PathConverter::Path.pattern());
                Ok((text, Some(PathParam::new(name, PathConverter::Path, false)), k + 3))
            },
            None => Err(malformed(t)),
        }
    } else if c == '*' {
        Ok((String::from_str(".*"), None, 1))
    } else if c == '.' || c == '+' || c == '?' || c == '^' || c == '$' || c == '(' || c == ')'
        || c == '[' || c == ']' || c == '|' || c == '\\' {
        let mut text = String::new();
        crate::text::push_char(&mut text, '\\');
        crate::text::push_char(&mut text, c);
        assert(text@ =~= seq!['\\', c]);
        Ok((text, None, 1))
    } else {
        let mut text = String::new();
        crate::text::push_char(&mut text, c);
        assert(text@ =~= seq![c]);
        Ok((text, None, 1))
    }
}

/// A compiled template: the anchored pattern, the declared parameters in
/// order, and the template itself.
#[derive(Clone, Debug)]
pub struct CompiledRoute {
    pub pattern: String,
    pub params: Vec<PathParam>,
    pub path_template: String,
}

impl CompiledRoute {
    /// Compiles a template of literal text and `{name}` / `{name:kind}`
    /// placeholders (and `*{name}` wildcards) into an anchored pattern.
    /// A malformed template or a pattern the regex engine refuses is a
    /// routing error.
    pub fn compile(path: &str) -> (r: RustletteResult<CompiledRoute>)
        ensures
            match scan(path@) {
                Some((body, ps)) => if regex_compiles(anchored(body)) {
                    r is Ok && r->Ok_0.pattern@ == anchored(body)
                        && params_view(r->Ok_0.params@) == ps
                        && r->Ok_0.path_template@ == path@
                } else {
                    r is Err && r->Err_0.error_type@ == kind_tag(ErrorKind::Routing)
                },
                None => r is Err && r->Err_0.error_type@ == kind_tag(ErrorKind::Routing),
            },
            r is Err ==> r->Err_0.error_type@ == kind_tag(ErrorKind::Routing)
                && r->Err_0.status_code == Some(404u16)
                && has_infix(r->Err_0.message@, path@),
            scan(path@) is None ==> r is Err && r->Err_0.message@ == malformed_message(path@),
            r is Ok ==> forall|i: int| 0 <= i < r->Ok_0.params@.len() ==> !(#[trigger] r->Ok_0.params@[i]).optional,
    {
        let t = chars_of(path);
        let n = t.len();
        let mut body = String::new();
        let mut params: Vec<PathParam> = Vec::new();
        let mut i: usize = 0;
        assert(t@.skip(0) =~= t@);
        while i < n
            invariant
                n == t@.len(),
                t@ == path@,
                i <= n,
                scan(t@) == glue(body@, params_view(params@), scan(t@.skip(i as int))),
                forall|j: int| 0 <= j < params@.len() ==> !(#[trigger] params@[j]).optional,
            decreases n - i,
        {
            let ghost s = t@.skip(i as int);
            match next_token(&t, i) {
                Ok((text, prm, k)) => {
                    let ghost before_body = body@;
                    let ghost before_params = params_view(params@);
                    proof {
                        lemma_closing_brace_bound(s.skip(1), 1);
                        lemma_first_index_bound(s.skip(2), '}');
                        assert(s.skip(k as int) =~= t@.skip(i + k));
                        lemma_glue(before_body, before_params, text@, declared(param_opt_view(prm)),
                            scan(s.skip(k as int)));
                    }
                    body.append(text.as_str());
                    match prm {
                        Some(p) => {
                            params.push(p);
                            assert(params_view(params@) =~= before_params + declared(param_opt_view(Some(p))));
                        },
                        None => {
                            assert(params_view(params@) =~= before_params + declared(param_opt_view(None::<PathParam>)));
                        },
                    }
                    i = i + k;
                },
                Err(e) => {
                    proof { lemma_infix("Malformed route template: "@, path@, Seq::empty()); }
                    assert("Malformed route template: "@ + path@ + Seq::<char>::empty() =~= malformed_message(path@));
                    return Err(e);
                },
            }
        }
        assert(t@.skip(n as int) =~= Seq::<char>::empty());
        assert(body@ + Seq::<char>::empty() =~= body@);
        assert(params_view(params@) + Seq::<(Seq<char>, PathConverter)>::empty() =~= params_view(params@));
        let mut pattern = String::from_str("^");
        pattern.append(body.as_str());
        pattern.append("$");
        proof { reveal_strlit("^"); reveal_strlit("$"); }
        assert(pattern@ =~= anchored(body@));
        match regex_error(pattern.as_str()) {
            None => Ok(CompiledRoute { pattern, params, path_template: String::from_str(path) }),
            Some(e) => {
                let mut msg = String::from_str("Invalid route pattern ");
                msg.append(path);
                msg.append(": ");
                msg.append(e.as_str());
                proof { lemma_infix("Invalid route pattern "@, path@, ": "@ + e@); }
                assert(msg@ =~= "Invalid route pattern "@ + path@ + (": "@ + e@));
                Err(RustletteError::routing_error(msg.as_str()))
            },
        }
    }
}


/// The names of a parameter list.
pub open spec fn param_names(ps: Seq<PathParam>) -> Seq<Seq<char>> {
    ps.map_values(|p: PathParam| p.name@)
}

/// Whether every parameter was captured and its converter accepts the capture.
pub open spec fn captures_convert(ps: Seq<PathParam>, caps: Seq<Option<Seq<char>>>) -> bool {
    caps.len() == ps.len() && forall|i: int| 0 <= i < ps.len() ==>
        (#[trigger] caps[i]) is Some && convertible(ps[i].converter, caps[i]->Some_0)
}

/// Whether `out` holds, in order, each parameter's name with its converted capture.
pub open spec fn extraction(ps: Seq<PathParam>, caps: Seq<Option<Seq<char>>>, out: Seq<(String, ParamValue)>) -> bool {
    out.len() == ps.len() && caps.len() == ps.len() && forall|i: int| 0 <= i < ps.len() ==>
        (#[trigger] out[i]).0@ == ps[i].name@ && caps[i] is Some
            && converts_to(ps[i].converter, caps[i]->Some_0, out[i].1)
}

/// Whether a compiled route matches a path: the pattern matches and every
/// capture converts.
pub open spec fn path_matches(c: CompiledRoute, path: Seq<char>) -> bool {
    match regex_captures(c.pattern@, path, param_names(c.params@)) {
        Some(caps) => captures_convert(c.params@, caps),
        None => false,
    }
}

/// Whether `out` is what matching the path against the compiled route extracts.
pub open spec fn extracted_from(c: CompiledRoute, path: Seq<char>, out: Seq<(String, ParamValue)>) -> bool {
    match regex_captures(c.pattern@, path, param_names(c.params@)) {
        Some(caps) => extraction(c.params@, caps, out),
        None => false,
    }
}

impl CompiledRoute {
    /// The names of the declared parameters.
    pub fn param_names(&self) -> (r: Vec<String>)
        ensures
            texts_view(r@) == param_names(self.params@),
    {
        let mut out: Vec<String> = Vec::new();
        let mut i: usize = 0;
        while i < self.params.len()
            invariant
                i <= self.params@.len(),
                out@.len() == i,
                forall|j: int| 0 <= j < i ==> (#[trigger] out@[j])@ == self.params@[j].name@,
            decreases self.params@.len() - i,
        {
            out.push(self.params[i].name.clone());
            i = i + 1;
        }
        assert(texts_view(out@) =~= param_names(self.params@));
        out
    }

    /// Matches a path: `Some` with each parameter's converted value where the
    /// pattern matches and every capture converts, else `None`.
    pub fn match_path(&self, path: &str) -> (r: Option<Vec<(String, ParamValue)>>)
        ensures
            r is Some <==> path_matches(*self, path@),
            r is Some ==> extracted_from(*self, path@, r->Some_0@),
    {
        let names = self.param_names();
        match captures_of(self.pattern.as_str(), path, &names) {
            None => None,
            Some(caps) => {
                let ghost cv = captures_view(caps@);
                let n = self.params.len();
                assert(cv.len() == caps@.len());
                if caps.len() != n {
                    return None;
                }
                let mut out: Vec<(String, ParamValue)> = Vec::new();
                let mut i: usize = 0;
                while i < n
                    invariant
                        n == self.params@.len(),
                        caps@.len() == n,
                        cv == captures_view(caps@),
                        regex_captures(self.pattern@, path@, param_names(self.params@)) == Some(cv),
                        i <= n,
                        out@.len() == i,
                        forall|j: int| 0 <= j < i ==>
                            (#[trigger] out@[j]).0@ == self.params@[j].name@ && cv[j] is Some
                                && convertible(self.params@[j].converter, cv[j]->Some_0)
                                && converts_to(self.params@[j].converter, cv[j]->Some_0, out@[j].1),
                    decreases n - i,
                {
                    assert(cv[i as int] == match caps@[i as int] { Some(s) => Some(s@), None => None::<Seq<char>> });
                    match &caps[i] {
                        None => {
                            proof {
                                assert(!(cv[i as int] is Some));
                                assert(!captures_convert(self.params@, cv));
                            }
                            return None;
                        },
                        Some(raw) => {
                            match self.params[i].converter.convert(raw.as_str()) {
                                Ok(v) => {
                                    let ghost before = out@;
                                    out.push((self.params[i].name.clone(), v));
                                    assert(cv[i as int] == Some(raw@));
                                    assert(out@[i as int].0@ == self.params@[i as int].name@);
                                    assert forall|j: int| 0 <= j < i implies #[trigger] out@[j] == before[j] by {}
                                },
                                Err(_) => {
                                    proof {
                                        assert(!captures_convert(self.params@, cv));
                                    }
                                    return None;
                                },
                            }
                        },
                    }
                    i = i + 1;
                }
                proof {
                    assert forall|j: int| 0 <= j < n implies (#[trigger] cv[j]) is Some
                        && convertible(self.params@[j].converter, cv[j]->Some_0) by {
                        assert(out@[j].0@ == self.params@[j].name@);
                    }
                    assert(captures_convert(self.params@, cv));
                    assert(extraction(self.params@, cv, out@));
                }
                Some(out)
            },
        }
    }

    /// Whether the pattern matches the path, conversions aside.
    pub fn is_match(&self, path: &str) -> (r: bool)
        ensures
            r == (regex_captures(self.pattern@, path@, Seq::empty()) is Some),
    {
        let names: Vec<String> = Vec::new();
        assert(texts_view(names@) =~= Seq::<Seq<char>>::empty());
        captures_of(self.pattern.as_str(), path, &names).is_some()
    }
}

/// A bare placeholder `{k}`.
pub open spec fn braced(k: Seq<char>) -> Seq<char> {
    seq!['{'] + k + seq!['}']
}

/// A typed placeholder `{k:kind}`.
pub open spec fn typed_braced(k: Seq<char>, c: PathConverter) -> Seq<char> {
    seq!['{'] + k + seq![':'] + converter_name(c) + seq!['}']
}

/// Replaces the typed placeholders of `k` for each declared parameter named `k`.
pub open spec fn subst_typed(u: Seq<char>, k: Seq<char>, v: Seq<char>, ps: Seq<(Seq<char>, PathConverter)>) -> Seq<char>
    decreases ps.len(),
{
    if ps.len() == 0 {
        u
    } else {
        let u2 = subst_typed(u, k, v, ps.drop_last());
        if ps.last().0 == k { replaced(u2, typed_braced(k, ps.last().1), v) } else { u2 }
    }
}

/// The template with each given value put in place of its bare and typed
/// placeholders, one given pair after another.
pub open spec fn url_after(u: Seq<char>, kvs: Seq<(Seq<char>, Seq<char>)>, ps: Seq<(Seq<char>, PathConverter)>) -> Seq<char>
    decreases kvs.len(),
{
    if kvs.len() == 0 {
        u
    } else {
        let u1 = url_after(u, kvs.drop_last(), ps);
        let k = kvs.last().0;
        let v = kvs.last().1;
        subst_typed(replaced(u1, braced(k), v), k, v, ps)
    }
}

/// The views of a list of name/value pairs.
pub open spec fn pairs_view(kvs: Seq<(String, String)>) -> Seq<(Seq<char>, Seq<char>)> {
    kvs.map_values(|kv: (String, String)| (kv.0@, kv.1@))
}

/// The placeholder text `{k}` or `{k:kind}`.
fn placeholder_text(k: &str, c: Option<PathConverter>) -> (r: String)
    ensures
        r@ == match c { Some(c) => typed_braced(k@, c), None => braced(k@) },
        r@.len() > 0,
{
    let mut s = String::new();
    crate::text::push_char(&mut s, '{');
    s.append(k);
    match c {
        Some(c) => {
            crate::text::push_char(&mut s, ':');
            s.append(c.name());
        },
        None => {},
    }
    crate::text::push_char(&mut s, '}');
    match c {
        Some(c) => assert(s@ =~= typed_braced(k@, c)),
        None => assert(s@ =~= braced(k@)),
    }
    s
}

/// Puts `v` in place of every typed placeholder of `k`.
fn fill_typed(u: String, k: &str, v: &str, ps: &Vec<PathParam>) -> (r: String)
    ensures
        r@ == subst_typed(u@, k@, v@, params_view(ps@)),
{
    let mut cur = u;
    let mut i: usize = 0;
    while i < ps.len()
        invariant
            i <= ps@.len(),
            cur@ == subst_typed(u@, k@, v@, params_view(ps@).take(i as int)),
        decreases ps@.len() - i,
    {
        let ghost pv = params_view(ps@);
        assert(pv.take(i as int + 1).drop_last() =~= pv.take(i as int));
        assert(pv.take(i as int + 1).last() == (ps@[i as int].name@, ps@[i as int].converter));
        if same(ps[i].name.as_str(), k) {
            let pat = placeholder_text(k, Some(ps[i].converter));
            cur = replace_text(cur.as_str(), pat.as_str(), v);
        }
        i = i + 1;
    }
    assert(params_view(ps@).take(ps@.len() as int) =~= params_view(ps@));
    cur
}

/// A route: a template with its compiled form, allowed methods, an optional
/// unique name, a handler reference and a schema flag.
#[derive(Clone, Debug)]
pub struct Route {
    pub path: String,
    pub methods: Vec<HTTPMethod>,
    pub name: Option<String>,
    pub include_in_schema: bool,
    pub compiled: CompiledRoute,
    pub handler: Option<u64>,
}

/// Whether each text names a method, case aside.
pub open spec fn all_methods_parse(ms: Seq<String>) -> bool {
    forall|i: int| 0 <= i < ms.len() ==> (#[trigger] parsed_method(ms[i]@)) is Some
}

/// Whether a template compiles.
pub open spec fn template_compiles(t: Seq<char>) -> bool {
    scan(t) is Some && regex_compiles(anchored(scan(t)->Some_0.0))
}

/// Whether a route allows the method and its template matches the path.
pub open spec fn route_matches(r: Route, path: Seq<char>, m: HTTPMethod) -> bool {
    r.methods@.contains(m) && path_matches(r.compiled, path)
}

/// Reads each method name, case aside; the first unknown one is a request error.
fn parse_methods(strs: &Vec<String>) -> (r: RustletteResult<Vec<HTTPMethod>>)
    ensures
        r is Ok <==> all_methods_parse(strs@),
        r is Ok ==> r->Ok_0@.len() == strs@.len() && forall|i: int| 0 <= i < strs@.len() ==>
            Some(#[trigger] r->Ok_0@[i]) == parsed_method(strs@[i]@),
        r is Err ==> r->Err_0.error_type@ == kind_tag(ErrorKind::Request),
{
    let mut out: Vec<HTTPMethod> = Vec::new();
    let mut i: usize = 0;
    while i < strs.len()
        invariant
            i <= strs@.len(),
            out@.len() == i,
            forall|j: int| 0 <= j < i ==> Some(#[trigger] out@[j]) == parsed_method(strs@[j]@),
        decreases strs@.len() - i,
    {
        match HTTPMethod::parse(strs[i].as_str()) {
            Ok(m) => out.push(m),
            Err(e) => {
                assert(!(parsed_method(strs@[i as int]@) is Some));
                return Err(e);
            },
        }
        i = i + 1;
    }
    assert forall|j: int| 0 <= j < strs@.len() implies (#[trigger] parsed_method(strs@[j]@)) is Some by {
        assert(Some(out@[j]) == parsed_method(strs@[j]@));
    }
    Ok(out)
}

impl Route {
    /// A route over `path`; methods default to GET, the schema flag to true.
    /// An unknown method is a request error, a bad template a routing error.
    pub fn new(
        path: String,
        handler: Option<u64>,
        methods: Option<Vec<String>>,
        name: Option<String>,
        include_in_schema: Option<bool>,
    ) -> (r: RustletteResult<Route>)
        ensures
            r is Ok <==> (match methods { Some(ms) => all_methods_parse(ms@), None => true })
                && template_compiles(path@),
            r is Ok ==> ({
                let rt = r->Ok_0;
                &&& rt.path@ == path@
                &&& rt.compiled.path_template@ == path@
                &&& rt.compiled.pattern@ == anchored(scan(path@)->Some_0.0)
                &&& params_view(rt.compiled.params@) == scan(path@)->Some_0.1
                &&& rt.name == name
                &&& rt.handler == handler
                &&& rt.include_in_schema == match include_in_schema { Some(b) => b, None => true }
                &&& match methods {
                    Some(ms) => rt.methods@.len() == ms@.len() && forall|i: int| 0 <= i < ms@.len() ==>
                        Some(#[trigger] rt.methods@[i]) == parsed_method(ms@[i]@),
                    None => rt.methods@ == seq![HTTPMethod::GET],
                }
            }),
            match methods {
                Some(ms) => !all_methods_parse(ms@) ==> r is Err && r->Err_0.error_type@ == kind_tag(ErrorKind::Request),
                None => true,
            },
    {
        let ms = match &methods {
            Some(strs) => match parse_methods(strs) {
                Ok(v) => v,
                Err(e) => return Err(e),
            },
            None => {
                let mut out: Vec<HTTPMethod> = Vec::new();
                out.push(HTTPMethod::GET);
                out
            },
        };
        let compiled = match CompiledRoute::compile(path.as_str()) {
            Ok(c) => c,
            Err(e) => return Err(e),
        };
        let include_in_schema = match include_in_schema {
            Some(b) => b,
            None => true,
        };
        Ok(Route { path, methods: ms, name, include_in_schema, compiled, handler })
    }

    /// Whether the route allows the method.
    pub fn matches_method(&self, method: HTTPMethod) -> (r: bool)
        ensures
            r == self.methods@.contains(method),
    {
        let mut i: usize = 0;
        while i < self.methods.len()
            invariant
                i <= self.methods@.len(),
                forall|j: int| 0 <= j < i ==> self.methods@[j] != method,
            decreases self.methods@.len() - i,
        {
            if self.methods[i] == method {
                return true;
            }
            i = i + 1;
        }
        false
    }

    /// Matches the route against a path and method.
    pub fn match_request(&self, path: &str, method: HTTPMethod) -> (r: Option<Vec<(String, ParamValue)>>)
        ensures
            r is Some <==> route_matches(*self, path@, method),
            r is Some ==> extracted_from(self.compiled, path@, r->Some_0@),
    {
        if self.matches_method(method) {
            self.compiled.match_path(path)
        } else {
            None
        }
    }

    /// The template of the route.
    pub fn path_template(&self) -> (r: String)
        ensures
            r@ == self.compiled.path_template@,
    {
        self.compiled.path_template.clone()
    }

    /// The route's template with each given value put in place of its
    /// `{name}` and `{name:kind}` placeholders.
    pub fn url_for(&self, params: &Vec<(String, String)>) -> (r: String)
        ensures
            r@ == url_after(self.path@, pairs_view(params@), params_view(self.compiled.params@)),
    {
        let mut url = self.path.clone();
        let mut i: usize = 0;
        while i < params.len()
            invariant
                i <= params@.len(),
                url@ == url_after(self.path@, pairs_view(params@).take(i as int), params_view(self.compiled.params@)),
            decreases params@.len() - i,
        {
            let ghost kv = pairs_view(params@);
            assert(kv.take(i as int + 1).drop_last() =~= kv.take(i as int));
            assert(kv.take(i as int + 1).last() == (params@[i as int].0@, params@[i as int].1@));
            let k = params[i].0.as_str();
            let v = params[i].1.as_str();
            let pat = placeholder_text(k, None);
            let u1 = replace_text(url.as_str(), pat.as_str(), v);
            url = fill_typed(u1, k, v, &self.compiled.params);
            i = i + 1;
        }
        assert(pairs_view(params@).take(params@.len() as int) =~= pairs_view(params@));
        url
    }
}


/// Whether some route carries the name `n`.
pub open spec fn name_taken(routes: Seq<Route>, n: Seq<char>) -> bool {
    exists|i: int| 0 <= i < routes.len() && (#[trigger] routes[i]).name is Some && routes[i].name->Some_0@ == n
}

/// Whether no two routes carry the same name.
pub open spec fn names_unique(routes: Seq<Route>) -> bool {
    forall|i: int, j: int| 0 <= i < j < routes.len() && (#[trigger] routes[i]).name is Some
        && (#[trigger] routes[j]).name is Some ==> routes[i].name->Some_0@ != routes[j].name->Some_0@
}

/// The name index: each name to the position of the route that carries it.
pub open spec fn name_index(routes: Seq<Route>) -> Map<Seq<char>, int> {
    Map::new(
        |n: Seq<char>| name_taken(routes, n),
        |n: Seq<char>| choose|i: int| 0 <= i < routes.len() && (#[trigger] routes[i]).name is Some
            && routes[i].name->Some_0@ == n,
    )
}

/// Whether adding `route` is refused: its name is already taken.
pub open spec fn add_refused(routes: Seq<Route>, route: Route) -> bool {
    route.name is Some && name_taken(routes, route.name->Some_0@)
}

/// The route at `i` is the first that matches the path and method.
pub open spec fn first_match(routes: Seq<Route>, path: Seq<char>, m: HTTPMethod, i: int) -> bool {
    0 <= i < routes.len() && route_matches(routes[i], path, m)
        && forall|j: int| 0 <= j < i ==> !route_matches(#[trigger] routes[j], path, m)
}

/// A matched route, by position, with the values extracted from the path.
#[derive(Clone, Debug)]
pub struct RouteMatch {
    pub index: usize,
    pub path_params: Vec<(String, ParamValue)>,
}

/// Routes in insertion order, which is also the order in which they are tried.
#[derive(Clone, Debug)]
pub struct Router {
    pub routes: Vec<Route>,
}

/// Once a route named `n` is registered, registering another route named `n`
/// is refused; and taking out the route named `n` takes `n` out of the name
/// index and the route out of the list.
pub proof fn lemma_unique_names(routes: Seq<Route>, route: Route, other: Route, i: int)
    requires
        names_unique(routes),
        0 <= i < routes.len(),
    ensures
        route.name is Some && other.name is Some && route.name->Some_0@ == other.name->Some_0@
            && !add_refused(routes, route) ==> add_refused(routes.push(route), other),
        routes[i].name is Some ==> !name_index(routes.remove(i)).contains_key(routes[i].name->Some_0@)
            && name_index(routes).contains_key(routes[i].name->Some_0@),
        routes.remove(i).len() == routes.len() - 1,
{
    if route.name is Some && other.name is Some && route.name->Some_0@ == other.name->Some_0@ {
        let p = routes.push(route);
        assert(p[routes.len() as int] == route);
        assert(name_taken(p, other.name->Some_0@));
    }
    if routes[i].name is Some {
        let n = routes[i].name->Some_0@;
        let r = routes.remove(i);
        assert(name_taken(routes, n));
        if name_taken(r, n) {
            let j = choose|j: int| 0 <= j < r.len() && (#[trigger] r[j]).name is Some && r[j].name->Some_0@ == n;
            if j < i {
                assert(r[j] == routes[j]);
            } else {
                assert(r[j] == routes[j + 1]);
            }
        }
    }
}

/// One step of collecting positions in increasing order.
proof fn lemma_index_list_step(before: Seq<usize>, after: Seq<usize>, i: usize, took: bool)
    requires
        forall|k: int| 0 <= k < before.len() ==> before[k] < i,
        after == if took { before.push(i) } else { before },
    ensures
        forall|k: int| 0 <= k < after.len() ==> after[k] <= i,
        forall|j: int| 0 <= j < i ==> (#[trigger] after.contains(j as usize) <==> before.contains(j as usize)),
        after.contains(i) == took,
{
    assert forall|j: int| 0 <= j < i implies (#[trigger] after.contains(j as usize) <==> before.contains(j as usize)) by {
        if after.contains(j as usize) {
            let k = choose|k: int| 0 <= k < after.len() && after[k] == j as usize;
            if k < before.len() {
                assert(before[k] == j as usize);
            }
        }
        if before.contains(j as usize) {
            let k = choose|k: int| 0 <= k < before.len() && before[k] == j as usize;
            assert(after[k] == j as usize);
        }
    }
    if took {
        assert(after[after.len() - 1] == i);
    } else if after.contains(i) {
        let k = choose|k: int| 0 <= k < after.len() && after[k] == i;
        assert(before[k] < i);
    }
}

impl Router {
    /// No two routes share a name.
    pub open spec fn wf(&self) -> bool {
        names_unique(self.routes@)
    }

    /// A router without routes.
    pub fn new() -> (r: Self)
        ensures
            r.wf(),
            r.routes@.len() == 0,
    {
        Router { routes: Vec::new() }
    }

    /// The position of the route named `name`.
    pub fn get_route(&self, name: &str) -> (r: Option<usize>)
        requires
            self.wf(),
        ensures
            r is Some <==> name_taken(self.routes@, name@),
            r is Some ==> r->Some_0 < self.routes@.len()
                && self.routes@[r->Some_0 as int].name is Some
                && self.routes@[r->Some_0 as int].name->Some_0@ == name@
                && name_index(self.routes@)[name@] == r->Some_0 as int,
    {
        let mut i: usize = 0;
        while i < self.routes.len()
            invariant
                self.wf(),
                i <= self.routes@.len(),
                forall|j: int| 0 <= j < i ==> !((#[trigger] self.routes@[j]).name is Some
                    && self.routes@[j].name->Some_0@ == name@),
            decreases self.routes@.len() - i,
        {
            match &self.routes[i].name {
                Some(n) => {
                    if same(n.as_str(), name) {
                        proof {
                            assert(name_taken(self.routes@, name@));
                            let c = name_index(self.routes@)[name@];
                            assert(self.routes@[c].name is Some && self.routes@[c].name->Some_0@ == name@);
                            if c != i as int {
                                if c < i as int {
                                    assert(self.routes@[c].name->Some_0@ != self.routes@[i as int].name->Some_0@);
                                } else {
                                    assert(self.routes@[i as int].name->Some_0@ != self.routes@[c].name->Some_0@);
                                }
                            }
                        }
                        return Some(i);
                    }
                },
                None => {},
            }
            i = i + 1;
        }
        None
    }

    /// Appends a route; a name that is already registered is refused and the
    /// router left as it was.
    pub fn add_route(&mut self, route: Route) -> (r: RustletteResult<()>)
        requires
            old(self).wf(),
        ensures
            final(self).wf(),
            r is Err <==> add_refused(old(self).routes@, route),
            r is Err ==> final(self).routes@ == old(self).routes@
                && r->Err_0.error_type@ == kind_tag(ErrorKind::Routing),
            r is Ok ==> final(self).routes@ == old(self).routes@.push(route),
    {
        match &route.name {
            Some(n) => {
                if self.get_route(n.as_str()).is_some() {
                    let mut msg = String::from_str("Route name already exists: ");
                    msg.append(n.as_str());
                    return Err(RustletteError::routing_error(msg.as_str()));
                }
            },
            None => {},
        }
        let ghost before = self.routes@;
        self.routes.push(route);
        proof {
            assert forall|i: int, j: int| 0 <= i < j < self.routes@.len()
                && (#[trigger] self.routes@[i]).name is Some && (#[trigger] self.routes@[j]).name is Some
                implies self.routes@[i].name->Some_0@ != self.routes@[j].name->Some_0@ by {
                if j == before.len() {
                    assert(self.routes@[i] == before[i]);
                }
            }
        }
        Ok(())
    }

    /// Takes out the route at `index`; an index past the end is refused.
    pub fn remove_route(&mut self, index: usize) -> (r: RustletteResult<()>)
        requires
            old(self).wf(),
        ensures
            final(self).wf(),
            r is Ok <==> index < old(self).routes@.len(),
            r is Ok ==> final(self).routes@ == old(self).routes@.remove(index as int),
            r is Err ==> final(self).routes@ == old(self).routes@
                && r->Err_0.error_type@ == kind_tag(ErrorKind::Routing),
    {
        if index >= self.routes.len() {
            return Err(RustletteError::routing_error("Route index out of range"));
        }
        let ghost before = self.routes@;
        let _ = self.routes.remove(index);
        proof {
            assert forall|i: int, j: int| 0 <= i < j < self.routes@.len()
                && (#[trigger] self.routes@[i]).name is Some && (#[trigger] self.routes@[j]).name is Some
                implies self.routes@[i].name->Some_0@ != self.routes@[j].name->Some_0@ by {
                let i2 = if i < index { i } else { i + 1 };
                let j2 = if j < index { j } else { j + 1 };
                assert(self.routes@[i] == before[i2]);
                assert(self.routes@[j] == before[j2]);
            }
        }
        Ok(())
    }

    /// The first route, in insertion order, that allows the method and whose
    /// template matches the path, with the values it extracts.
    pub fn match_method(&self, path: &str, m: HTTPMethod) -> (r: Option<RouteMatch>)
        ensures
            match r {
                Some(rm) => first_match(self.routes@, path@, m, rm.index as int)
                    && extracted_from(self.routes@[rm.index as int].compiled, path@, rm.path_params@),
                None => forall|j: int| 0 <= j < self.routes@.len() ==> !route_matches(#[trigger] self.routes@[j], path@, m),
            },
    {
        let mut i: usize = 0;
        while i < self.routes.len()
            invariant
                i <= self.routes@.len(),
                forall|j: int| 0 <= j < i ==> !route_matches(#[trigger] self.routes@[j], path@, m),
            decreases self.routes@.len() - i,
        {
            match self.routes[i].match_request(path, m) {
                Some(params) => {
                    return Some(RouteMatch { index: i, path_params: params });
                },
                None => {},
            }
            i = i + 1;
        }
        None
    }

    /// As `match_method`, with the method given by name, case aside; an
    /// unknown method matches nothing.
    pub fn match_request(&self, path: &str, method: &str) -> (r: Option<RouteMatch>)
        ensures
            match parsed_method(method@) {
                None => r is None,
                Some(m) => match r {
                    Some(rm) => first_match(self.routes@, path@, m, rm.index as int)
                        && extracted_from(self.routes@[rm.index as int].compiled, path@, rm.path_params@),
                    None => forall|j: int| 0 <= j < self.routes@.len() ==> !route_matches(#[trigger] self.routes@[j], path@, m),
                },
            },
    {
        match HTTPMethod::parse(method) {
            Ok(m) => self.match_method(path, m),
            Err(_) => None,
        }
    }

    /// The number of routes.
    pub fn route_count(&self) -> (r: usize)
        ensures
            r == self.routes@.len(),
    {
        self.routes.len()
    }

    /// The number of routes.
    pub fn len(&self) -> (r: usize)
        ensures
            r == self.routes@.len(),
    {
        self.routes.len()
    }

    /// Whether there is no route.
    pub fn is_empty(&self) -> (r: bool)
        ensures
            r == (self.routes@.len() == 0),
    {
        self.routes.len() == 0
    }

    /// The URL of the route named `name`, with the given values in place of
    /// its placeholders; an unknown name is a routing error.
    pub fn url_for(&self, name: &str, params: &Vec<(String, String)>) -> (r: RustletteResult<String>)
        requires
            self.wf(),
        ensures
            r is Ok <==> name_taken(self.routes@, name@),
            r is Ok ==> ({
                let rt = self.routes@[name_index(self.routes@)[name@]];
                r->Ok_0@ == url_after(rt.path@, pairs_view(params@), params_view(rt.compiled.params@))
            }),
            r is Err ==> r->Err_0.error_type@ == kind_tag(ErrorKind::Routing),
    {
        match self.get_route(name) {
            Some(i) => Ok(self.routes[i].url_for(params)),
            None => {
                let mut msg = String::from_str("No route named: ");
                msg.append(name);
                Err(RustletteError::routing_error(msg.as_str()))
            },
        }
    }

    /// The positions of the routes whose pattern matches the path.
    pub fn routes_for_path(&self, path: &str) -> (r: Vec<usize>)
        ensures
            forall|k: int| 0 <= k < r@.len() ==> r@[k] < self.routes@.len(),
            forall|j: int| 0 <= j < self.routes@.len() ==>
                (regex_captures(self.routes@[j].compiled.pattern@, path@, Seq::empty()) is Some
                    <==> r@.contains(j as usize)),
    {
        let mut out: Vec<usize> = Vec::new();
        let mut i: usize = 0;
        while i < self.routes.len()
            invariant
                i <= self.routes@.len(),
                forall|k: int| 0 <= k < out@.len() ==> out@[k] < i,
                forall|j: int| 0 <= j < i ==>
                    (regex_captures(self.routes@[j].compiled.pattern@, path@, Seq::empty()) is Some
                        <==> out@.contains(j as usize)),
            decreases self.routes@.len() - i,
        {
            let ghost before = out@;
            let took = self.routes[i].compiled.is_match(path);
            if took {
                out.push(i);
            }
            proof { lemma_index_list_step(before, out@, i, took); }
            i = i + 1;
        }
        out
    }

    /// The positions of the routes that allow the method.
    pub fn routes_for_method(&self, method: HTTPMethod) -> (r: Vec<usize>)
        ensures
            forall|k: int| 0 <= k < r@.len() ==> r@[k] < self.routes@.len(),
            forall|j: int| 0 <= j < self.routes@.len() ==>
                (self.routes@[j].methods@.contains(method) <==> r@.contains(j as usize)),
    {
        let mut out: Vec<usize> = Vec::new();
        let mut i: usize = 0;
        while i < self.routes.len()
            invariant
                i <= self.routes@.len(),
                forall|k: int| 0 <= k < out@.len() ==> out@[k] < i,
                forall|j: int| 0 <= j < i ==>
                    (self.routes@[j].methods@.contains(method) <==> out@.contains(j as usize)),
            decreases self.routes@.len() - i,
        {
            let ghost before = out@;
            let took = self.routes[i].matches_method(method);
            if took {
                out.push(i);
            }
            proof { lemma_index_list_step(before, out@, i, took); }
            i = i + 1;
        }
        out
    }
}


proof fn lemma_digit_value(d: nat)
    requires
        d < 10,
    ensures
        (crate::text::digit_char(d) as u32) as int - 48 == d,
        is_digit(crate::text::digit_char(d)),
{
}

proof fn lemma_decimal_digits(n: nat)
    ensures
        all_digits(crate::text::decimal_text(n)),
        digits_value(crate::text::decimal_text(n)) == n,
    decreases n,
{
    let t = crate::text::decimal_text(n);
    lemma_digit_value(n % 10);
    if n < 10 {
        assert(t.drop_last() =~= Seq::<char>::empty());
        assert(t.last() == crate::text::digit_char(n));
        assert(digits_value(t.drop_last()) == 0);
        assert(digits_value(t) == digits_value(t.drop_last()) * 10 + ((t.last() as u32) as int - 48));
        assert(n % 10 == n);
    }
    if n >= 10 {
        lemma_decimal_digits(n / 10);
        assert(t.last() == crate::text::digit_char(n % 10));
        let p = crate::text::decimal_text(n / 10);
        assert(t.drop_last() =~= p);
        assert forall|i: int| 0 <= i < t.len() implies is_digit(#[trigger] t[i]) by {
            if i < p.len() {
                assert(t[i] == p[i]);
            }
        }
        assert(digits_value(t) == digits_value(p) * 10 + (n % 10));
        assert((n / 10) * 10 + n % 10 == n);
    }
}

/// Each converter reads back the value whose text a URL carries: the
/// decimal text of any `i64` converts to that integer, and any text converts
/// to itself under the text, path and slug converters.
pub proof fn lemma_converter_round_trip(n: i64, s: Seq<char>)
    ensures
        convertible(PathConverter::Int, crate::response::signed_text(n as int)),
        int_literal(crate::response::signed_text(n as int)) == Some(n as int),
        convertible(PathConverter::Str, s) && convertible(PathConverter::Path, s) && convertible(PathConverter::Slug, s),
{
    let t = crate::response::signed_text(n as int);
    if n < 0 {
        let d = crate::text::decimal_text((-n) as nat);
        lemma_decimal_digits((-n) as nat);
        assert(t =~= seq!['-'] + d);
        assert(t.skip(1) =~= d);
        assert(t[0] == '-');
    } else {
        let d = crate::text::decimal_text(n as nat);
        lemma_decimal_digits(n as nat);
        assert(t == d);
        assert(d[0] != '-' && d[0] != '+');
    }
}

} // verus!
