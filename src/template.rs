//! Path templates and their translation into regular expressions.
//!
//! A template is split on `/` into segments. A segment `{name}` or `:name`
//! is a parameter: it becomes the group `([^/]+)` and contributes `name` to
//! the parameter list. Everything between two parameters is a literal run,
//! escaped with `regex::escape` before it enters the pattern. An exact
//! pattern is anchored at both ends, a prefix pattern at its start only.

use vstd::prelude::*;
use crate::error::RouteError;
use crate::matcher::{escape, regex_escaped, Matcher};

verus! {

broadcast use vstd::string::group_string_axioms;

/// The group a parameter segment compiles to: one or more characters other than `/`.
pub open spec fn param_group() -> Seq<char> {
    seq!['(', '[', '^', '/', ']', '+', ')']
}

pub open spec fn has_brace(s: Seq<char>) -> bool {
    exists|i: int| 0 <= i < s.len() && (s[i] == '{' || s[i] == '}')
}

/// `{name}` with a non-empty name free of braces.
pub open spec fn is_braced(s: Seq<char>) -> bool {
    &&& s.len() >= 3
    &&& s[0] == '{'
    &&& s[s.len() - 1] == '}'
    &&& !has_brace(s.subrange(1, s.len() - 1))
}

/// The parameter name a segment declares, if it is a parameter segment.
pub open spec fn segment_param(s: Seq<char>) -> Option<Seq<char>> {
    if is_braced(s) {
        Some(s.subrange(1, s.len() - 1))
    } else if !has_brace(s) && s.len() >= 2 && s[0] == ':' {
        Some(s.drop_first())
    } else {
        None
    }
}

/// A segment that tries the parameter syntax and gets it wrong.
pub open spec fn segment_malformed(s: Seq<char>) -> bool {
    segment_param(s) is None && (has_brace(s) || s == seq![':'])
}

/// The pattern text for the part of `t` from `pos` on, where the current
/// segment began at `seg` and the pending literal run at `run`.
pub open spec fn body_from(t: Seq<char>, run: int, seg: int, pos: int) -> Seq<char>
    decreases t.len() - pos,
{
    if pos >= t.len() {
        match segment_param(t.subrange(seg, t.len() as int)) {
            Some(_) => regex_escaped(t.subrange(run, seg)) + param_group() + regex_escaped(seq![]),
            None => regex_escaped(t.subrange(run, t.len() as int)),
        }
    } else if t[pos] == '/' {
        match segment_param(t.subrange(seg, pos)) {
            Some(_) => regex_escaped(t.subrange(run, seg)) + param_group() + body_from(
                t,
                pos,
                pos + 1,
                pos + 1,
            ),
            None => body_from(t, run, pos + 1, pos + 1),
        }
    } else {
        body_from(t, run, seg, pos + 1)
    }
}

/// The parameter names of the segments of `t` from the one that began at `seg` on.
pub open spec fn names_from(t: Seq<char>, seg: int, pos: int) -> Seq<Seq<char>>
    decreases t.len() - pos,
{
    if pos >= t.len() {
        match segment_param(t.subrange(seg, t.len() as int)) {
            Some(name) => seq![name],
            None => seq![],
        }
    } else if t[pos] == '/' {
        match segment_param(t.subrange(seg, pos)) {
            Some(name) => seq![name] + names_from(t, pos + 1, pos + 1),
            None => names_from(t, pos + 1, pos + 1),
        }
    } else {
        names_from(t, seg, pos + 1)
    }
}

/// Whether a segment of `t` from the one that began at `seg` on is malformed.
pub open spec fn malformed_from(t: Seq<char>, seg: int, pos: int) -> bool
    decreases t.len() - pos,
{
    if pos >= t.len() {
        segment_malformed(t.subrange(seg, t.len() as int))
    } else if t[pos] == '/' {
        segment_malformed(t.subrange(seg, pos)) || malformed_from(t, pos + 1, pos + 1)
    } else {
        malformed_from(t, seg, pos + 1)
    }
}

/// The unanchored pattern text of a template.
pub open spec fn template_body(t: Seq<char>) -> Seq<char> {
    body_from(t, 0, 0, 0)
}

/// The parameter names of a template, left to right.
pub open spec fn template_params(t: Seq<char>) -> Seq<Seq<char>> {
    names_from(t, 0, 0)
}

pub open spec fn template_malformed(t: Seq<char>) -> bool {
    malformed_from(t, 0, 0)
}

/// The pattern text of a template: anchored at both ends, or at the start only.
pub open spec fn pattern_source(t: Seq<char>, prefix: bool) -> Seq<char> {
    if prefix {
        seq!['^'] + template_body(t)
    } else {
        seq!['^'] + template_body(t) + seq!['$']
    }
}

pub open spec fn strings_view(v: Seq<String>) -> Seq<Seq<char>> {
    v.map_values(|s: String| s@)
}

/// The characters of a string, one by one.
fn chars_of(s: &str) -> (r: Vec<char>)
    ensures
        r@ == s@,
{
    let n = s.unicode_len();
    let mut r: Vec<char> = Vec::new();
    let mut i: usize = 0;
    while i < n
        invariant
            n == s@.len(),
            i <= n,
            r@ == s@.subrange(0, i as int),
        decreases n - i,
    {
        r.push(s.get_char(i));
        i += 1;
    }
    assert(r@ =~= s@);
    r
}

/// Whether `chars[a..b]` holds no brace.
fn brace_free(chars: &Vec<char>, a: usize, b: usize) -> (r: bool)
    requires
        a <= b <= chars@.len(),
    ensures
        r == !has_brace(chars@.subrange(a as int, b as int)),
{
    let mut i: usize = a;
    while i < b
        invariant
            a <= i <= b <= chars@.len(),
            forall|k: int| a <= k < i ==> chars@[k] != '{' && chars@[k] != '}',
        decreases b - i,
    {
        if chars[i] == '{' || chars[i] == '}' {
            assert(chars@.subrange(a as int, b as int)[i - a] == chars@[i as int]);
            return false;
        }
        i += 1;
    }
    let ghost s = chars@.subrange(a as int, b as int);
    assert forall|k: int| 0 <= k < s.len() implies !(s[k] == '{' || s[k] == '}') by {
        assert(s[k] == chars@[a + k]);
    }
    true
}

enum SegmentKind {
    Literal,
    Param { start: usize, end: usize },
    Malformed,
}

/// Classifies the segment `chars[a..b]`.
fn classify(chars: &Vec<char>, a: usize, b: usize) -> (r: SegmentKind)
    requires
        a <= b <= chars@.len(),
    ensures
        ({
            let s = chars@.subrange(a as int, b as int);
            match r {
                SegmentKind::Literal => segment_param(s) is None && !segment_malformed(s),
                SegmentKind::Param { start, end } => a <= start <= end <= b && segment_param(s)
                    == Some(chars@.subrange(start as int, end as int)),
                SegmentKind::Malformed => segment_malformed(s),
            }
        }),
{
    let ghost s = chars@.subrange(a as int, b as int);
    let len = b - a;
    if len >= 3 && chars[a] == '{' && chars[b - 1] == '}' && brace_free(chars, a + 1, b - 1) {
        assert(s.subrange(1, s.len() - 1) =~= chars@.subrange(a + 1, b - 1));
        return SegmentKind::Param { start: a + 1, end: b - 1 };
    }
    assert(!is_braced(s)) by {
        if is_braced(s) {
            assert(s.subrange(1, s.len() - 1) =~= chars@.subrange(a + 1, b - 1));
        }
    }
    if !brace_free(chars, a, b) {
        return SegmentKind::Malformed;
    }
    if len >= 1 && chars[a] == ':' {
        if len >= 2 {
            assert(s.drop_first() =~= chars@.subrange(a + 1, b as int));
            return SegmentKind::Param { start: a + 1, end: b };
        }
        assert(s =~= seq![':']);
        return SegmentKind::Malformed;
    }
    assert(s != seq![':']) by {
        if s == seq![':'] {
            assert(s[0] == ':');
        }
    }
    SegmentKind::Literal
}

/// Appends the escaped literal run `t[run..seg]` and a parameter group to `body`.
fn push_param(body: &mut String, template: &str, run: usize, seg: usize)
    requires
        run <= seg <= template@.len(),
    ensures
        final(body)@ == old(body)@ + regex_escaped(template@.subrange(run as int, seg as int))
            + param_group(),
{
    let lit = escape(template.substring_char(run, seg));
    body.append(lit.as_str());
    let group = "([^/]+)";
    proof {
        reveal_strlit("([^/]+)");
        assert(group@ =~= param_group());
    }
    body.append(group);
}

/// The unanchored pattern text of a template and its parameter names, or
/// the failure of a malformed template.
pub fn compile_body(template: &str) -> (r: Result<(String, Vec<String>), RouteError>)
    ensures
        r is Err <==> template_malformed(template@),
        r is Err ==> r->Err_0 == RouteError::MalformedParameter,
        r is Ok ==> r->Ok_0.0@ == template_body(template@) && strings_view(r->Ok_0.1@)
            == template_params(template@),
{
    let ghost t = template@;
    let chars = chars_of(template);
    let n = chars.len();
    let mut body = String::new();
    let mut names: Vec<String> = Vec::new();
    let mut run: usize = 0;
    let mut seg: usize = 0;
    let mut pos: usize = 0;
    assert(body@ + template_body(t) =~= template_body(t));
    assert(strings_view(names@) + template_params(t) =~= template_params(t));
    while pos < n
        invariant
            t == template@,
            chars@ == t,
            n == t.len(),
            run <= seg <= pos <= n,
            body@ + body_from(t, run as int, seg as int, pos as int) == template_body(t),
            strings_view(names@) + names_from(t, seg as int, pos as int) == template_params(t),
            malformed_from(t, seg as int, pos as int) == template_malformed(t),
        decreases n - pos,
    {
        if chars[pos] == '/' {
            match classify(&chars, seg, pos) {
                SegmentKind::Malformed => {
                    return Err(RouteError::MalformedParameter);
                },
                SegmentKind::Param { start, end } => {
                    let ghost old_body = body@;
                    let ghost old_names = strings_view(names@);
                    push_param(&mut body, template, run, seg);
                    names.push(String::from_str(template.substring_char(start, end)));
                    assert(strings_view(names@) =~= old_names.push(
                        t.subrange(start as int, end as int),
                    ));
                    assert(body@ + body_from(t, pos as int, pos + 1, pos + 1) =~= old_body + (
                    regex_escaped(t.subrange(run as int, seg as int)) + param_group() + body_from(
                        t,
                        pos as int,
                        pos + 1,
                        pos + 1,
                    )));
                    assert(strings_view(names@) + names_from(t, pos + 1, pos + 1) =~= old_names
                        + (seq![t.subrange(start as int, end as int)] + names_from(
                        t,
                        pos + 1,
                        pos + 1,
                    )));
                    run = pos;
                },
                SegmentKind::Literal => {},
            }
            seg = pos + 1;
        }
        pos += 1;
    }
    match classify(&chars, seg, n) {
        SegmentKind::Malformed => {
            return Err(RouteError::MalformedParameter);
        },
        SegmentKind::Param { start, end } => {
            let ghost old_body = body@;
            let ghost old_names = strings_view(names@);
            push_param(&mut body, template, run, seg);
            let tail = escape("");
            proof {
                reveal_strlit("");
                assert(""@ =~= Seq::<char>::empty());
            }
            body.append(tail.as_str());
            names.push(String::from_str(template.substring_char(start, end)));
            assert(strings_view(names@) =~= old_names.push(t.subrange(start as int, end as int)));
            assert(body@ =~= old_body + (regex_escaped(t.subrange(run as int, seg as int))
                + param_group() + regex_escaped(seq![])));
        },
        SegmentKind::Literal => {
            let lit = escape(template.substring_char(run, n));
            body.append(lit.as_str());
        },
    }
    assert(strings_view(names@) =~= template_params(t));
    Ok((body, names))
}

} // verus!
