//! A compiled regular expression together with the pattern text it was
//! built from. Every operation on it is the `regex` crate's; what each one
//! returns is stated over the pattern text and the haystack.

use vstd::prelude::*;

verus! {

#[verifier::external_type_specification]
#[verifier::external_body]
pub struct ExRegex(regex::Regex);

#[verifier::external_type_specification]
#[verifier::external_body]
pub struct ExRegexError(regex::Error);

/// The characters `regex::escape` puts a backslash before.
pub open spec fn is_meta_character(c: char) -> bool {
    c == '\\' || c == '.' || c == '+' || c == '*' || c == '?' || c == '(' || c == ')' || c
        == '|' || c == '[' || c == ']' || c == '{' || c == '}' || c == '^' || c == '$' || c == '#'
        || c == '&' || c == '-' || c == '~'
}

/// `text` with a backslash before each meta character.
pub open spec fn regex_escaped(text: Seq<char>) -> Seq<char>
    decreases text.len(),
{
    if text.len() == 0 {
        seq![]
    } else {
        let c = text.last();
        if is_meta_character(c) {
            regex_escaped(text.drop_last()) + seq!['\\', c]
        } else {
            regex_escaped(text.drop_last()).push(c)
        }
    }
}

/// Whether the regular expression written `pattern` is accepted by `regex::Regex::new`.
pub uninterp spec fn regex_compiles(pattern: Seq<char>) -> bool;

/// Whether the regular expression written `pattern` matches somewhere in `haystack`.
pub uninterp spec fn regex_accepts(pattern: Seq<char>, haystack: Seq<char>) -> bool;

/// The capture groups of the leftmost-first match of `pattern` in `haystack`
/// (group 0 is the whole match), or `None` where there is no match.
pub uninterp spec fn regex_captures(pattern: Seq<char>, haystack: Seq<char>) -> Option<
    Seq<Option<Seq<char>>>,
>;

/// `haystack` with the first match of `pattern` replaced by the text
/// `replacement`, taken literally.
pub uninterp spec fn regex_replace_first(
    pattern: Seq<char>,
    haystack: Seq<char>,
    replacement: Seq<char>,
) -> Seq<char>;

/// The pattern text that anchors `literal` at both ends of the haystack.
pub open spec fn anchored_literal(literal: Seq<char>) -> Seq<char> {
    seq!['^'] + regex_escaped(literal) + seq!['$']
}

/// The pattern text that anchors `literal` at the start of the haystack.
pub open spec fn leading_literal(literal: Seq<char>) -> Seq<char> {
    seq!['^'] + regex_escaped(literal)
}

pub open spec fn group_view(group: Option<String>) -> Option<Seq<char>> {
    match group {
        Some(s) => Some(s@),
        None => None,
    }
}

pub open spec fn groups_view(groups: Option<Vec<Option<String>>>) -> Option<Seq<Option<Seq<char>>>> {
    match groups {
        Some(v) => Some(v@.map_values(|g: Option<String>| group_view(g))),
        None => None,
    }
}

/// Relies on `regex::escape`: the escaped text, to be used as a literal.
#[verifier::external_body]
pub(crate) fn escape(text: &str) -> (r: String)
    ensures
        r@ == regex_escaped(text@),
{
    regex::escape(text)
}

/// A regular expression and the text it was compiled from. Only
/// [`Matcher::compile`] builds one, so the two always belong together.
pub struct Matcher {
    re: regex::Regex,
    source: String,
}

impl Matcher {
    /// The pattern text this matcher was compiled from.
    pub closed spec fn source(&self) -> Seq<char> {
        self.source@
    }

    /// Relies on `regex::Regex::new`: whether it succeeds depends on the
    /// pattern text alone; on success the regex is compiled from `source`.
    #[verifier::external_body]
    pub(crate) fn compile(source: String) -> (r: Result<Matcher, regex::Error>)
        ensures
            (r is Ok) == regex_compiles(source@),
            r is Ok ==> r->Ok_0.source() == source@,
    {
        regex::Regex::new(&source).map(|re| Matcher { re, source })
    }

    /// Relies on `regex::Regex::is_match`. The regex is a function of its
    /// pattern text. An escaped literal is matched literally, as
    /// `regex::escape` documents: between `^` and `$` it matches that literal
    /// and nothing else; after `^` alone, every haystack that begins with it.
    #[verifier::external_body]
    pub(crate) fn is_match(&self, haystack: &str) -> (r: bool)
        ensures
            r == regex_accepts(self.source(), haystack@),
            forall|lit: Seq<char>|
                self.source() == anchored_literal(lit) ==> (r <==> haystack@ == lit),
            forall|lit: Seq<char>|
                self.source() == leading_literal(lit) ==> (r <==> lit.is_prefix_of(haystack@)),
    {
        self.re.is_match(haystack)
    }

    /// Relies on `regex::Regex::captures`, each group copied out of the haystack.
    #[verifier::external_body]
    pub(crate) fn captures(&self, haystack: &str) -> (r: Option<Vec<Option<String>>>)
        ensures
            groups_view(r) == regex_captures(self.source(), haystack@),
    {
        self.re.captures(haystack).map(
            |c| c.iter().map(|g| g.map(|m| m.as_str().to_string())).collect(),
        )
    }

    /// Relies on `regex::Regex::replace` with `regex::NoExpand`: the first
    /// match replaced by the literal text, the rest kept. Where an escaped
    /// literal is anchored at the start, the match is that literal at the
    /// front of the haystack, or there is none and nothing changes.
    #[verifier::external_body]
    pub(crate) fn replace_first(&self, haystack: &str, replacement: &str) -> (r: String)
        ensures
            r@ == regex_replace_first(self.source(), haystack@, replacement@),
            forall|lit: Seq<char>|
                self.source() == leading_literal(lit) ==> r@ == (if lit.is_prefix_of(haystack@) {
                    replacement@ + haystack@.skip(lit.len() as int)
                } else {
                    haystack@
                }),
    {
        self.re.replace(haystack, regex::NoExpand(replacement)).into_owned()
    }
}

} // verus!
