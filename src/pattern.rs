//! A compiled template: the template text, its regular expression and its
//! parameter names, built once and never changed.

use vstd::prelude::*;
use crate::error::RouteError;
use crate::matcher::{
    anchored_literal, groups_view, leading_literal, regex_accepts, regex_captures,
    regex_compiles, regex_escaped, regex_replace_first, Matcher,
};
use crate::template::{
    body_from, compile_body, names_from, pattern_source, strings_view, template_malformed,
    template_params,
};

verus! {

broadcast use vstd::string::group_string_axioms;

/// Where no segment from `seg` on is a parameter, the pattern text from
/// there is the escaped rest of the template, as one literal run.
proof fn lemma_literal_body(t: Seq<char>, run: int, seg: int, pos: int)
    requires
        0 <= run <= seg <= pos <= t.len(),
        names_from(t, seg, pos).len() == 0,
    ensures
        body_from(t, run, seg, pos) == regex_escaped(t.subrange(run, t.len() as int)),
    decreases t.len() - pos,
{
    if pos < t.len() {
        if t[pos] == '/' {
            lemma_literal_body(t, run, pos + 1, pos + 1);
        } else {
            lemma_literal_body(t, run, seg, pos + 1);
        }
    }
}

/// The pattern of a template without parameters is that template as a
/// literal, anchored at both ends or, for a prefix pattern, at the start.
pub proof fn lemma_literal_template_source(t: Seq<char>)
    requires
        template_params(t).len() == 0,
    ensures
        pattern_source(t, false) == anchored_literal(t),
        pattern_source(t, true) == leading_literal(t),
{
    lemma_literal_body(t, 0, 0, 0);
    assert(t.subrange(0, t.len() as int) =~= t);
}

pub struct CompiledPattern {
    template: String,
    matcher: Matcher,
    param_names: Vec<String>,
    prefix: bool,
}

impl CompiledPattern {
    #[verifier::type_invariant]
    spec fn inv(&self) -> bool {
        &&& !template_malformed(self.template@)
        &&& strings_view(self.param_names@) == template_params(self.template@)
        &&& self.matcher.source() == pattern_source(self.template@, self.prefix)
    }

    /// The template this pattern was compiled from.
    pub closed spec fn template(&self) -> Seq<char> {
        self.template@
    }

    /// Whether the pattern need only match a prefix of a path.
    pub closed spec fn is_prefix(&self) -> bool {
        self.prefix
    }

    /// The text of the regular expression.
    pub open spec fn regex_source(&self) -> Seq<char> {
        pattern_source(self.template(), self.is_prefix())
    }

    /// Whether the pattern accepts `path`.
    pub open spec fn accepts(&self, path: Seq<char>) -> bool {
        regex_accepts(self.regex_source(), path)
    }

    /// Compiles `template`, for whole paths or, with `prefix`, for their
    /// beginnings. A malformed template is refused before any regular
    /// expression is built.
    pub fn compile(template: String, prefix: bool) -> (r: Result<CompiledPattern, RouteError>)
        ensures
            template_malformed(template@) ==> r == Err::<CompiledPattern, RouteError>(
                RouteError::MalformedParameter,
            ),
            !template_malformed(template@) ==> (r is Ok || r == Err::<CompiledPattern, RouteError>(
                RouteError::InvalidPattern,
            )),
            !template_malformed(template@) ==> ((r is Ok) == regex_compiles(
                pattern_source(template@, prefix),
            )),
            r is Ok ==> r->Ok_0.template() == template@ && r->Ok_0.is_prefix() == prefix,
    {
        let (body, param_names) = match compile_body(template.as_str()) {
            Ok(parts) => parts,
            Err(e) => {
                return Err(e);
            },
        };
        let mut source = String::from_str("^");
        proof {
            reveal_strlit("^");
            reveal_strlit("$");
        }
        source.append(body.as_str());
        if !prefix {
            source.append("$");
        }
        assert(source@ =~= pattern_source(template@, prefix));
        match Matcher::compile(source) {
            Ok(matcher) => Ok(CompiledPattern { template, matcher, param_names, prefix }),
            Err(_) => Err(RouteError::InvalidPattern),
        }
    }

    /// The template text.
    pub fn template_text(&self) -> (r: &String)
        ensures
            r@ == self.template(),
    {
        &self.template
    }

    /// The parameter names, in the order of their groups.
    pub fn param_names(&self) -> (r: &Vec<String>)
        ensures
            strings_view(r@) == template_params(self.template()),
    {
        proof {
            use_type_invariant(self);
        }
        &self.param_names
    }

    /// Whether `path` is accepted. A template without parameters accepts
    /// exactly the path it spells or, compiled as a prefix, the paths that
    /// begin with it.
    pub fn is_match(&self, path: &str) -> (r: bool)
        ensures
            r == self.accepts(path@),
            !self.is_prefix() && template_params(self.template()).len() == 0 ==> (r <==> path@
                == self.template()),
            self.is_prefix() && template_params(self.template()).len() == 0 ==> (r
                <==> self.template().is_prefix_of(path@)),
    {
        proof {
            use_type_invariant(self);
            if template_params(self.template()).len() == 0 {
                lemma_literal_template_source(self.template());
            }
        }
        self.matcher.is_match(path)
    }

    /// The capture groups of `path`, group 0 first.
    pub fn captures(&self, path: &str) -> (r: Option<Vec<Option<String>>>)
        ensures
            groups_view(r) == regex_captures(self.regex_source(), path@),
    {
        proof {
            use_type_invariant(self);
        }
        self.matcher.captures(path)
    }

    /// `path` with the text the pattern matches removed. For a prefix
    /// template without parameters, that is the template at the front.
    pub fn remainder(&self, path: &str) -> (r: String)
        ensures
            r@ == regex_replace_first(self.regex_source(), path@, seq![]),
            self.is_prefix() && template_params(self.template()).len() == 0 ==> r@ == (if self.template().is_prefix_of(path@) {
                path@.skip(self.template().len() as int)
            } else {
                path@
            }),
    {
        proof {
            use_type_invariant(self);
            reveal_strlit("");
            if template_params(self.template()).len() == 0 {
                lemma_literal_template_source(self.template());
            }
        }
        let empty = "";
        assert(empty@ =~= Seq::<char>::empty());
        self.matcher.replace_first(path, empty)
    }
}

} // verus!
