//! A route: a compiled template bound to one of three behaviours, with the
//! match test and the dispatch decision the route table asks of it.

use vstd::prelude::*;
use crate::error::RouteError;
use crate::matcher::{
    group_view, groups_view, regex_accepts, regex_captures, regex_compiles, regex_replace_first,
};
use crate::method::{contains_method, lists_method, Method};
use crate::params::{
    entries_merge, entries_set, key_index, lemma_key_index_bounds, lemma_merge_lookup, lookup,
    PathParams, RequestData,
};
use crate::pattern::CompiledPattern;
use crate::template::{pattern_source, strings_view, template_malformed, template_params};

verus! {

/// What a route does with a request it matched.
pub enum Behavior<H, R, W> {
    /// Answers the request with `H`, for the listed methods (all, if none are listed).
    Terminal(Vec<Method>, H),
    /// Hands the rest of the path to the nested router `R`.
    Delegate(R),
    /// Upgrades the connection and hands it to `W`.
    Upgrade(W),
}

/// The next step for a request a route has taken.
pub enum Dispatch<'a, H, R> {
    /// Call this handler with the request.
    Handle(&'a H),
    /// Let this router process the request on the remaining path.
    Forward(&'a R, String),
}

/// The value at group `i`, where the match has such a group.
pub open spec fn group_at(groups: Seq<Option<Seq<char>>>, i: int) -> Option<Seq<char>> {
    if 0 <= i < groups.len() {
        groups[i]
    } else {
        None
    }
}

/// The parameters bound by the first `k` names: name `i` takes group `i + 1`
/// where that group took part in the match.
pub open spec fn extract_upto(names: Seq<Seq<char>>, groups: Seq<Option<Seq<char>>>, k: int) -> Seq<
    (Seq<char>, Seq<char>),
>
    decreases k,
{
    if k <= 0 {
        seq![]
    } else {
        let prev = extract_upto(names, groups, k - 1);
        match group_at(groups, k) {
            Some(g) => entries_set(prev, names[k - 1], g),
            None => prev,
        }
    }
}

/// The parameters a match yields; none where there was no match.
pub open spec fn extract_params(
    names: Seq<Seq<char>>,
    captures: Option<Seq<Option<Seq<char>>>>,
) -> Seq<(Seq<char>, Seq<char>)> {
    match captures {
        Some(groups) => extract_upto(names, groups, names.len() as int),
        None => seq![],
    }
}

/// The store after a layer's parameters were added to what the request carried.
pub open spec fn merged(slot: Option<RequestData>, added: Seq<(Seq<char>, Seq<char>)>) -> Seq<
    (Seq<char>, Seq<char>),
> {
    match slot {
        Some(data) => entries_merge(data@, added),
        None => added,
    }
}

/// The parameters a match yields: name `i` is bound to group `i + 1` where
/// that group took part in the match; nothing where there was no match.
pub fn params_from_groups(names: &Vec<String>, groups: &Option<Vec<Option<String>>>) -> (r:
    PathParams)
    ensures
        r@ == extract_params(strings_view(names@), groups_view(*groups)),
{
    let ln = names.len();
    let mut path_params = PathParams::with_capacity(ln);
    match groups {
        Some(groups) => {
            let ghost nv = strings_view(names@);
            let ghost gv = groups@.map_values(|g: Option<String>| group_view(g));
            let mut idx: usize = 0;
            while idx < ln
                invariant
                    ln == names@.len(),
                    nv == strings_view(names@),
                    gv == groups@.map_values(|g: Option<String>| group_view(g)),
                    idx <= ln,
                    path_params@ == extract_upto(nv, gv, idx as int),
                decreases ln - idx,
            {
                if idx + 1 < groups.len() {
                    match &groups[idx + 1] {
                        Some(g) => {
                            path_params.set(names[idx].clone(), g.clone());
                        },
                        None => {},
                    }
                }
                idx += 1;
            }
        },
        None => {},
    }
    path_params
}

pub struct Route<H, R, W> {
    path: String,
    pattern: CompiledPattern,
    behavior: Behavior<H, R, W>,
}

impl<H, R, W> Route<H, R, W> {
    #[verifier::type_invariant]
    spec fn inv(&self) -> bool {
        &&& self.path@ == self.pattern.template()
        &&& self.pattern.is_prefix() == (self.behavior is Delegate)
    }

    /// The template the route was built from.
    pub closed spec fn template(&self) -> Seq<char> {
        self.path@
    }

    pub closed spec fn kind(&self) -> Behavior<H, R, W> {
        self.behavior
    }

    /// The methods a terminal route is limited to; none means any.
    pub open spec fn allowed_methods(&self) -> Seq<Method> {
        match self.kind() {
            Behavior::Terminal(methods, _) => methods@,
            _ => seq![],
        }
    }

    /// The text of the route's regular expression: a delegating route
    /// matches a prefix of the path, the others the whole path.
    pub open spec fn pattern_text(&self) -> Seq<char> {
        pattern_source(self.template(), self.kind() is Delegate)
    }

    pub open spec fn method_allowed(&self, method: Method) -> bool {
        self.allowed_methods().len() == 0 || lists_method(self.allowed_methods(), method)
    }

    /// Whether the route takes a request for `path` with `method`.
    pub open spec fn matches(&self, path: Seq<char>, method: Method) -> bool {
        regex_accepts(self.pattern_text(), path) && self.method_allowed(method)
    }

    /// The parameters the route extracts from `path`.
    pub open spec fn extracted(&self, path: Seq<char>) -> Seq<(Seq<char>, Seq<char>)> {
        extract_params(template_params(self.template()), regex_captures(self.pattern_text(), path))
    }

    /// What is left of `path` once the matched text is removed.
    pub open spec fn remainder(&self, path: Seq<char>) -> Seq<char> {
        regex_replace_first(self.pattern_text(), path, seq![])
    }

    fn build(path: String, prefix: bool, behavior: Behavior<H, R, W>) -> (r: Result<
        Route<H, R, W>,
        RouteError,
    >)
        requires
            prefix == (behavior is Delegate),
        ensures
            template_malformed(path@) ==> r is Err && r->Err_0 == RouteError::MalformedParameter,
            !template_malformed(path@) ==> r is Ok || (r is Err && r->Err_0
                == RouteError::InvalidPattern),
            !template_malformed(path@) ==> ((r is Ok) == regex_compiles(
                pattern_source(path@, prefix),
            )),
            r is Ok ==> r->Ok_0.template() == path@ && r->Ok_0.kind() == behavior,
    {
        match CompiledPattern::compile(path.clone(), prefix) {
            Ok(pattern) => Ok(Route { path, pattern, behavior }),
            Err(e) => Err(e),
        }
    }

    /// A route that answers requests itself, for the given methods (any
    /// method, if the list is empty). The template must match whole paths.
    pub fn with_normal(path: String, methods: Vec<Method>, handler: H) -> (r: Result<
        Route<H, R, W>,
        RouteError,
    >)
        ensures
            template_malformed(path@) ==> r is Err && r->Err_0 == RouteError::MalformedParameter,
            !template_malformed(path@) ==> r is Ok || (r is Err && r->Err_0
                == RouteError::InvalidPattern),
            !template_malformed(path@) ==> ((r is Ok) == regex_compiles(
                pattern_source(path@, false),
            )),
            r is Ok ==> r->Ok_0.template() == path@ && r->Ok_0.kind() == Behavior::<
                H,
                R,
                W,
            >::Terminal(methods, handler),
    {
        Self::build(path, false, Behavior::Terminal(methods, handler))
    }

    /// A route that hands what follows the matched prefix to a nested router.
    pub fn with_router(path: String, router: R) -> (r: Result<Route<H, R, W>, RouteError>)
        ensures
            template_malformed(path@) ==> r is Err && r->Err_0 == RouteError::MalformedParameter,
            !template_malformed(path@) ==> r is Ok || (r is Err && r->Err_0
                == RouteError::InvalidPattern),
            !template_malformed(path@) ==> ((r is Ok) == regex_compiles(
                pattern_source(path@, true),
            )),
            r is Ok ==> r->Ok_0.template() == path@ && r->Ok_0.kind() == Behavior::<
                H,
                R,
                W,
            >::Delegate(router),
    {
        Self::build(path, true, Behavior::Delegate(router))
    }

    /// A route for connection upgrades. The template must match whole paths.
    pub fn with_ws(path: String, handler: W) -> (r: Result<Route<H, R, W>, RouteError>)
        ensures
            template_malformed(path@) ==> r is Err && r->Err_0 == RouteError::MalformedParameter,
            !template_malformed(path@) ==> r is Ok || (r is Err && r->Err_0
                == RouteError::InvalidPattern),
            !template_malformed(path@) ==> ((r is Ok) == regex_compiles(
                pattern_source(path@, false),
            )),
            r is Ok ==> r->Ok_0.template() == path@ && r->Ok_0.kind() == Behavior::<
                H,
                R,
                W,
            >::Upgrade(handler),
    {
        Self::build(path, false, Behavior::Upgrade(handler))
    }

    /// Whether the route takes a request for `target_path` with `method`.
    /// Where the template has no parameters, the path must equal the
    /// template or, for a delegating route, begin with it.
    pub fn is_match(&self, target_path: &str, method: &Method) -> (r: bool)
        ensures
            r == self.matches(target_path@, *method),
            template_params(self.template()).len() == 0 && !(self.kind() is Delegate)
                && self.method_allowed(*method) ==> (r <==> target_path@ == self.template()),
            template_params(self.template()).len() == 0 && self.kind() is Delegate ==> (r
                <==> self.template().is_prefix_of(target_path@)),
    {
        proof {
            use_type_invariant(self);
        }
        match &self.behavior {
            Behavior::Terminal(methods, _) => {
                if methods.len() > 0 {
                    self.pattern.is_match(target_path) && contains_method(methods, method)
                } else {
                    self.pattern.is_match(target_path)
                }
            },
            Behavior::Delegate(_) => self.pattern.is_match(target_path),
            Behavior::Upgrade(_) => self.pattern.is_match(target_path),
        }
    }

    pub fn path(&self) -> (r: &String)
        ensures
            r@ == self.template(),
    {
        &self.path
    }

    pub fn behavior(&self) -> (r: &Behavior<H, R, W>)
        ensures
            *r == self.kind(),
    {
        &self.behavior
    }

    /// The parameters `target_path` binds, as a fresh store.
    pub fn generate_req_data(&self, target_path: &str) -> (r: RequestData)
        ensures
            r@ == self.extracted(target_path@),
    {
        proof {
            use_type_invariant(self);
        }
        let names = self.pattern.param_names();
        if names.len() > 0 {
            RequestData::new(params_from_groups(names, &self.pattern.captures(target_path)))
        } else {
            RequestData::new(PathParams::new())
        }
    }

    /// Adds `req_data` to what the request carries, creating the store where
    /// there is none yet.
    pub fn update_req_data(slot: &mut Option<RequestData>, req_data: RequestData)
        ensures
            (*final(slot)) is Some,
            (*final(slot))->Some_0@ == merged(*old(slot), req_data@),
    {
        match slot {
            Some(existing) => existing.extend(req_data),
            None => {
                *slot = Some(req_data);
            },
        }
    }

    /// Adds the parameters `target_path` binds to what the request carries.
    pub fn push_req_data(&self, target_path: &str, slot: &mut Option<RequestData>)
        ensures
            (*final(slot)) is Some,
            (*final(slot))->Some_0@ == merged(*old(slot), self.extracted(target_path@)),
    {
        Self::update_req_data(slot, self.generate_req_data(target_path));
    }

    /// Takes a request the route matched: records its parameters and says
    /// what comes next. A terminal route hands the request to its handler;
    /// a delegating route forwards the path without the matched prefix; an
    /// upgrade route is refused, and the request left as it was.
    pub fn process<'a>(&'a self, target_path: &str, slot: &mut Option<RequestData>) -> (r: Result<
        Dispatch<'a, H, R>,
        RouteError,
    >)
        ensures
            self.kind() is Terminal ==> r is Ok && r->Ok_0 is Handle && *r->Ok_0->Handle_0
                == self.kind()->Terminal_1,
            self.kind() is Delegate ==> r is Ok && r->Ok_0 is Forward && *r->Ok_0->Forward_0
                == self.kind()->Delegate_0 && r->Ok_0->Forward_1@ == self.remainder(
                target_path@,
            ),
            self.kind() is Delegate && template_params(self.template()).len() == 0
                && self.template().is_prefix_of(target_path@) ==> r->Ok_0->Forward_1@
                == target_path@.skip(self.template().len() as int),
            self.kind() is Upgrade ==> r is Err && r->Err_0 == RouteError::UnsupportedUpgrade,
            !(self.kind() is Upgrade) ==> (*final(slot)) is Some && (*final(slot))->Some_0@ == merged(
                *old(slot),
                self.extracted(target_path@),
            ),
            self.kind() is Upgrade ==> *final(slot) == *old(slot),
    {
        proof {
            use_type_invariant(self);
        }
        match &self.behavior {
            Behavior::Terminal(_, handler) => {
                self.push_req_data(target_path, slot);
                Ok(Dispatch::Handle(handler))
            },
            Behavior::Delegate(router) => {
                self.push_req_data(target_path, slot);
                let rest = self.pattern.remainder(target_path);
                Ok(Dispatch::Forward(router, rest))
            },
            Behavior::Upgrade(_) => Err(RouteError::UnsupportedUpgrade),
        }
    }
}

/// A route that lists no methods matches a path for every method or for none.
pub proof fn lemma_any_method<H, R, W>(
    route: Route<H, R, W>,
    path: Seq<char>,
    m1: Method,
    m2: Method,
)
    requires
        route.allowed_methods().len() == 0,
    ensures
        route.matches(path, m1) == route.matches(path, m2),
{
}

/// A route that lists methods never matches a method it does not list,
/// whatever the path.
pub proof fn lemma_unlisted_method<H, R, W>(route: Route<H, R, W>, path: Seq<char>, m: Method)
    requires
        route.allowed_methods().len() > 0,
        !lists_method(route.allowed_methods(), m),
    ensures
        !route.matches(path, m),
{
}

/// Two routes compiled from one template, in the same mode and for the same
/// methods, match the same requests, extract the same parameters and leave
/// the same remainder.
pub proof fn lemma_same_template<H1, R1, W1, H2, R2, W2>(
    a: Route<H1, R1, W1>,
    b: Route<H2, R2, W2>,
    path: Seq<char>,
    m: Method,
)
    requires
        a.template() == b.template(),
        (a.kind() is Delegate) == (b.kind() is Delegate),
        a.allowed_methods() == b.allowed_methods(),
    ensures
        a.matches(path, m) == b.matches(path, m),
        a.extracted(path) == b.extracted(path),
        a.remainder(path) == b.remainder(path),
{
}

/// Every name the extraction binds is one of the first `k` names.
proof fn lemma_extract_names(names: Seq<Seq<char>>, groups: Seq<Option<Seq<char>>>, k: int)
    requires
        0 <= k <= names.len(),
    ensures
        forall|i: int|
            0 <= i < extract_upto(names, groups, k).len() ==> names.subrange(0, k).contains(
                #[trigger] extract_upto(names, groups, k)[i].0,
            ),
    decreases k,
{
    if k > 0 {
        lemma_extract_names(names, groups, k - 1);
        let prev = extract_upto(names, groups, k - 1);
        let cur = extract_upto(names, groups, k);
        assert forall|i: int| 0 <= i < cur.len() implies names.subrange(0, k).contains(
            #[trigger] cur[i].0,
        ) by {
            if group_at(groups, k) is Some && (i == prev.len() || cur[i].0 == names[k - 1]) {
                assert(names.subrange(0, k)[k - 1] == names[k - 1]);
                lemma_key_index_bounds(prev, names[k - 1]);
            } else {
                lemma_key_index_bounds(prev, names[k - 1]);
                assert(cur[i].0 == prev[i].0);
                assert(names.subrange(0, k - 1).contains(prev[i].0));
                let j = choose|j: int| 0 <= j < k - 1 && #[trigger] names.subrange(0, k - 1)[j] == prev[i].0;
                assert(names.subrange(0, k)[j] == names.subrange(0, k - 1)[j]);
            }
        }
    }
}

/// A route only binds names its template declares.
pub proof fn lemma_extracted_names<H, R, W>(route: Route<H, R, W>, path: Seq<char>, k: Seq<char>)
    requires
        !template_params(route.template()).contains(k),
    ensures
        lookup(route.extracted(path), k) is None,
{
    let names = template_params(route.template());
    match regex_captures(route.pattern_text(), path) {
        Some(groups) => {
            let e = extract_upto(names, groups, names.len() as int);
            lemma_extract_names(names, groups, names.len() as int);
            lemma_key_index_bounds(e, k);
            assert(names.subrange(0, names.len() as int) =~= names);
            if key_index(e, k) >= 0 {
                assert(names.contains(e[key_index(e, k)].0));
            }
        },
        None => {},
    }
}

/// Passing a route keeps what earlier layers stored: a name the template
/// does not declare keeps its value, and each name it declares and the
/// path binds gets the bound text.
pub proof fn lemma_layers_merge<H, R, W>(
    route: Route<H, R, W>,
    path: Seq<char>,
    before: Seq<(Seq<char>, Seq<char>)>,
    k: Seq<char>,
)
    ensures
        !template_params(route.template()).contains(k) ==> lookup(
            entries_merge(before, route.extracted(path)),
            k,
        ) == lookup(before, k),
        lookup(route.extracted(path), k) is Some ==> lookup(
            entries_merge(before, route.extracted(path)),
            k,
        ) == lookup(route.extracted(path), k),
{
    lemma_merge_lookup(before, route.extracted(path), k);
    if !template_params(route.template()).contains(k) {
        lemma_extracted_names(route, path, k);
    }
}

} // verus!
