//! HTTP request methods.

use vstd::prelude::*;

verus! {

#[derive(Debug, Clone)]
pub enum Method {
    Get,
    Post,
    Put,
    Delete,
    Head,
    Options,
    Connect,
    Patch,
    Trace,
    /// A method outside the standard set, by its name.
    Extension(String),
}

/// Whether two methods are the same: the same standard method, or
/// extensions of the same name.
pub open spec fn same_method(a: Method, b: Method) -> bool {
    match a {
        Method::Extension(x) => match b {
            Method::Extension(y) => x@ == y@,
            _ => false,
        },
        _ => a == b,
    }
}

/// Whether two methods are the same; see [`same_method`].
fn method_eq(a: &Method, b: &Method) -> (r: bool)
    ensures
        r == same_method(*a, *b),
{
    match a {
        Method::Get => match b {
            Method::Get => true,
            _ => false,
        },
        Method::Post => match b {
            Method::Post => true,
            _ => false,
        },
        Method::Put => match b {
            Method::Put => true,
            _ => false,
        },
        Method::Delete => match b {
            Method::Delete => true,
            _ => false,
        },
        Method::Head => match b {
            Method::Head => true,
            _ => false,
        },
        Method::Options => match b {
            Method::Options => true,
            _ => false,
        },
        Method::Connect => match b {
            Method::Connect => true,
            _ => false,
        },
        Method::Patch => match b {
            Method::Patch => true,
            _ => false,
        },
        Method::Trace => match b {
            Method::Trace => true,
            _ => false,
        },
        Method::Extension(x) => match b {
            Method::Extension(y) => x.eq(y),
            _ => false,
        },
    }
}

impl PartialEq for Method {
    fn eq(&self, other: &Method) -> (r: bool) {
        method_eq(self, other)
    }
}

impl vstd::std_specs::cmp::PartialEqSpecImpl for Method {
    open spec fn obeys_eq_spec() -> bool {
        true
    }

    open spec fn eq_spec(&self, other: &Method) -> bool {
        same_method(*self, *other)
    }
}

/// Whether `methods` lists `method`.
pub open spec fn lists_method(methods: Seq<Method>, method: Method) -> bool {
    exists|i: int| 0 <= i < methods.len() && same_method(#[trigger] methods[i], method)
}

/// Whether `methods` lists `method`.
pub fn contains_method(methods: &Vec<Method>, method: &Method) -> (r: bool)
    ensures
        r == lists_method(methods@, *method),
{
    let mut i: usize = 0;
    while i < methods.len()
        invariant
            i <= methods@.len(),
            forall|j: int| 0 <= j < i ==> !same_method(#[trigger] methods@[j], *method),
        decreases methods@.len() - i,
    {
        if methods[i] == *method {
            return true;
        }
        i += 1;
    }
    false
}

} // verus!
