//! What one route pattern holds: a value for each method, and one for all
//! methods.

use crate::methods::HttpMethod;
use vstd::prelude::*;

verus! {

/// The values registered under one route pattern: at most one for each
/// method, and at most one that serves every method.
#[allow(non_snake_case)]
#[derive(Debug, Clone, Copy)]
pub struct Route<T> {
    GET: Option<T>,
    HEAD: Option<T>,
    POST: Option<T>,
    PUT: Option<T>,
    DELETE: Option<T>,
    CONNECT: Option<T>,
    OPTIONS: Option<T>,
    TRACE: Option<T>,
    PATCH: Option<T>,
    ALL: Option<T>,
}

impl<T> Default for Route<T> {
    fn default() -> (r: Self)
        ensures
            r == Route::<T>::spec_empty(),
    {
        Self {
            GET: None,
            HEAD: None,
            POST: None,
            PUT: None,
            DELETE: None,
            CONNECT: None,
            OPTIONS: None,
            TRACE: None,
            PATCH: None,
            ALL: None,
        }
    }
}

impl<T> Route<T> {
    /// The value registered for `method`.
    pub closed spec fn spec_method(&self, method: HttpMethod) -> Option<T> {
        match method {
            HttpMethod::GET => self.GET,
            HttpMethod::HEAD => self.HEAD,
            HttpMethod::POST => self.POST,
            HttpMethod::PUT => self.PUT,
            HttpMethod::DELETE => self.DELETE,
            HttpMethod::CONNECT => self.CONNECT,
            HttpMethod::OPTIONS => self.OPTIONS,
            HttpMethod::TRACE => self.TRACE,
            HttpMethod::PATCH => self.PATCH,
        }
    }

    /// The route with nothing registered.
    pub closed spec fn spec_empty() -> Route<T> {
        Route {
            GET: None,
            HEAD: None,
            POST: None,
            PUT: None,
            DELETE: None,
            CONNECT: None,
            OPTIONS: None,
            TRACE: None,
            PATCH: None,
            ALL: None,
        }
    }

    /// The route with `value` registered for `method`.
    pub closed spec fn spec_with_method(self, method: HttpMethod, value: T) -> Route<T> {
        match method {
            HttpMethod::GET => Route { GET: Some(value), ..self },
            HttpMethod::HEAD => Route { HEAD: Some(value), ..self },
            HttpMethod::POST => Route { POST: Some(value), ..self },
            HttpMethod::PUT => Route { PUT: Some(value), ..self },
            HttpMethod::DELETE => Route { DELETE: Some(value), ..self },
            HttpMethod::CONNECT => Route { CONNECT: Some(value), ..self },
            HttpMethod::OPTIONS => Route { OPTIONS: Some(value), ..self },
            HttpMethod::TRACE => Route { TRACE: Some(value), ..self },
            HttpMethod::PATCH => Route { PATCH: Some(value), ..self },
        }
    }

    /// The route with `value` registered for all methods.
    pub closed spec fn spec_with_all(self, value: T) -> Route<T> {
        Route { ALL: Some(value), ..self }
    }

    /// What the three constructions above hold.
    pub proof fn lemma_constructions(self, method: HttpMethod, value: T)
        ensures
            Route::<T>::spec_empty().spec_all() is None,
            forall|m: HttpMethod| Route::<T>::spec_empty().spec_method(m) is None,
            self.spec_with_method(method, value).spec_method(method) == Some(value),
            forall|m: HttpMethod|
                m != method ==> self.spec_with_method(method, value).spec_method(m)
                    == self.spec_method(m),
            self.spec_with_method(method, value).spec_all() == self.spec_all(),
            self.spec_with_all(value).spec_all() == Some(value),
            forall|m: HttpMethod| self.spec_with_all(value).spec_method(m) == self.spec_method(m),
    {
    }

    /// A route with nothing registered.
    pub fn empty() -> (r: Self)
        ensures
            r == Route::<T>::spec_empty(),
    {
        Self {
            GET: None,
            HEAD: None,
            POST: None,
            PUT: None,
            DELETE: None,
            CONNECT: None,
            OPTIONS: None,
            TRACE: None,
            PATCH: None,
            ALL: None,
        }
    }

    /// The value registered for all methods.
    pub closed spec fn spec_all(&self) -> Option<T> {
        self.ALL
    }

    /// The value that serves `method`: the one registered for it, or else
    /// the one registered for all methods.
    pub open spec fn spec_serving(&self, method: HttpMethod) -> Option<T> {
        match self.spec_method(method) {
            Some(value) => Some(value),
            None => self.spec_all(),
        }
    }

    pub fn get_method(&self, method: HttpMethod) -> (r: &Option<T>)
        ensures
            *r == self.spec_method(method),
    {
        match method {
            HttpMethod::GET => &self.GET,
            HttpMethod::HEAD => &self.HEAD,
            HttpMethod::POST => &self.POST,
            HttpMethod::PUT => &self.PUT,
            HttpMethod::DELETE => &self.DELETE,
            HttpMethod::CONNECT => &self.CONNECT,
            HttpMethod::OPTIONS => &self.OPTIONS,
            HttpMethod::TRACE => &self.TRACE,
            HttpMethod::PATCH => &self.PATCH,
        }
    }

    pub fn get_all(&self) -> (r: &Option<T>)
        ensures
            *r == self.spec_all(),
    {
        &self.ALL
    }

    /// Registers `value` for `method`, in place of what was there.
    pub fn set_method(&mut self, method: HttpMethod, value: T)
        ensures
            *final(self) == old(self).spec_with_method(method, value),
    {
        match method {
            HttpMethod::GET => self.GET = Some(value),
            HttpMethod::HEAD => self.HEAD = Some(value),
            HttpMethod::POST => self.POST = Some(value),
            HttpMethod::PUT => self.PUT = Some(value),
            HttpMethod::DELETE => self.DELETE = Some(value),
            HttpMethod::CONNECT => self.CONNECT = Some(value),
            HttpMethod::OPTIONS => self.OPTIONS = Some(value),
            HttpMethod::TRACE => self.TRACE = Some(value),
            HttpMethod::PATCH => self.PATCH = Some(value),
        }
    }

    pub fn has_method(&self, method: HttpMethod) -> (r: bool)
        ensures
            r == (self.spec_method(method) is Some),
    {
        match method {
            HttpMethod::GET => self.GET.is_some(),
            HttpMethod::HEAD => self.HEAD.is_some(),
            HttpMethod::POST => self.POST.is_some(),
            HttpMethod::PUT => self.PUT.is_some(),
            HttpMethod::DELETE => self.DELETE.is_some(),
            HttpMethod::CONNECT => self.CONNECT.is_some(),
            HttpMethod::OPTIONS => self.OPTIONS.is_some(),
            HttpMethod::TRACE => self.TRACE.is_some(),
            HttpMethod::PATCH => self.PATCH.is_some(),
        }
    }

    pub fn has_all(&self) -> (r: bool)
        ensures
            r == (self.spec_all() is Some),
    {
        self.ALL.is_some()
    }

    /// Registers `value` for all methods, in place of what was there.
    pub fn set_all(&mut self, value: T)
        ensures
            *final(self) == old(self).spec_with_all(value),
    {
        self.ALL = Some(value)
    }

    /// The value that serves `method`: the one registered for it, or else
    /// the one registered for all methods.
    pub fn serving(&self, method: HttpMethod) -> (r: &Option<T>)
        ensures
            *r == self.spec_serving(method),
    {
        let own = self.get_method(method);
        if own.is_some() {
            own
        } else {
            self.get_all()
        }
    }
}

} // verus!
