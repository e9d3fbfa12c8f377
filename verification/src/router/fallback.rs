//! Fallbacks modeled as errors.
//!
//! A handler can short-circuit by returning one of the fallback errors in this module as the
//! `Err` variant of its result. [`redirect`], [`redirect_permanent`] and [`not_found`]
//! construct one directly, and [`FallbackExt`] lets `Option` and `Result` values fall through
//! to a fallback.
use vstd::prelude::*;

verus! {

/// The status code of a temporary redirect.
pub const TEMPORARY_REDIRECT: u16 = 307;

/// The status code of a permanent redirect.
pub const PERMANENT_REDIRECT: u16 = 308;

/// The status code of a not-found response.
pub const NOT_FOUND: u16 = 404;

/// A redirect response carried as the `Err` variant of a handler result: its status code
/// and the location it points to.
#[derive(Debug, Clone)]
pub struct RedirectError {
    status: u16,
    location: String,
}

impl View for RedirectError {
    type V = (u16, Seq<char>);

    closed spec fn view(&self) -> (u16, Seq<char>) {
        (self.status, self.location@)
    }
}

impl RedirectError {
    fn new(status: u16, location: &str) -> (r: Self)
        ensures
            r@ == (status, location@),
    {
        RedirectError { status, location: location.to_owned() }
    }

    /// The redirect's status code.
    pub fn status(&self) -> (r: u16)
        ensures
            r == self@.0,
    {
        self.status
    }

    /// The location the redirect points to.
    pub fn location(&self) -> (r: &str)
        ensures
            r@ == self@.1,
    {
        self.location.as_str()
    }
}

/// A not-found response carried as the `Err` variant of a handler result.
#[derive(Debug, Clone, Copy)]
pub struct NotFoundError {
    _priv: (),
}

impl NotFoundError {
    fn new() -> (r: Self) {
        NotFoundError { _priv: () }
    }

    /// The status code of the response: 404.
    pub fn status(&self) -> (r: u16)
        ensures
            r == NOT_FOUND,
    {
        NOT_FOUND
    }
}

/// A fallback that a handler falls through to.
#[derive(Debug, Clone)]
pub enum FallbackError {
    /// Redirect the client.
    Redirect(RedirectError),
    /// Answer that nothing was found.
    NotFound(NotFoundError),
}

impl From<RedirectError> for FallbackError {
    fn from(e: RedirectError) -> (r: Self) {
        FallbackError::Redirect(e)
    }
}

impl vstd::std_specs::convert::FromSpecImpl<RedirectError> for FallbackError {
    open spec fn obeys_from_spec() -> bool {
        true
    }

    open spec fn from_spec(e: RedirectError) -> Self {
        FallbackError::Redirect(e)
    }
}

impl From<NotFoundError> for FallbackError {
    fn from(e: NotFoundError) -> (r: Self) {
        FallbackError::NotFound(e)
    }
}

impl vstd::std_specs::convert::FromSpecImpl<NotFoundError> for FallbackError {
    open spec fn obeys_from_spec() -> bool {
        true
    }

    open spec fn from_spec(e: NotFoundError) -> Self {
        FallbackError::NotFound(e)
    }
}

/// The result of a handler that may fall through to a fallback.
pub type Result<T> = core::result::Result<T, FallbackError>;

/// The fallback is a redirect with the given status code to `uri`.
pub open spec fn is_redirect_to(e: FallbackError, status: u16, uri: Seq<char>) -> bool {
    e matches FallbackError::Redirect(r) && r@ == (status, uri)
}

/// The fallback is a not-found response.
pub open spec fn is_not_found(e: FallbackError) -> bool {
    e is NotFound
}

/// Builds a temporary (HTTP 307) redirect to `uri`.
pub fn redirect(uri: &str) -> (r: RedirectError)
    ensures
        r@ == (TEMPORARY_REDIRECT, uri@),
{
    RedirectError::new(TEMPORARY_REDIRECT, uri)
}

/// Builds a permanent (HTTP 308) redirect to `uri`. Use this for URLs that have moved for
/// good: clients and search engines may cache the new location.
pub fn redirect_permanent(uri: &str) -> (r: RedirectError)
    ensures
        r@ == (PERMANENT_REDIRECT, uri@),
{
    RedirectError::new(PERMANENT_REDIRECT, uri)
}

/// Builds a not-found (HTTP 404) response.
pub fn not_found() -> (r: NotFoundError)
    ensures
        r.status_spec() == NOT_FOUND,
{
    NotFoundError::new()
}

impl NotFoundError {
    /// The status code of the response.
    pub open spec fn status_spec(&self) -> u16 {
        NOT_FOUND
    }
}

/// Converts an absent or failed value into a fallback response.
///
/// Implemented for `Option` (where `None` becomes the fallback) and `Result` (where any `Err`
/// becomes the fallback, discarding the original error).
pub trait FallbackExt: Sized {
    /// The success type produced when the value is present.
    type T;

    /// The value, where it is present.
    spec fn present(&self) -> Option<Self::T>;

    /// Returns `Ok(value)` if present, otherwise a temporary redirect to `uri`.
    fn ok_or_redirect(self, uri: &str) -> (r: Result<Self::T>)
        ensures
            match self.present() {
                Some(v) => r == Ok::<Self::T, FallbackError>(v),
                None => r matches Err(e) && is_redirect_to(e, TEMPORARY_REDIRECT, uri@),
            },
    ;

    /// Returns `Ok(value)` if present, otherwise a permanent redirect to `uri`.
    fn ok_or_redirect_permanent(self, uri: &str) -> (r: Result<Self::T>)
        ensures
            match self.present() {
                Some(v) => r == Ok::<Self::T, FallbackError>(v),
                None => r matches Err(e) && is_redirect_to(e, PERMANENT_REDIRECT, uri@),
            },
    ;

    /// Returns `Ok(value)` if present, otherwise a not-found response.
    fn ok_or_not_found(self) -> (r: Result<Self::T>)
        ensures
            match self.present() {
                Some(v) => r == Ok::<Self::T, FallbackError>(v),
                None => r matches Err(e) && is_not_found(e),
            },
    ;
}

impl<V> FallbackExt for Option<V> {
    type T = V;

    open spec fn present(&self) -> Option<V> {
        *self
    }

    fn ok_or_redirect(self, uri: &str) -> (r: Result<V>) {
        match self {
            Some(value) => Ok(value),
            None => Err(FallbackError::Redirect(redirect(uri))),
        }
    }

    fn ok_or_redirect_permanent(self, uri: &str) -> (r: Result<V>) {
        match self {
            Some(value) => Ok(value),
            None => Err(FallbackError::Redirect(redirect_permanent(uri))),
        }
    }

    fn ok_or_not_found(self) -> (r: Result<V>) {
        match self {
            Some(value) => Ok(value),
            None => Err(FallbackError::NotFound(not_found())),
        }
    }
}

impl<V, E> FallbackExt for core::result::Result<V, E> {
    type T = V;

    open spec fn present(&self) -> Option<V> {
        match self {
            Ok(v) => Some(*v),
            Err(_) => None,
        }
    }

    fn ok_or_redirect(self, uri: &str) -> (r: Result<V>) {
        match self {
            Ok(value) => Ok(value),
            Err(_) => Err(FallbackError::Redirect(redirect(uri))),
        }
    }

    fn ok_or_redirect_permanent(self, uri: &str) -> (r: Result<V>) {
        match self {
            Ok(value) => Ok(value),
            Err(_) => Err(FallbackError::Redirect(redirect_permanent(uri))),
        }
    }

    fn ok_or_not_found(self) -> (r: Result<V>) {
        match self {
            Ok(value) => Ok(value),
            Err(_) => Err(FallbackError::NotFound(not_found())),
        }
    }
}

} // verus!
