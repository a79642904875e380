//! Markers for how a request body was encoded.

use vstd::prelude::*;
use std::ops::Deref;

verus! {

/// A value that came in as a URL-encoded form.
pub struct FormUrlEncoded<T>(pub T);

impl<T> AsRef<T> for FormUrlEncoded<T> {
    fn as_ref(&self) -> (value: &T)
        ensures
            *value == self.0,
    {
        &self.0
    }
}

impl<T> Deref for FormUrlEncoded<T> {
    type Target = T;

    fn deref(&self) -> (value: &T)
        ensures
            *value == self.0,
    {
        &self.0
    }
}

/// A value that came in as JSON.
pub struct JsonBody<T>(pub T);

impl<T> AsRef<T> for JsonBody<T> {
    fn as_ref(&self) -> (value: &T)
        ensures
            *value == self.0,
    {
        &self.0
    }
}

impl<T> Deref for JsonBody<T> {
    type Target = T;

    fn deref(&self) -> (value: &T)
        ensures
            *value == self.0,
    {
        &self.0
    }
}

} // verus!
