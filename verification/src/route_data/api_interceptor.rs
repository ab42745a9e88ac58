//! The credentials that every request to the routes service carries.
use vstd::prelude::*;

verus! {

/// The API key and the field mask that are added, as headers, to each
/// request sent to the routes service.
#[derive(Clone, Copy, Debug)]
pub struct GoogleRoutesApiInterceptor {
    pub api_key: &'static str,
    pub field_mask: &'static str,
}

impl GoogleRoutesApiInterceptor {
    /// The header that carries the API key.
    pub fn api_key_header() -> (r: &'static str)
        ensures
            r@ == "X-Goog-Api-Key"@,
    {
        "X-Goog-Api-Key"
    }

    /// The header that carries the field mask.
    pub fn field_mask_header() -> (r: &'static str)
        ensures
            r@ == "X-Goog-FieldMask"@,
    {
        "X-Goog-FieldMask"
    }

    /// The interceptor that adds `api_key` and `field_mask` to requests.
    pub fn new(api_key: &'static str, field_mask: &'static str) -> (r: Self)
        ensures
            r.api_key@ == api_key@,
            r.field_mask@ == field_mask@,
    {
        GoogleRoutesApiInterceptor { api_key, field_mask }
    }
}

} // verus!
