use vstd::prelude::*;

verus! {

/// A persisted short link. The store assigns `id`; `created_at` is the
/// creation time in seconds since the Unix epoch, set once and never changed.
#[derive(Debug)]
pub struct Url {
    pub id: i32,
    pub original_url: String,
    pub short_code: String,
    pub created_at: i64,
}

/// The payload of one insert attempt: a candidate short code paired with the
/// long URL it should map to.
#[derive(Debug)]
pub struct NewUrl {
    pub original_url: String,
    pub short_code: String,
}

} // verus!
