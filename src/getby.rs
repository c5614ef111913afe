use vstd::prelude::*;

verus! {

/// The kind of identifier a single-profile lookup is keyed by.
pub enum GetBy {
    Uuid,
    UserId,
    PrimaryEmail,
    PrimaryUsername,
}

/// The path segment that selects a lookup kind on the profile endpoint.
pub open spec fn get_by_segment(by: GetBy) -> Seq<char> {
    match by {
        GetBy::Uuid => "uuid/"@,
        GetBy::UserId => "user_id/"@,
        GetBy::PrimaryEmail => "primary_email/"@,
        GetBy::PrimaryUsername => "primary_username/"@,
    }
}

impl GetBy {
    pub fn as_str(self: &GetBy) -> (r: &'static str)
        ensures
            r@ == get_by_segment(*self),
    {
        match self {
            GetBy::Uuid => "uuid/",
            GetBy::UserId => "user_id/",
            GetBy::PrimaryEmail => "primary_email/",
            GetBy::PrimaryUsername => "primary_username/",
        }
    }
}

} // verus!
