use vstd::prelude::*;

verus! {

/// The parts of an HTTP response that the workflows decide.
pub struct Reply {
    pub status: u16,
    /// Target of a redirect.
    pub location: Option<String>,
    /// Value of the `WWW-Authenticate` header.
    pub www_authenticate: Option<String>,
    /// An informational message shown on the next page.
    pub flash: Option<String>,
}

/// A `303 See Other` redirect to `location`.
pub open spec fn is_redirect_to(reply: Reply, location: Seq<char>) -> bool {
    &&& reply.status == 303
    &&& reply.location matches Some(l) && l@ == location
    &&& reply.www_authenticate is None
}

/// Redirects to `location`.
pub fn see_other(location: &str) -> (r: Reply)
    ensures
        is_redirect_to(r, location@),
        r.flash is None,
{
    Reply {
        status: 303,
        location: Some(String::from_str(location)),
        www_authenticate: None,
        flash: None,
    }
}

} // verus!
