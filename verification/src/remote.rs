//! Decisions over remote responses: which HTTP statuses count as success,
//! and the error a failed credential validation carries. The requests
//! themselves are the driver's business.
use crate::errors::DredgerError;
use crate::text::dec_str;
use vstd::prelude::*;

verus! {

/// The message a failed request carries: the status code and the response
/// body.
pub open spec fn request_failed_msg(status: int, body: Seq<char>) -> Seq<char> {
    "Request failed with status "@ + dec_str(status) + ": "@ + body
}

/// Judge a credential-validation response: a 2xx status passes, anything
/// else fails with the status and body for diagnostics.
pub fn validation_outcome(status: u16, body: &str) -> (r: Result<(), DredgerError>)
    ensures
        (200 <= status < 300) <==> r is Ok,
        r matches Err(e) ==> (e matches DredgerError::GithubClientError(m) && m@
            == request_failed_msg(status as int, body@)),
{
    if 200 <= status && status < 300 {
        Ok(())
    } else {
        let mut m = "Request failed with status ".to_owned();
        let digits = crate::text::u64_to_dec(status as u64);
        m.append(digits.as_str());
        m.append(": ");
        m.append(body);
        Err(DredgerError::GithubClientError(m))
    }
}

} // verus!
