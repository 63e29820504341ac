//! HTTP status codes as plain numbers, with the rule that tells a healthy
//! answer from an unhealthy one.

use vstd::prelude::*;

verus! {

/// Whether `code` lies in the range that a status code may take.
pub open spec fn is_status_code(code: u16) -> bool {
    100 <= code < 1000
}

/// Whether `code` reports success (the 2xx class).
pub open spec fn is_success_code(code: u16) -> bool {
    200 <= code < 300
}

/// The text that `http::StatusCode` displays for `code`: the number, a space
/// and the canonical reason phrase. Defined for codes from 100 to 999.
pub uninterp spec fn status_line(code: u16) -> Seq<char>;

/// An HTTP status code between 100 and 999.
#[derive(Clone, Copy, Debug)]
pub struct Status {
    code: u16,
}

impl View for Status {
    type V = u16;

    closed spec fn view(&self) -> u16 {
        self.code
    }
}

impl DeepView for Status {
    type V = u16;

    open spec fn deep_view(&self) -> u16 {
        self@
    }
}

impl Status {
    #[verifier::type_invariant]
    spec fn in_range(self) -> bool {
        is_status_code(self.code)
    }

    /// Accepts `code` if it lies between 100 and 999.
    pub fn new(code: u16) -> (r: Option<Status>)
        ensures
            r is Some <==> is_status_code(code),
            r matches Some(s) ==> s@ == code,
    {
        if 100 <= code && code < 1000 {
            Some(Status { code })
        } else {
            None
        }
    }

    /// The numeric code.
    pub fn code(&self) -> (r: u16)
        ensures
            r == self@,
            is_status_code(r),
    {
        proof {
            use_type_invariant(self);
        }
        self.code
    }

    /// Whether the code is in the 2xx class.
    pub fn is_success(&self) -> (r: bool)
        ensures
            r == is_success_code(self@),
    {
        200 <= self.code && self.code < 300
    }

    /// The code followed by its canonical reason phrase, such as `200 OK`.
    pub fn text(&self) -> (r: String)
        ensures
            r@ == status_line(self@),
    {
        proof {
            use_type_invariant(self);
        }
        display_status(self.code)
    }
}

/// Calls `StatusCode::from_u16` and formats the result with its `Display`
/// impl. The contract claims only that the text is a function of the code.
/// `from_u16` rejects codes outside 100..=999, which `requires` leaves out.
#[verifier::external_body]
fn display_status(code: u16) -> (r: String)
    requires
        is_status_code(code),
    ensures
        r@ == status_line(code),
{
    match reqwest::StatusCode::from_u16(code) {
        Ok(status) => status.to_string(),
        Err(_) => String::new(),
    }
}

} // verus!
