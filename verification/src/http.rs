//! The greeting of the health endpoint.

use vstd::prelude::*;

verus! {

/// The status that the health endpoint answers with: 201, created.
pub const HELLO_STATUS: u16 = 201;

/// The body of the health endpoint's answer.
#[derive(Debug)]
pub struct HelloResponse<'a> {
    pub message: &'a str,
}

/// The answer of the health endpoint: its status and its body.
pub fn hello() -> (answer: (u16, HelloResponse<'static>))
    ensures
        answer.0 == HELLO_STATUS,
        answer.1.message@ == "hello, wonderful"@,
{
    (HELLO_STATUS, HelloResponse { message: "hello, wonderful" })
}

} // verus!
