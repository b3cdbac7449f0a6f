use vstd::prelude::*;

verus! {

/// The request methods the dictionary answers.
#[derive(Debug, Clone, Copy, PartialEq, Eq, Structural)]
pub enum HttpMethod {
    Get,
    Post,
    Put,
    Delete,
}

} // verus!
