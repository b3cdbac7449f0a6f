use vstd::prelude::*;

verus! {

/// What a request carries for the application: a dictionary entry as its
/// word, its frequency and its translation.
#[derive(Debug)]
pub enum ApplicationRequest {
    Word((String, u32, String)),
}

/// The value of an entry carried by a request.
pub type WordData = (Seq<char>, u32, Seq<char>);

pub open spec fn view_request_data(d: Option<ApplicationRequest>) -> Option<WordData> {
    match d {
        Some(ApplicationRequest::Word((w, f, t))) => Some((w@, f, t@)),
        None => None,
    }
}

} // verus!
