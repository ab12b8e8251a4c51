//! What a client asks for, and when a body is taken as such a request.

use vstd::prelude::*;
use crate::fault::InputFault;

verus! {

/// The longest body, in bytes, that is looked at.
pub const BODY_CEILING: usize = 1024;

/// Whether a body of `length` bytes is within the ceiling.
pub open spec fn within_ceiling(length: int) -> bool {
    length <= BODY_CEILING as int
}

/// Decides from its length alone whether a body is looked at.
pub fn admit_body(length: usize) -> (admitted: Result<(), InputFault>)
    ensures
        within_ceiling(length as int) ==> admitted is Ok,
        !within_ceiling(length as int) ==> admitted == Err::<(), InputFault>(InputFault::Oversized),
{
    if length > BODY_CEILING {
        Err(InputFault::Oversized)
    } else {
        Ok(())
    }
}

/// The text of an optional string.
pub open spec fn text_of(field: Option<String>) -> Option<Seq<char>> {
    match field {
        Some(s) => Some(s@),
        None => None,
    }
}

/// A request as a mathematical value.
pub struct RequestView {
    /// The package's name.
    pub name: Seq<char>,
    /// The version asked for, where the request is for one version only.
    pub version: Option<Seq<char>>,
}

/// The outcome of reading the fields `name` and `version` of a body: the
/// request they make, or what is wrong with them.
pub open spec fn request_of_fields(name: Option<Seq<char>>, version: Option<Seq<char>>) -> Result<
    RequestView,
    InputFault,
> {
    match name {
        None => Err(InputFault::MissingName),
        Some(n) => if n.len() == 0 {
            Err(InputFault::EmptyName)
        } else {
            Ok(RequestView { name: n, version })
        },
    }
}

/// The package, and optionally the one version of it, whose downloads are
/// asked for. The name is never empty.
#[derive(Debug)]
pub struct DownloadRequest {
    name: String,
    version: Option<String>,
}

impl View for DownloadRequest {
    type V = RequestView;

    closed spec fn view(&self) -> RequestView {
        RequestView { name: self.name@, version: text_of(self.version) }
    }
}

impl DownloadRequest {
    /// The name is not empty. Every `DownloadRequest` that the program holds
    /// is well formed.
    #[verifier::type_invariant]
    pub open spec fn wf(&self) -> bool {
        self@.name.len() > 0
    }

    /// The request made of a body's fields, each `None` where the body does
    /// not have it. Neither string is changed in any way.
    pub fn from_fields(name: Option<String>, version: Option<String>) -> (request: Result<
        DownloadRequest,
        InputFault,
    >)
        ensures
            request matches Ok(r) ==> r.wf() && request_of_fields(text_of(name), text_of(version))
                == Ok::<RequestView, InputFault>(r@),
            request matches Err(fault) ==> request_of_fields(text_of(name), text_of(version))
                == Err::<RequestView, InputFault>(fault),
    {
        match name {
            None => Err(InputFault::MissingName),
            Some(n) => {
                if n.as_str().is_empty() {
                    Err(InputFault::EmptyName)
                } else {
                    Ok(DownloadRequest { name: n, version })
                }
            },
        }
    }

    /// The package's name.
    pub fn name(&self) -> (name: &String)
        ensures
            name@ == self@.name,
    {
        &self.name
    }

    /// The version asked for, where the request is for one version only.
    pub fn version(&self) -> (version: &Option<String>)
        ensures
            text_of(*version) == self@.version,
    {
        &self.version
    }
}

impl Clone for DownloadRequest {
    fn clone(&self) -> (copy: DownloadRequest)
        ensures
            copy@ == self@,
    {
        proof {
            use_type_invariant(self);
        }
        let version = match &self.version {
            Some(v) => Some(v.clone()),
            None => None,
        };
        DownloadRequest { name: self.name.clone(), version }
    }
}

} // verus!
