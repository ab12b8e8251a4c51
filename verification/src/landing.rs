//! The landing page: one template, shown as it was rendered.
//!
//! The template engine is called by the program that embeds the crate: a
//! template can make the engine panic, and nothing in this crate does. What
//! the engine gave back is turned into a page here.

use vstd::prelude::*;
use vstd::string::*;
use crate::fault::{STATUS_INTERNAL, STATUS_OK};

verus! {

/// The error of the `tera` crate. Nothing is known here of what it holds.
#[verifier::external_type_specification]
#[verifier::external_body]
pub struct ExTeraError(tera::Error);

/// The name of the landing page's template. It is rendered without a variable.
pub const LANDING_TEMPLATE: &'static str = "index.html";

/// The content type of a rendered page.
pub const HTML: &'static str = "text/html";

/// The content type of the note sent where the page cannot be rendered.
pub const PLAIN_TEXT: &'static str = "text/plain; charset=utf-8";

/// The note sent where the page cannot be rendered.
pub const TEMPLATE_ERROR: &'static str = "template error";

/// A page as a mathematical value.
pub struct PageView {
    /// The status.
    pub status: int,
    /// The content type.
    pub content_type: Seq<char>,
    /// The text sent.
    pub body: Seq<char>,
}

/// The page that shows `html`.
pub open spec fn shown(html: Seq<char>) -> PageView {
    PageView { status: 200, content_type: HTML@, body: html }
}

/// The page sent where the template cannot be rendered: status 500 and a
/// fixed note, with nothing of the cause in it.
pub open spec fn not_rendered() -> PageView {
    PageView { status: 500, content_type: PLAIN_TEXT@, body: TEMPLATE_ERROR@ }
}

/// A page to send: status, content type and text.
#[derive(Debug)]
pub struct Page {
    status: u16,
    content_type: String,
    body: String,
}

impl View for Page {
    type V = PageView;

    closed spec fn view(&self) -> PageView {
        PageView { status: self.status as int, content_type: self.content_type@, body: self.body@ }
    }
}

impl Page {
    /// The status.
    pub fn status(&self) -> (status: u16)
        ensures
            status as int == self@.status,
    {
        self.status
    }

    /// The content type.
    pub fn content_type(&self) -> (content_type: &String)
        ensures
            content_type@ == self@.content_type,
    {
        &self.content_type
    }

    /// The text sent.
    pub fn body(&self) -> (body: &String)
        ensures
            body@ == self@.body,
    {
        &self.body
    }
}

/// The page for what the template engine gave back: the rendered text as
/// HTML, or, whatever the error, the note with status 500.
pub fn page_for(rendered: Result<String, tera::Error>) -> (page: Page)
    ensures
        rendered matches Ok(html) ==> page@ == shown(html@),
        rendered is Err ==> page@ == not_rendered(),
{
    match rendered {
        Ok(html) => Page { status: STATUS_OK, content_type: String::from_str(HTML), body: html },
        Err(_) => Page {
            status: STATUS_INTERNAL,
            content_type: String::from_str(PLAIN_TEXT),
            body: String::from_str(TEMPLATE_ERROR),
        },
    }
}

} // verus!
