//! The query that answers a request: one text for every package, with the
//! request's strings bound to its placeholders.

use vstd::prelude::*;
use vstd::string::*;
use crate::request::{DownloadRequest, RequestView};

verus! {

/// Joins the packages to their versions and those to the per-day counters,
/// keeps the package bound to the first placeholder, and asks for each day's
/// sum of the counters.
pub const TOTALS_OF_PACKAGE: &'static str =
    "SELECT version_downloads.date, sum(version_downloads.downloads) \
     FROM crates \
     JOIN versions ON crates.id = versions.crate_id \
     JOIN version_downloads ON versions.id = version_downloads.version_id \
     WHERE crates.name = $1";

/// Keeps the version bound to the second placeholder.
pub const ONLY_VERSION: &'static str = " AND versions.num = $2";

/// One row for each day, the earliest day first.
pub const BY_DAY_ASCENDING: &'static str =
    " GROUP BY version_downloads.date ORDER BY version_downloads.date ASC";

/// A query as a mathematical value.
pub struct QueryView {
    /// The text sent to the store.
    pub text: Seq<char>,
    /// The values bound to the text's placeholders, the first placeholder's first.
    pub params: Seq<Seq<char>>,
}

/// The query's text: it depends only on whether one version is asked for.
pub open spec fn query_text(one_version: bool) -> Seq<char> {
    if one_version {
        TOTALS_OF_PACKAGE@ + ONLY_VERSION@ + BY_DAY_ASCENDING@
    } else {
        TOTALS_OF_PACKAGE@ + BY_DAY_ASCENDING@
    }
}

/// The query that answers `request`.
pub open spec fn query_of(request: RequestView) -> QueryView {
    match request.version {
        Some(version) => QueryView { text: query_text(true), params: seq![request.name, version] },
        None => QueryView { text: query_text(false), params: seq![request.name] },
    }
}

/// The text of each string of `strings`, in order.
pub open spec fn texts_of(strings: Seq<String>) -> Seq<Seq<char>> {
    Seq::new(strings.len(), |i: int| strings[i]@)
}

/// A query text and the values bound to its placeholders.
#[derive(Debug)]
pub struct Query {
    text: String,
    params: Vec<String>,
}

impl View for Query {
    type V = QueryView;

    closed spec fn view(&self) -> QueryView {
        QueryView { text: self.text@, params: texts_of(self.params@) }
    }
}

impl Query {
    /// The text sent to the store.
    pub fn text(&self) -> (text: &String)
        ensures
            text@ == self@.text,
    {
        &self.text
    }

    /// The values bound to the text's placeholders, the first placeholder's first.
    pub fn params(&self) -> (params: &Vec<String>)
        ensures
            texts_of(params@) == self@.params,
    {
        &self.params
    }
}

/// Builds the query that answers `request`. The version's condition and its
/// value are added to the one text and the one list where the request has a
/// version; the request's strings go into the list unchanged and never into
/// the text.
pub fn build_query(request: &DownloadRequest) -> (query: Query)
    ensures
        query@ == query_of(request@),
{
    let mut text = String::from_str(TOTALS_OF_PACKAGE);
    let mut params: Vec<String> = Vec::new();
    params.push(request.name().clone());
    match request.version() {
        Some(version) => {
            text.append(ONLY_VERSION);
            params.push(version.clone());
            assert(texts_of(params@) =~= seq![request@.name, version@]);
        },
        None => {
            assert(texts_of(params@) =~= seq![request@.name]);
        },
    }
    text.append(BY_DAY_ASCENDING);
    Query { text, params }
}

/// Two requests that both name a version, or both name none, are answered by
/// the same text, whatever their strings hold.
pub proof fn lemma_text_ignores_values(a: RequestView, b: RequestView)
    requires
        a.version is Some <==> b.version is Some,
    ensures
        query_of(a).text == query_of(b).text,
{
}

/// Every value of the request is bound once, in the order of the
/// placeholders: the name first, then the version where there is one.
pub proof fn lemma_params_are_the_request(request: RequestView)
    ensures
        query_of(request).params.len() == if request.version is Some { 2nat } else { 1nat },
        query_of(request).params[0] == request.name,
        request.version matches Some(version) ==> query_of(request).params[1] == version,
{
}

} // verus!
