//! Answering a request on a route: a header redirect, or an HTML page that
//! redirects on the client.
use vstd::prelude::*;
use std::sync::Arc;
use crate::rule::{RedirEntry, RuleView};

verus! {

/// A response: status, at most one header, and a body.
pub struct Reply {
    pub status: u16,
    /// The one header of the response, as name and value.
    pub header: Option<(String, String)>,
    pub body: String,
}

/// The mathematical value of a [`Reply`].
pub struct ReplyView {
    pub status: u16,
    pub header: Option<(Seq<char>, Seq<char>)>,
    pub body: Seq<char>,
}

impl View for Reply {
    type V = ReplyView;

    open spec fn view(&self) -> ReplyView {
        ReplyView {
            status: self.status,
            header: match self.header {
                Some(h) => Some((h.0@, h.1@)),
                None => None,
            },
            body: self.body@,
        }
    }
}

/// The query string carried over to the target: the request's own, or
/// empty where the rule does not keep it or the request has none.
pub open spec fn kept_query(rule: RuleView, query: Option<Seq<char>>) -> Seq<char> {
    if rule.preserve_params {
        match query {
            Some(q) => q,
            None => seq![],
        }
    } else {
        seq![]
    }
}

/// The target, followed by `?` and the kept query where that is not empty.
pub open spec fn effective_target(rule: RuleView, query: Option<Seq<char>>) -> Seq<char> {
    let q = kept_query(rule, query);
    if q.len() == 0 {
        rule.target
    } else {
        rule.target + "?"@ + q
    }
}

/// The HTML page that sends its reader on to `url`: the fixed page with its
/// two `{REDIRECT_URL}` places filled in.
pub open spec fn redirect_page(url: Seq<char>) -> Seq<char> {
    "<!DOCTYPE html><html><head><meta http-equiv=\"refresh\" content=\"0;url="@ + url
        + "\"><title>Redirecting...</title></head><body><p>If you are not redirected, <a href=\""@
        + url + "\">click here</a>.</p></body></html>"@
}

/// What a rule answers to a request with the given query string.
pub open spec fn reply_for(rule: RuleView, query: Option<Seq<char>>) -> ReplyView {
    let url = effective_target(rule, query);
    if rule.js_only {
        ReplyView {
            status: 200,
            header: Some(("Content-Type"@, "text/html"@)),
            body: redirect_page(url),
        }
    } else {
        ReplyView { status: rule.code, header: Some(("Location"@, url)), body: seq![] }
    }
}

/// The answer on a path that no rule serves.
pub open spec fn not_found_reply() -> ReplyView {
    ReplyView { status: 404, header: None, body: seq![] }
}

/// The value of an optional string.
pub open spec fn opt_view(q: Option<&str>) -> Option<Seq<char>> {
    match q {
        Some(s) => Some(s@),
        None => None,
    }
}

/// Answers a path that no rule serves: 404, empty body.
pub fn error_handler() -> (r: Reply)
    ensures
        r@ == not_found_reply(),
{
    Reply { status: 404, header: None, body: String::new() }
}

/// Builds the HTML page that sends its reader on to `url`.
pub fn page_for(url: &str) -> (r: String)
    ensures
        r@ == redirect_page(url@),
{
    let mut page = String::from_str(
        "<!DOCTYPE html><html><head><meta http-equiv=\"refresh\" content=\"0;url=",
    );
    page.append(url);
    page.append(
        "\"><title>Redirecting...</title></head><body><p>If you are not redirected, <a href=\"",
    );
    page.append(url);
    page.append("\">click here</a>.</p></body></html>");
    page
}

/// The request handler of one route: it answers for one rule, which it
/// shares with the routes of the rule's other paths.
pub struct RedirEntryHandler {
    entry: Arc<RedirEntry>,
}

impl View for RedirEntryHandler {
    type V = RuleView;

    closed spec fn view(&self) -> RuleView {
        (*self.entry)@
    }
}

impl RedirEntryHandler {
    pub fn new(entry: Arc<RedirEntry>) -> (r: RedirEntryHandler)
        ensures
            r@ == (*entry)@,
    {
        RedirEntryHandler { entry }
    }

    /// The rule this handler answers for.
    pub fn entry(&self) -> (r: &RedirEntry)
        ensures
            r@ == self@,
    {
        &self.entry
    }

    /// Answers a request whose query string is `query` (`None` where the
    /// request has none).
    pub fn handle(&self, query: Option<&str>) -> (r: Reply)
        ensures
            r@ == reply_for(self@, opt_view(query)),
    {
        let entry: &RedirEntry = &self.entry;
        let params: &str = if entry.preserve_params {
            match query {
                Some(q) => q,
                None => "",
            }
        } else {
            ""
        };
        proof {
            reveal_strlit("");
        }
        let target = if params.unicode_len() == 0 {
            entry.target.clone()
        } else {
            let mut t = entry.target.clone();
            t.append("?");
            t.append(params);
            t
        };
        if entry.js_only {
            let page = page_for(target.as_str());
            Reply {
                status: 200,
                header: Some((String::from_str("Content-Type"), String::from_str("text/html"))),
                body: page,
            }
        } else {
            Reply {
                status: entry.code,
                header: Some((String::from_str("Location"), target)),
                body: String::new(),
            }
        }
    }
}

} // verus!
