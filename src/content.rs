//! The reference text served to typing sessions.

use vstd::prelude::*;

use crate::text::{normalize_body, normalized};

verus! {

/// A reference text with where it came from and when it was fetched.
#[derive(Clone, Debug, PartialEq, Eq)]
pub struct Content {
    pub title: Option<String>,
    pub body: String,
    pub sources: Vec<String>,
    /// Epoch seconds at which the text was fetched.
    pub fetched_at: i64,
}

/// Mathematical model of a [`Content`].
pub struct ContentView {
    pub title: Option<Seq<char>>,
    pub body: Seq<char>,
    pub sources: Seq<Seq<char>>,
    pub fetched_at: int,
}

impl ContentView {
    /// The same content with its body normalized for typing.
    pub open spec fn normalized(self) -> ContentView {
        ContentView { body: normalized(self.body), ..self }
    }
}

/// View of an optional string.
pub open spec fn opt_view(o: Option<String>) -> Option<Seq<char>> {
    match o {
        Some(s) => Some(s@),
        None => None,
    }
}

impl View for Content {
    type V = ContentView;

    open spec fn view(&self) -> ContentView {
        ContentView {
            title: opt_view(self.title),
            body: self.body@,
            sources: self.sources.deep_view(),
            fetched_at: self.fetched_at as int,
        }
    }
}

/// Why a fetch of new content gave nothing.
#[derive(Clone, Debug, PartialEq, Eq)]
pub enum FetchError {
    /// The upstream store could not be reached or refused the query.
    Upstream(String),
    /// The upstream store answered but holds no content.
    Empty,
}

/// Title of the built-in content.
pub const DEFAULT_TITLE: &'static str = "The Rust Programming Language";

/// Source of the built-in content.
pub const DEFAULT_SOURCE: &'static str = "https://doc.rust-lang.org/book/";

/// Body of the built-in content, served until a fetch succeeds.
pub const DEFAULT_BODY: &'static str = "the rust programming language helps you write faster and more reliable software \
    high level ergonomics and low level control are often at odds in programming language design \
    rust challenges that conflict by balancing powerful technical capacity and a great developer experience \
    rust gives you the option to control low level details such as memory usage without all the hassle \
    traditionally associated with such control";

/// The built-in content.
pub open spec fn default_view() -> ContentView {
    ContentView {
        title: Some(DEFAULT_TITLE@),
        body: DEFAULT_BODY@,
        sources: seq![DEFAULT_SOURCE@],
        fetched_at: 0,
    }
}

/// Copies every string of `v`.
pub fn copy_strings(v: &Vec<String>) -> (r: Vec<String>)
    ensures
        r.deep_view() == v.deep_view(),
{
    let mut r: Vec<String> = Vec::new();
    let mut i: usize = 0;
    while i < v.len()
        invariant
            i <= v.len(),
            r.deep_view() == v.deep_view().take(i as int),
        decreases v.len() - i,
    {
        let s = v[i].clone();
        let ghost before = r.deep_view();
        r.push(s);
        assert(r.deep_view() =~= before.push(s@));
        assert(r.deep_view() =~= v.deep_view().take(i + 1));
        i = i + 1;
    }
    assert(v.deep_view().take(v.len() as int) =~= v.deep_view());
    r
}

impl Content {
    /// The built-in content, used before any fetch has succeeded.
    pub fn builtin() -> (r: Content)
        ensures
            r@ == default_view(),
    {
        let mut sources: Vec<String> = Vec::new();
        sources.push(String::from_str(DEFAULT_SOURCE));
        assert(sources.deep_view() =~= seq![DEFAULT_SOURCE@]);
        Content {
            title: Some(String::from_str(DEFAULT_TITLE)),
            body: String::from_str(DEFAULT_BODY),
            sources,
            fetched_at: 0,
        }
    }

    /// A copy of this content.
    pub fn duplicate(&self) -> (r: Content)
        ensures
            r@ == self@,
    {
        let title = match &self.title {
            Some(t) => Some(t.clone()),
            None => None,
        };
        Content {
            title,
            body: self.body.clone(),
            sources: copy_strings(&self.sources),
            fetched_at: self.fetched_at,
        }
    }

    /// This content with its body made ready for typing: newlines become
    /// spaces, and commas, periods, colons and semicolons are removed.
    pub fn normalized(self) -> (r: Content)
        ensures
            r@ == self@.normalized(),
    {
        let body = normalize_body(self.body.as_str());
        Content { body, ..self }
    }
}

} // verus!
