//! Message body: plain text and/or HTML.

use vstd::prelude::*;

verus! {

/// Plain text and/or HTML body parts.
#[derive(Clone, Debug, PartialEq, Eq)]
pub struct Body {
    text: Option<String>,
    html: Option<String>,
}

/// View of an optional string.
pub open spec fn opt_view(o: Option<String>) -> Option<Seq<char>> {
    match o {
        Some(s) => Some(s@),
        None => None,
    }
}

impl Body {
    pub closed spec fn text_view(&self) -> Option<Seq<char>> {
        opt_view(self.text)
    }

    pub closed spec fn html_view(&self) -> Option<Seq<char>> {
        opt_view(self.html)
    }

    /// No parts.
    pub fn empty() -> (b: Body)
        ensures
            b.text_view() is None,
            b.html_view() is None,
    {
        Body { text: None, html: None }
    }

    /// Text part only.
    pub fn text(body: &str) -> (b: Body)
        ensures
            b.text_view() == Some(body@),
            b.html_view() is None,
    {
        Body { text: Some(body.to_owned()), html: None }
    }

    /// HTML part only.
    pub fn html(body: &str) -> (b: Body)
        ensures
            b.text_view() is None,
            b.html_view() == Some(body@),
    {
        Body { text: None, html: Some(body.to_owned()) }
    }

    /// Both parts.
    pub fn both(text: &str, html: &str) -> (b: Body)
        ensures
            b.text_view() == Some(text@),
            b.html_view() == Some(html@),
    {
        Body { text: Some(text.to_owned()), html: Some(html.to_owned()) }
    }

    /// This body with its text part replaced.
    pub fn with_text(self, text: &str) -> (b: Body)
        ensures
            b.text_view() == Some(text@),
            b.html_view() == self.html_view(),
    {
        Body { text: Some(text.to_owned()), html: self.html }
    }

    /// This body with its HTML part replaced.
    pub fn with_html(self, html: &str) -> (b: Body)
        ensures
            b.text_view() == self.text_view(),
            b.html_view() == Some(html@),
    {
        Body { text: self.text, html: Some(html.to_owned()) }
    }

    /// Text part, when set.
    pub fn text_part(&self) -> (r: Option<&str>)
        ensures
            match r {
                Some(t) => self.text_view() == Some(t@),
                None => self.text_view() is None,
            },
    {
        match &self.text {
            Some(t) => Some(t.as_str()),
            None => None,
        }
    }

    /// HTML part, when set.
    pub fn html_part(&self) -> (r: Option<&str>)
        ensures
            match r {
                Some(t) => self.html_view() == Some(t@),
                None => self.html_view() is None,
            },
    {
        match &self.html {
            Some(t) => Some(t.as_str()),
            None => None,
        }
    }

    /// Whether neither part is set.
    pub fn is_empty(&self) -> (r: bool)
        ensures
            r == (self.text_view() is None && self.html_view() is None),
    {
        self.text.is_none() && self.html.is_none()
    }
}

} // verus!
