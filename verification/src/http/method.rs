//! HTTP request methods.

use vstd::prelude::*;

use crate::http::error::HttpError;
use crate::http::headers::{lower, to_ascii_lowercase};
use crate::text::str_eq;

verus! {

/// Request method.
#[derive(Clone, Copy, Debug, PartialEq, Eq, Structural, Hash)]
pub enum Method {
    Get,
    Head,
    Post,
    Put,
    Patch,
    Delete,
    Options,
}

/// Upper-case token of a method.
pub open spec fn method_token(m: Method) -> Seq<char> {
    match m {
        Method::Get => seq!['G', 'E', 'T'],
        Method::Head => seq!['H', 'E', 'A', 'D'],
        Method::Post => seq!['P', 'O', 'S', 'T'],
        Method::Put => seq!['P', 'U', 'T'],
        Method::Patch => seq!['P', 'A', 'T', 'C', 'H'],
        Method::Delete => seq!['D', 'E', 'L', 'E', 'T', 'E'],
        Method::Options => seq!['O', 'P', 'T', 'I', 'O', 'N', 'S'],
    }
}

/// The method whose token equals `s` ignoring ASCII case.
pub open spec fn parse_method(s: Seq<char>) -> Option<Method> {
    if lower(s) == lower(method_token(Method::Get)) {
        Some(Method::Get)
    } else if lower(s) == lower(method_token(Method::Head)) {
        Some(Method::Head)
    } else if lower(s) == lower(method_token(Method::Post)) {
        Some(Method::Post)
    } else if lower(s) == lower(method_token(Method::Put)) {
        Some(Method::Put)
    } else if lower(s) == lower(method_token(Method::Patch)) {
        Some(Method::Patch)
    } else if lower(s) == lower(method_token(Method::Delete)) {
        Some(Method::Delete)
    } else if lower(s) == lower(method_token(Method::Options)) {
        Some(Method::Options)
    } else {
        None
    }
}

impl Method {
    /// Upper-case token (`GET`, `POST`, ...).
    pub fn as_str(&self) -> (r: &'static str)
        ensures
            r@ == method_token(*self),
    {
        match self {
            Method::Get => {
                proof {
                    reveal_strlit("GET");
                }
                "GET"
            },
            Method::Head => {
                proof {
                    reveal_strlit("HEAD");
                }
                "HEAD"
            },
            Method::Post => {
                proof {
                    reveal_strlit("POST");
                }
                "POST"
            },
            Method::Put => {
                proof {
                    reveal_strlit("PUT");
                }
                "PUT"
            },
            Method::Patch => {
                proof {
                    reveal_strlit("PATCH");
                }
                "PATCH"
            },
            Method::Delete => {
                proof {
                    reveal_strlit("DELETE");
                }
                "DELETE"
            },
            Method::Options => {
                proof {
                    reveal_strlit("OPTIONS");
                }
                "OPTIONS"
            },
        }
    }

    /// Parses a method token in any ASCII case.
    pub fn parse(s: &str) -> (r: Option<Method>)
        ensures
            r == parse_method(s@),
    {
        let l = to_ascii_lowercase(s);
        let all = [
            Method::Get,
            Method::Head,
            Method::Post,
            Method::Put,
            Method::Patch,
            Method::Delete,
            Method::Options,
        ];
        let mut i: usize = 0;
        while i < 7
            invariant
                i <= 7,
                all@ == seq![
                    Method::Get,
                    Method::Head,
                    Method::Post,
                    Method::Put,
                    Method::Patch,
                    Method::Delete,
                    Method::Options,
                ],
                l@ == lower(s@),
                forall|j: int| 0 <= j < i ==> lower(s@) != lower(method_token(#[trigger] all@[j])),
            decreases 7 - i,
        {
            let m = all[i];
            let t = to_ascii_lowercase(m.as_str());
            if str_eq(l.as_str(), t.as_str()) {
                return Some(m);
            }
            i = i + 1;
        }
        None
    }

    /// Same as [`Method::as_str`] (the `Display` text).
    pub fn to_text(&self) -> (r: String)
        ensures
            r@ == method_token(*self),
    {
        self.as_str().to_owned()
    }
}

impl std::str::FromStr for Method {
    type Err = HttpError;

    fn from_str(s: &str) -> (r: Result<Method, HttpError>)
        ensures
            match parse_method(s@) {
                Some(m) => r == Ok::<Method, HttpError>(m),
                None => r matches Err(e) && e.status_view() == 400 && e.message_view()
                    == "unsupported HTTP method"@,
            },
    {
        match Method::parse(s) {
            Some(m) => Ok(m),
            None => Err(HttpError::bad_request("unsupported HTTP method")),
        }
    }
}

} // verus!
