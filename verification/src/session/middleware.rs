//! Session handling around a request: open before the handler, commit after.

use vstd::prelude::*;

use crate::http::attributes::{typed_get, Attribute, AttributeValue};
use crate::http::error::HttpError;
use crate::http::headers::lower;
use crate::http::kernel::{Middleware, RequestHandler};
use crate::http::request::Request;
use crate::http::response::Response;
use crate::session::cookie::{cookie_value, is_session_id, set_cookie_text, CookieOptionsView, CookieSession};
use crate::session::error::{session_error_text, SessionError};
use crate::session::session::Session;
use crate::session::store::SessionStore;

verus! {

/// Request attribute key where the session middleware stores the [`Session`].
pub const SESSION_ATTRIBUTE: &'static str = "_serenade_session";

/// Loads a session before the handler and commits it afterward (sync kernel).
pub struct SessionMiddleware<S: SessionStore + ?Sized = dyn SessionStore> {
    cookies: CookieSession<S>,
}

impl<S: SessionStore + ?Sized> SessionMiddleware<S> {
    /// Middleware bound to `cookies` (store + cookie options).
    pub fn new(cookies: CookieSession<S>) -> (m: SessionMiddleware<S>)
        ensures
            m.cookies_view() == cookies,
    {
        SessionMiddleware { cookies }
    }

    pub closed spec fn cookies_view(&self) -> CookieSession<S> {
        self.cookies
    }

    /// Cookie session helper used by this middleware.
    pub fn cookies(&self) -> (r: &CookieSession<S>)
        ensures
            *r == self.cookies_view(),
    {
        &self.cookies
    }
}

impl<S: SessionStore + ?Sized> Middleware for SessionMiddleware<S> {
    /// Opens the session into the request, runs the rest of the chain, then
    /// commits the session the request still holds.  A failure to open or to
    /// commit is a 500 error; the handler's error is passed on.
    fn process(&self, request: &mut Request, next: &dyn RequestHandler) -> (r: Result<
        Response,
        HttpError,
    >)
        ensures
            r matches Ok(out) ==> exists|opened: Request, handled: Request, response: Response|
                #![trigger next.handles(opened, handled, Ok::<Response, HttpError>(response))]
                {
                    &&& opened_into(self.cookies_view(), *old(request), opened)
                    &&& next.handles(opened, handled, Ok::<Response, HttpError>(response))
                    &&& committed_from(
                        self.cookies_view().options_view(),
                        handled,
                        response,
                        *final(request),
                        out,
                    )
                },
            r matches Err(e) ==> {
                ||| e.status_view() == 500 && final(request).attributes_view() == old(
                    request,
                ).attributes_view()
                ||| exists|opened: Request|
                    #![trigger opened_into(self.cookies_view(), *old(request), opened)]
                    {
                        &&& opened_into(self.cookies_view(), *old(request), opened)
                        &&& {
                            ||| next.handles(opened, *final(request), r)
                            ||| e.status_view() == 500 && exists|handled: Request, response: Response|
                                #![trigger next.handles(opened, handled, Ok::<Response, HttpError>(response))]
                                next.handles(opened, handled, Ok::<Response, HttpError>(response))
                                    && final(request).attributes_view()
                                    == handled.attributes_view().remove(SESSION_ATTRIBUTE@)
                        }
                    }
            },
    {
        let ghost before = *request;
        match open_into_request(&self.cookies, request) {
            Ok(()) => {},
            Err(e) => {
                return Err(e);
            },
        }
        let ghost opened = *request;
        let handled_result = next.handle(request);
        let ghost handled = *request;
        let mut response = match handled_result {
            Ok(resp) => resp,
            Err(e) => {
                assert(opened_into(self.cookies_view(), before, opened));
                return Err(e);
            },
        };
        let ghost answer = response;
        match commit_from_request(&self.cookies, request, &mut response) {
            Ok(()) => {},
            Err(e) => {
                assert(next.handles(opened, handled, Ok::<Response, HttpError>(answer)));
                assert(opened_into(self.cookies_view(), before, opened));
                return Err(e);
            },
        }
        assert(next.handles(opened, handled, Ok::<Response, HttpError>(answer)));
        Ok(response)
    }
}

/// Async counterpart of [`SessionMiddleware`].
pub struct AsyncSessionMiddleware<S: SessionStore + ?Sized = dyn SessionStore> {
    cookies: CookieSession<S>,
}

impl<S: SessionStore + ?Sized> AsyncSessionMiddleware<S> {
    /// Middleware bound to `cookies` (store + cookie options).
    pub fn new(cookies: CookieSession<S>) -> (m: AsyncSessionMiddleware<S>)
        ensures
            m.cookies_view() == cookies,
    {
        AsyncSessionMiddleware { cookies }
    }

    pub closed spec fn cookies_view(&self) -> CookieSession<S> {
        self.cookies
    }

    /// Cookie session helper used by this middleware.
    pub fn cookies(&self) -> (r: &CookieSession<S>)
        ensures
            *r == self.cookies_view(),
    {
        &self.cookies
    }
}

/// Maps a session failure onto a 500 error carrying its message.
pub fn session_http_error(err: &SessionError) -> (e: HttpError)
    ensures
        e.status_view() == 500,
        e.message_view() == session_error_text(*err),
{
    HttpError::with_message(500, err.message())
}

/// The session stored in the request's attributes.
pub open spec fn attr_session(request: Request) -> Option<Session> {
    typed_get::<Session>(request.attributes_view(), SESSION_ATTRIBUTE@)
}

/// Returns the session from the request attributes when present.
pub fn request_session(request: &Request) -> (r: Option<&Session>)
    ensures
        match r {
            Some(s) => attr_session(*request) == Some(*s),
            None => attr_session(*request) is None,
        },
{
    request.attributes().get::<Session>(SESSION_ATTRIBUTE)
}

/// Returns the session from the request attributes, mutably, when present.
pub fn request_session_mut(request: &mut Request) -> (r: Option<&mut Session>)
    ensures
        final(request).method_view() == old(request).method_view(),
        final(request).path_view() == old(request).path_view(),
        final(request).headers_view() == old(request).headers_view(),
        match r {
            Some(s) => attr_session(*old(request)) == Some(*s)
                && final(request).attributes_view() == old(request).attributes_view().insert(
                SESSION_ATTRIBUTE@,
                AttributeValue::Session(*final(s)),
            ),
            None => attr_session(*old(request)) is None && final(request).attributes_view() == old(
                request,
            ).attributes_view(),
        },
{
    request.attributes_mut().get_mut::<Session>(SESSION_ATTRIBUTE)
}

/// `after` is `before` with an opened session stored under
/// [`SESSION_ATTRIBUTE`]: unchanged, and either the session named by the
/// request's session cookie or a fresh empty one.
pub open spec fn opened_into<S: SessionStore + ?Sized>(
    cookies: CookieSession<S>,
    before: Request,
    after: Request,
) -> bool {
    &&& after.method_view() == before.method_view()
    &&& after.path_view() == before.path_view()
    &&& after.headers_view() == before.headers_view()
    &&& exists|s: Session|
        {
            &&& after.attributes_view() == before.attributes_view().insert(
                SESSION_ATTRIBUTE@,
                AttributeValue::Session(s),
            )
            &&& !s.modified_view() && !s.invalidated_view()
            &&& {
                ||| {
                    &&& before.headers_view().dom().contains(lower("cookie"@))
                    &&& cookie_value(before.headers_view()[lower("cookie"@)], cookies.options_view().name)
                        == Some(s.id_view())
                    &&& !s.new_view()
                }
                ||| {
                    &&& s.new_view()
                    &&& is_session_id(s.id_view())
                    &&& s@ == Map::<Seq<char>, Seq<char>>::empty()
                }
            }
        }
}

/// The `Set-Cookie` value that committing the session of `request` sends,
/// if any.
pub open spec fn commit_cookie(o: CookieOptionsView, request: Request) -> Option<Seq<char>> {
    match attr_session(request) {
        Some(s) => if s.invalidated_view() || s.new_view() || s.modified_view() {
            Some(set_cookie_text(o, s.id_view(), s.invalidated_view()))
        } else {
            None
        },
        None => None,
    }
}

/// A successful commit of the session in `request` turned `response` into
/// `out` and left the request as `request_after`: the session attribute
/// removed, the response's status and body kept, and its `Set-Cookie` header
/// set to [`commit_cookie`] when there is one.
pub open spec fn committed_from(
    o: CookieOptionsView,
    request: Request,
    response: Response,
    request_after: Request,
    out: Response,
) -> bool {
    &&& request_after.attributes_view() == request.attributes_view().remove(SESSION_ATTRIBUTE@)
    &&& out.status_view() == response.status_view()
    &&& out.body_view() == response.body_view()
    &&& out.headers_view() == match commit_cookie(o, request) {
        Some(c) => response.headers_view().insert(lower("set-cookie"@), c),
        None => response.headers_view(),
    }
}

/// Opens the session named by the request's `Cookie` header and stores it in
/// the request attributes.
pub fn open_into_request<S: SessionStore + ?Sized>(
    cookies: &CookieSession<S>,
    request: &mut Request,
) -> (r: Result<(), HttpError>)
    ensures
        final(request).method_view() == old(request).method_view(),
        final(request).path_view() == old(request).path_view(),
        final(request).headers_view() == old(request).headers_view(),
        r is Err ==> final(request).attributes_view() == old(request).attributes_view(),
        r matches Err(e) ==> e.status_view() == 500,
        r is Ok ==> opened_into(*cookies, *old(request), *final(request)),
{
    let opened = match request.headers().get("cookie") {
        Some(h) => cookies.open(Some(h)),
        None => cookies.open(None),
    };
    match opened {
        Ok(session) => {
            let ghost sv = session;
            request.attributes_mut().insert(SESSION_ATTRIBUTE, session);
            assert(AttributeValue::Session(sv) == sv.wrap_spec());
            Ok(())
        },
        Err(err) => Err(session_http_error(&err)),
    }
}

/// Takes the session out of the request attributes, commits it, and adds its
/// `Set-Cookie` header to `response`.
pub fn commit_from_request<S: SessionStore + ?Sized>(
    cookies: &CookieSession<S>,
    request: &mut Request,
    response: &mut Response,
) -> (r: Result<(), HttpError>)
    ensures
        final(request).attributes_view() == old(request).attributes_view().remove(
            SESSION_ATTRIBUTE@,
        ),
        final(response).status_view() == old(response).status_view(),
        final(response).body_view() == old(response).body_view(),
        r is Ok ==> committed_from(
            cookies.options_view(),
            *old(request),
            *old(response),
            *final(request),
            *final(response),
        ),
        r is Err ==> final(response).headers_view() == old(response).headers_view(),
        r matches Err(e) ==> e.status_view() == 500,
        attr_session(*old(request)) is None ==> r is Ok,
{
    let session = match request.attributes_mut().remove::<Session>(SESSION_ATTRIBUTE) {
        Some(s) => s,
        None => {
            return Ok(());
        },
    };
    match cookies.commit(&session) {
        Ok(Some(set_cookie)) => {
            response.headers_mut().insert("set-cookie", set_cookie.as_str());
            Ok(())
        },
        Ok(None) => Ok(()),
        Err(err) => Err(session_http_error(&err)),
    }
}

} // verus!
