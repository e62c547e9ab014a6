//! Request handling: a controller wrapped in middleware layers, with errors
//! turned into responses by an exception handler.

use vstd::prelude::*;

use crate::http::error::HttpError;
use crate::http::headers::lower;
use crate::http::request::Request;
use crate::http::response::Response;

verus! {

/// Produces a response for a request (a controller, or the rest of a
/// middleware chain).
pub trait RequestHandler {
    /// Whether handling the request `before` can leave it as `after` and
    /// answer `r` (by default, any outcome).
    open spec fn handles(&self, before: Request, after: Request, r: Result<Response, HttpError>) -> bool {
        true
    }

    fn handle(&self, request: &mut Request) -> (r: Result<Response, HttpError>)
        ensures
            self.handles(*old(request), *final(request), r),
    ;
}

/// A layer around the rest of the chain; it may act on the request before
/// calling `next` and on the response after.
pub trait Middleware {
    fn process(&self, request: &mut Request, next: &dyn RequestHandler) -> Result<Response, HttpError>;
}

/// Turns a handler error into a response.
pub trait ExceptionHandler {
    /// Whether `r` is a response this handler can give for `error` (by
    /// default, any response).
    open spec fn answers(&self, error: HttpError, r: Response) -> bool {
        true
    }

    fn handle(&self, error: &HttpError) -> (r: Response)
        ensures
            self.answers(*error, r),
    ;
}

/// The plain-text response for `error`: its status, a `text/plain` content
/// type and its message as the body.
pub open spec fn plain_error_response(error: HttpError, r: Response) -> bool {
    &&& r.status_view() == error.status_view()
    &&& r.headers_view() == Map::<Seq<char>, Seq<char>>::empty().insert(
        lower("content-type"@),
        "text/plain; charset=utf-8"@,
    )
    &&& r.body_view() == vstd::utf8::encode_utf8(error.message_view())
}

/// Answers an error with its status and its message as plain text.
#[derive(Clone, Copy, Debug, Default)]
pub struct DefaultExceptionHandler;

impl ExceptionHandler for DefaultExceptionHandler {
    open spec fn answers(&self, error: HttpError, r: Response) -> bool {
        plain_error_response(error, r)
    }

    fn handle(&self, error: &HttpError) -> (r: Response)
        ensures
            plain_error_response(*error, r),
    {
        Response::text(error.status_code(), error.message())
    }
}

/// The layers from `pos` on, then the controller.
pub struct Chain<'a> {
    layers: &'a [Box<dyn Middleware>],
    pos: usize,
    controller: &'a Box<dyn RequestHandler>,
}

impl<'a> Chain<'a> {
    /// Layers still to run.
    pub closed spec fn remaining(&self) -> int {
        self.layers@.len() - self.pos
    }
}

impl<'a> RequestHandler for Chain<'a> {
    /// Past the last layer, the controller's outcomes.
    closed spec fn handles(&self, before: Request, after: Request, r: Result<Response, HttpError>) -> bool {
        self.layers@.len() <= self.pos ==> self.controller.handles(before, after, r)
    }

    fn handle(&self, request: &mut Request) -> (r: Result<Response, HttpError>)
        decreases self.remaining(),
    {
        if self.pos >= self.layers.len() {
            let r = self.controller.handle(request);
            r
        } else {
            let next = Chain { layers: self.layers, pos: self.pos + 1, controller: self.controller };
            self.layers[self.pos].process(request, &next)
        }
    }
}

/// A controller, middleware layers (the first pushed is the outermost) and
/// an exception handler.
pub struct HttpKernel {
    controller: Box<dyn RequestHandler>,
    layers: Vec<Box<dyn Middleware>>,
    exceptions: Box<dyn ExceptionHandler>,
}

/// Pushing onto a sequence adds one element.
proof fn lemma_push_len<A>(s: Seq<A>, a: A)
    ensures
        s.push(a).len() == s.len() + 1,
        s.push(a).drop_last() == s,
{
    assert(s.push(a).drop_last() =~= s);
}

impl HttpKernel {
    /// The middleware layers, outermost first.
    pub closed spec fn layers_view(&self) -> Seq<Box<dyn Middleware>> {
        self.layers@
    }

    /// Whether the controller can leave the request `before` as `after` and
    /// answer `outcome`.
    pub closed spec fn controller_handles(
        &self,
        before: Request,
        after: Request,
        outcome: Result<Response, HttpError>,
    ) -> bool {
        self.controller.handles(before, after, outcome)
    }

    /// Whether the exception handler can answer `error` with `r`.
    pub closed spec fn exceptions_answer(&self, error: HttpError, r: Response) -> bool {
        self.exceptions.answers(error, r)
    }

    /// What the kernel answers when the chain's outcome is `outcome`: the
    /// response, or the exception handler's response for the error.
    pub open spec fn kernel_answer(&self, outcome: Result<Response, HttpError>, r: Response) -> bool {
        match outcome {
            Ok(response) => r == response,
            Err(e) => self.exceptions_answer(e, r),
        }
    }

    /// Kernel running `controller`, without middleware, with the
    /// [`DefaultExceptionHandler`].
    pub fn new<C: RequestHandler + 'static>(controller: C) -> (k: HttpKernel)
        ensures
            k.layers_view().len() == 0,
    {
        HttpKernel {
            controller: Box::new(controller),
            layers: Vec::new(),
            exceptions: Box::new(DefaultExceptionHandler),
        }
    }

    /// Adds `layer` inside the layers already pushed.
    pub fn push_middleware<M: Middleware + 'static>(&mut self, layer: M)
        ensures
            final(self).layers_view().len() == old(self).layers_view().len() + 1,
            final(self).layers_view().drop_last() == old(self).layers_view(),
    {
        let boxed: Box<dyn Middleware> = Box::new(layer);
        let ghost before = self.layers@;
        self.layers.push(boxed);
        proof {
            lemma_push_len(before, boxed);
        }
    }

    /// Replaces the exception handler.
    pub fn with_exception_handler<E: ExceptionHandler + 'static>(self, handler: E) -> (k: HttpKernel)
        ensures
            k.layers_view() == self.layers_view(),
    {
        let mut k = self;
        k.exceptions = Box::new(handler);
        k
    }

    /// What the kernel answers for `request`: for some outcome of the chain
    /// (the controller's, when there are no layers), [`HttpKernel::kernel_answer`].
    pub open spec fn answered(&self, request: Request, r: Response) -> bool {
        exists|outcome: Result<Response, HttpError>|
            {
                &&& #[trigger] self.kernel_answer(outcome, r)
                &&& self.layers_view().len() == 0 ==> exists|after: Request|
                    #[trigger] self.controller_handles(request, after, outcome)
            }
    }

    /// Runs the layers and the controller; an error from any of them becomes
    /// the exception handler's response.  Without layers the outcome is the
    /// controller's.
    pub fn handle(&self, request: Request) -> (r: Response)
        ensures
            self.answered(request, r),
    {
        let mut current = request;
        let chain = Chain { layers: self.layers.as_slice(), pos: 0, controller: &self.controller };
        let outcome = chain.handle(&mut current);
        let ghost after = current;
        let ghost result = outcome;
        let r = match outcome {
            Ok(response) => response,
            Err(error) => self.exceptions.handle(&error),
        };
        assert(self.kernel_answer(result, r));
        assert(self.layers_view().len() == 0 ==> self.controller_handles(request, after, result));
        r
    }
}

} // verus!
