//! The server's registry and per-request dispatch.  Handlers are registered
//! as (method, path-template) patterns bound to handler identifiers; the
//! registry is built at startup and read-only afterwards.  Dispatching one
//! connection's bytes parses the request, negotiates compression, seeds a
//! response builder, and either picks the first matching handler (in
//! registration order) or replies itself: `400 Bad Request` for a malformed
//! request, `404 Not Found` for an unmatched one.

use vstd::prelude::*;
use crate::bytes::{split_on, bytes_eq};
use crate::headers::lookup;
use crate::request::{Request, spec_parse, spec_matches, walk, lossy_of};
use crate::handler::HandlerPattern;
use crate::response::{ResponseBuilder, WireResponse, StatusCode, spec_head};
use crate::encoding::spec_schemes;
use crate::tokens::{slash, http11, h_accept_encoding};
use crate::headers::copy_bytes;

verus! {

/// The registry after one registration: a no-op if the (method, template)
/// pair is already present (the first handler stays bound), else the new
/// binding is appended.
pub open spec fn spec_register(
    reg: Seq<((Seq<u8>, Seq<u8>), usize)>,
    m: Seq<u8>,
    p: Seq<u8>,
    id: usize,
) -> Seq<((Seq<u8>, Seq<u8>), usize)> {
    if exists|i: int| 0 <= i < reg.len() && reg[i].0 == (m, p) {
        reg
    } else {
        reg.push(((m, p), id))
    }
}

/// Registering the same (method, template) twice keeps the first binding.
pub proof fn lemma_register_idempotent(
    reg: Seq<((Seq<u8>, Seq<u8>), usize)>,
    m: Seq<u8>,
    p: Seq<u8>,
    id1: usize,
    id2: usize,
)
    ensures
        spec_register(spec_register(reg, m, p, id1), m, p, id2) == spec_register(reg, m, p, id1),
{
    let reg1 = spec_register(reg, m, p, id1);
    if exists|i: int| 0 <= i < reg.len() && reg[i].0 == (m, p) {
    } else {
        assert(reg1 == reg.push(((m, p), id1)));
        assert(reg1[reg.len() as int].0 == (m, p));
        assert(exists|i: int| 0 <= i < reg1.len() && reg1[i].0 == (m, p));
    }
}

/// The first registry entry (from `i` on, in registration order) whose
/// pattern matches.
pub open spec fn first_match(
    reg: Seq<((Seq<u8>, Seq<u8>), usize)>,
    i: int,
    method: Seq<u8>,
    path: Seq<u8>,
) -> Option<int>
    decreases reg.len() - i,
{
    if i < 0 || i >= reg.len() {
        None
    } else if spec_matches(reg[i].0.0, reg[i].0.1, method, path) {
        Some(i)
    } else {
        first_match(reg, i + 1, method, path)
    }
}

/// What dispatching one connection's bytes yields: either the wire bytes of
/// a reply the engine made itself, or the matched handler's identifier with
/// the parsed request and the seeded response builder.
pub enum Outcome {
    Invoke { request: Request, response: ResponseBuilder, handler: usize },
    Reply(WireResponse),
}

/// The engine: a handler registry and an optional public folder, both fixed
/// before serving starts.
pub struct ServerHTTP {
    handlers: Vec<(HandlerPattern, usize)>,
    public_folder: Option<Vec<u8>>,
}

impl Default for ServerHTTP {
    /// A server with an empty registry and no public folder.
    fn default() -> (r: ServerHTTP)
        ensures
            r.registry() == Seq::<((Seq<u8>, Seq<u8>), usize)>::empty(),
            r.folder() is None,
    {
        let r = ServerHTTP { handlers: Vec::new(), public_folder: None };
        proof {
            assert(r.registry() =~= Seq::<((Seq<u8>, Seq<u8>), usize)>::empty());
        }
        r
    }
}

impl ServerHTTP {
    /// The registered (method, template) patterns with their handler
    /// identifiers, in registration order.
    pub closed spec fn registry(&self) -> Seq<((Seq<u8>, Seq<u8>), usize)> {
        self.handlers@.map_values(|p: (HandlerPattern, usize)| ((p.0.0@, p.0.1@), p.1))
    }

    /// The configured public folder, if any.
    pub closed spec fn folder(&self) -> Option<Seq<u8>> {
        match self.public_folder {
            Some(v) => Some(v@),
            None => None,
        }
    }

    /// Register `handler` for (`method`, `path`).  Idempotent: if the pair
    /// is already registered the call changes nothing.
    #[verifier::loop_isolation(false)]
    pub fn handle_fn(&mut self, method: &[u8], path: &[u8], handler: usize)
        ensures
            final(self).registry() == spec_register(old(self).registry(), method@, path@, handler),
            final(self).folder() == old(self).folder(),
    {
        let n = self.handlers.len();
        let mut i: usize = 0;
        while i < n
            invariant
                i <= n,
                n == self.handlers@.len(),
                forall|j: int| 0 <= j < i ==> self.registry()[j].0 != (method@, path@),
            decreases n - i,
        {
            if bytes_eq(self.handlers[i].0.0.as_slice(), method) && bytes_eq(
                self.handlers[i].0.1.as_slice(),
                path,
            ) {
                proof {
                    assert(self.registry()[i as int].0 == (method@, path@));
                }
                return ;
            }
            i += 1;
        }
        let ghost reg0 = self.registry();
        proof {
            assert(forall|j: int| 0 <= j < reg0.len() ==> reg0[j].0 != (method@, path@));
        }
        let hp = HandlerPattern::new(
            vstd::slice::slice_to_vec(method),
            vstd::slice::slice_to_vec(path),
        );
        self.handlers.push((hp, handler));
        proof {
            assert(self.registry() =~= reg0.push(((method@, path@), handler)));
        }
    }

    /// Configure the public folder served by the file routes.
    pub fn set_public_folder(&mut self, public_folder: &[u8])
        ensures
            final(self).folder() == Some(public_folder@),
            final(self).registry() == old(self).registry(),
    {
        self.public_folder = Some(vstd::slice::slice_to_vec(public_folder));
    }

    /// Find the first registered pattern (in registration order) matching
    /// the request, extracting its path parameters into the request.
    #[verifier::loop_isolation(false)]
    pub fn route(&self, req: &mut Request) -> (r: Option<usize>)
        ensures
            final(req).method@ == old(req).method@,
            final(req).path@ == old(req).path@,
            final(req).version@ == old(req).version@,
            final(req).headers@ == old(req).headers@,
            final(req).body@ == old(req).body@,
            match first_match(self.registry(), 0, old(req).method@, old(req).path@) {
                None => r is None,
                Some(k) => r == Some(self.registry()[k].1),
            },
            old(req).path_params@.len() == 0 ==> match first_match(
                self.registry(),
                0,
                old(req).method@,
                old(req).path@,
            ) {
                None => final(req).path_params@.len() == 0,
                Some(k) => ({
                    let pp = self.registry()[k].0.1;
                    if pp == slash() && old(req).path@ == slash() {
                        final(req).path_params@.len() == 0
                    } else {
                        walk(
                            split_on(pp, slash()),
                            split_on(old(req).path@, slash()),
                            0,
                            Seq::empty(),
                        ) == Some(final(req).path_params@)
                    }
                }),
            },
    {
        let n = self.handlers.len();
        let mut i: usize = 0;
        while i < n
            invariant
                i <= n,
                n == self.handlers@.len(),
                first_match(self.registry(), 0, old(req).method@, old(req).path@) == first_match(
                    self.registry(),
                    i as int,
                    old(req).method@,
                    old(req).path@,
                ),
                req.method@ == old(req).method@,
                req.path@ == old(req).path@,
                req.version@ == old(req).version@,
                req.headers@ == old(req).headers@,
                req.body@ == old(req).body@,
                req.path_params@ == old(req).path_params@ || req.path_params@ == Seq::<(
                    Seq<u8>,
                    Seq<u8>,
                )>::empty(),
            decreases n - i,
        {
            let matched = req.method_and_pattern_matches(
                self.handlers[i].0.0.as_slice(),
                self.handlers[i].0.1.as_slice(),
            );
            if matched {
                proof {
                    assert(self.registry()[i as int].0.0 == self.handlers@[i as int].0.0@);
                    assert(first_match(
                        self.registry(),
                        i as int,
                        old(req).method@,
                        old(req).path@,
                    ) == Some(i as int));
                    if old(req).path_params@.len() == 0 {
                        assert(old(req).path_params@ =~= Seq::<(Seq<u8>, Seq<u8>)>::empty());
                    }
                }
                return Some(self.handlers[i].1);
            }
            i += 1;
        }
        None
    }

    /// Handle one connection's bytes up to the handler boundary: parse,
    /// negotiate, seed the response builder, route.  A malformed request is
    /// answered `400 Bad Request`, an unmatched one `404 Not Found`, both
    /// with an empty body; a matched one yields the handler to invoke.
    pub fn dispatch(&self, raw: &[u8]) -> (r: Outcome)
        ensures
            match spec_parse(lossy_of(raw@)) {
                Err(_) => r matches Outcome::Reply(w) && w.head@ == spec_head(
                    http11(),
                    StatusCode::BadRequest,
                    Seq::empty(),
                ) && w.body@.len() == 0,
                Ok(v) => match first_match(self.registry(), 0, v.method, v.path) {
                    None => r matches Outcome::Reply(w) && w.head@ == spec_head(
                        v.version,
                        StatusCode::NotFound,
                        Seq::empty(),
                    ) && w.body@.len() == 0,
                    Some(k) => r matches Outcome::Invoke { request, response, handler } && ({
                        &&& handler == self.registry()[k].1
                        &&& request.method@ == v.method
                        &&& request.path@ == v.path
                        &&& request.version@ == v.version
                        &&& request.headers@ == v.headers
                        &&& request.body@ == v.body
                        &&& response.version_view() == v.version
                        &&& response.schemes_view() == (match lookup(v.headers, h_accept_encoding()) {
                            Some(x) => spec_schemes(x),
                            None => Seq::<crate::encoding::CompressionSchema>::empty(),
                        })
                        &&& response.folder_view() == self.folder()
                        &&& response.status_view() == StatusCode::OK
                        &&& response.headers_view() == Seq::<(Seq<u8>, Seq<u8>)>::empty()
                        &&& response.body_view() == Seq::<u8>::empty()
                        &&& ({
                            let pp = self.registry()[k].0.1;
                            if pp == slash() && v.path == slash() {
                                request.path_params@.len() == 0
                            } else {
                                walk(
                                    split_on(pp, slash()),
                                    split_on(v.path, slash()),
                                    0,
                                    Seq::empty(),
                                ) == Some(request.path_params@)
                            }
                        })
                    }),
                },
            },
    {
        match Request::parse(raw) {
            Err(_) => {
                let rb = ResponseBuilder::new();
                let w = rb.send_status_code(StatusCode::BadRequest);
                Outcome::Reply(w)
            },
            Ok(mut req) => {
                let schemes = req.get_compression_schemas();
                let mut rb = ResponseBuilder::new();
                rb.with_version(copy_bytes(&req.version));
                rb.with_compression_schemas(schemes);
                let folder = match &self.public_folder {
                    Some(v) => Some(copy_bytes(v)),
                    None => None,
                };
                rb.with_public_folder(folder);
                match self.route(&mut req) {
                    Some(id) => Outcome::Invoke { request: req, response: rb, handler: id },
                    None => {
                        let w = rb.send_status_code(StatusCode::NotFound);
                        Outcome::Reply(w)
                    },
                }
            },
        }
    }
}

} // verus!
