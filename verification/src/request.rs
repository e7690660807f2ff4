//! Request parsing and pattern matching.  A request is parsed from the raw
//! bytes read off a connection: the bytes are decoded as UTF-8 with lossy
//! replacement, split once on the first blank line into head and body, the
//! head split into a request line and header lines, and each header line
//! split once on its first colon.

use vstd::prelude::*;
use crate::bytes::{find_sub, match_at, find, split_on, split_bytes, views, trim, trim_bytes,
    lemma_find_sub, bytes_eq};
use crate::headers::{Headers, spec_insert, copy_bytes, lookup};
use crate::tokens::{crlf, crlf2, sp, slash, colon, crlf_bytes, crlf2_bytes, sp_bytes,
    slash_bytes, colon_bytes, h_accept_encoding, h_accept_encoding_bytes};
use crate::encoding::{CompressionSchema, spec_schemes, parse_schemes};

verus! {

/// Why a byte stream is no well-formed request.
#[derive(Clone, Copy, Debug, PartialEq, Eq, Structural)]
pub enum RequestError {
    /// No blank-line delimiter between head and body.
    MissingDelimiter,
    /// The request line has fewer than three tokens.
    BadRequestLine,
    /// A header line has no colon.
    BadHeaderLine,
}

/// The parts of a parsed request, at the specification level.
pub ghost struct ReqView {
    pub method: Seq<u8>,
    pub path: Seq<u8>,
    pub version: Seq<u8>,
    pub headers: Seq<(Seq<u8>, Seq<u8>)>,
    pub body: Seq<u8>,
}

/// The bytes that decoding `b` as UTF-8 with lossy replacement yields.
pub uninterp spec fn lossy_of(b: Seq<u8>) -> Seq<u8>;

/// Relies on `String::from_utf8_lossy`: invalid sequences are replaced, the
/// result depends on the input bytes alone, and bytes that are already
/// ASCII (hence valid UTF-8) come back unchanged.
#[verifier::external_body]
fn lossy_decode(raw: &[u8]) -> (r: Vec<u8>)
    ensures
        r@ == lossy_of(raw@),
        (forall|i: int| 0 <= i < raw@.len() ==> raw@[i] < 128) ==> r@ == raw@,
{
    String::from_utf8_lossy(raw).into_owned().into_bytes()
}

/// Headers parsed from `lines[i..]`, added to `acc` in order, each line
/// split once on its first colon, the value trimmed; a line without a colon
/// fails the request.
pub open spec fn parse_header_lines(
    lines: Seq<Seq<u8>>,
    i: int,
    acc: Seq<(Seq<u8>, Seq<u8>)>,
) -> Result<Seq<(Seq<u8>, Seq<u8>)>, RequestError>
    decreases lines.len() - i,
{
    if i < 0 || i >= lines.len() {
        Ok(acc)
    } else {
        match find_sub(lines[i], colon()) {
            None => Err(RequestError::BadHeaderLine),
            Some(j) => parse_header_lines(
                lines,
                i + 1,
                spec_insert(acc, lines[i].subrange(0, j), trim(lines[i].skip(j + 1))),
            ),
        }
    }
}

/// What parsing the (already decoded) bytes `s` yields.
pub open spec fn spec_parse(s: Seq<u8>) -> Result<ReqView, RequestError> {
    match find_sub(s, crlf2()) {
        None => Err(RequestError::MissingDelimiter),
        Some(i) => {
            let head = s.subrange(0, i);
            let body = s.skip(i + crlf2().len() as int);
            let lines = split_on(head, crlf());
            let toks = split_on(lines[0], sp());
            if toks.len() < 3 {
                Err(RequestError::BadRequestLine)
            } else {
                match parse_header_lines(lines, 1, Seq::empty()) {
                    Err(e) => Err(e),
                    Ok(hs) => Ok(
                        ReqView {
                            method: toks[0],
                            path: toks[1],
                            version: toks[2],
                            headers: hs,
                            body: body,
                        },
                    ),
                }
            }
        },
    }
}

/// One parsed request.
#[derive(Debug)]
pub struct Request {
    pub method: Vec<u8>,
    pub path: Vec<u8>,
    pub version: Vec<u8>,
    pub headers: Headers,
    pub path_params: Headers,
    pub body: Vec<u8>,
}

/// The executable request holds exactly the parts of the view.
pub open spec fn req_matches(req: Request, v: ReqView) -> bool {
    &&& req.method@ == v.method
    &&& req.path@ == v.path
    &&& req.version@ == v.version
    &&& req.headers@ == v.headers
    &&& req.body@ == v.body
}

/// A template segment that binds a path parameter: `{name}`.
pub open spec fn is_param_seg(s: Seq<u8>) -> bool {
    s.len() >= 2 && s[0] == 123 && s[s.len() - 1] == 125
}

/// The name between the braces.
pub open spec fn param_name(s: Seq<u8>) -> Seq<u8> {
    s.subrange(1, s.len() - 1)
}

/// Walk template segments `ps[i..]` against request segments `rs[i..]`:
/// a parameter segment binds its name to the request segment, a literal
/// segment must be byte-for-byte equal.  Yields the parameter table grown
/// from `m`, or nothing on a literal mismatch.
pub open spec fn walk(
    ps: Seq<Seq<u8>>,
    rs: Seq<Seq<u8>>,
    i: int,
    m: Seq<(Seq<u8>, Seq<u8>)>,
) -> Option<Seq<(Seq<u8>, Seq<u8>)>>
    recommends
        ps.len() == rs.len(),
    decreases ps.len() - i,
{
    if i < 0 || i >= ps.len() {
        Some(m)
    } else if is_param_seg(ps[i]) {
        walk(ps, rs, i + 1, spec_insert(m, param_name(ps[i]), rs[i]))
    } else if ps[i] == rs[i] {
        walk(ps, rs, i + 1, m)
    } else {
        None
    }
}

/// Whether the walk succeeds does not depend on the parameter table it
/// started from.
pub proof fn lemma_walk_some(
    ps: Seq<Seq<u8>>,
    rs: Seq<Seq<u8>>,
    i: int,
    m1: Seq<(Seq<u8>, Seq<u8>)>,
    m2: Seq<(Seq<u8>, Seq<u8>)>,
)
    ensures
        walk(ps, rs, i, m1) is Some <==> walk(ps, rs, i, m2) is Some,
    decreases ps.len() - i,
{
    if i < 0 || i >= ps.len() {
    } else if is_param_seg(ps[i]) {
        lemma_walk_some(
            ps,
            rs,
            i + 1,
            spec_insert(m1, param_name(ps[i]), rs[i]),
            spec_insert(m2, param_name(ps[i]), rs[i]),
        );
    } else if ps[i] == rs[i] {
        lemma_walk_some(ps, rs, i + 1, m1, m2);
    } else {
    }
}

/// A successful walk means every literal template segment equals the
/// request segment standing at its index.
pub proof fn lemma_walk_some_literals(
    ps: Seq<Seq<u8>>,
    rs: Seq<Seq<u8>>,
    i: int,
    m: Seq<(Seq<u8>, Seq<u8>)>,
)
    requires
        0 <= i,
        walk(ps, rs, i, m) is Some,
    ensures
        forall|j: int| i <= j < ps.len() && !is_param_seg(ps[j]) ==> ps[j] == rs[j],
    decreases ps.len() - i,
{
    if i < 0 || i >= ps.len() {
    } else if is_param_seg(ps[i]) {
        lemma_walk_some_literals(ps, rs, i + 1, spec_insert(m, param_name(ps[i]), rs[i]));
        assert forall|j: int| i <= j < ps.len() && !is_param_seg(ps[j]) implies ps[j] == rs[j] by {
            assert(j != i);
            assert(i + 1 <= j < ps.len() && !is_param_seg(ps[j]));
        }
    } else {
        lemma_walk_some_literals(ps, rs, i + 1, m);
        assert forall|j: int| i <= j < ps.len() && !is_param_seg(ps[j]) implies ps[j] == rs[j] by {
            if j != i {
                assert(i + 1 <= j < ps.len() && !is_param_seg(ps[j]));
            }
        }
    }
}

/// If every literal template segment equals its request segment, the walk
/// succeeds.
pub proof fn lemma_literals_walk_some(
    ps: Seq<Seq<u8>>,
    rs: Seq<Seq<u8>>,
    i: int,
    m: Seq<(Seq<u8>, Seq<u8>)>,
)
    requires
        forall|j: int| i <= j < ps.len() && !is_param_seg(ps[j]) ==> ps[j] == rs[j],
    ensures
        walk(ps, rs, i, m) is Some,
    decreases ps.len() - i,
{
    if i < 0 || i >= ps.len() {
    } else {
        assert forall|j: int| i + 1 <= j < ps.len() && !is_param_seg(ps[j]) implies ps[j]
            == rs[j] by {
            assert(i <= j < ps.len() && !is_param_seg(ps[j]));
        }
        if is_param_seg(ps[i]) {
            lemma_literals_walk_some(ps, rs, i + 1, spec_insert(m, param_name(ps[i]), rs[i]));
        } else {
            assert(i <= i < ps.len() && !is_param_seg(ps[i]));
            assert(ps[i] == rs[i]);
            lemma_literals_walk_some(ps, rs, i + 1, m);
        }
    }
}

/// A pattern (method, path template) matches a request (method, path):
/// methods are byte-for-byte equal, the template starts with `/`, and either
/// both template and path are exactly `/`, or they split on `/` into equally
/// many segments and the segment walk succeeds.
pub open spec fn spec_matches(
    p_method: Seq<u8>,
    p_path: Seq<u8>,
    method: Seq<u8>,
    path: Seq<u8>,
) -> bool {
    &&& p_method == method
    &&& p_path.len() >= 1 && p_path[0] == 47
    &&& ((p_path == slash() && path == slash()) || ({
        let ps = split_on(p_path, slash());
        let rs = split_on(path, slash());
        ps.len() == rs.len() && walk(ps, rs, 0, Seq::empty()) is Some
    }))
}

impl Request {
    /// Parse a request out of the raw bytes of one connection.
    ///
    /// The bytes are first decoded as UTF-8 with lossy replacement; the
    /// result is exactly what `spec_parse` says of the decoded bytes, with
    /// an empty parameter table.
    #[verifier::loop_isolation(false)]
    pub fn parse(raw: &[u8]) -> (r: Result<Request, RequestError>)
        ensures
            match r {
                Ok(req) => spec_parse(lossy_of(raw@)) matches Ok(v) && req_matches(req, v)
                    && req.path_params@ == Seq::<(Seq<u8>, Seq<u8>)>::empty(),
                Err(e) => spec_parse(lossy_of(raw@)) == Err::<ReqView, RequestError>(e),
            },
    {
        let clean = lossy_decode(raw);
        let ghost s = clean@;
        let delim = crlf2_bytes();
        let found = find(clean.as_slice(), delim.as_slice());
        match found {
            None => Err(RequestError::MissingDelimiter),
            Some(i) => {
                let total = clean.len();
                proof {
                    lemma_find_sub(s, crlf2());
                    assert(crlf2().len() == 4);
                    assert(i + 4 <= total);
                }
                let head = vstd::slice::slice_to_vec(
                    vstd::slice::slice_subrange(clean.as_slice(), 0, i),
                );
                let body = vstd::slice::slice_to_vec(
                    vstd::slice::slice_subrange(clean.as_slice(), i + 4, total),
                );
                proof {
                    assert(body@ =~= s.skip(i + crlf2().len() as int));
                }
                let cr = crlf_bytes();
                let lines = split_bytes(head.as_slice(), cr.as_slice());
                let spb = sp_bytes();
                proof {
                    assert(views(lines@)[0] == lines@[0]@);
                }
                let toks = split_bytes(lines[0].as_slice(), spb.as_slice());
                let ghost lns = views(lines@);
                proof {
                    assert(head@ == s.subrange(0, i as int));
                    assert(lns == split_on(s.subrange(0, i as int), crlf()));
                    assert(lns[0] == lines@[0]@);
                    assert(views(toks@) == split_on(lns[0], sp()));
                }
                if toks.len() < 3 {
                    proof {
                        assert(spec_parse(s) == Err::<ReqView, RequestError>(
                            RequestError::BadRequestLine,
                        ));
                    }
                    return Err(RequestError::BadRequestLine);
                }
                let mut headers = Headers::new();
                let nl = lines.len();
                let mut li: usize = 1;
                let col = colon_bytes();
                while li < nl
                    invariant
                        nl == lines@.len(),
                        1 <= li <= nl,
                        lns == views(lines@),
                        parse_header_lines(lns, 1, Seq::empty()) == parse_header_lines(
                            lns,
                            li as int,
                            headers@,
                        ),
                        col@ == colon(),
                    decreases nl - li,
                {
                    proof {
                        assert(lns[li as int] == lines@[li as int]@);
                    }
                    match find(lines[li].as_slice(), col.as_slice()) {
                        None => {
                            proof {
                                assert(parse_header_lines(lns, li as int, headers@) == Err::<
                                    Seq<(Seq<u8>, Seq<u8>)>,
                                    RequestError,
                                >(RequestError::BadHeaderLine));
                                assert(spec_parse(s) == Err::<ReqView, RequestError>(
                                    RequestError::BadHeaderLine,
                                ));
                            }
                            return Err(RequestError::BadHeaderLine);
                        },
                        Some(j) => {
                            proof {
                                lemma_find_sub(lns[li as int], colon());
                            }
                            let name = vstd::slice::slice_to_vec(
                                vstd::slice::slice_subrange(lines[li].as_slice(), 0, j),
                            );
                            let valraw = vstd::slice::slice_subrange(
                                lines[li].as_slice(),
                                j + 1,
                                lines[li].len(),
                            );
                            let value = trim_bytes(valraw);
                            proof {
                                assert(valraw@ =~= lns[li as int].skip(j + 1));
                            }
                            headers.insert(name, value);
                        },
                    }
                    li += 1;
                }
                let method = copy_bytes(&toks[0]);
                let path = copy_bytes(&toks[1]);
                let version = copy_bytes(&toks[2]);
                proof {
                    assert(views(toks@)[0] == toks@[0]@);
                    assert(views(toks@)[1] == toks@[1]@);
                    assert(views(toks@)[2] == toks@[2]@);
                }
                Ok(
                    Request {
                        method,
                        path,
                        version,
                        headers,
                        path_params: Headers::new(),
                        body,
                    },
                )
            },
        }
    }

    /// Does the registered pattern (`method`, `pattern`) match this request?
    /// On a match, every parameter segment's binding is added to
    /// `path_params`; on a literal mismatch after the structural checks
    /// passed, `path_params` is cleared; on an earlier mismatch it is left
    /// alone.
    #[verifier::loop_isolation(false)]
    pub fn method_and_pattern_matches(&mut self, method: &[u8], pattern: &[u8]) -> (r: bool)
        ensures
            r == spec_matches(method@, pattern@, old(self).method@, old(self).path@),
            final(self).method@ == old(self).method@,
            final(self).path@ == old(self).path@,
            final(self).version@ == old(self).version@,
            final(self).headers@ == old(self).headers@,
            final(self).body@ == old(self).body@,
            r ==> (if pattern@ == slash() && old(self).path@ == slash() {
                final(self).path_params@ == old(self).path_params@
            } else {
                walk(
                    split_on(pattern@, slash()),
                    split_on(old(self).path@, slash()),
                    0,
                    old(self).path_params@,
                ) == Some(final(self).path_params@)
            }),
            (!r && (method@ != old(self).method@ || pattern@.len() == 0 || pattern@[0] != 47 || (
            !(pattern@ == slash() && old(self).path@ == slash()) && split_on(
                pattern@,
                slash(),
            ).len() != split_on(old(self).path@, slash()).len()))) ==> final(self).path_params@
                == old(self).path_params@,
            (!r && method@ == old(self).method@ && pattern@.len() >= 1 && pattern@[0] == 47 && !(
            pattern@ == slash() && old(self).path@ == slash()) && split_on(pattern@, slash()).len()
                == split_on(old(self).path@, slash()).len()) ==> final(self).path_params@
                == Seq::<(Seq<u8>, Seq<u8>)>::empty(),
    {
        if !bytes_eq(method, self.method.as_slice()) {
            return false;
        }
        if pattern.len() == 0 || pattern[0] != 47 {
            return false;
        }
        let sl = slash_bytes();
        if bytes_eq(pattern, sl.as_slice()) && bytes_eq(self.path.as_slice(), sl.as_slice()) {
            return true;
        }
        let psegs = split_bytes(pattern, sl.as_slice());
        let rsegs = split_bytes(self.path.as_slice(), sl.as_slice());
        let ghost ps = views(psegs@);
        let ghost rs = views(rsegs@);
        if psegs.len() != rsegs.len() {
            return false;
        }
        let n = psegs.len();
        let mut i: usize = 0;
        let ghost m0 = self.path_params@;
        while i < n
            invariant
                n == psegs@.len() == rsegs@.len(),
                i <= n,
                ps == views(psegs@),
                rs == views(rsegs@),
                ps.len() == rs.len(),
                walk(ps, rs, 0, m0) == walk(ps, rs, i as int, self.path_params@),
                self.method@ == old(self).method@,
                self.path@ == old(self).path@,
                self.version@ == old(self).version@,
                self.headers@ == old(self).headers@,
                self.body@ == old(self).body@,
            decreases n - i,
        {
            proof {
                assert(ps[i as int] == psegs@[i as int]@);
                assert(rs[i as int] == rsegs@[i as int]@);
            }
            let seg_len = psegs[i].len();
            let is_param = seg_len >= 2 && psegs[i][0] == 123 && psegs[i][seg_len - 1] == 125;
            proof {
                assert(is_param == is_param_seg(ps[i as int]));
            }
            if is_param {
                let name = vstd::slice::slice_to_vec(
                    vstd::slice::slice_subrange(psegs[i].as_slice(), 1, seg_len - 1),
                );
                let value = copy_bytes(&rsegs[i]);
                proof {
                    assert(name@ =~= param_name(ps[i as int]));
                }
                self.path_params.insert(name, value);
            } else if !bytes_eq(psegs[i].as_slice(), rsegs[i].as_slice()) {
                proof {
                    assert(walk(ps, rs, i as int, self.path_params@) is None);
                    lemma_walk_some(ps, rs, 0, m0, Seq::empty());
                }
                self.path_params = Headers::new();
                proof {
                    assert(self.path_params@ =~= Seq::<(Seq<u8>, Seq<u8>)>::empty());
                }
                return false;
            }
            i += 1;
        }
        proof {
            lemma_walk_some(ps, rs, 0, m0, Seq::empty());
        }
        true
    }

    /// The compression schemes the request's `Accept-Encoding` header
    /// names, in the client's preference order; empty without the header.
    pub fn get_compression_schemas(&self) -> (r: Vec<CompressionSchema>)
        ensures
            r@ == (match lookup(self.headers@, h_accept_encoding()) {
                Some(v) => spec_schemes(v),
                None => Seq::<CompressionSchema>::empty(),
            }),
    {
        let key = h_accept_encoding_bytes();
        match self.headers.get(key.as_slice()) {
            Some(v) => parse_schemes(v.as_slice()),
            None => {
                let r: Vec<CompressionSchema> = Vec::new();
                proof {
                    assert(r@ =~= Seq::<CompressionSchema>::empty());
                }
                r
            },
        }
    }
}

/// A pattern whose template starts with `/` matches exactly when the
/// methods are equal, the segment counts are equal, and every literal
/// template segment equals the request segment at its index.
pub proof fn lemma_match_characterization(
    p_method: Seq<u8>,
    p_path: Seq<u8>,
    method: Seq<u8>,
    path: Seq<u8>,
)
    requires
        p_path.len() >= 1,
        p_path[0] == 47,
    ensures
        spec_matches(p_method, p_path, method, path) <==> (p_method == method && split_on(
            p_path,
            slash(),
        ).len() == split_on(path, slash()).len() && (forall|j: int|
            0 <= j < split_on(p_path, slash()).len() && !is_param_seg(split_on(p_path, slash())[j])
                ==> split_on(p_path, slash())[j] == split_on(path, slash())[j])),
{
    let ps = split_on(p_path, slash());
    let rs = split_on(path, slash());
    if spec_matches(p_method, p_path, method, path) {
        if p_path == slash() && path == slash() {
            assert(ps == rs);
        } else {
            lemma_walk_some_literals(ps, rs, 0, Seq::empty());
        }
    }
    if p_method == method && ps.len() == rs.len() && (forall|j: int|
        0 <= j < ps.len() && !is_param_seg(ps[j]) ==> ps[j] == rs[j]) {
        if p_path == slash() && path == slash() {
        } else {
            lemma_literals_walk_some(ps, rs, 0, Seq::empty());
        }
    }
}

/// The root pattern is exact: a template of `/` matches no path but `/`.
pub proof fn lemma_root_exact(method: Seq<u8>, path: Seq<u8>)
    ensures
        spec_matches(method, slash(), method, path) ==> path == slash(),
{
    if spec_matches(method, slash(), method, path) && path != slash() {
        assert(slash().subrange(0, 1) =~= slash());
        assert(match_at(slash(), slash(), 0));
        lemma_find_sub(slash(), slash());
        assert(find_sub(slash(), slash()) == Some(0int));
        let rest = slash().skip(1);
        assert(rest =~= Seq::<u8>::empty());
        assert(find_sub(rest, slash()) is None);
        assert(split_on(rest, slash()) == seq![rest]);
        let ps = split_on(slash(), slash());
        assert(ps =~= seq![slash().subrange(0, 0), rest]);
        assert(ps.len() == 2);
        assert(ps[0].len() == 0 && ps[1].len() == 0);
        let rs = split_on(path, slash());
        assert(rs.len() == 2);
        assert(walk(ps, rs, 0, Seq::empty()) is Some);
        lemma_walk_some_literals(ps, rs, 0, Seq::empty());
        assert(!is_param_seg(ps[0]) && !is_param_seg(ps[1]));
        assert(rs[0] == ps[0] && rs[1] == ps[1]);
        crate::bytes::lemma_split_two(path, slash());
        assert(path =~= rs[0] + slash() + rs[1]);
        assert(path =~= slash());
    }
}

} // verus!
