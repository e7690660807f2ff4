//! Registered routing patterns: a method paired with a `/`-delimited path
//! template whose `{name}` segments match any request segment.

use vstd::prelude::*;
use crate::bytes::{split_bytes, views, bytes_eq};
use crate::request::{Request, spec_matches, walk, is_param_seg, param_name, lemma_walk_some};
use crate::headers::{copy_bytes, spec_insert};
use crate::tokens::slash_bytes;

verus! {

/// A (method, path-template) pair.
pub struct HandlerPattern(pub Vec<u8>, pub Vec<u8>);

impl HandlerPattern {
    /// Build a pattern from a method and a path template.
    pub fn new(method: Vec<u8>, path: Vec<u8>) -> (r: HandlerPattern)
        ensures
            r.0@ == method@,
            r.1@ == path@,
    {
        HandlerPattern(method, path)
    }

    /// The pattern's method.
    pub fn get_method(&self) -> (r: Vec<u8>)
        ensures
            r@ == self.0@,
    {
        copy_bytes(&self.0)
    }

    /// The pattern's path template.
    pub fn get_path(&self) -> (r: Vec<u8>)
        ensures
            r@ == self.1@,
    {
        copy_bytes(&self.1)
    }

    /// Does this pattern match the request's method and path?  Parameter
    /// bindings are not extracted here.
    #[verifier::loop_isolation(false)]
    pub fn contains_pattern(&self, request: &Request) -> (r: bool)
        ensures
            r == spec_matches(self.0@, self.1@, request.method@, request.path@),
    {
        if !bytes_eq(self.0.as_slice(), request.method.as_slice()) {
            return false;
        }
        if self.1.len() == 0 || self.1[0] != 47 {
            return false;
        }
        let sl = slash_bytes();
        if bytes_eq(self.1.as_slice(), sl.as_slice()) && bytes_eq(
            request.path.as_slice(),
            sl.as_slice(),
        ) {
            return true;
        }
        let psegs = split_bytes(self.1.as_slice(), sl.as_slice());
        let rsegs = split_bytes(request.path.as_slice(), sl.as_slice());
        let ghost ps = views(psegs@);
        let ghost rs = views(rsegs@);
        if psegs.len() != rsegs.len() {
            return false;
        }
        let n = psegs.len();
        let mut i: usize = 0;
        while i < n
            invariant
                i <= n,
                walk(ps, rs, 0, Seq::empty()) is Some <==> walk(ps, rs, i as int, Seq::empty())
                    is Some,
            decreases n - i,
        {
            proof {
                assert(ps[i as int] == psegs@[i as int]@);
                assert(rs[i as int] == rsegs@[i as int]@);
            }
            let seg_len = psegs[i].len();
            let is_param = seg_len >= 2 && psegs[i][0] == 123 && psegs[i][seg_len - 1] == 125;
            proof {
                assert(is_param == is_param_seg(ps[i as int]));
            }
            if is_param {
                proof {
                    lemma_walk_some(
                        ps,
                        rs,
                        i + 1,
                        spec_insert(Seq::empty(), param_name(ps[i as int]), rs[i as int]),
                        Seq::empty(),
                    );
                }
            } else if !bytes_eq(psegs[i].as_slice(), rsegs[i].as_slice()) {
                proof {
                    assert(walk(ps, rs, i as int, Seq::empty()) is None);
                }
                return false;
            }
            i += 1;
        }
        true
    }
}

} // verus!
