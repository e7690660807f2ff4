//! A small header table: a list of (name, value) pairs with one value per
//! name, where inserting an existing name replaces its value (last write
//! wins).  Requests use it for headers and for extracted path parameters;
//! responses use it for the headers they accumulate and render.

use vstd::prelude::*;
use crate::bytes::bytes_eq;
use crate::tokens::{crlf, colon_sp, crlf_bytes, colon_sp_bytes};

verus! {

/// Entries of the table, as byte sequences.
pub open spec fn entry_views(s: Seq<(Vec<u8>, Vec<u8>)>) -> Seq<(Seq<u8>, Seq<u8>)> {
    s.map_values(|p: (Vec<u8>, Vec<u8>)| (p.0@, p.1@))
}

/// The value bound to `k`, scanning from the most recent entry.
pub open spec fn lookup(s: Seq<(Seq<u8>, Seq<u8>)>, k: Seq<u8>) -> Option<Seq<u8>>
    decreases s.len(),
{
    if s.len() == 0 {
        None
    } else if s.last().0 == k {
        Some(s.last().1)
    } else {
        lookup(s.drop_last(), k)
    }
}

/// `s` without the entries named `k`.
pub open spec fn removed(s: Seq<(Seq<u8>, Seq<u8>)>, k: Seq<u8>) -> Seq<(Seq<u8>, Seq<u8>)> {
    s.filter(|p: (Seq<u8>, Seq<u8>)| p.0 != k)
}

/// The table after binding `k` to `v`: any old binding of `k` is gone and
/// the new one stands at the end.
pub open spec fn spec_insert(s: Seq<(Seq<u8>, Seq<u8>)>, k: Seq<u8>, v: Seq<u8>) -> Seq<(
    Seq<u8>,
    Seq<u8>,
)> {
    removed(s, k).push((k, v))
}

/// After an insert, `k` is bound to `v`.
pub proof fn lemma_lookup_insert_same(s: Seq<(Seq<u8>, Seq<u8>)>, k: Seq<u8>, v: Seq<u8>)
    ensures
        lookup(spec_insert(s, k, v), k) == Some(v),
{
    assert(spec_insert(s, k, v).last() == (k, v));
}

/// Removing entries named `k` leaves the binding of any other name alone.
pub proof fn lemma_lookup_removed(s: Seq<(Seq<u8>, Seq<u8>)>, k: Seq<u8>, k2: Seq<u8>)
    requires
        k2 != k,
    ensures
        lookup(removed(s, k), k2) == lookup(s, k2),
    decreases s.len(),
{
    reveal_with_fuel(Seq::filter, 2);
    if s.len() == 0 {
    } else {
        lemma_lookup_removed(s.drop_last(), k, k2);
        if s.last().0 != k {
            assert(removed(s, k) == removed(s.drop_last(), k).push(s.last()));
            assert(removed(s, k).drop_last() =~= removed(s.drop_last(), k));
        } else {
            assert(removed(s, k) == removed(s.drop_last(), k));
        }
    }
}

/// After an insert of `k`, the binding of any other name is unchanged.
pub proof fn lemma_lookup_insert_other(s: Seq<(Seq<u8>, Seq<u8>)>, k: Seq<u8>, v: Seq<u8>, k2: Seq<u8>)
    requires
        k2 != k,
    ensures
        lookup(spec_insert(s, k, v), k2) == lookup(s, k2),
{
    lemma_lookup_removed(s, k, k2);
    assert(spec_insert(s, k, v).drop_last() =~= removed(s, k));
}

/// The rendered header block: `"\r\n" ++ name ++ ": " ++ value` for each
/// entry, in table order; empty for an empty table.
pub open spec fn spec_render(s: Seq<(Seq<u8>, Seq<u8>)>) -> Seq<u8>
    decreases s.len(),
{
    if s.len() == 0 {
        Seq::empty()
    } else {
        spec_render(s.drop_last()) + crlf() + s.last().0 + colon_sp() + s.last().1
    }
}

/// Copy a byte vector.
pub fn copy_bytes(v: &Vec<u8>) -> (r: Vec<u8>)
    ensures
        r@ == v@,
{
    vstd::slice::slice_to_vec(v.as_slice())
}

/// A name-to-value table with at most one entry per name.
#[derive(Debug)]
pub struct Headers {
    entries: Vec<(Vec<u8>, Vec<u8>)>,
}

impl View for Headers {
    type V = Seq<(Seq<u8>, Seq<u8>)>;

    closed spec fn view(&self) -> Seq<(Seq<u8>, Seq<u8>)> {
        entry_views(self.entries@)
    }
}

impl Headers {
    /// An empty table.
    pub fn new() -> (r: Headers)
        ensures
            r@ == Seq::<(Seq<u8>, Seq<u8>)>::empty(),
    {
        let h = Headers { entries: Vec::new() };
        proof {
            assert(h@ =~= Seq::<(Seq<u8>, Seq<u8>)>::empty());
        }
        h
    }

    /// Bind `key` to `value`, replacing any earlier binding of `key`.
    pub fn insert(&mut self, key: Vec<u8>, value: Vec<u8>)
        ensures
            final(self)@ == spec_insert(old(self)@, key@, value@),
    {
        let n = self.entries.len();
        let mut out: Vec<(Vec<u8>, Vec<u8>)> = Vec::new();
        let mut i: usize = 0;
        proof {
            reveal_with_fuel(Seq::filter, 1);
            assert(entry_views(self.entries@).take(0) =~= Seq::<(Seq<u8>, Seq<u8>)>::empty());
            assert(entry_views(out@) =~= Seq::<(Seq<u8>, Seq<u8>)>::empty());
        }
        while i < n
            invariant
                n == self.entries@.len(),
                i <= n,
                entry_views(out@) == removed(entry_views(self.entries@).take(i as int), key@),
            decreases n - i,
        {
            let ghost pre = entry_views(self.entries@).take(i as int);
            let ghost post = entry_views(self.entries@).take(i + 1);
            proof {
                reveal_with_fuel(Seq::filter, 2);
                assert(post.drop_last() =~= pre);
                assert(post.last() == (self.entries@[i as int].0@, self.entries@[i as int].1@));
            }
            if !bytes_eq(self.entries[i].0.as_slice(), key.as_slice()) {
                let k = copy_bytes(&self.entries[i].0);
                let v = copy_bytes(&self.entries[i].1);
                let ghost old_out = out@;
                out.push((k, v));
                proof {
                    assert(entry_views(out@) =~= entry_views(old_out).push(post.last()));
                }
            }
            i += 1;
        }
        proof {
            assert(entry_views(self.entries@).take(n as int) =~= entry_views(self.entries@));
        }
        let ghost old_view = self@;
        let ghost filtered = entry_views(out@);
        out.push((key, value));
        self.entries = out;
        proof {
            assert(self@ =~= filtered.push((key@, value@)));
        }
    }

    /// The value bound to `key`, if any.
    pub fn get(&self, key: &[u8]) -> (r: Option<Vec<u8>>)
        ensures
            match r {
                Some(v) => lookup(self@, key@) == Some(v@),
                None => lookup(self@, key@) is None,
            },
    {
        let n = self.entries.len();
        let mut i: usize = n;
        proof {
            assert(entry_views(self.entries@).take(n as int) =~= self@);
        }
        while i > 0
            invariant
                n == self.entries@.len(),
                i <= n,
                lookup(self@, key@) == lookup(entry_views(self.entries@).take(i as int), key@),
            decreases i,
        {
            let ghost cur = entry_views(self.entries@).take(i as int);
            proof {
                assert(cur.last() == (self.entries@[i - 1].0@, self.entries@[i - 1].1@));
                assert(cur.drop_last() =~= entry_views(self.entries@).take(i - 1));
            }
            if bytes_eq(self.entries[i - 1].0.as_slice(), key) {
                return Some(copy_bytes(&self.entries[i - 1].1));
            }
            i -= 1;
        }
        proof {
            assert(entry_views(self.entries@).take(0) =~= Seq::<(Seq<u8>, Seq<u8>)>::empty());
        }
        None
    }

    /// How many names are bound.
    pub fn len(&self) -> (r: usize)
        ensures
            r == self@.len(),
    {
        self.entries.len()
    }

    /// Render the header block for the wire, in table order.
    pub fn render(&self) -> (r: Vec<u8>)
        ensures
            r@ == spec_render(self@),
    {
        let n = self.entries.len();
        let mut out: Vec<u8> = Vec::new();
        let mut i: usize = 0;
        proof {
            assert(entry_views(self.entries@).take(0) =~= Seq::<(Seq<u8>, Seq<u8>)>::empty());
            assert(out@ =~= spec_render(entry_views(self.entries@).take(0)));
        }
        while i < n
            invariant
                n == self.entries@.len(),
                i <= n,
                out@ == spec_render(entry_views(self.entries@).take(i as int)),
            decreases n - i,
        {
            let ghost pre = entry_views(self.entries@).take(i as int);
            let ghost post = entry_views(self.entries@).take(i + 1);
            proof {
                assert(post.drop_last() =~= pre);
                assert(post.last() == (self.entries@[i as int].0@, self.entries@[i as int].1@));
            }
            let sep = crlf_bytes();
            out.extend_from_slice(sep.as_slice());
            out.extend_from_slice(self.entries[i].0.as_slice());
            let cs = colon_sp_bytes();
            out.extend_from_slice(cs.as_slice());
            out.extend_from_slice(self.entries[i].1.as_slice());
            proof {
                assert(out@ =~= spec_render(post));
            }
            i += 1;
        }
        proof {
            assert(entry_views(self.entries@).take(n as int) =~= self@);
        }
        out
    }
}

} // verus!
