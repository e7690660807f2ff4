//! Byte-sequence utilities: substring search, splitting on a separator,
//! whitespace trimming, decimal rendering and equality.  These are the
//! primitives the request parser, the router and the response serializer
//! are specified and proved against.

use vstd::prelude::*;

verus! {

/// `pat` occurs in `s` at position `i`.
pub open spec fn match_at(s: Seq<u8>, pat: Seq<u8>, i: int) -> bool {
    0 <= i && i + pat.len() <= s.len() && s.subrange(i, i + pat.len() as int) == pat
}

/// Position of the leftmost occurrence of `pat` in `s`, if any.
pub open spec fn find_sub(s: Seq<u8>, pat: Seq<u8>) -> Option<int>
    recommends
        pat.len() >= 1,
    decreases s.len(),
{
    if pat.len() > s.len() {
        None
    } else if match_at(s, pat, 0) {
        Some(0)
    } else if s.len() >= 1 {
        match find_sub(s.skip(1), pat) {
            Some(j) => Some(j + 1),
            None => None,
        }
    } else {
        None
    }
}

/// `find_sub` returns the first occurrence: a hit is a real occurrence with
/// none before it, and a miss means there is no occurrence at all.
pub proof fn lemma_find_sub(s: Seq<u8>, pat: Seq<u8>)
    requires
        pat.len() >= 1,
    ensures
        match find_sub(s, pat) {
            Some(i) => match_at(s, pat, i) && (forall|j: int| 0 <= j < i ==> !match_at(s, pat, j)),
            None => forall|j: int| !match_at(s, pat, j),
        },
    decreases s.len(),
{
    if pat.len() > s.len() {
    } else if match_at(s, pat, 0) {
    } else {
        lemma_find_sub(s.skip(1), pat);
        assert forall|j: int| 0 <= j implies match_at(s, pat, j + 1) == match_at(
            s.skip(1),
            pat,
            j,
        ) by {
            if j + 1 + pat.len() <= s.len() {
                assert(s.skip(1).subrange(j, j + pat.len() as int) =~= s.subrange(
                    j + 1,
                    j + 1 + pat.len() as int,
                ));
            }
        }
        match find_sub(s.skip(1), pat) {
            Some(j) => {
                assert(match_at(s, pat, j + 1));
                assert forall|k: int| 0 <= k < j + 1 implies !match_at(s, pat, k) by {
                    if k >= 1 {
                        assert(!match_at(s.skip(1), pat, k - 1));
                    }
                }
            },
            None => {
                assert forall|j: int| !match_at(s, pat, j) implies true by {}
                assert forall|j: int| match_at(s, pat, j) implies false by {
                    if j >= 1 {
                        assert(!match_at(s.skip(1), pat, j - 1));
                    }
                }
            },
        }
    }
}

/// The bytes of `pat` all stand in `s` at offset `i`.
fn eq_at(s: &[u8], pat: &[u8], i: usize) -> (r: bool)
    requires
        i + pat@.len() <= s@.len(),
    ensures
        r == match_at(s@, pat@, i as int),
{
    let n = s.len();
    let mut k: usize = 0;
    while k < pat.len()
        invariant
            n == s@.len(),
            i + pat@.len() <= s@.len(),
            k <= pat@.len(),
            forall|m: int| 0 <= m < k ==> s@[i + m] == pat@[m],
        decreases pat@.len() - k,
    {
        if s[i + k] != pat[k] {
            proof {
                assert(s@.subrange(i as int, i + pat@.len() as int)[k as int] == s@[i + k]);
            }
            return false;
        }
        k += 1;
    }
    proof {
        assert(s@.subrange(i as int, i + pat@.len() as int) =~= pat@);
    }
    true
}

/// Leftmost occurrence of `pat` in `s`, as `find_sub` gives it.
pub fn find(s: &[u8], pat: &[u8]) -> (r: Option<usize>)
    requires
        pat@.len() >= 1,
    ensures
        match r {
            Some(i) => find_sub(s@, pat@) == Some(i as int),
            None => find_sub(s@, pat@) is None,
        },
{
    proof {
        lemma_find_sub(s@, pat@);
    }
    if pat.len() > s.len() {
        return None;
    }
    let mut i: usize = 0;
    while i <= s.len() - pat.len()
        invariant
            1 <= pat@.len() <= s@.len(),
            i <= s@.len() - pat@.len() + 1,
            forall|j: int| 0 <= j < i ==> !match_at(s@, pat@, j),
        decreases s@.len() - i,
    {
        if eq_at(s, pat, i) {
            proof {
                lemma_find_sub(s@, pat@);
            }
            return Some(i);
        }
        i += 1;
    }
    assert(forall|j: int| !match_at(s@, pat@, j));
    None
}

/// Segments of `s` between the non-overlapping, leftmost-first occurrences
/// of `sep`; always at least one segment, and the empty sequence yields one
/// empty segment.
pub open spec fn split_on(s: Seq<u8>, sep: Seq<u8>) -> Seq<Seq<u8>>
    recommends
        sep.len() >= 1,
    decreases s.len(),
{
    match find_sub(s, sep) {
        None => seq![s],
        Some(i) => if 0 <= i && sep.len() >= 1 && i + sep.len() <= s.len() {
            seq![s.subrange(0, i)] + split_on(s.skip(i + sep.len() as int), sep)
        } else {
            seq![s]
        },
    }
}

/// Views of a vector of byte vectors.
pub open spec fn views(s: Seq<Vec<u8>>) -> Seq<Seq<u8>> {
    s.map_values(|v: Vec<u8>| v@)
}

/// Splitting yields at least one segment.
pub proof fn lemma_split_on_len(s: Seq<u8>, sep: Seq<u8>)
    requires
        sep.len() >= 1,
    ensures
        split_on(s, sep).len() >= 1,
    decreases s.len(),
{
    match find_sub(s, sep) {
        None => {},
        Some(i) => {
            lemma_find_sub(s, sep);
        },
    }
}

/// Split `s` on `sep`, leftmost occurrence first.
pub fn split_bytes(s: &[u8], sep: &[u8]) -> (r: Vec<Vec<u8>>)
    requires
        sep@.len() >= 1,
    ensures
        views(r@) == split_on(s@, sep@),
        r@.len() >= 1,
{
    let mut acc: Vec<Vec<u8>> = Vec::new();
    let mut pos: usize = 0;
    proof {
        assert(s@.skip(0) =~= s@);
        assert(views(acc@) =~= Seq::<Seq<u8>>::empty());
        assert(views(acc@) + split_on(s@, sep@) =~= split_on(s@, sep@));
    }
    loop
        invariant
            sep@.len() >= 1,
            pos <= s@.len(),
            split_on(s@, sep@) == views(acc@) + split_on(s@.skip(pos as int), sep@),
        decreases s@.len() - pos,
    {
        let rest = vstd::slice::slice_subrange(s, pos, s.len());
        let ghost old_acc = acc@;
        match find(rest, sep) {
            Some(i) => {
                proof {
                    lemma_find_sub(rest@, sep@);
                }
                let seg = vstd::slice::slice_to_vec(vstd::slice::slice_subrange(rest, 0, i));
                acc.push(seg);
                let new_pos = pos + i + sep.len();
                proof {
                    assert(s@.skip(pos as int).skip(i + sep@.len() as int) =~= s@.skip(
                        new_pos as int,
                    ));
                    assert(views(acc@) =~= views(old_acc).push(seg@));
                    assert(split_on(s@.skip(pos as int), sep@) == seq![seg@] + split_on(
                        s@.skip(new_pos as int),
                        sep@,
                    ));
                    assert(views(old_acc) + (seq![seg@] + split_on(s@.skip(new_pos as int), sep@))
                        =~= views(acc@) + split_on(s@.skip(new_pos as int), sep@));
                }
                pos = new_pos;
            },
            None => {
                proof {
                    lemma_find_sub(rest@, sep@);
                }
                let seg = vstd::slice::slice_to_vec(rest);
                acc.push(seg);
                proof {
                    assert(split_on(s@.skip(pos as int), sep@) == seq![seg@]);
                    assert(views(acc@) =~= views(old_acc).push(seg@));
                    assert(views(old_acc) + seq![seg@] =~= views(acc@));
                }
                return acc;
            },
        }
    }
}

/// A split into exactly two segments recovers the original: the separator
/// occurred once, between them.
pub proof fn lemma_split_two(s: Seq<u8>, sep: Seq<u8>)
    requires
        sep.len() >= 1,
        split_on(s, sep).len() == 2,
    ensures
        s == split_on(s, sep)[0] + sep + split_on(s, sep)[1],
{
    lemma_find_sub(s, sep);
    match find_sub(s, sep) {
        None => {
            assert(split_on(s, sep) == seq![s]);
        },
        Some(i) => {
            let rest = s.skip(i + sep.len() as int);
            assert(split_on(s, sep) == seq![s.subrange(0, i)] + split_on(rest, sep));
            lemma_split_on_len(rest, sep);
            lemma_find_sub(rest, sep);
            match find_sub(rest, sep) {
                Some(j) => {
                    lemma_split_on_len(rest.skip(j + sep.len() as int), sep);
                    assert(false);
                },
                None => {},
            }
            assert(split_on(rest, sep) == seq![rest]);
            assert(split_on(s, sep)[0] == s.subrange(0, i));
            assert(split_on(s, sep)[1] == rest);
            assert(s.subrange(i, i + sep.len() as int) == sep);
            assert(s =~= s.subrange(0, i) + s.subrange(i, i + sep.len() as int) + rest);
        },
    }
}

/// ASCII whitespace, as the trimming of header values understands it.
pub open spec fn is_ws(b: u8) -> bool {
    b == 32 || (9 <= b && b <= 13)
}

pub open spec fn trim_start(s: Seq<u8>) -> Seq<u8>
    decreases s.len(),
{
    if s.len() > 0 && is_ws(s[0]) {
        trim_start(s.skip(1))
    } else {
        s
    }
}

pub open spec fn trim_end(s: Seq<u8>) -> Seq<u8>
    decreases s.len(),
{
    if s.len() > 0 && is_ws(s.last()) {
        trim_end(s.drop_last())
    } else {
        s
    }
}

/// `s` without leading and trailing ASCII whitespace.
pub open spec fn trim(s: Seq<u8>) -> Seq<u8> {
    trim_end(trim_start(s))
}

/// Trim ASCII whitespace from both ends of `s`.
pub fn trim_bytes(s: &[u8]) -> (r: Vec<u8>)
    ensures
        r@ == trim(s@),
{
    let n = s.len();
    let mut a: usize = 0;
    proof {
        assert(s@.skip(0) =~= s@);
    }
    while a < n && (s[a] == 32 || (9 <= s[a] && s[a] <= 13))
        invariant
            n == s@.len(),
            a <= s@.len(),
            trim_start(s@) == trim_start(s@.skip(a as int)),
        decreases s@.len() - a,
    {
        proof {
            assert(s@.skip(a as int)[0] == s@[a as int]);
            assert(s@.skip(a as int).skip(1) =~= s@.skip(a + 1));
        }
        a += 1;
    }
    proof {
        if a < s@.len() {
            assert(s@.skip(a as int)[0] == s@[a as int]);
        }
        assert(trim_start(s@) == s@.skip(a as int));
    }
    let ghost t = s@.skip(a as int);
    let mut b: usize = n - a;
    proof {
        assert(t.take(b as int) =~= t);
    }
    while b > 0 && (s[a + b - 1] == 32 || (9 <= s[a + b - 1] && s[a + b - 1] <= 13))
        invariant
            n == s@.len(),
            a <= s@.len(),
            b <= s@.len() - a,
            t == s@.skip(a as int),
            trim_end(t) == trim_end(t.take(b as int)),
        decreases b,
    {
        proof {
            assert(t.take(b as int).last() == s@[a + b - 1]);
            assert(t.take(b as int).drop_last() =~= t.take(b - 1));
        }
        b -= 1;
    }
    proof {
        if b > 0 {
            assert(t.take(b as int).last() == s@[a + b - 1]);
        }
        assert(trim_end(t.take(b as int)) == t.take(b as int));
        assert(t.take(b as int) =~= s@.subrange(a as int, a + b));
    }
    vstd::slice::slice_to_vec(vstd::slice::slice_subrange(s, a, a + b))
}

/// Decimal digits of `n`, most significant first.
pub open spec fn dec_digits(n: nat) -> Seq<u8>
    decreases n,
{
    if n < 10 {
        seq![(48 + n) as u8]
    } else {
        dec_digits(n / 10).push((48 + n % 10) as u8)
    }
}

/// Render `n` in decimal ASCII.
pub fn dec_bytes(n: usize) -> (r: Vec<u8>)
    ensures
        r@ == dec_digits(n as nat),
    decreases n,
{
    if n < 10 {
        let mut v: Vec<u8> = Vec::new();
        v.push(48 + n as u8);
        proof {
            assert(v@ =~= dec_digits(n as nat));
        }
        v
    } else {
        proof {
            assert(n / 10 < n) by (nonlinear_arith)
                requires
                    n >= 10,
            ;
        }
        let mut v = dec_bytes(n / 10);
        v.push(48 + (n % 10) as u8);
        proof {
            assert(v@ =~= dec_digits(n as nat));
        }
        v
    }
}

/// Byte-for-byte equality of two slices.
pub fn bytes_eq(a: &[u8], b: &[u8]) -> (r: bool)
    ensures
        r == (a@ == b@),
{
    if a.len() != b.len() {
        return false;
    }
    let mut i: usize = 0;
    while i < a.len()
        invariant
            a@.len() == b@.len(),
            i <= a@.len(),
            forall|j: int| 0 <= j < i ==> a@[j] == b@[j],
        decreases a@.len() - i,
    {
        if a[i] != b[i] {
            return false;
        }
        i += 1;
    }
    proof {
        assert(a@ =~= b@);
    }
    true
}

} // verus!
