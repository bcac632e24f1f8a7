//! A directory of archived exchanges, one file each, listed in the order of
//! their paths.
use crate::multi_value::views_of;
use vstd::prelude::*;
use vstd::relations::{sorted_by, total_ordering};
use vstd::seq_lib::{group_to_multiset_ensures, lemma_sorted_unique};

verus! {

/// Lexicographic order of paths, character by character by code point: the
/// order of their UTF-8 bytes. For the entries of one directory it is the
/// order of their file names.
pub open spec fn path_le(a: Seq<char>, b: Seq<char>) -> bool
    decreases a.len(),
{
    if a.len() == 0 {
        true
    } else if b.len() == 0 {
        false
    } else if (a[0] as u32) < (b[0] as u32) {
        true
    } else if (a[0] as u32) > (b[0] as u32) {
        false
    } else {
        path_le(a.drop_first(), b.drop_first())
    }
}

/// `path_le` as a relation.
pub open spec fn path_order() -> spec_fn(Seq<char>, Seq<char>) -> bool {
    |a: Seq<char>, b: Seq<char>| path_le(a, b)
}

/// The paths of a listing in path order, or in the reverse of it.
pub open spec fn listed_order(paths: Seq<Seq<char>>, reverse: bool) -> Seq<Seq<char>> {
    let sorted = paths.sort_by(path_order());
    if reverse {
        sorted.reverse()
    } else {
        sorted
    }
}

proof fn lemma_path_le_reflexive(a: Seq<char>)
    ensures
        path_le(a, a),
    decreases a.len(),
{
    if a.len() > 0 {
        lemma_path_le_reflexive(a.drop_first());
    }
}

proof fn lemma_path_le_antisymmetric(a: Seq<char>, b: Seq<char>)
    requires
        path_le(a, b),
        path_le(b, a),
    ensures
        a == b,
    decreases a.len(),
{
    if a.len() == 0 {
        assert(b.len() == 0);
        assert(a =~= b);
    } else {
        lemma_path_le_antisymmetric(a.drop_first(), b.drop_first());
        vstd::utf8::char_u32_cast(a[0], a[0] as u32);
        vstd::utf8::char_u32_cast(b[0], b[0] as u32);
        assert(a[0] == b[0]);
        assert(a =~= seq![a[0]] + a.drop_first());
        assert(b =~= seq![b[0]] + b.drop_first());
    }
}

proof fn lemma_path_le_transitive(a: Seq<char>, b: Seq<char>, c: Seq<char>)
    requires
        path_le(a, b),
        path_le(b, c),
    ensures
        path_le(a, c),
    decreases a.len(),
{
    if a.len() > 0 && (a[0] as u32) == (b[0] as u32) && (b[0] as u32) == (c[0] as u32) {
        lemma_path_le_transitive(a.drop_first(), b.drop_first(), c.drop_first());
    }
}

proof fn lemma_path_le_total(a: Seq<char>, b: Seq<char>)
    ensures
        path_le(a, b) || path_le(b, a),
    decreases a.len(),
{
    if a.len() > 0 && b.len() > 0 {
        lemma_path_le_total(a.drop_first(), b.drop_first());
    }
}

/// Path order is a total order.
pub proof fn lemma_path_order_total()
    ensures
        total_ordering(path_order()),
{
    assert forall|a: Seq<char>| #[trigger] path_order()(a, a) by {
        lemma_path_le_reflexive(a);
    }
    assert forall|a: Seq<char>, b: Seq<char>| #[trigger] path_order()(a, b) && #[trigger] path_order()(b, a)
        implies a == b by {
        lemma_path_le_antisymmetric(a, b);
    }
    assert forall|a: Seq<char>, b: Seq<char>, c: Seq<char>|
        #[trigger] path_order()(a, b) && #[trigger] path_order()(b, c) implies path_order()(a, c) by {
        lemma_path_le_transitive(a, b, c);
    }
    assert forall|a: Seq<char>, b: Seq<char>| path_order()(a, b) || #[trigger] path_order()(b, a) by {
        lemma_path_le_total(a, b);
    }
}

/// Listing in reverse gives exactly the reverse of listing forwards.
pub proof fn lemma_reverse_listing(paths: Seq<Seq<char>>)
    ensures
        listed_order(paths, true) == listed_order(paths, false).reverse(),
{
}

/// Whether path `a` comes no later than path `b`.
fn path_le_exec(a: &str, b: &str) -> (r: bool)
    ensures
        r == path_le(a@, b@),
{
    let n = a.unicode_len();
    let m = b.unicode_len();
    let mut i: usize = 0;
    assert(a@.subrange(0, n as int) =~= a@);
    assert(b@.subrange(0, m as int) =~= b@);
    while i < n && i < m
        invariant
            n == a@.len(),
            m == b@.len(),
            i <= n,
            i <= m,
            path_le(a@, b@) == path_le(a@.subrange(i as int, n as int), b@.subrange(i as int, m as int)),
        decreases n - i,
    {
        let x = a.get_char(i);
        let y = b.get_char(i);
        if (x as u32) < (y as u32) {
            return true;
        }
        if (x as u32) > (y as u32) {
            return false;
        }
        assert(a@.subrange(i as int, n as int).drop_first() =~= a@.subrange(i + 1, n as int));
        assert(b@.subrange(i as int, m as int).drop_first() =~= b@.subrange(i + 1, m as int));
        i = i + 1;
    }
    i == n
}

/// The paths of `listing` in path order.
fn sorted_paths(listing: &Vec<String>) -> (r: Vec<String>)
    ensures
        views_of(r@) == views_of(listing@).sort_by(path_order()),
{
    broadcast use group_to_multiset_ensures;

    proof {
        lemma_path_order_total();
    }
    let mut out: Vec<String> = Vec::new();
    let mut i: usize = 0;
    while i < listing.len()
        invariant
            i <= listing@.len(),
            total_ordering(path_order()),
            sorted_by(views_of(out@), path_order()),
            views_of(out@).to_multiset() == views_of(listing@.subrange(0, i as int)).to_multiset(),
        decreases listing@.len() - i,
    {
        let p = listing[i].clone();
        let mut k: usize = out.len();
        while k > 0 && !path_le_exec(out[k - 1].as_str(), p.as_str())
            invariant
                k <= out@.len(),
                forall|j: int| k <= j < out@.len() ==> !path_le(#[trigger] out@[j]@, p@),
            decreases k,
        {
            k = k - 1;
        }
        let ghost s = views_of(out@);
        proof {
            assert forall|j: int| k <= j < s.len() implies path_le(p@, #[trigger] s[j]) by {
                lemma_path_le_total(p@, s[j]);
            }
        }
        let ghost pv = p@;
        out.insert(k, p);
        let ghost s2 = views_of(out@);
        assert(s2 =~= s.insert(k as int, pv));
        proof {
            assert forall|x: int, y: int| 0 <= x < y < s2.len() implies #[trigger] path_order()(s2[x], s2[y]) by {
                if y < k {
                } else if y == k {
                    if x < k - 1 {
                        assert(path_order()(s[x], s[k - 1]));
                        lemma_path_le_transitive(s[x], s[k - 1], p@);
                    }
                } else if x < k {
                    assert(path_order()(s[x], s[y - 1]));
                } else if x == k {
                } else {
                    assert(path_order()(s[x - 1], s[y - 1]));
                }
            }
            assert(listing@.subrange(0, i + 1) =~= listing@.subrange(0, i as int).push(listing@[i as int]));
            assert(views_of(listing@.subrange(0, i + 1)) =~= views_of(listing@.subrange(0, i as int)).push(pv));
            vstd::seq_lib::to_multiset_insert(s, k as int, pv);
            vstd::seq_lib::to_multiset_build(views_of(listing@.subrange(0, i as int)), pv);
        }
        i = i + 1;
    }
    proof {
        assert(listing@.subrange(0, listing@.len() as int) =~= listing@);
        views_of(listing@).lemma_sort_by_ensures(path_order());
        lemma_sorted_unique(views_of(out@), views_of(listing@).sort_by(path_order()), path_order());
    }
    out
}

/// The same paths in the opposite order.
fn reversed(paths: &Vec<String>) -> (r: Vec<String>)
    ensures
        views_of(r@) == views_of(paths@).reverse(),
{
    let n = paths.len();
    let mut out: Vec<String> = Vec::new();
    let mut i: usize = n;
    while i > 0
        invariant
            n == paths@.len(),
            i <= n,
            views_of(out@) =~= views_of(paths@).reverse().subrange(0, n - i),
        decreases i,
    {
        let ghost prior = views_of(out@);
        out.push(paths[i - 1].clone());
        assert(views_of(out@) =~= prior.push(paths@[i - 1]@));
        assert(views_of(paths@).reverse()[n - i] == paths@[i - 1]@);
        assert(views_of(paths@).reverse().subrange(0, n - i + 1)
            =~= views_of(paths@).reverse().subrange(0, n - i).push(paths@[i - 1]@));
        i = i - 1;
    }
    out
}

/// A directory that holds archived exchanges, one file each, named by the
/// request's timestamp. Nothing is cached: each listing is taken anew.
#[derive(Clone, Debug, PartialEq, Eq)]
pub struct Store {
    pub base: String,
}

impl Store {
    /// The store kept in the directory `base`.
    pub fn new(base: &str) -> (r: Self)
        ensures
            r.base@ == base@,
    {
        Store { base: String::from_str(base) }
    }

    /// The full paths of the directory's entries, given as `listing`, in
    /// path order, or in the reverse of it. With file names of equal width
    /// this is the order of the timestamps; with mixed widths it is not.
    pub fn paths(&self, listing: Vec<String>, reverse: bool) -> (r: Vec<String>)
        ensures
            views_of(r@) == listed_order(views_of(listing@), reverse),
    {
        let sorted = sorted_paths(&listing);
        if reverse {
            reversed(&sorted)
        } else {
            sorted
        }
    }

    /// The paths of the directory's entries, given as `listing`, to be read
    /// one at a time in the order of `paths`.
    pub fn contents(&self, listing: Vec<String>, reverse: bool) -> (r: Contents)
        ensures
            r.remaining() == listed_order(views_of(listing@), reverse),
    {
        // Held in the opposite order, so that the next path is taken off the end.
        let paths = self.paths(listing, !reverse);
        let r = Contents { paths };
        assert(listed_order(views_of(listing@), false) =~= listed_order(views_of(listing@), true).reverse());
        r
    }
}

/// The paths of a store still to be read, in order. A single pass: a fresh
/// one takes a new listing.
#[derive(Clone, Debug, PartialEq, Eq)]
pub struct Contents {
    paths: Vec<String>,
}

impl Contents {
    /// The paths not yet handed out, in order.
    pub closed spec fn remaining(&self) -> Seq<Seq<char>> {
        views_of(self.paths@).reverse()
    }

    /// The next path to read, or `None` once all have been handed out.
    pub fn next(&mut self) -> (r: Option<String>)
        ensures
            old(self).remaining().len() == 0 ==> r is None && final(self).remaining() == old(self).remaining(),
            old(self).remaining().len() > 0 ==> (r matches Some(p) && p@ == old(self).remaining()[0]
                && final(self).remaining() == old(self).remaining().drop_first()),
    {
        let ghost before = views_of(self.paths@);
        let r = self.paths.pop();
        proof {
            if before.len() > 0 {
                assert(views_of(self.paths@) =~= before.drop_last());
                assert(views_of(self.paths@).reverse() =~= before.reverse().drop_first());
            }
        }
        r
    }
}

} // verus!
