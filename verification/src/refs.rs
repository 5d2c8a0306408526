//! The file references that decrypted entries make, kept in key order with one
//! reference per attachment id.
use vstd::prelude::*;

use crate::attachments::opt_view;
use crate::json::str_eq;
use crate::model::FileReference;
use crate::text::chars_of;

verus! {

/// Lexicographic order of texts by code point, the order of `String`'s `Ord`.
pub open spec fn key_lt(a: Seq<char>, b: Seq<char>) -> bool
    decreases a.len(),
{
    if a.len() == 0 {
        b.len() > 0
    } else if b.len() == 0 {
        false
    } else if a[0] != b[0] {
        a[0] < b[0]
    } else {
        key_lt(a.drop_first(), b.drop_first())
    }
}

/// No text precedes itself.
pub proof fn lemma_key_lt_irreflexive(a: Seq<char>)
    ensures
        !key_lt(a, a),
    decreases a.len(),
{
    if a.len() > 0 {
        lemma_key_lt_irreflexive(a.drop_first());
    }
}

/// The order is transitive.
pub proof fn lemma_key_lt_transitive(a: Seq<char>, b: Seq<char>, c: Seq<char>)
    requires
        key_lt(a, b),
        key_lt(b, c),
    ensures
        key_lt(a, c),
    decreases a.len(),
{
    if a.len() > 0 && b.len() > 0 && c.len() > 0 && a[0] == b[0] && b[0] == c[0] {
        lemma_key_lt_transitive(a.drop_first(), b.drop_first(), c.drop_first());
    }
}

/// Two different texts are ordered one way or the other.
pub proof fn lemma_key_lt_total(a: Seq<char>, b: Seq<char>)
    requires
        a != b,
    ensures
        key_lt(a, b) || key_lt(b, a),
    decreases a.len(),
{
    if a.len() == 0 {
        assert(b.len() > 0) by {
            if b.len() == 0 {
                assert(a =~= b);
            }
        }
    } else if b.len() == 0 {
    } else if a[0] == b[0] {
        assert(a.drop_first() != b.drop_first()) by {
            if a.drop_first() =~= b.drop_first() {
                assert(a.drop_first().len() == a.len() - 1);
                assert(b.drop_first().len() == b.len() - 1);
                assert(a.len() == b.len());
                assert forall|k: int| 0 <= k < a.len() implies a[k] == b[k] by {
                    if k > 0 {
                        assert(a[k] == a.drop_first()[k - 1]);
                        assert(b[k] == b.drop_first()[k - 1]);
                    }
                }
                assert(a =~= b);
            }
        }
        lemma_key_lt_total(a.drop_first(), b.drop_first());
    }
}

/// Compares two texts in key order.
pub fn less_than(a: &str, b: &str) -> (r: bool)
    ensures
        r == key_lt(a@, b@),
{
    let x = chars_of(a);
    let y = chars_of(b);
    let mut i: usize = 0;
    assert(a@.skip(0) =~= a@);
    assert(b@.skip(0) =~= b@);
    while i < x.len() && i < y.len() && x[i] == y[i]
        invariant
            x@ == a@,
            y@ == b@,
            i <= x.len(),
            i <= y.len(),
            key_lt(a@, b@) == key_lt(a@.skip(i as int), b@.skip(i as int)),
        decreases x.len() - i,
    {
        assert(a@.skip(i as int).drop_first() =~= a@.skip(i + 1));
        assert(b@.skip(i as int).drop_first() =~= b@.skip(i + 1));
        i = i + 1;
    }
    let ghost sa = a@.skip(i as int);
    let ghost sb = b@.skip(i as int);
    assert(sa.len() == x.len() - i && sb.len() == y.len() - i);
    if i < x.len() && i < y.len() {
        assert(sa[0] == x@[i as int] && sb[0] == y@[i as int]);
    }
    assert(key_lt(sa, sb) == (if sa.len() == 0 { sb.len() > 0 } else if sb.len() == 0 { false }
        else if sa[0] != sb[0] { sa[0] < sb[0] }
        else { key_lt(sa.drop_first(), sb.drop_first()) }));
    if i == x.len() {
        assert(sa.len() == 0);
        i < y.len()
    } else if i == y.len() {
        assert(sa.len() > 0 && sb.len() == 0);
        false
    } else {
        assert(sa[0] != sb[0]);
        x[i] < y[i]
    }
}

/// What a file reference says, by value.
pub open spec fn ref_view(r: FileReference) -> (Seq<char>, Option<Seq<char>>, Option<u64>) {
    (r.filename@, opt_view(r.mime_type), r.size)
}

/// An attachment id with its reference, by value.
pub open spec fn item_view(e: (String, FileReference)) -> (Seq<char>, (Seq<char>, Option<Seq<char>>, Option<u64>)) {
    (e.0@, ref_view(e.1))
}

/// Keys in strictly increasing order (hence each at most once).
pub open spec fn strictly_sorted(s: Seq<(String, FileReference)>) -> bool {
    forall|i: int, j: int| 0 <= i < j < s.len() ==> key_lt(#[trigger] s[i].0@, #[trigger] s[j].0@)
}

/// Some item has the key.
pub open spec fn has_key(s: Seq<(String, FileReference)>, k: Seq<char>) -> bool {
    exists|i: int| 0 <= i < s.len() && #[trigger] s[i].0@ == k
}

/// Some item has this key and reference.
pub open spec fn holds(s: Seq<(String, FileReference)>, e: (Seq<char>, (Seq<char>, Option<Seq<char>>, Option<u64>))) -> bool {
    exists|i: int| 0 <= i < s.len() && #[trigger] item_view(s[i]) == e
}

/// The file references collected so far, one per attachment id, in key order.
#[derive(Debug)]
pub struct References {
    pub items: Vec<(String, FileReference)>,
}

impl References {
    /// Keys are strictly increasing.
    pub open spec fn wf(&self) -> bool {
        strictly_sorted(self.items@)
    }

    /// An empty collection.
    pub fn new() -> (r: References)
        ensures
            r.wf(),
            r.items@.len() == 0,
    {
        References { items: Vec::new() }
    }

    /// Records a reference for `key` unless one is already recorded; the first one stays.
    pub fn insert_if_absent(&mut self, key: String, reference: FileReference)
        requires
            old(self).wf(),
        ensures
            final(self).wf(),
            has_key(old(self).items@, key@) ==> final(self).items@ == old(self).items@,
            !has_key(old(self).items@, key@) ==> {
                &&& final(self).items@.len() == old(self).items@.len() + 1
                &&& forall|e| holds(final(self).items@, e) <==> (holds(old(self).items@, e)
                    || e == (key@, ref_view(reference)))
            },
    {
        let n = self.items.len();
        let mut i: usize = 0;
        while i < n && less_than(self.items[i].0.as_str(), key.as_str())
            invariant
                n == self.items.len(),
                i <= n,
                forall|j: int| 0 <= j < i ==> key_lt(#[trigger] self.items@[j].0@, key@),
            decreases n - i,
        {
            i = i + 1;
        }
        if i < n && str_eq(self.items[i].0.as_str(), key.as_str()) {
            return;
        }
        let ghost old_items = self.items@;
        proof {
            assert forall|j: int| i <= j < n implies key_lt(key@, #[trigger] old_items[j].0@) by {
                lemma_key_lt_total(old_items[i as int].0@, key@);
                if j > i {
                    lemma_key_lt_transitive(key@, old_items[i as int].0@, old_items[j].0@);
                }
            }
            assert forall|j: int| 0 <= j < n implies old_items[j].0@ != key@ by {
                if j < i {
                    lemma_key_lt_irreflexive(key@);
                } else {
                    lemma_key_lt_irreflexive(key@);
                }
            }
        }
        let ghost elt = (key, reference);
        self.items.insert(i, (key, reference));
        proof {
            let s = self.items@;
            old_items.insert_ensures(i as int, elt);
            assert(s == old_items.insert(i as int, elt));
            assert(s[i as int] == elt);
            assert forall|k: int| 0 <= k < i implies #[trigger] s[k] == old_items[k] by {
                assert(old_items.insert(i as int, elt)[k] == old_items[k]);
            }
            assert forall|k: int| i < k < s.len() implies #[trigger] s[k] == old_items[k - 1] by {
                assert(old_items.insert(i as int, elt)[(k - 1) + 1] == old_items[k - 1]);
            }
            assert forall|a: int, b: int| 0 <= a < b < s.len() implies key_lt(#[trigger] s[a].0@, #[trigger] s[b].0@) by {
                if b < i {
                } else if a < i && b == i {
                } else if a < i && b > i {
                    assert(s[b] == old_items[b - 1]);
                    lemma_key_lt_transitive(s[a].0@, s[i as int].0@, s[b].0@);
                } else if a == i {
                    assert(s[b] == old_items[b - 1]);
                } else {
                    assert(s[a] == old_items[a - 1]);
                    assert(s[b] == old_items[b - 1]);
                }
            }
            assert forall|e| holds(old_items, e) || e == (key@, ref_view(s[i as int].1)) implies holds(s, e) by {
                if e == (key@, ref_view(s[i as int].1)) {
                    assert(item_view(s[i as int]) == e);
                } else {
                    let k = choose|k: int| 0 <= k < old_items.len() && #[trigger] item_view(old_items[k]) == e;
                    if k < i {
                        assert(item_view(s[k]) == e);
                    } else {
                        assert(item_view(s[k + 1]) == e);
                    }
                }
            }
            assert forall|e| holds(s, e) implies (holds(old_items, e) || e == (key@, ref_view(s[i as int].1))) by {
                {
                    let k = choose|k: int| 0 <= k < s.len() && #[trigger] item_view(s[k]) == e;
                    if k < i {
                        assert(item_view(old_items[k]) == e);
                    } else if k > i {
                        assert(item_view(old_items[k - 1]) == e);
                    }
                }
            }
            assert(!has_key(old_items, key@));
        }
    }

    /// Removes and returns the reference recorded for `key`, if any.
    pub fn take(&mut self, key: &str) -> (r: Option<FileReference>)
        requires
            old(self).wf(),
        ensures
            final(self).wf(),
            match r {
                Some(f) => exists|i: int| 0 <= i < old(self).items@.len()
                    && #[trigger] old(self).items@[i].0@ == key@ && old(self).items@[i].1 == f
                    && final(self).items@ == old(self).items@.remove(i),
                None => !has_key(old(self).items@, key@) && final(self).items@ == old(self).items@,
            },
    {
        let n = self.items.len();
        let mut i: usize = 0;
        while i < n
            invariant
                n == self.items.len(),
                i <= n,
                self.items@ == old(self).items@,
                strictly_sorted(self.items@),
                forall|j: int| 0 <= j < i ==> #[trigger] self.items@[j].0@ != key@,
            decreases n - i,
        {
            if str_eq(self.items[i].0.as_str(), key) {
                let ghost old_items = self.items@;
                let (_, f) = self.items.remove(i);
                proof {
                    old_items.remove_ensures(i as int);
                    let s = self.items@;
                    assert forall|a: int, b: int| 0 <= a < b < s.len() implies key_lt(#[trigger] s[a].0@, #[trigger] s[b].0@) by {
                        if a < i && b < i {
                        } else if a < i {
                            assert(s[b] == old_items[b + 1]);
                        } else {
                            assert(s[a] == old_items[a + 1]);
                            assert(s[b] == old_items[b + 1]);
                        }
                    }
                    assert(old_items[i as int].0@ == key@ && old_items[i as int].1 == f);
                }
                return Some(f);
            }
            i = i + 1;
        }
        None
    }
}

/// A file reference candidate: an attachment id with what the entry says about it.
pub type Candidate = (Seq<char>, (Seq<char>, Option<Seq<char>>, Option<u64>));

/// Some candidate has the key.
pub open spec fn key_in(c: Seq<Candidate>, k: Seq<char>) -> bool {
    exists|i: int| 0 <= i < c.len() && #[trigger] c[i].0 == k
}

/// `e` is the first candidate with its key.
pub open spec fn is_first(c: Seq<Candidate>, e: Candidate) -> bool {
    exists|i: int| 0 <= i < c.len() && #[trigger] c[i] == e
        && forall|j: int| 0 <= j < i ==> #[trigger] c[j].0 != e.0
}

/// The references in `after` are those in `before`, plus, for each key that `before` lacks,
/// the first candidate with that key.
pub open spec fn collected(before: Seq<(String, FileReference)>, c: Seq<Candidate>,
    after: Seq<(String, FileReference)>) -> bool {
    forall|e: Candidate| #![trigger holds(after, e)]
        holds(after, e) <==> (holds(before, e) || (!has_key(before, e.0) && is_first(c, e)))
}

pub proof fn lemma_has_key_holds(s: Seq<(String, FileReference)>, k: Seq<char>)
    ensures
        has_key(s, k) <==> exists|e: Candidate| #[trigger] holds(s, e) && e.0 == k,
{
    if has_key(s, k) {
        let i = choose|i: int| 0 <= i < s.len() && #[trigger] s[i].0@ == k;
        assert(holds(s, item_view(s[i])));
    }
    if exists|e: Candidate| #[trigger] holds(s, e) && e.0 == k {
        let e = choose|e: Candidate| #[trigger] holds(s, e) && e.0 == k;
        let i = choose|i: int| 0 <= i < s.len() && #[trigger] item_view(s[i]) == e;
        assert(s[i].0@ == k);
    }
}

proof fn lemma_first_exists(c: Seq<Candidate>, k: Seq<char>)
    requires
        key_in(c, k),
    ensures
        exists|e: Candidate| #[trigger] is_first(c, e) && e.0 == k,
    decreases c.len(),
{
    let d = c.drop_last();
    if key_in(d, k) {
        lemma_first_exists(d, k);
        let e = choose|e: Candidate| #[trigger] is_first(d, e) && e.0 == k;
        let i = choose|i: int| 0 <= i < d.len() && #[trigger] d[i] == e
            && forall|j: int| 0 <= j < i ==> #[trigger] d[j].0 != e.0;
        assert(c[i] == e);
        assert forall|j: int| 0 <= j < i implies #[trigger] c[j].0 != e.0 by {
            assert(c[j] == d[j]);
        }
        assert(is_first(c, e));
    } else {
        let m = c.len() - 1;
        assert(c[m].0 == k) by {
            let w = choose|w: int| 0 <= w < c.len() && #[trigger] c[w].0 == k;
            if w < m {
                assert(d[w] == c[w]);
            }
        }
        assert forall|j: int| 0 <= j < m implies #[trigger] c[j].0 != c[m].0 by {
            if c[j].0 == c[m].0 {
                assert(d[j] == c[j]);
            }
        }
        assert(is_first(c, c[m]));
    }
}

/// First candidates of a longer list: those of the prefix, plus the new one if its key is new.
proof fn lemma_is_first_push(c: Seq<Candidate>, x: Candidate, e: Candidate)
    ensures
        is_first(c.push(x), e) <==> (is_first(c, e) || (e == x && !key_in(c, x.0))),
{
    let p = c.push(x);
    if is_first(c, e) {
        let i = choose|i: int| 0 <= i < c.len() && #[trigger] c[i] == e
            && forall|j: int| 0 <= j < i ==> #[trigger] c[j].0 != e.0;
        assert(p[i] == e);
        assert forall|j: int| 0 <= j < i implies #[trigger] p[j].0 != e.0 by {
            assert(p[j] == c[j]);
        }
    }
    if e == x && !key_in(c, x.0) {
        assert(p[c.len() as int] == e);
        assert forall|j: int| 0 <= j < c.len() implies #[trigger] p[j].0 != e.0 by {
            assert(p[j] == c[j]);
        }
    }
    if is_first(p, e) {
        let i = choose|i: int| 0 <= i < p.len() && #[trigger] p[i] == e
            && forall|j: int| 0 <= j < i ==> #[trigger] p[j].0 != e.0;
        if i < c.len() {
            assert(c[i] == e);
            assert forall|j: int| 0 <= j < i implies #[trigger] c[j].0 != e.0 by {
                assert(p[j] == c[j]);
            }
            assert(is_first(c, e));
        } else {
            assert(e == x);
            assert(!key_in(c, x.0)) by {
                if key_in(c, x.0) {
                    let w = choose|w: int| 0 <= w < c.len() && #[trigger] c[w].0 == x.0;
                    assert(p[w] == c[w]);
                }
            }
        }
    }
}

/// Collecting one more candidate with `insert_if_absent` keeps the collection exact.
proof fn lemma_collect_step(before: Seq<(String, FileReference)>, c: Seq<Candidate>,
    mid: Seq<(String, FileReference)>, x: Candidate, after: Seq<(String, FileReference)>)
    requires
        collected(before, c, mid),
        has_key(mid, x.0) ==> after == mid,
        !has_key(mid, x.0) ==> forall|e| holds(after, e) <==> (holds(mid, e) || e == x),
    ensures
        collected(before, c.push(x), after),
{
    lemma_has_key_holds(mid, x.0);
    lemma_has_key_holds(before, x.0);
    assert forall|e: Candidate| #![trigger holds(after, e)]
        holds(after, e) <==> (holds(before, e) || (!has_key(before, e.0) && is_first(c.push(x), e))) by {
        lemma_is_first_push(c, x, e);
        lemma_has_key_holds(before, e.0);
        if has_key(mid, x.0) {
            if e == x && !key_in(c, x.0) && !has_key(before, x.0) {
                let w = choose|w: Candidate| #[trigger] holds(mid, w) && w.0 == x.0;
                if holds(before, w) {
                } else {
                    let i = choose|i: int| 0 <= i < c.len() && #[trigger] c[i] == w
                        && forall|j: int| 0 <= j < i ==> #[trigger] c[j].0 != w.0;
                    assert(c[i].0 == x.0);
                }
            }
        } else {
            if e == x {
                assert(!has_key(before, x.0)) by {
                    if has_key(before, x.0) {
                        let w = choose|w: Candidate| #[trigger] holds(before, w) && w.0 == x.0;
                        assert(holds(mid, w));
                    }
                }
                assert(!key_in(c, x.0)) by {
                    if key_in(c, x.0) {
                        lemma_first_exists(c, x.0);
                        let w = choose|w: Candidate| #[trigger] is_first(c, w) && w.0 == x.0;
                        assert(holds(mid, w));
                    }
                }
            }
        }
    }
}

proof fn lemma_is_first_concat(c1: Seq<Candidate>, c2: Seq<Candidate>, e: Candidate)
    ensures
        is_first(c1 + c2, e) <==> (is_first(c1, e) || (!key_in(c1, e.0) && is_first(c2, e))),
{
    let c = c1 + c2;
    if is_first(c1, e) {
        let i = choose|i: int| 0 <= i < c1.len() && #[trigger] c1[i] == e
            && forall|j: int| 0 <= j < i ==> #[trigger] c1[j].0 != e.0;
        assert(c[i] == e);
        assert forall|j: int| 0 <= j < i implies #[trigger] c[j].0 != e.0 by {
            assert(c[j] == c1[j]);
        }
    }
    if !key_in(c1, e.0) && is_first(c2, e) {
        let i = choose|i: int| 0 <= i < c2.len() && #[trigger] c2[i] == e
            && forall|j: int| 0 <= j < i ==> #[trigger] c2[j].0 != e.0;
        assert(c[c1.len() + i] == e);
        assert forall|j: int| 0 <= j < c1.len() + i implies #[trigger] c[j].0 != e.0 by {
            if j < c1.len() {
                assert(c[j] == c1[j]);
            } else {
                assert(c[j] == c2[j - c1.len()]);
            }
        }
    }
    if is_first(c, e) {
        let i = choose|i: int| 0 <= i < c.len() && #[trigger] c[i] == e
            && forall|j: int| 0 <= j < i ==> #[trigger] c[j].0 != e.0;
        if i < c1.len() {
            assert(c1[i] == e);
            assert forall|j: int| 0 <= j < i implies #[trigger] c1[j].0 != e.0 by {
                assert(c[j] == c1[j]);
            }
        } else {
            assert(c2[i - c1.len()] == e);
            assert forall|j: int| 0 <= j < i - c1.len() implies #[trigger] c2[j].0 != e.0 by {
                assert(c[j + c1.len()] == c2[j]);
            }
            assert(!key_in(c1, e.0)) by {
                if key_in(c1, e.0) {
                    let w = choose|w: int| 0 <= w < c1.len() && #[trigger] c1[w].0 == e.0;
                    assert(c[w] == c1[w]);
                }
            }
            assert(is_first(c2, e));
        }
    }
}

/// Collecting two candidate lists one after the other is collecting their concatenation.
pub proof fn lemma_collected_extend(c1: Seq<Candidate>, c2: Seq<Candidate>,
    mid: Seq<(String, FileReference)>, after: Seq<(String, FileReference)>)
    requires
        collected(Seq::empty(), c1, mid),
        collected(mid, c2, after),
    ensures
        collected(Seq::empty(), c1 + c2, after),
{
    let empty = Seq::<(String, FileReference)>::empty();
    assert forall|e: Candidate| #![trigger holds(after, e)]
        holds(after, e) <==> (holds(empty, e) || (!has_key(empty, e.0) && is_first(c1 + c2, e))) by {
        lemma_is_first_concat(c1, c2, e);
        lemma_has_key_holds(mid, e.0);
        assert(!holds(empty, e));
        assert(!has_key(empty, e.0));
        if has_key(mid, e.0) {
            let w = choose|w: Candidate| #[trigger] holds(mid, w) && w.0 == e.0;
            assert(is_first(c1, w));
            let i = choose|i: int| 0 <= i < c1.len() && #[trigger] c1[i] == w
                && forall|j: int| 0 <= j < i ==> #[trigger] c1[j].0 != w.0;
            assert(key_in(c1, e.0));
        } else {
            assert(!key_in(c1, e.0)) by {
                if key_in(c1, e.0) {
                    lemma_first_exists(c1, e.0);
                    let w = choose|w: Candidate| #[trigger] is_first(c1, w) && w.0 == e.0;
                    assert(holds(mid, w));
                }
            }
        }
    }
}

impl References {
    /// Records each candidate in order, keeping the first reference for every id.
    pub fn collect(&mut self, candidates: Vec<(String, FileReference)>)
        requires
            old(self).wf(),
        ensures
            final(self).wf(),
            collected(old(self).items@, candidates@.map_values(|e: (String, FileReference)| item_view(e)),
                final(self).items@),
    {
        let ghost before = self.items@;
        let ghost cands = candidates@.map_values(|e: (String, FileReference)| item_view(e));
        let mut rest = candidates;
        let n = rest.len();
        let mut i: usize = 0;
        proof {
            assert(cands.take(0) =~= Seq::<Candidate>::empty());
            assert forall|e: Candidate| #![trigger holds(self.items@, e)]
                holds(self.items@, e) <==> (holds(before, e) || (!has_key(before, e.0) && is_first(cands.take(0), e))) by {
            }
        }
        assert(rest@.map_values(|e: (String, FileReference)| item_view(e)) =~= cands.skip(0));
        assert(rest@.len() == n);
        while i < n
            invariant
                self.wf(),
                n == cands.len(),
                i <= n,
                rest@.map_values(|e: (String, FileReference)| item_view(e)) == cands.skip(i as int),
                rest@.len() == n - i,
                collected(before, cands.take(i as int), self.items@),
            decreases n - i,
        {
            let ghost mid = self.items@;
            let ghost r0 = rest@[0];
            let ghost old_rest = rest@;
            assert(item_view(r0) == rest@.map_values(|e: (String, FileReference)| item_view(e))[0]);
            let (key, reference) = rest.remove(0);
            let ghost x = cands[i as int];
            assert(item_view((key, reference)) == x) by {
                assert(cands.skip(i as int)[0] == x);
                assert((key, reference) == r0);
            }
            self.insert_if_absent(key, reference);
            proof {
                lemma_collect_step(before, cands.take(i as int), mid, x, self.items@);
                assert(cands.take(i as int).push(x) =~= cands.take(i + 1));
            }
            assert forall|k: int| 0 <= k < rest@.len() implies #[trigger] item_view(rest@[k]) == cands.skip(i + 1)[k] by {
                assert(rest@[k] == old_rest[k + 1]);
                assert(item_view(old_rest[k + 1]) == old_rest.map_values(|e: (String, FileReference)| item_view(e))[k + 1]);
                assert(cands.skip(i as int)[k + 1] == cands.skip(i + 1)[k]);
            }
            assert(rest@.map_values(|e: (String, FileReference)| item_view(e)) =~= cands.skip(i + 1));
            i = i + 1;
        }
        assert(cands.take(n as int) =~= cands);
    }
}

} // verus!
