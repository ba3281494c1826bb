//! Ordered string keys: a lexicographic order on character sequences and
//! sorted map/set containers keyed by it.
//!
//! The build-time compiler keeps its registry of named density functions,
//! its set of used names and its set of noise ids in key order, so that
//! analysis and code generation visit entries deterministically.

use vstd::prelude::*;
use vstd::string::*;

verus! {

/// Strict lexicographic order on character sequences, by code point.
pub open spec fn seq_lt(a: Seq<char>, b: Seq<char>) -> bool
    decreases a.len(), b.len(),
{
    if b.len() == 0 {
        false
    } else if a.len() == 0 {
        true
    } else if a[0] != b[0] {
        (a[0] as int) < (b[0] as int)
    } else {
        seq_lt(a.drop_first(), b.drop_first())
    }
}

/// Of two distinct sequences, exactly one precedes the other.
pub proof fn lemma_seq_lt_trichotomy(a: Seq<char>, b: Seq<char>)
    ensures
        seq_lt(a, b) || seq_lt(b, a) || a == b,
        !(seq_lt(a, b) && seq_lt(b, a)),
        seq_lt(a, b) ==> a != b,
    decreases a.len(), b.len(),
{
    if a.len() == 0 && b.len() == 0 {
        assert(a =~= b);
    } else if a.len() == 0 {
        assert(seq_lt(a, b));
    } else if b.len() == 0 {
        assert(seq_lt(b, a));
    } else {
        lemma_seq_lt_trichotomy(a.drop_first(), b.drop_first());
        if a[0] != b[0] {
            let c = a[0];
            let d = b[0];
            assert((c as int) < (d as int) || (d as int) < (c as int));
            assert(seq_lt(a, b) || seq_lt(b, a));
        } else if a.drop_first() == b.drop_first() {
            assert forall|i: int| 0 <= i < a.len() implies a[i] == b[i] by {
                if i > 0 {
                    assert(a[i] == a.drop_first()[i - 1]);
                    assert(b[i] == b.drop_first()[i - 1]);
                }
            }
            assert(a =~= b);
        } else {
            assert(seq_lt(a.drop_first(), b.drop_first()) || seq_lt(
                b.drop_first(),
                a.drop_first(),
            ));
            assert(seq_lt(a, b) || seq_lt(b, a));
        }
    }
}

/// The order is transitive.
pub proof fn lemma_seq_lt_trans(a: Seq<char>, b: Seq<char>, c: Seq<char>)
    requires
        seq_lt(a, b),
        seq_lt(b, c),
    ensures
        seq_lt(a, c),
    decreases a.len(), b.len(), c.len(),
{
    if a.len() > 0 && b.len() > 0 && c.len() > 0 {
        if a[0] == b[0] && b[0] == c[0] {
            lemma_seq_lt_trans(a.drop_first(), b.drop_first(), c.drop_first());
        }
    }
}

/// Compares two strings in the lexicographic order.
pub fn str_lt(a: &str, b: &str) -> (r: bool)
    ensures
        r == seq_lt(a@, b@),
{
    let an: usize = a.unicode_len();
    let bn: usize = b.unicode_len();
    proof {
        assert(a@.subrange(0, an as int) =~= a@);
        assert(b@.subrange(0, bn as int) =~= b@);
    }
    let mut i: usize = 0;
    loop
        invariant
            an == a@.len(),
            bn == b@.len(),
            i <= an,
            i <= bn,
            forall|k: int| 0 <= k < i ==> a@[k] == b@[k],
            seq_lt(a@, b@) == seq_lt(a@.subrange(i as int, an as int), b@.subrange(i as int, bn as int)),
        decreases an - i,
    {
        if i >= bn {
            assert(b@.subrange(i as int, bn as int).len() == 0);
            return false;
        }
        if i >= an {
            assert(a@.subrange(i as int, an as int).len() == 0);
            assert(b@.subrange(i as int, bn as int).len() > 0);
            return true;
        }
        let ca = a.get_char(i);
        let cb = b.get_char(i);
        proof {
            let sa = a@.subrange(i as int, an as int);
            let sb = b@.subrange(i as int, bn as int);
            assert(sa[0] == a@[i as int]);
            assert(sb[0] == b@[i as int]);
            assert(sa.drop_first() =~= a@.subrange(i + 1, an as int));
            assert(sb.drop_first() =~= b@.subrange(i + 1, bn as int));
        }
        if ca != cb {
            return (ca as u32) < (cb as u32);
        }
        i = i + 1;
    }
}

/// Tests two strings for equality of their character sequences.
pub fn str_eq(a: &str, b: &str) -> (r: bool)
    ensures
        r == (a@ == b@),
{
    let an: usize = a.unicode_len();
    let bn: usize = b.unicode_len();
    if an != bn {
        return false;
    }
    let mut i: usize = 0;
    while i < an
        invariant
            an == a@.len(),
            bn == b@.len(),
            an == bn,
            i <= an,
            forall|k: int| 0 <= k < i ==> a@[k] == b@[k],
        decreases an - i,
    {
        if a.get_char(i) != b.get_char(i) {
            return false;
        }
        i = i + 1;
    }
    proof {
        assert(a@ =~= b@);
    }
    true
}

/// Whether one of the strings of `ss` reads `n`.
pub closed spec fn strs_contain(ss: Seq<String>, n: Seq<char>) -> bool {
    exists|i: int| 0 <= i < ss.len() && ss[i]@ == n
}

/// Every listed string is contained.
pub proof fn lemma_strs_index(ss: Seq<String>, i: int)
    requires
        0 <= i < ss.len(),
    ensures
        strs_contain(ss, ss[i]@),
{
}

/// Every contained string is listed somewhere.
pub proof fn lemma_strs_contain_index(ss: Seq<String>, n: Seq<char>) -> (i: int)
    requires
        strs_contain(ss, n),
    ensures
        0 <= i < ss.len() && ss[i]@ == n,
{
    choose|i: int| 0 <= i < ss.len() && ss[i]@ == n
}

/// Appending one string adds exactly that string to the contents.
pub proof fn lemma_strs_contain_push(ss: Seq<String>, x: String)
    ensures
        forall|n: Seq<char>| #[trigger] strs_contain(ss.push(x), n) <==> strs_contain(ss, n) || x@
            == n,
{
    assert forall|n: Seq<char>|
        #[trigger] strs_contain(ss.push(x), n) <==> strs_contain(ss, n) || x@ == n by {
        if strs_contain(ss.push(x), n) {
            let i = lemma_strs_contain_index(ss.push(x), n);
            if i < ss.len() {
                assert(ss[i]@ == n);
            }
        }
        if strs_contain(ss, n) {
            let i = lemma_strs_contain_index(ss, n);
            assert(ss.push(x)[i]@ == n);
            lemma_strs_index(ss.push(x), i);
        }
        if x@ == n {
            assert(ss.push(x)[ss.len() as int]@ == n);
            lemma_strs_index(ss.push(x), ss.len() as int);
        }
    }
}

/// No two strings of `ss` read the same.
pub open spec fn strs_distinct(ss: Seq<String>) -> bool {
    forall|i: int, j: int| 0 <= i < j < ss.len() ==> ss[i]@ != ss[j]@
}

/// Whether the string vector holds `k`.
pub fn str_vec_contains(v: &Vec<String>, k: &str) -> (r: bool)
    ensures
        r == strs_contain(v@, k@),
{
    let n = v.len();
    let mut i: usize = 0;
    while i < n
        invariant
            n == v@.len(),
            i <= n,
            forall|j: int| 0 <= j < i ==> v@[j]@ != k@,
        decreases n - i,
    {
        if str_eq(v[i].as_str(), k) {
            proof {
                lemma_strs_index(v@, i as int);
            }
            return true;
        }
        i = i + 1;
    }
    proof {
        if strs_contain(v@, k@) {
            let j = lemma_strs_contain_index(v@, k@);
        }
    }
    false
}

/// A set of strings kept sorted in [`seq_lt`] order without duplicates.
pub struct StrSet {
    items: Vec<String>,
}

impl StrSet {
    /// The sorted member sequence.
    pub closed spec fn view(&self) -> Seq<Seq<char>> {
        self.items@.map_values(|s: String| s@)
    }

    /// Sorted strictly ascending: the invariant every operation keeps.
    pub open spec fn wf(&self) -> bool {
        forall|i: int, j: int| 0 <= i < j < self@.len() ==> seq_lt(self@[i], self@[j])
    }

    /// Membership.
    pub closed spec fn has(&self, k: Seq<char>) -> bool {
        exists|i: int| 0 <= i < self@.len() && self@[i] == k
    }

    /// Every listed member is a member.
    pub proof fn lemma_index_has(&self, i: int)
        requires
            0 <= i < self@.len(),
        ensures
            self.has(self@[i]),
    {
    }

    /// Every member is listed somewhere.
    pub proof fn lemma_has_index(&self, k: Seq<char>) -> (i: int)
        requires
            self.has(k),
        ensures
            0 <= i < self@.len() && self@[i] == k,
    {
        choose|i: int| 0 <= i < self@.len() && self@[i] == k
    }

    /// Creates an empty set.
    pub fn new() -> (s: StrSet)
        ensures
            s.wf(),
            s@.len() == 0,
            forall|k: Seq<char>| !s.has(k),
    {
        StrSet { items: Vec::new() }
    }

    /// Number of members.
    pub fn len(&self) -> (n: usize)
        ensures
            n == self@.len(),
    {
        self.items.len()
    }

    /// The member at a position of the sorted order.
    pub fn at(&self, i: usize) -> (s: &String)
        requires
            i < self@.len(),
        ensures
            s@ == self@[i as int],
    {
        &self.items[i]
    }

    /// Whether `k` is a member.
    pub fn contains(&self, k: &str) -> (r: bool)
        ensures
            r == self.has(k@),
    {
        let n = self.items.len();
        let mut i: usize = 0;
        while i < n
            invariant
                n == self@.len(),
                i <= n,
                forall|j: int| 0 <= j < i ==> self@[j] != k@,
            decreases n - i,
        {
            proof {
                assert(self@[i as int] == self.items@[i as int]@);
            }
            if str_eq(self.items[i].as_str(), k) {
                return true;
            }
            i = i + 1;
        }
        false
    }

    /// Inserts `k`, keeping the sorted order; a present member is left alone.
    pub fn insert(&mut self, k: String)
        requires
            old(self).wf(),
        ensures
            final(self).wf(),
            final(self).has(k@),
            forall|s: Seq<char>| old(self).has(s) ==> final(self).has(s),
            forall|s: Seq<char>| final(self).has(s) ==> old(self).has(s) || s == k@,
    {
        let n = self.items.len();
        let mut i: usize = 0;
        let mut stop = false;
        while i < n && !stop
            invariant
                n == self@.len(),
                i <= n,
                forall|j: int| 0 <= j < i ==> seq_lt(self@[j], k@),
                stop ==> i < n && !seq_lt(self@[i as int], k@),
            decreases n - i, if stop { 0int } else { 1int },
        {
            proof {
                assert(self@[i as int] == self.items@[i as int]@);
            }
            if !str_lt(self.items[i].as_str(), &k) {
                stop = true;
            } else {
                i = i + 1;
            }
        }
        proof {
            if i < self@.len() {
                assert(self@[i as int] == self.items@[i as int]@);
            }
        }
        if i < n && str_eq(self.items[i].as_str(), k.as_str()) {
            proof {
                assert(self.has(k@));
            }
            return ;
        }
        proof {
            if i < self@.len() {
                lemma_seq_lt_trichotomy(self@[i as int], k@);
                assert(seq_lt(k@, self@[i as int]));
            }
        }
        let ghost prev = self@;
        self.items.insert(i, k);
        proof {
            assert(self@ =~= prev.insert(i as int, k@));
            assert forall|p: int, q: int| 0 <= p < q < self@.len() implies seq_lt(
                self@[p],
                self@[q],
            ) by {
                let kp = self@[p];
                let kq = self@[q];
                if p < i && q == i {
                    assert(kp == prev[p]);
                } else if p == i && q > i {
                    assert(kq == prev[q - 1]);
                    if q - 1 > i {
                        lemma_seq_lt_trans(kp, prev[i as int], kq);
                    }
                } else if p < i && q > i {
                    assert(kp == prev[p] && kq == prev[q - 1]);
                }
            }
            assert(self@[i as int] == k@);
            assert forall|s: Seq<char>| old(self).has(s) implies self.has(s) by {
                let j = choose|j: int| 0 <= j < prev.len() && prev[j] == s;
                if j < i {
                    assert(self@[j] == s);
                } else {
                    assert(self@[j + 1] == s);
                }
            }
            assert forall|s: Seq<char>| self.has(s) implies old(self).has(s) || s == k@ by {
                let p = choose|p: int| 0 <= p < self@.len() && self@[p] == s;
                if p < i {
                    assert(prev[p] == s);
                } else if p > i {
                    assert(prev[p - 1] == s);
                }
            }
        }
    }
}

/// How many of `keys` are not members of `used`: the termination measure
/// of every walk that marks names as visited.
pub open spec fn count_missing(keys: Seq<Seq<char>>, used: StrSet) -> int
    decreases keys.len(),
{
    if keys.len() == 0 {
        0
    } else {
        (if used.has(keys[0]) {
            0int
        } else {
            1int
        }) + count_missing(keys.drop_first(), used)
    }
}

/// The measure is never negative.
pub proof fn lemma_count_missing_nonneg(keys: Seq<Seq<char>>, used: StrSet)
    ensures
        0 <= count_missing(keys, used),
    decreases keys.len(),
{
    if keys.len() > 0 {
        lemma_count_missing_nonneg(keys.drop_first(), used);
    }
}

/// Marking more names as visited cannot raise the measure.
pub proof fn lemma_count_missing_mono(keys: Seq<Seq<char>>, a: StrSet, b: StrSet)
    requires
        forall|s: Seq<char>| a.has(s) ==> b.has(s),
    ensures
        count_missing(keys, b) <= count_missing(keys, a),
    decreases keys.len(),
{
    if keys.len() > 0 {
        lemma_count_missing_mono(keys.drop_first(), a, b);
    }
}

/// Marking one more of `keys` as visited strictly lowers the measure.
pub proof fn lemma_count_missing_strict(
    keys: Seq<Seq<char>>,
    a: StrSet,
    b: StrSet,
    k: Seq<char>,
)
    requires
        forall|s: Seq<char>| a.has(s) ==> b.has(s),
        b.has(k),
        !a.has(k),
        exists|i: int| 0 <= i < keys.len() && keys[i] == k,
    ensures
        count_missing(keys, b) < count_missing(keys, a),
    decreases keys.len(),
{
    let i = choose|i: int| 0 <= i < keys.len() && keys[i] == k;
    if keys[0] == k {
        lemma_count_missing_mono(keys.drop_first(), a, b);
    } else {
        assert(keys.drop_first()[i - 1] == k);
        lemma_count_missing_strict(keys.drop_first(), a, b, k);
    }
}

/// A map from strings to values, kept sorted by key in [`seq_lt`] order.
pub struct StrMap<V> {
    keys: Vec<String>,
    vals: Vec<V>,
}

impl<V> StrMap<V> {
    /// The sorted key sequence.
    pub closed spec fn key_seq(&self) -> Seq<Seq<char>> {
        self.keys@.map_values(|s: String| s@)
    }

    /// The value sequence, parallel to [`Self::key_seq`].
    pub closed spec fn val_seq(&self) -> Seq<V> {
        self.vals@
    }

    /// Keys sorted strictly ascending, one value per key.
    pub open spec fn wf(&self) -> bool {
        &&& self.key_seq().len() == self.val_seq().len()
        &&& forall|i: int, j: int|
            0 <= i < j < self.key_seq().len() ==> seq_lt(self.key_seq()[i], self.key_seq()[j])
    }

    /// Whether `k` is a key.
    pub closed spec fn has_key(&self, k: Seq<char>) -> bool {
        exists|i: int| 0 <= i < self.key_seq().len() && self.key_seq()[i] == k
    }

    /// The position of key `k`.
    pub closed spec fn index_of(&self, k: Seq<char>) -> int {
        choose|i: int| 0 <= i < self.key_seq().len() && self.key_seq()[i] == k
    }

    /// The value stored under key `k`.
    pub closed spec fn get(&self, k: Seq<char>) -> V {
        self.val_seq()[self.index_of(k)]
    }

    /// Every listed key is a key.
    pub proof fn lemma_key_index_has(&self, i: int)
        requires
            0 <= i < self.key_seq().len(),
        ensures
            self.has_key(self.key_seq()[i]),
    {
    }

    /// Every key is listed somewhere.
    pub proof fn lemma_has_key_index(&self, k: Seq<char>) -> (i: int)
        requires
            self.has_key(k),
        ensures
            0 <= i < self.key_seq().len() && self.key_seq()[i] == k,
    {
        choose|i: int| 0 <= i < self.key_seq().len() && self.key_seq()[i] == k
    }

    /// In a well-formed map the key at position `i` is found at position `i`.
    pub proof fn lemma_index_at(&self, i: int)
        requires
            self.wf(),
            0 <= i < self.key_seq().len(),
        ensures
            self.index_of(self.key_seq()[i]) == i,
            self.get(self.key_seq()[i]) == self.val_seq()[i],
    {
        let k = self.key_seq()[i];
        assert(self.has_key(k));
        let j = self.index_of(k);
        if j != i {
            lemma_seq_lt_trichotomy(self.key_seq()[i], self.key_seq()[j]);
        }
    }

    /// Creates an empty map.
    pub fn new() -> (m: StrMap<V>)
        ensures
            m.wf(),
            m.key_seq().len() == 0,
            forall|k: Seq<char>| !m.has_key(k),
    {
        StrMap { keys: Vec::new(), vals: Vec::new() }
    }

    /// Number of entries.
    pub fn len(&self) -> (n: usize)
        requires
            self.wf(),
        ensures
            n == self.key_seq().len(),
    {
        self.keys.len()
    }

    /// The key at a position of the sorted order.
    pub fn key_at(&self, i: usize) -> (s: &String)
        requires
            self.wf(),
            i < self.key_seq().len(),
        ensures
            s@ == self.key_seq()[i as int],
    {
        &self.keys[i]
    }

    /// The value at a position of the sorted order.
    pub fn val_at(&self, i: usize) -> (v: &V)
        requires
            self.wf(),
            i < self.key_seq().len(),
        ensures
            *v == self.val_seq()[i as int],
            *v == self.get(self.key_seq()[i as int]),
    {
        proof {
            self.lemma_index_at(i as int);
        }
        &self.vals[i]
    }

    /// The position of key `k`, if present.
    pub fn find(&self, k: &str) -> (r: Option<usize>)
        requires
            self.wf(),
        ensures
            match r {
                Some(i) => self.has_key(k@) && i < self.key_seq().len() && self.key_seq()[i as int]
                    == k@ && self.index_of(k@) == i,
                None => !self.has_key(k@),
            },
    {
        let n = self.keys.len();
        let mut i: usize = 0;
        while i < n
            invariant
                self.wf(),
                n == self.key_seq().len(),
                i <= n,
                forall|j: int| 0 <= j < i ==> self.key_seq()[j] != k@,
            decreases n - i,
        {
            proof {
                assert(self.key_seq()[i as int] == self.keys@[i as int]@);
            }
            if str_eq(self.keys[i].as_str(), k) {
                proof {
                    self.lemma_index_at(i as int);
                }
                return Some(i);
            }
            i = i + 1;
        }
        None
    }

    /// A borrow of the value under `k`, if present.
    pub fn get_ref(&self, k: &str) -> (r: Option<&V>)
        requires
            self.wf(),
        ensures
            match r {
                Some(v) => self.has_key(k@) && *v == self.get(k@),
                None => !self.has_key(k@),
            },
    {
        match self.find(k) {
            Some(i) => Some(&self.vals[i]),
            None => None,
        }
    }

    /// Whether `k` is a key.
    pub fn contains_key(&self, k: &str) -> (r: bool)
        requires
            self.wf(),
        ensures
            r == self.has_key(k@),
    {
        self.find(k).is_some()
    }

    /// Inserts `k -> v`, keeping the key order; an existing value under `k`
    /// is replaced.
    pub fn insert(&mut self, k: String, v: V)
        requires
            old(self).wf(),
        ensures
            final(self).wf(),
            final(self).has_key(k@),
            final(self).get(k@) == v,
            forall|s: Seq<char>| old(self).has_key(s) ==> final(self).has_key(s),
            forall|s: Seq<char>| final(self).has_key(s) ==> old(self).has_key(s) || s == k@,
            forall|s: Seq<char>|
                old(self).has_key(s) && s != k@ ==> final(self).has_key(s) && final(self).get(s)
                    == old(self).get(s),
    {
        let n = self.keys.len();
        let mut i: usize = 0;
        let mut stop = false;
        while i < n && !stop
            invariant
                self.wf(),
                n == self.key_seq().len(),
                i <= n,
                forall|j: int| 0 <= j < i ==> seq_lt(self.key_seq()[j], k@),
                stop ==> i < n && !seq_lt(self.key_seq()[i as int], k@),
            decreases n - i, if stop { 0int } else { 1int },
        {
            proof {
                assert(self.key_seq()[i as int] == self.keys@[i as int]@);
            }
            if !str_lt(self.keys[i].as_str(), &k) {
                stop = true;
            } else {
                i = i + 1;
            }
        }
        proof {
            if i < self.key_seq().len() {
                assert(self.key_seq()[i as int] == self.keys@[i as int]@);
            }
        }
        let ghost prev_keys = self.key_seq();
        let ghost prev_vals = self.val_seq();
        let ghost old_self = *self;
        if i < n && str_eq(self.keys[i].as_str(), k.as_str()) {
            self.vals.set(i, v);
            proof {
                assert(self.key_seq() =~= prev_keys);
                assert(self.val_seq() =~= prev_vals.update(i as int, v));
                self.lemma_index_at(i as int);
                assert forall|s: Seq<char>|
                    old(self).has_key(s) && s != k@ implies self.has_key(s) && self.get(s) == old(
                    self,
                ).get(s) by {
                    let j = choose|j: int| 0 <= j < prev_keys.len() && prev_keys[j] == s;
                    self.lemma_index_at(j);
                    old_self.lemma_index_at(j);
                }
            }
            return ;
        }
        proof {
            if i < self.key_seq().len() {
                lemma_seq_lt_trichotomy(self.key_seq()[i as int], k@);
                assert(seq_lt(k@, self.key_seq()[i as int]));
            }
        }
        self.keys.insert(i, k);
        self.vals.insert(i, v);
        proof {
            assert(self.key_seq() =~= prev_keys.insert(i as int, k@));
            assert(self.val_seq() =~= prev_vals.insert(i as int, v));
            assert forall|p: int, q: int|
                0 <= p < q < self.key_seq().len() implies seq_lt(
                self.key_seq()[p],
                self.key_seq()[q],
            ) by {
                let kp = self.key_seq()[p];
                let kq = self.key_seq()[q];
                if p < i && q == i {
                    assert(kp == prev_keys[p]);
                } else if p == i && q > i {
                    assert(kq == prev_keys[q - 1]);
                    if q - 1 > i {
                        lemma_seq_lt_trans(kp, prev_keys[i as int], kq);
                    }
                } else if p < i && q > i {
                    assert(kp == prev_keys[p] && kq == prev_keys[q - 1]);
                }
            }
            assert(self.key_seq()[i as int] == k@);
            self.lemma_index_at(i as int);
            assert forall|s: Seq<char>| old(self).has_key(s) implies self.has_key(s) by {
                let j = choose|j: int| 0 <= j < prev_keys.len() && prev_keys[j] == s;
                if j < i {
                    assert(self.key_seq()[j] == s);
                } else {
                    assert(self.key_seq()[j + 1] == s);
                }
            }
            assert forall|s: Seq<char>| self.has_key(s) implies old(self).has_key(s) || s == k@ by {
                let p = choose|p: int| 0 <= p < self.key_seq().len() && self.key_seq()[p] == s;
                if p < i {
                    assert(prev_keys[p] == s);
                } else if p > i {
                    assert(prev_keys[p - 1] == s);
                }
            }
            assert forall|s: Seq<char>|
                old(self).has_key(s) && s != k@ implies self.has_key(s) && self.get(s) == old(
                self,
            ).get(s) by {
                let j = choose|j: int| 0 <= j < prev_keys.len() && prev_keys[j] == s;
                old_self.lemma_index_at(j);
                if j < i {
                    self.lemma_index_at(j);
                    assert(self.key_seq()[j] == s);
                } else {
                    self.lemma_index_at(j + 1);
                    assert(self.key_seq()[j + 1] == s);
                }
            }
        }
    }
}

} // verus!
