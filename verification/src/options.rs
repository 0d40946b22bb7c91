//! Options as load requests carry them: string keys with string values, held with unique
//! keys in key order (the order of a `BTreeMap<String, String>`).
use vstd::prelude::*;

use crate::text::{chars_of, has_prefix, string_of};

verus! {

/// The view of a list of string pairs.
pub open spec fn pairs_view(v: Seq<(String, String)>) -> Seq<(Seq<char>, Seq<char>)> {
    v.map_values(|p: (String, String)| (p.0@, p.1@))
}

/// `options` has an entry with key `key`.
pub open spec fn has_key(options: Seq<(Seq<char>, Seq<char>)>, key: Seq<char>) -> bool {
    exists|k: int| 0 <= k < options.len() && #[trigger] options[k].0 == key
}

/// `a` comes before `b` in the order of `String` keys: lexicographic by character (byte-wise
/// comparison of UTF-8 text orders as comparison by code point does).
pub open spec fn key_lt_from(a: Seq<char>, b: Seq<char>, i: int) -> bool
    decreases a.len() - i,
{
    if i < 0 {
        false
    } else if i >= a.len() {
        i < b.len()
    } else if i >= b.len() {
        false
    } else if a[i] != b[i] {
        a[i] < b[i]
    } else {
        key_lt_from(a, b, i + 1)
    }
}

pub open spec fn key_lt(a: Seq<char>, b: Seq<char>) -> bool {
    key_lt_from(a, b, 0)
}

fn key_lt_exec(a: &[char], b: &[char]) -> (r: bool)
    ensures
        r == key_lt(a@, b@),
{
    let mut i: usize = 0;
    loop
        invariant
            i <= a@.len(),
            i <= b@.len(),
            key_lt_from(a@, b@, i as int) == key_lt(a@, b@),
        decreases a@.len() - i,
    {
        if i >= a.len() {
            return i < b.len();
        }
        if i >= b.len() {
            return false;
        }
        if a[i] != b[i] {
            return a[i] < b[i];
        }
        i = i + 1;
    }
}

/// Where a new key goes: after the leading entries whose keys come before it.
pub open spec fn insert_pos_from(opts: Seq<(Seq<char>, Seq<char>)>, key: Seq<char>, i: int) -> int
    decreases opts.len() - i,
{
    if 0 <= i < opts.len() && key_lt(opts[i].0, key) {
        insert_pos_from(opts, key, i + 1)
    } else {
        i
    }
}

pub open spec fn insert_pos(opts: Seq<(Seq<char>, Seq<char>)>, key: Seq<char>) -> int {
    insert_pos_from(opts, key, 0)
}


/// The keys of `opts` are strictly increasing (as in a `BTreeMap`).
pub open spec fn keys_sorted(opts: Seq<(Seq<char>, Seq<char>)>) -> bool {
    forall|i: int, j: int| 0 <= i < j < opts.len() ==> key_lt(#[trigger] opts[i].0, #[trigger] opts[j].0)
}

proof fn lemma_key_lt_trichotomy(a: Seq<char>, b: Seq<char>, i: int)
    requires
        0 <= i,
        i <= a.len(),
        i <= b.len(),
        forall|k: int| 0 <= k < i ==> a[k] == b[k],
        a != b,
    ensures
        key_lt_from(a, b, i) || key_lt_from(b, a, i),
    decreases a.len() - i,
{
    if i >= a.len() && i >= b.len() {
        assert(a =~= b);
    } else if i < a.len() && i < b.len() && a[i] == b[i] {
        lemma_key_lt_trichotomy(a, b, i + 1);
    }
}

proof fn lemma_key_lt_transitive(a: Seq<char>, b: Seq<char>, c: Seq<char>, i: int)
    requires
        0 <= i,
        key_lt_from(a, b, i),
        key_lt_from(b, c, i),
    ensures
        key_lt_from(a, c, i),
    decreases a.len() - i,
{
    if i < a.len() && i < b.len() && i < c.len() && a[i] == b[i] && b[i] == c[i] {
        lemma_key_lt_transitive(a, b, c, i + 1);
    }
}

proof fn lemma_insert_pos(opts: Seq<(Seq<char>, Seq<char>)>, key: Seq<char>, i: int)
    requires
        0 <= i <= opts.len(),
        forall|k: int| 0 <= k < i ==> key_lt(#[trigger] opts[k].0, key),
    ensures
        i <= insert_pos_from(opts, key, i) <= opts.len(),
        forall|k: int| 0 <= k < insert_pos_from(opts, key, i) ==> key_lt(#[trigger] opts[k].0, key),
        insert_pos_from(opts, key, i) < opts.len() ==> !key_lt(
            opts[insert_pos_from(opts, key, i)].0,
            key,
        ),
    decreases opts.len() - i,
{
    if i < opts.len() && key_lt(opts[i].0, key) {
        lemma_insert_pos(opts, key, i + 1);
    }
}


proof fn lemma_key_lt_irreflexive(a: Seq<char>, i: int)
    requires
        0 <= i,
    ensures
        !key_lt_from(a, a, i),
    decreases a.len() - i,
{
    if i < a.len() {
        lemma_key_lt_irreflexive(a, i + 1);
    }
}

/// In options with sorted keys that have `key`, the place for `key` is where it stands.
proof fn lemma_insert_pos_finds_key(opts: Seq<(Seq<char>, Seq<char>)>, key: Seq<char>)
    requires
        keys_sorted(opts),
        has_key(opts, key),
    ensures
        insert_pos(opts, key) < opts.len(),
        opts[insert_pos(opts, key)].0 == key,
{
    let p = insert_pos(opts, key);
    lemma_insert_pos(opts, key, 0);
    let j = choose|j: int| 0 <= j < opts.len() && #[trigger] opts[j].0 == key;
    if j < p {
        lemma_key_lt_irreflexive(key, 0);
    } else if j > p {
        assert(key_lt(opts[p].0, opts[j].0));
    }
}

/// The options `opts` with `key` set to `value`, as `BTreeMap::insert` does it: the value of an
/// existing entry is replaced; otherwise the entry is added where the key order puts it.
pub open spec fn map_insert(opts: Seq<(Seq<char>, Seq<char>)>, key: Seq<char>, value: Seq<char>) -> Seq<
    (Seq<char>, Seq<char>),
> {
    if has_key(opts, key) {
        opts.update(insert_pos(opts, key), (key, value))
    } else {
        opts.insert(insert_pos(opts, key), (key, value))
    }
}

/// Law: setting a key in options with sorted keys keeps the keys sorted (so no key occurs
/// twice), and the key is then present.
pub proof fn insertion_keeps_keys_sorted(
    opts: Seq<(Seq<char>, Seq<char>)>,
    key: Seq<char>,
    value: Seq<char>,
)
    requires
        keys_sorted(opts),
    ensures
        keys_sorted(map_insert(opts, key, value)),
        has_key(map_insert(opts, key, value), key),
{
    let p = insert_pos(opts, key);
    lemma_insert_pos(opts, key, 0);
    if has_key(opts, key) {
        lemma_insert_pos_finds_key(opts, key);
        let r = opts.update(p, (key, value));
        assert(r[p].0 == key);
        assert forall|i: int, j: int| 0 <= i < j < r.len() implies key_lt(#[trigger] r[i].0, #[trigger] r[j].0) by {
            assert(r[i].0 == opts[i].0 && r[j].0 == opts[j].0);
        }
    } else {
        let r = opts.insert(p, (key, value));
        if p < opts.len() {
            assert(opts[p].0 != key);
            lemma_key_lt_trichotomy(key, opts[p].0, 0);
        }
        assert forall|j: int| p < j < opts.len() implies key_lt(key, #[trigger] opts[j].0) by {
            assert(key_lt(opts[p].0, opts[j].0));
            lemma_key_lt_transitive(key, opts[p].0, opts[j].0, 0);
        }
        assert forall|i: int, j: int| 0 <= i < j < r.len() implies key_lt(#[trigger] r[i].0, #[trigger] r[j].0) by {
            if j < p {
                assert(r[i] == opts[i] && r[j] == opts[j]);
            } else if j == p {
                assert(r[i] == opts[i]);
            } else if i < p {
                assert(r[i] == opts[i] && r[j] == opts[j - 1]);
                lemma_key_lt_transitive(opts[i].0, key, opts[j - 1].0, 0);
            } else if i == p {
                assert(r[j] == opts[j - 1]);
            } else {
                assert(r[i] == opts[i - 1] && r[j] == opts[j - 1]);
            }
        }
        assert(r[p].0 == key);
    }
}

fn chars_eq(a: &[char], b: &[char]) -> (r: bool)
    ensures
        r == (a@ == b@),
{
    if a.len() == b.len() && has_prefix(a, b) {
        assert(a@.subrange(0, b@.len() as int) =~= a@);
        true
    } else {
        proof {
            if a@ == b@ {
                assert(a@.subrange(0, b@.len() as int) =~= a@);
            }
        }
        false
    }
}

/// Options: entries of string keys and values with unique keys, kept in key order.
pub struct OptionMap {
    entries: Vec<(String, String)>,
}

impl View for OptionMap {
    type V = Seq<(Seq<char>, Seq<char>)>;

    closed spec fn view(&self) -> Seq<(Seq<char>, Seq<char>)> {
        pairs_view(self.entries@)
    }
}

impl OptionMap {
    #[verifier::type_invariant]
    spec fn sorted(self) -> bool {
        keys_sorted(pairs_view(self.entries@))
    }

    /// No options.
    pub fn new() -> (m: OptionMap)
        ensures
            m@ == Seq::<(Seq<char>, Seq<char>)>::empty(),
    {
        let m = OptionMap { entries: Vec::new() };
        assert(m@ =~= Seq::<(Seq<char>, Seq<char>)>::empty());
        m
    }

    pub(crate) fn from_sorted(entries: Vec<(String, String)>) -> (m: OptionMap)
        requires
            keys_sorted(pairs_view(entries@)),
        ensures
            m@ == pairs_view(entries@),
    {
        OptionMap { entries }
    }

    /// The entries, in key order.
    pub fn entries(&self) -> (r: &Vec<(String, String)>)
        ensures
            pairs_view(r@) == self@,
            keys_sorted(self@),
    {
        proof {
            use_type_invariant(self);
        }
        &self.entries
    }

    /// Whether some entry has the key `key`.
    pub fn contains_key(&self, key: &str) -> (b: bool)
        ensures
            b == has_key(self@, key@),
    {
        let kc = chars_of(key);
        let mut k: usize = 0;
        while k < self.entries.len()
            invariant
                k <= self.entries@.len(),
                kc@ == key@,
                forall|m: int| 0 <= m < k ==> pairs_view(self.entries@)[m].0 != key@,
            decreases self.entries.len() - k,
        {
            let name = chars_of(self.entries[k].0.as_str());
            if chars_eq(name.as_slice(), kc.as_slice()) {
                assert(pairs_view(self.entries@)[k as int].0 == key@);
                return true;
            }
            k = k + 1;
        }
        false
    }

    /// The position where `key` goes (or stands).
    fn find(&self, key: &[char]) -> (i: usize)
        ensures
            i == insert_pos(self@, key@),
            i <= self@.len(),
    {
        let ghost pv = self@;
        let mut i: usize = 0;
        while i < self.entries.len()
            invariant
                i <= self.entries@.len(),
                pv == pairs_view(self.entries@),
                insert_pos_from(pv, key@, i as int) == insert_pos(pv, key@),
            ensures
                i <= self.entries@.len(),
                insert_pos(pv, key@) == i,
            decreases self.entries@.len() - i,
        {
            let name = chars_of(self.entries[i].0.as_str());
            assert(pv[i as int].0 == name@);
            if !key_lt_exec(name.as_slice(), key) {
                break;
            }
            i = i + 1;
        }
        i
    }

    /// Sets `key` to `value`, as `BTreeMap::insert` does (see `map_insert`).
    pub fn insert(&mut self, key: String, value: String)
        ensures
            final(self)@ == map_insert(old(self)@, key@, value@),
    {
        proof {
            use_type_invariant(&*self);
        }
        let ghost ov = self@;
        let kc = chars_of(key.as_str());
        let i = self.find(kc.as_slice());
        let mut e: Vec<(String, String)> = Vec::new();
        assert(pairs_view(e@) =~= Seq::<(Seq<char>, Seq<char>)>::empty());
        std::mem::swap(&mut e, &mut self.entries);
        assert(pairs_view(e@) == ov);
        proof {
            if has_key(ov, key@) {
                lemma_insert_pos_finds_key(ov, key@);
            }
            insertion_keeps_keys_sorted(ov, key@, value@);
        }
        let present = if i < e.len() {
            let name = chars_of(e[i].0.as_str());
            chars_eq(name.as_slice(), kc.as_slice())
        } else {
            false
        };
        let ghost kv = (key@, value@);
        if present {
            assert(has_key(ov, key@)) by {
                assert(ov[i as int].0 == key@);
            }
            e.set(i, (key, value));
            assert(pairs_view(e@) =~= ov.update(i as int, kv));
        } else {
            e.insert(i, (key, value));
            assert(pairs_view(e@) =~= ov.insert(i as int, kv));
        }
        self.entries = e;
    }
}

} // verus!
