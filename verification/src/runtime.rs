use crate::codegen::UNDEFINED;
use vstd::prelude::*;
use vstd::string::StringExecFns;
use vstd::utf8::encode_utf8;
use vstd::arithmetic::power::pow;

verus! {

/// Tag of a boxed generic pointer (high 16 bits).
pub const POINTER_TAG: u64 = 0x7FFD_0000_0000_0000;
/// Tag of a boxed string reference (high 16 bits).
pub const STRING_TAG: u64 = 0x7FFC_0000_0000_0000;
/// Tag of a boxed array reference (high 16 bits).
pub const ARRAY_TAG: u64 = 0x7FFB_0000_0000_0000;
/// Tag of a boxed object reference (high 16 bits).
pub const OBJECT_TAG: u64 = 0x7FFA_0000_0000_0000;
/// The low 48 bits of a boxed value: the address.
pub const ADDRESS_MASK: u64 = 0x0000_FFFF_FFFF_FFFF;

/// The multiplicative string hash: h = 31 * h + byte, modulo 2^32.
pub open spec fn string_hash(bytes: Seq<u8>) -> u32
    decreases bytes.len(),
{
    if bytes.len() == 0 {
        0
    } else {
        ((string_hash(bytes.drop_last()) * 31 + bytes.last()) % 0x1_0000_0000) as u32
    }
}

/// Encoding joined text gives the two encodings joined.
pub proof fn lemma_encode_utf8_concat(a: Seq<char>, b: Seq<char>)
    ensures
        encode_utf8(a + b) == encode_utf8(a) + encode_utf8(b),
    decreases a.len(),
{
    if a.len() == 0 {
        assert(a + b =~= b);
        assert(encode_utf8(a) =~= Seq::<u8>::empty());
        assert(encode_utf8(a) + encode_utf8(b) =~= encode_utf8(b));
    } else {
        assert((a + b).drop_first() =~= a.drop_first() + b);
        assert((a + b)[0] == a[0]);
        lemma_encode_utf8_concat(a.drop_first(), b);
        assert(encode_utf8(a + b) =~= encode_utf8(a) + encode_utf8(b));
    }
}

/// The hash of joined bytes is the first part's hash times `31` to the
/// power of the second part's length, plus the second part's hash,
/// modulo 2^32.
pub proof fn lemma_string_hash_concat(x: Seq<u8>, y: Seq<u8>)
    ensures
        string_hash(x + y) as int == (string_hash(x) as int * pow(31, y.len() as nat)
            + string_hash(y) as int) % 0x1_0000_0000,
    decreases y.len(),
{
    let m: int = 0x1_0000_0000;
    if y.len() == 0 {
        assert(x + y =~= x);
        vstd::arithmetic::power::lemma_pow0(31);
        vstd::arithmetic::div_mod::lemma_small_mod(string_hash(x) as nat, m as nat);
    } else {
        let yp = y.drop_last();
        let l = y.last() as int;
        assert((x + y).drop_last() =~= x + yp);
        assert((x + y).last() == y.last());
        lemma_string_hash_concat(x, yp);
        let hx = string_hash(x) as int;
        let hyp = string_hash(yp) as int;
        let p = pow(31, yp.len() as nat);
        let hp = string_hash(x + yp) as int;
        assert(hp == (hx * p + hyp) % m);
        vstd::arithmetic::power::lemma_pow_adds(31, yp.len() as nat, 1);
        vstd::arithmetic::power::lemma_pow1(31);
        assert(pow(31, y.len() as nat) == p * 31) by {
            assert(y.len() as nat == yp.len() as nat + 1);
        }
        // left side
        vstd::arithmetic::div_mod::lemma_mul_mod_noop_left(hx * p + hyp, 31, m);
        vstd::arithmetic::div_mod::lemma_add_mod_noop(hp * 31, l, m);
        vstd::arithmetic::div_mod::lemma_add_mod_noop((hx * p + hyp) * 31, l, m);
        vstd::arithmetic::div_mod::lemma_mod_twice(hp * 31, m);
        vstd::arithmetic::div_mod::lemma_small_mod(l as nat, m as nat);
        assert(string_hash(x + y) as int == ((hx * p + hyp) * 31 + l) % m);
        // right side
        assert(string_hash(y) as int == (hyp * 31 + l) % m);
        vstd::arithmetic::div_mod::lemma_add_mod_noop(hx * (p * 31), hyp * 31 + l, m);
        vstd::arithmetic::div_mod::lemma_mod_twice(hyp * 31 + l, m);
        vstd::arithmetic::div_mod::lemma_add_mod_noop(hx * (p * 31), string_hash(y) as int, m);
        assert((hx * p + hyp) * 31 + l == hx * (p * 31) + (hyp * 31 + l)) by (nonlinear_arith);
    }
}

/// Capacity after doubling `cap` until it holds `needed` elements.
pub open spec fn grown_capacity(cap: int, needed: int) -> int
    decreases (if needed > cap { needed - cap } else { 0 }),
{
    if cap <= 0 || cap >= needed {
        cap
    } else {
        grown_capacity(cap * 2, needed)
    }
}

pub proof fn lemma_grown_capacity_bounds(cap: int, n: int)
    requires
        cap > 0,
    ensures
        grown_capacity(cap, n) >= n,
        grown_capacity(cap, n) >= cap,
    decreases (if n > cap { n - cap } else { 0 }),
{
    if cap < n {
        lemma_grown_capacity_bounds(cap * 2, n);
    }
}

pub proof fn lemma_grown_capacity_monotonic(cap: int, n: int, m: int)
    requires
        cap > 0,
        n <= m,
    ensures
        grown_capacity(cap, n) <= grown_capacity(cap, m),
    decreases (if m > cap { m - cap } else { 0 }),
{
    if cap < n {
        lemma_grown_capacity_monotonic(cap * 2, n, m);
    } else if cap < m {
        lemma_grown_capacity_bounds(cap * 2, m);
    }
}

pub proof fn lemma_grown_capacity_step(cap: int, n: int)
    requires
        cap > 0,
    ensures
        grown_capacity(cap, n + 1) == (if grown_capacity(cap, n) > n {
            grown_capacity(cap, n)
        } else {
            2 * grown_capacity(cap, n)
        }),
    decreases (if n > cap { n - cap } else { 0 }),
{
    if cap < n {
        lemma_grown_capacity_step(cap * 2, n);
    } else if cap == n {
        assert(grown_capacity(cap * 2, n + 1) == cap * 2);
    }
}

/// A string value: its UTF-8 length, its hash and its text.
pub struct JsString {
    pub len: u32,
    pub hash: u32,
    pub data: String,
}

impl JsString {
    /// `self` is the runtime string for the text `text`.
    pub open spec fn holds(&self, text: Seq<char>) -> bool {
        &&& self.data@ == text
        &&& self.len == (encode_utf8(text).len() as u32)
        &&& self.hash == string_hash(encode_utf8(text))
    }

    pub fn new(s: &str) -> (r: JsString)
        ensures
            r.holds(s@),
    {
        let bytes = s.as_bytes();
        let len = bytes.len() as u32;
        let hash = Self::compute_hash(bytes);
        JsString { len, hash, data: s.to_owned() }
    }

    pub fn as_str(&self) -> (r: &str)
        ensures
            r@ == self.data@,
    {
        self.data.as_str()
    }

    fn compute_hash(data: &[u8]) -> (h: u32)
        ensures
            h == string_hash(data@),
    {
        let mut hash: u32 = 0;
        let mut i: usize = 0;
        while i < data.len()
            invariant
                i <= data@.len(),
                hash == string_hash(data@.subrange(0, i as int)),
            decreases data@.len() - i,
        {
            let byte = data[i];
            proof {
                let pre = data@.subrange(0, i as int);
                let next = data@.subrange(0, i + 1);
                assert(next.drop_last() =~= pre);
                assert(next.last() == byte);
                vstd::arithmetic::div_mod::lemma_add_mod_noop(
                    hash * 31,
                    byte as int,
                    0x1_0000_0000,
                );
                vstd::arithmetic::div_mod::lemma_mod_twice(hash * 31, 0x1_0000_0000);
                vstd::arithmetic::div_mod::lemma_small_mod(byte as nat, 0x1_0000_0000);
            }
            hash = hash.wrapping_mul(31).wrapping_add(byte as u32);
            i = i + 1;
        }
        assert(data@.subrange(0, i as int) =~= data@);
        hash
    }

    pub fn concat(a: &str, b: &str) -> (r: JsString)
        ensures
            r.holds(a@ + b@),
    {
        let mut result = <String as StringExecFns>::from_str(a);
        result.append(b);
        Self::new(result.as_str())
    }
}

/// The value an array read at `index` gives: the slot, or `undefined`
/// past the end.
pub open spec fn read_index(data: Seq<u64>, index: int) -> u64 {
    if 0 <= index < data.len() {
        data[index]
    } else {
        UNDEFINED
    }
}

/// The value an object read of `key` gives: the stored value, or
/// `undefined` for a missing key.
pub open spec fn read_key(m: Map<u64, u64>, key: u64) -> u64 {
    if m.contains_key(key) {
        m[key]
    } else {
        UNDEFINED
    }
}

/// `n` copies of `undefined`.
pub open spec fn undefined_fill(n: nat) -> Seq<u64> {
    Seq::new(n, |i: int| UNDEFINED)
}

/// A growable array of boxed values; `data` holds the `len` live slots.
pub struct JsArray {
    pub len: u32,
    pub capacity: u32,
    pub data: Vec<u64>,
}

impl JsArray {
    /// The live slots match `len`, and the capacity is positive and covers them.
    pub open spec fn wf(&self) -> bool {
        &&& self.data@.len() == self.len
        &&& 0 < self.capacity
        &&& self.len <= self.capacity
    }

    /// A new empty array; a requested capacity of 0 becomes 8.
    pub fn new(capacity: u32) -> (r: JsArray)
        ensures
            r.wf(),
            r.data@ == Seq::<u64>::empty(),
            r.capacity == (if capacity == 0 { 8 } else { capacity }),
    {
        let cap = if capacity == 0 { 8 } else { capacity };
        JsArray { len: 0, capacity: cap, data: Vec::new() }
    }

    /// Appends `value`, doubling the capacity when the array is full.
    /// Returns `false`, leaving the array as it was, where the doubled
    /// capacity would not fit in a `u32`.
    pub fn push(arr: &mut JsArray, value: u64) -> (ok: bool)
        requires
            old(arr).wf(),
        ensures
            ok == (grown_capacity(old(arr).capacity as int, old(arr).len + 1) <= u32::MAX),
            final(arr).wf(),
            ok ==> final(arr).data@ == old(arr).data@.push(value) && final(arr).capacity
                == grown_capacity(old(arr).capacity as int, old(arr).len + 1),
            !ok ==> *final(arr) == *old(arr),
    {
        proof {
            lemma_grown_capacity_step(arr.capacity as int, arr.len as int);
            lemma_grown_capacity_bounds(arr.capacity as int, arr.len as int);
            assert(grown_capacity(arr.capacity as int, arr.len as int) == arr.capacity);
        }
        if arr.len >= arr.capacity && arr.capacity > u32::MAX / 2 {
            return false;
        }
        if arr.len >= arr.capacity {
            arr.capacity = arr.capacity * 2;
        }
        arr.data.push(value);
        arr.len = arr.len + 1;
        true
    }

    /// The value at `index`, or `undefined` past the end.
    pub fn get(&self, index: u32) -> (v: u64)
        requires
            self.wf(),
        ensures
            v == read_index(self.data@, index as int),
    {
        if index >= self.len {
            return UNDEFINED;
        }
        self.data[index as usize]
    }

    /// Stores `value` at `index`, first filling any gap with `undefined`.
    /// Returns `false`, leaving the array as it was, where the capacity
    /// needed for `index` would not fit in a `u32`.
    pub fn set(arr: &mut JsArray, index: u32, value: u64) -> (ok: bool)
        requires
            old(arr).wf(),
        ensures
            ok == (index < old(arr).len || grown_capacity(old(arr).capacity as int, index + 1)
                <= u32::MAX),
            final(arr).wf(),
            !ok ==> *final(arr) == *old(arr),
            ok && index < old(arr).len ==> final(arr).data@ == old(arr).data@.update(
                index as int,
                value,
            ) && final(arr).capacity == old(arr).capacity,
            ok && index >= old(arr).len ==> final(arr).data@ == (old(arr).data@ + undefined_fill(
                (index - old(arr).len) as nat,
            )).push(value) && final(arr).capacity == grown_capacity(
                old(arr).capacity as int,
                index + 1,
            ),
    {
        let ghost cap0 = arr.capacity as int;
        let ghost start = arr.data@;
        proof {
            lemma_grown_capacity_bounds(cap0, arr.len as int);
            assert(grown_capacity(cap0, arr.len as int) == cap0);
        }
        if index >= arr.len && !growth_fits(arr.capacity, index as u64 + 1) {
            return false;
        }
        if index >= arr.len {
            proof {
                lemma_grown_capacity_bounds(cap0, index + 1);
            }
            while arr.len <= index
                invariant
                    arr.wf(),
                    start.len() <= arr.len <= index + 1,
                    index < u32::MAX,
                    cap0 > 0,
                    grown_capacity(cap0, index + 1) <= u32::MAX,
                    arr.capacity == grown_capacity(cap0, arr.len as int),
                    arr.data@ == start + undefined_fill((arr.len - start.len()) as nat),
                decreases index + 1 - arr.len,
            {
                proof {
                    lemma_grown_capacity_step(cap0, arr.len as int);
                    lemma_grown_capacity_bounds(cap0, arr.len as int);
                    lemma_grown_capacity_monotonic(cap0, arr.len + 1, index + 1);
                }
                if arr.len >= arr.capacity {
                    arr.capacity = arr.capacity * 2;
                }
                arr.data.push(UNDEFINED);
                arr.len = arr.len + 1;
                assert(arr.data@ =~= start + undefined_fill((arr.len - start.len()) as nat));
            }
            assert(arr.data@.update(index as int, value) =~= (start + undefined_fill(
                (index - start.len()) as nat,
            )).push(value));
        }
        arr.data.set(index as usize, value);
        true
    }
}

/// Whether doubling `cap` until it holds `needed` elements stays within a `u32`.
fn growth_fits(cap: u32, needed: u64) -> (b: bool)
    requires
        cap > 0,
    ensures
        b == (grown_capacity(cap as int, needed as int) <= u32::MAX),
{
    let mut c: u64 = cap as u64;
    while c < needed
        invariant
            0 < c <= u32::MAX,
            grown_capacity(c as int, needed as int) == grown_capacity(cap as int, needed as int),
        decreases 0x1_0000_0000 - c,
    {
        if c > 0x7FFF_FFFF {
            proof {
                lemma_grown_capacity_bounds(c * 2, needed as int);
            }
            return false;
        }
        c = c * 2;
    }
    true
}

/// One key/value slot of an object.
pub struct ObjectEntry {
    pub key: u64,
    pub value: u64,
}

/// No key occurs twice among `es`.
pub open spec fn distinct_keys(es: Seq<ObjectEntry>) -> bool {
    forall|i: int, j: int| 0 <= i < j < es.len() ==> #[trigger] es[i].key != #[trigger] es[j].key
}

/// The entries as a map from each key to the value stored with it.
pub open spec fn entries_map(es: Seq<ObjectEntry>) -> Map<u64, u64> {
    Map::new(
        |k: u64| exists|i: int| 0 <= i < es.len() && #[trigger] es[i].key == k,
        |k: u64| es[choose|i: int| 0 <= i < es.len() && #[trigger] es[i].key == k].value,
    )
}

pub proof fn lemma_entries_map_at(es: Seq<ObjectEntry>, i: int)
    requires
        distinct_keys(es),
        0 <= i < es.len(),
    ensures
        entries_map(es).contains_key(es[i].key),
        entries_map(es)[es[i].key] == es[i].value,
{
    let k = es[i].key;
    assert(0 <= i < es.len() && es[i].key == k);
    assert(entries_map(es).dom().contains(k));
    let w = choose|j: int| 0 <= j < es.len() && #[trigger] es[j].key == k;
    if w < i {
        assert(es[w].key != es[i].key);
    } else if w > i {
        assert(es[i].key != es[w].key);
    }
}

pub proof fn lemma_entries_map_index(es: Seq<ObjectEntry>, k: u64) -> (i: int)
    requires
        distinct_keys(es),
        entries_map(es).contains_key(k),
    ensures
        0 <= i < es.len(),
        es[i].key == k,
{
    assert(entries_map(es).dom().contains(k));
    choose|j: int| 0 <= j < es.len() && #[trigger] es[j].key == k
}

pub proof fn lemma_entries_map_absent(es: Seq<ObjectEntry>, k: u64)
    requires
        forall|j: int| 0 <= j < es.len() ==> #[trigger] es[j].key != k,
    ensures
        !entries_map(es).contains_key(k),
{
    if entries_map(es).dom().contains(k) {
        let w = choose|j: int| 0 <= j < es.len() && #[trigger] es[j].key == k;
        assert(es[w].key != k);
    }
}

/// An object: an insertion-ordered list of distinct keys with their values.
pub struct JsObject {
    pub size: u32,
    pub capacity: u32,
    pub entries: Vec<ObjectEntry>,
}

impl JsObject {
    /// The entries match `size`, the capacity covers them, and no key occurs twice.
    pub open spec fn wf(&self) -> bool {
        &&& self.entries@.len() == self.size
        &&& 0 < self.capacity
        &&& self.size <= self.capacity
        &&& distinct_keys(self.entries@)
    }

    /// The object as a map from keys to values.
    pub open spec fn map(&self) -> Map<u64, u64> {
        entries_map(self.entries@)
    }

    /// The keys in insertion order.
    pub open spec fn keys(&self) -> Seq<u64> {
        self.entries@.map_values(|e: ObjectEntry| e.key)
    }

    /// A new empty object with room for 8 entries.
    pub fn new() -> (r: JsObject)
        ensures
            r.wf(),
            r.map() == Map::<u64, u64>::empty(),
            r.capacity == 8,
    {
        let r = JsObject { size: 0, capacity: 8, entries: Vec::new() };
        assert forall|k: u64| !r.map().contains_key(k) by {
            lemma_entries_map_absent(r.entries@, k);
        }
        assert(r.map() =~= Map::<u64, u64>::empty());
        r
    }

    /// Sets `key` to `value`: an existing key keeps its slot, a new key is
    /// appended, doubling the capacity when the object is full. Returns
    /// `false`, leaving the object as it was, where a new key would need a
    /// doubled capacity that does not fit in a `u32`.
    pub fn set(obj: &mut JsObject, key: u64, value: u64) -> (ok: bool)
        requires
            old(obj).wf(),
        ensures
            ok == (old(obj).map().contains_key(key) || grown_capacity(
                old(obj).capacity as int,
                old(obj).size + 1,
            ) <= u32::MAX),
            final(obj).wf(),
            !ok ==> *final(obj) == *old(obj),
            ok ==> final(obj).map() == old(obj).map().insert(key, value),
            old(obj).map().contains_key(key) ==> final(obj).keys() == old(obj).keys()
                && final(obj).capacity == old(obj).capacity,
            ok && !old(obj).map().contains_key(key) ==> final(obj).keys() == old(obj).keys().push(key)
                && final(obj).capacity == grown_capacity(
                old(obj).capacity as int,
                old(obj).size + 1,
            ),
    {
        let ghost old_entries = obj.entries@;
        let mut i: usize = 0;
        while i < obj.entries.len()
            invariant
                obj.wf(),
                *obj == *old(obj),
                obj.entries@ == old_entries,
                old_entries == old(obj).entries@,
                obj.capacity == old(obj).capacity,
                obj.size == old(obj).size,
                i <= obj.entries@.len(),
                forall|j: int| 0 <= j < i ==> #[trigger] obj.entries@[j].key != key,
            decreases obj.entries@.len() - i,
        {
            if obj.entries[i].key == key {
                let ghost idx = i as int;
                obj.entries.set(i, ObjectEntry { key, value });
                proof {
                    let es = obj.entries@;
                    assert(es == old_entries.update(idx, ObjectEntry { key, value }));
                    assert(obj.keys() =~= old_entries.map_values(|e: ObjectEntry| e.key));
                    Self::lemma_replace_entry(old_entries, idx, value);
                }
                return true;
            }
            i = i + 1;
        }
        proof {
            lemma_grown_capacity_step(obj.capacity as int, obj.size as int);
            lemma_grown_capacity_bounds(obj.capacity as int, obj.size as int);
            lemma_entries_map_absent(old_entries, key);
        }
        if obj.size >= obj.capacity && obj.capacity > u32::MAX / 2 {
            return false;
        }
        if obj.size >= obj.capacity {
            obj.capacity = obj.capacity * 2;
        }
        obj.entries.push(ObjectEntry { key, value });
        obj.size = obj.size + 1;
        proof {
            assert(obj.keys() =~= old_entries.map_values(|e: ObjectEntry| e.key).push(key));
            Self::lemma_append_entry(old_entries, key, value);
        }
        true
    }

    proof fn lemma_replace_entry(es: Seq<ObjectEntry>, idx: int, value: u64)
        requires
            distinct_keys(es),
            0 <= idx < es.len(),
        ensures
            distinct_keys(es.update(idx, ObjectEntry { key: es[idx].key, value })),
            entries_map(es.update(idx, ObjectEntry { key: es[idx].key, value })) == entries_map(
                es,
            ).insert(es[idx].key, value),
    {
        let key = es[idx].key;
        let ns = es.update(idx, ObjectEntry { key, value });
        assert forall|i: int, j: int| 0 <= i < j < ns.len() implies #[trigger] ns[i].key
            != #[trigger] ns[j].key by {
            assert(ns[i].key == es[i].key && ns[j].key == es[j].key);
        }
        let m = entries_map(es).insert(key, value);
        assert forall|k: u64| #[trigger] entries_map(ns).contains_key(k) == m.contains_key(k) by {
            if entries_map(ns).contains_key(k) {
                let w = lemma_entries_map_index(ns, k);
                lemma_entries_map_at(es, w);
            }
            if entries_map(es).contains_key(k) {
                let w = lemma_entries_map_index(es, k);
                lemma_entries_map_at(ns, w);
            }
            lemma_entries_map_at(ns, idx);
        }
        assert forall|k: u64| #[trigger] entries_map(ns).contains_key(k) implies entries_map(ns)[k]
            == m[k] by {
            let w = lemma_entries_map_index(ns, k);
            lemma_entries_map_at(ns, w);
            if w != idx {
                lemma_entries_map_at(es, w);
            }
        }
        assert(entries_map(ns) =~= m);
    }

    proof fn lemma_append_entry(es: Seq<ObjectEntry>, key: u64, value: u64)
        requires
            distinct_keys(es),
            forall|j: int| 0 <= j < es.len() ==> #[trigger] es[j].key != key,
        ensures
            distinct_keys(es.push(ObjectEntry { key, value })),
            entries_map(es.push(ObjectEntry { key, value })) == entries_map(es).insert(key, value),
    {
        let ns = es.push(ObjectEntry { key, value });
        let n = es.len() as int;
        assert forall|i: int, j: int| 0 <= i < j < ns.len() implies #[trigger] ns[i].key
            != #[trigger] ns[j].key by {
            if j == n {
                assert(es[i].key != key);
            } else {
                assert(ns[i].key == es[i].key && ns[j].key == es[j].key);
            }
        }
        let m = entries_map(es).insert(key, value);
        assert forall|k: u64| #[trigger] entries_map(ns).contains_key(k) == m.contains_key(k) by {
            if entries_map(ns).contains_key(k) {
                let w = lemma_entries_map_index(ns, k);
                if w < n {
                    lemma_entries_map_at(es, w);
                }
            }
            if entries_map(es).contains_key(k) {
                let w = lemma_entries_map_index(es, k);
                lemma_entries_map_at(ns, w);
            }
            lemma_entries_map_at(ns, n);
        }
        assert forall|k: u64| #[trigger] entries_map(ns).contains_key(k) implies entries_map(ns)[k]
            == m[k] by {
            let w = lemma_entries_map_index(ns, k);
            lemma_entries_map_at(ns, w);
            if w < n {
                lemma_entries_map_at(es, w);
            }
        }
        assert(entries_map(ns) =~= m);
    }

    /// The value stored under `key`, or `undefined`.
    pub fn get(&self, key: u64) -> (v: u64)
        requires
            self.wf(),
        ensures
            v == read_key(self.map(), key),
    {
        let mut i: usize = 0;
        while i < self.entries.len()
            invariant
                self.wf(),
                i <= self.entries@.len(),
                forall|j: int| 0 <= j < i ==> #[trigger] self.entries@[j].key != key,
            decreases self.entries@.len() - i,
        {
            if self.entries[i].key == key {
                proof {
                    lemma_entries_map_at(self.entries@, i as int);
                }
                return self.entries[i].value;
            }
            i = i + 1;
        }
        proof {
            lemma_entries_map_absent(self.entries@, key);
        }
        UNDEFINED
    }
}

/// The NaN-box of an address under `tag`: the tag with the address's low 48 bits.
pub open spec fn spec_box(tag: u64, addr: u64) -> u64 {
    tag | (addr & ADDRESS_MASK)
}

/// Boxes a generic pointer's address.
pub fn nanbox_pointer(addr: u64) -> (v: u64)
    ensures
        v == spec_box(POINTER_TAG, addr),
{
    POINTER_TAG | (addr & ADDRESS_MASK)
}

/// Boxes a string's address.
pub fn nanbox_string(addr: u64) -> (v: u64)
    ensures
        v == spec_box(STRING_TAG, addr),
{
    STRING_TAG | (addr & ADDRESS_MASK)
}

/// Boxes an array's address.
pub fn nanbox_array(addr: u64) -> (v: u64)
    ensures
        v == spec_box(ARRAY_TAG, addr),
{
    ARRAY_TAG | (addr & ADDRESS_MASK)
}

/// Boxes an object's address.
pub fn nanbox_object(addr: u64) -> (v: u64)
    ensures
        v == spec_box(OBJECT_TAG, addr),
{
    OBJECT_TAG | (addr & ADDRESS_MASK)
}

/// The address held in a boxed value: its low 48 bits.
pub fn get_pointer(val: u64) -> (addr: u64)
    ensures
        addr == val & ADDRESS_MASK,
{
    val & ADDRESS_MASK
}

/// The high 16 bits of a value.
pub open spec fn high_tag(val: u64) -> u64 {
    val >> 48
}

pub fn is_string(val: u64) -> (b: bool)
    ensures
        b == (high_tag(val) == 0x7FFC),
{
    assert(0x7FFC_0000_0000_0000u64 >> 48 == 0x7FFC) by (bit_vector);
    (val >> 48) == (STRING_TAG >> 48)
}

pub fn is_array(val: u64) -> (b: bool)
    ensures
        b == (high_tag(val) == 0x7FFB),
{
    assert(0x7FFB_0000_0000_0000u64 >> 48 == 0x7FFB) by (bit_vector);
    (val >> 48) == (ARRAY_TAG >> 48)
}

pub fn is_object(val: u64) -> (b: bool)
    ensures
        b == (high_tag(val) == 0x7FFA),
{
    assert(0x7FFA_0000_0000_0000u64 >> 48 == 0x7FFA) by (bit_vector);
    (val >> 48) == (OBJECT_TAG >> 48)
}

/// Boxing keeps the address: unboxing a boxed address gives back its low 48 bits,
/// and the box carries exactly the tag's high 16 bits.
pub proof fn lemma_box_roundtrip(tag: u64, addr: u64)
    requires
        tag & ADDRESS_MASK == 0,
    ensures
        spec_box(tag, addr) & ADDRESS_MASK == addr & ADDRESS_MASK,
        high_tag(spec_box(tag, addr)) == tag >> 48,
{
    assert(tag & 0x0000_FFFF_FFFF_FFFF == 0 ==> (tag | (addr & 0x0000_FFFF_FFFF_FFFF))
        & 0x0000_FFFF_FFFF_FFFF == addr & 0x0000_FFFF_FFFF_FFFF) by (bit_vector);
    assert(tag & 0x0000_FFFF_FFFF_FFFF == 0 ==> (tag | (addr & 0x0000_FFFF_FFFF_FFFF)) >> 48
        == tag >> 48) by (bit_vector);
}

/// A boxed string, array or object is recognised as exactly that kind, and a
/// boxed address is recovered by `get_pointer`.
pub proof fn lemma_nanbox_kinds(addr: u64)
    ensures
        high_tag(spec_box(STRING_TAG, addr)) == 0x7FFC,
        high_tag(spec_box(ARRAY_TAG, addr)) == 0x7FFB,
        high_tag(spec_box(OBJECT_TAG, addr)) == 0x7FFA,
        high_tag(spec_box(POINTER_TAG, addr)) == 0x7FFD,
        spec_box(STRING_TAG, addr) & ADDRESS_MASK == addr & ADDRESS_MASK,
        spec_box(ARRAY_TAG, addr) & ADDRESS_MASK == addr & ADDRESS_MASK,
        spec_box(OBJECT_TAG, addr) & ADDRESS_MASK == addr & ADDRESS_MASK,
        spec_box(POINTER_TAG, addr) & ADDRESS_MASK == addr & ADDRESS_MASK,
{
    assert(0x7FFC_0000_0000_0000u64 & 0x0000_FFFF_FFFF_FFFF == 0
        && 0x7FFC_0000_0000_0000u64 >> 48 == 0x7FFC) by (bit_vector);
    assert(0x7FFB_0000_0000_0000u64 & 0x0000_FFFF_FFFF_FFFF == 0
        && 0x7FFB_0000_0000_0000u64 >> 48 == 0x7FFB) by (bit_vector);
    assert(0x7FFA_0000_0000_0000u64 & 0x0000_FFFF_FFFF_FFFF == 0
        && 0x7FFA_0000_0000_0000u64 >> 48 == 0x7FFA) by (bit_vector);
    assert(0x7FFD_0000_0000_0000u64 & 0x0000_FFFF_FFFF_FFFF == 0
        && 0x7FFD_0000_0000_0000u64 >> 48 == 0x7FFD) by (bit_vector);
    lemma_box_roundtrip(STRING_TAG, addr);
    lemma_box_roundtrip(ARRAY_TAG, addr);
    lemma_box_roundtrip(OBJECT_TAG, addr);
    lemma_box_roundtrip(POINTER_TAG, addr);
}

/// The special values `undefined`, `null`, `true` and `false` are none of a
/// string, an array or an object.
pub proof fn lemma_specials_untagged()
    ensures
        high_tag(UNDEFINED) == 0x7FFF,
        high_tag(crate::codegen::NULL) == 0x7FFF,
        high_tag(crate::codegen::TRUE) == 0x7FFF,
        high_tag(crate::codegen::FALSE) == 0x7FFF,
{
    assert(0x7FFF_8000_0000_0001u64 >> 48 == 0x7FFF) by (bit_vector);
    assert(0x7FFF_8000_0000_0002u64 >> 48 == 0x7FFF) by (bit_vector);
    assert(0x7FFF_0000_0000_0001u64 >> 48 == 0x7FFF) by (bit_vector);
    assert(0x7FFF_0000_0000_0000u64 >> 48 == 0x7FFF) by (bit_vector);
}

} // verus!
