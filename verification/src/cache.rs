//! The in-process half of the content-addressed embedding cache.
//!
//! A cache entry is keyed by a 64-bit FNV-1a hash of the `(text, model)`
//! pair.  This module owns everything that needs no filesystem: the hash,
//! the bounded in-memory tier with its eviction rule, the byte codec for
//! the durable one-file-per-entry records, and the expiry rule that
//! `clear_old` applies; reading and writing the cache directory itself is
//! plain I/O and lives with the caller.  Embedding components are IEEE 754
//! single-precision bit patterns (`u32`).

use vstd::prelude::*;
use vstd::string::*;

verus! {

/// One FNV-1a round: xor the byte in, multiply by the FNV prime mod 2^64.
pub open spec fn spec_fnv_step(h: u64, b: u8) -> u64 {
    (((h ^ (b as u64)) as nat * 0x100000001b3nat) % 0x1_0000_0000_0000_0000nat) as u64
}

/// FNV-1a over a byte sequence, from the given state.
pub open spec fn spec_fnv(h0: u64, bytes: Seq<u8>) -> u64
    decreases bytes.len(),
{
    if bytes.len() == 0 {
        h0
    } else {
        spec_fnv_step(spec_fnv(h0, bytes.drop_last()), bytes.last())
    }
}

/// The cache key of a `(text, model)` pair: FNV-1a over the UTF-8 bytes of
/// the text, a 0xff separator (no UTF-8 byte), and the bytes of the model
/// name.
pub open spec fn spec_cache_key(text: Seq<u8>, model: Seq<u8>) -> u64 {
    spec_fnv(spec_fnv_step(spec_fnv(0xcbf29ce484222325u64, text), 0xff), model)
}

/// A memory-tier entry: key and embedding bits.
pub type MemEntry = (u64, Seq<u32>);

pub open spec fn spec_contains_key(s: Seq<MemEntry>, k: u64) -> bool {
    exists|i: int| 0 <= i < s.len() && (#[trigger] s[i]).0 == k
}

pub open spec fn spec_key_index(s: Seq<MemEntry>, k: u64) -> int {
    choose|i: int| 0 <= i < s.len() && (#[trigger] s[i]).0 == k
}

pub open spec fn spec_unique_keys(s: Seq<MemEntry>) -> bool {
    forall|i: int, j: int| 0 <= i < j < s.len() ==> (#[trigger] s[i]).0 != (#[trigger] s[j]).0
}

/// Insert or replace the entry for key `k`.
pub open spec fn spec_mem_upsert(s: Seq<MemEntry>, k: u64, v: Seq<u32>) -> Seq<MemEntry> {
    if spec_contains_key(s, k) {
        s.update(spec_key_index(s, k), (k, v))
    } else {
        s.push((k, v))
    }
}

/// Evict entries from the front until at most `max` remain.
pub open spec fn spec_mem_trim(s: Seq<MemEntry>, max: nat) -> Seq<MemEntry> {
    if s.len() > max {
        s.skip(s.len() - max)
    } else {
        s
    }
}

/// The embedding held for key `k`, if any.
pub open spec fn spec_mem_lookup(s: Seq<MemEntry>, k: u64) -> Option<Seq<u32>> {
    if spec_contains_key(s, k) {
        Some(s[spec_key_index(s, k)].1)
    } else {
        None
    }
}

/// The little-endian bytes of a `u64`.
pub open spec fn spec_le64(x: u64) -> Seq<u8> {
    seq![
        (x & 0xff) as u8,
        ((x >> 8) & 0xff) as u8,
        ((x >> 16) & 0xff) as u8,
        ((x >> 24) & 0xff) as u8,
        ((x >> 32) & 0xff) as u8,
        ((x >> 40) & 0xff) as u8,
        ((x >> 48) & 0xff) as u8,
        ((x >> 56) & 0xff) as u8,
    ]
}

/// The little-endian bytes of a `u32`.
pub open spec fn spec_le32(x: u32) -> Seq<u8> {
    seq![(x & 0xff) as u8, ((x >> 8) & 0xff) as u8, ((x >> 16) & 0xff) as u8, ((x >> 24)
        & 0xff) as u8]
}

/// The `u64` read back from eight little-endian bytes.
pub open spec fn spec_u64_of(b: Seq<u8>) -> u64
    recommends
        b.len() == 8,
{
    (b[0] as u64) | (b[1] as u64) << 8 | (b[2] as u64) << 16 | (b[3] as u64) << 24 | (
    b[4] as u64) << 32 | (b[5] as u64) << 40 | (b[6] as u64) << 48 | (b[7] as u64) << 56
}

/// The `u32` read back from four little-endian bytes.
pub open spec fn spec_u32_of(b: Seq<u8>) -> u32
    recommends
        b.len() == 4,
{
    (b[0] as u32) | (b[1] as u32) << 8 | (b[2] as u32) << 16 | (b[3] as u32) << 24
}

/// The bytes of the embedding components, concatenated.
pub open spec fn spec_emb_bytes(emb: Seq<u32>) -> Seq<u8>
    decreases emb.len(),
{
    if emb.len() == 0 {
        Seq::empty()
    } else {
        spec_emb_bytes(emb.drop_last()) + spec_le32(emb.last())
    }
}

/// The durable record for one cache entry: hash, embedding length and
/// components, model-name length and bytes, timestamp — all fixed-width
/// little-endian.
/// The unsigned bit pattern of a signed 64-bit timestamp.
pub open spec fn spec_i64_bits(t: i64) -> u64 {
    if t >= 0 {
        t as u64
    } else {
        (t + 0x1_0000_0000_0000_0000) as u64
    }
}

/// The timestamp read back from its unsigned bit pattern.
pub open spec fn spec_bits_i64(v: u64) -> i64 {
    if v <= 0x7fff_ffff_ffff_ffff {
        v as i64
    } else {
        (v - 0x1_0000_0000_0000_0000) as i64
    }
}

pub open spec fn spec_encode_entry(
    hash: u64,
    emb: Seq<u32>,
    model: Seq<u8>,
    timestamp: i64,
) -> Seq<u8> {
    spec_le64(hash) + spec_le64(emb.len() as u64) + spec_emb_bytes(emb) + spec_le64(
        model.len() as u64,
    ) + model + spec_le64(spec_i64_bits(timestamp))
}

/// What `decode_entry` recovers from a byte record, if it is well formed:
/// the hash, the embedding bits, the model name and the timestamp.
pub open spec fn spec_decode_entry(b: Seq<u8>) -> Option<(u64, Seq<u32>, Seq<char>, i64)> {
    if b.len() < 24 {
        None
    } else {
        let hash = spec_u64_of(b.subrange(0, 8));
        let n = spec_u64_of(b.subrange(8, 16)) as int;
        if 16 + 4 * n + 8 > b.len() {
            None
        } else {
            let comps = Seq::new(n as nat, |i: int| spec_u32_of(b.subrange(16 + 4 * i, 20 + 4 * i)));
            let moff = 16 + 4 * n;
            let m = spec_u64_of(b.subrange(moff, moff + 8)) as int;
            if moff + 8 + m + 8 != b.len() {
                None
            } else {
                let mb = b.subrange(moff + 8, moff + 8 + m);
                if vstd::utf8::valid_utf8(mb) {
                    Some(
                        (
                            hash,
                            comps,
                            vstd::utf8::decode_utf8(mb),
                            spec_bits_i64(spec_u64_of(b.subrange(moff + 8 + m, moff + 16 + m))),
                        ),
                    )
                } else {
                    None
                }
            }
        }
    }
}

/// Bounded in-memory tier of the embedding cache, plus the pure rules
/// (key hash, record codec, expiry) shared with the durable tier.
pub struct EmbeddingCache {
    memory: Vec<(u64, Vec<u32>)>,
    max_memory_entries: usize,
}

impl View for EmbeddingCache {
    type V = Seq<MemEntry>;

    closed spec fn view(&self) -> Seq<MemEntry> {
        self.memory@.map_values(|p: (u64, Vec<u32>)| (p.0, p.1@))
    }
}

impl EmbeddingCache {
    pub closed spec fn spec_capacity(&self) -> nat {
        self.max_memory_entries as nat
    }

    pub open spec fn wf(&self) -> bool {
        &&& spec_unique_keys(self@)
        &&& self@.len() <= self.spec_capacity()
    }

    /// A cache whose memory tier holds at most 1000 entries.
    pub fn new() -> (r: EmbeddingCache)
        ensures
            r.wf(),
            r@ =~= Seq::<MemEntry>::empty(),
            r.spec_capacity() == 1000,
    {
        let r = EmbeddingCache { memory: Vec::new(), max_memory_entries: 1000 };
        proof {
            assert(r@ =~= Seq::<MemEntry>::empty());
        }
        r
    }

    /// A cache with the given memory-tier bound.
    pub fn with_capacity(max_memory_entries: usize) -> (r: EmbeddingCache)
        ensures
            r.wf(),
            r@ =~= Seq::<MemEntry>::empty(),
            r.spec_capacity() == max_memory_entries,
    {
        let r = EmbeddingCache { memory: Vec::new(), max_memory_entries };
        proof {
            assert(r@ =~= Seq::<MemEntry>::empty());
        }
        r
    }

    pub fn capacity(&self) -> (r: usize)
        ensures
            r == self.spec_capacity(),
    {
        self.max_memory_entries
    }

    pub fn entry_count(&self) -> (r: usize)
        ensures
            r == self@.len(),
    {
        self.memory.len()
    }

    /// The 64-bit cache key of a `(text, model)` pair.
    pub fn hash_text(text: &str, model: &str) -> (r: u64)
        ensures
            r == spec_cache_key(text.spec_bytes(), model.spec_bytes()),
    {
        let tb = text.as_bytes();
        let mut h: u64 = 0xcbf29ce484222325;
        let mut i: usize = 0;
        while i < tb.len()
            invariant
                i <= tb@.len(),
                tb@ == text.spec_bytes(),
                h == spec_fnv(0xcbf29ce484222325u64, tb@.take(i as int)),
            decreases tb@.len() - i,
        {
            assert(tb@.take(i + 1).drop_last() =~= tb@.take(i as int));
            assert(tb@.take(i + 1).last() == tb@[i as int]);
            h = (h ^ (tb[i] as u64)).wrapping_mul(0x100000001b3);
            assert(h == spec_fnv_step(spec_fnv(0xcbf29ce484222325u64, tb@.take(i as int)), tb@[i as int]));
            i += 1;
        }
        assert(tb@.take(tb@.len() as int) =~= tb@);
        h = (h ^ 0xff).wrapping_mul(0x100000001b3);
        let mb = model.as_bytes();
        let ghost h1 = h;
        let mut j: usize = 0;
        while j < mb.len()
            invariant
                j <= mb@.len(),
                mb@ == model.spec_bytes(),
                h == spec_fnv(h1, mb@.take(j as int)),
            decreases mb@.len() - j,
        {
            assert(mb@.take(j + 1).drop_last() =~= mb@.take(j as int));
            assert(mb@.take(j + 1).last() == mb@[j as int]);
            h = (h ^ (mb[j] as u64)).wrapping_mul(0x100000001b3);
            assert(h == spec_fnv_step(spec_fnv(h1, mb@.take(j as int)), mb@[j as int]));
            j += 1;
        }
        assert(mb@.take(mb@.len() as int) =~= mb@);
        h
    }

    /// The embedding held in the memory tier for `(text, model)`, if any.
    pub fn memory_get(&self, text: &str, model: &str) -> (r: Option<Vec<u32>>)
        requires
            self.wf(),
        ensures
            (match r {
                Some(v) => spec_mem_lookup(
                    self@,
                    spec_cache_key(text.spec_bytes(), model.spec_bytes()),
                ) == Some(v@),
                None => spec_mem_lookup(
                    self@,
                    spec_cache_key(text.spec_bytes(), model.spec_bytes()),
                ) is None,
            }),
    {
        let key = Self::hash_text(text, model);
        let ghost s = self@;
        match self.position_of(key) {
            Some(i) => {
                proof {
                    assert(s[i as int].0 == key);
                    assert(spec_contains_key(s, key));
                    let w = spec_key_index(s, key);
                    assert(0 <= w < s.len() && s[w].0 == key);
                    if w < i as int {
                        assert(s[w].0 != s[i as int].0);
                    }
                    if (i as int) < w {
                        assert(s[i as int].0 != s[w].0);
                    }
                    assert(w == i as int);
                }
                Some(clone_bits(&self.memory[i].1))
            },
            None => {
                assert(!spec_contains_key(s, key));
                None
            },
        }
    }

    /// The position of the first entry with key `k`, if any.
    fn position_of(&self, k: u64) -> (r: Option<usize>)
        ensures
            (match r {
                Some(i) => i < self.memory@.len() && self@[i as int].0 == k,
                None => !spec_contains_key(self@, k),
            }),
    {
        let ghost s = self@;
        let mut i: usize = 0;
        while i < self.memory.len()
            invariant
                i <= self.memory@.len(),
                s == self@,
                forall|j: int| 0 <= j < i ==> (#[trigger] s[j]).0 != k,
            decreases self.memory@.len() - i,
        {
            if self.memory[i].0 == k {
                proof {
                    assert(s[i as int].0 == k);
                }
                return Some(i);
            }
            i += 1;
        }
        None
    }

    /// Puts the embedding into the memory tier under the key of
    /// `(text, model)`, replacing any entry for that key, then evicts from
    /// the front until the tier is within its bound.
    pub fn store_in_memory(&mut self, text: &str, model: &str, embedding: Vec<u32>)
        requires
            old(self).wf(),
        ensures
            final(self).wf(),
            final(self).spec_capacity() == old(self).spec_capacity(),
            final(self)@ == spec_mem_trim(
                spec_mem_upsert(
                    old(self)@,
                    spec_cache_key(text.spec_bytes(), model.spec_bytes()),
                    embedding@,
                ),
                old(self).spec_capacity(),
            ),
    {
        let key = Self::hash_text(text, model);
        let ghost s = self@;
        match self.position_of(key) {
            Some(i) => {
                proof {
                    assert(s[i as int].0 == key);
                    assert(spec_contains_key(s, key));
                    let w = spec_key_index(s, key);
                    assert(0 <= w < s.len() && s[w].0 == key);
                    if w < i as int {
                        assert(s[w].0 != s[i as int].0);
                    }
                    if (i as int) < w {
                        assert(s[i as int].0 != s[w].0);
                    }
                    assert(w == i as int);
                }
                self.memory[i] = (key, embedding);
                proof {
                    assert(self@ =~= s.update(i as int, (key, embedding@)));
                    let s2 = self@;
                    assert(forall|x: int| 0 <= x < s2.len() ==> (#[trigger] s2[x]).0 == s[x].0);
                    assert(spec_unique_keys(s2));
                }
            },
            None => {
                self.memory.push((key, embedding));
                proof {
                    assert(self@ =~= s.push((key, embedding@)));
                    let s2 = self@;
                    assert forall|a: int, b: int| 0 <= a < b < s2.len() implies (
                    #[trigger] s2[a]).0 != (#[trigger] s2[b]).0 by {
                        if b < s.len() {
                            assert(s[a].0 != s[b].0);
                        } else {
                            if s[a].0 == key {
                                assert(spec_contains_key(s, key));
                            }
                        }
                    }
                }
            },
        }
        let ghost up = self@;
        assert(up == spec_mem_upsert(
            s,
            spec_cache_key(text.spec_bytes(), model.spec_bytes()),
            embedding@,
        ));
        let ghost removed: int = 0;
        while self.memory.len() > self.max_memory_entries
            invariant
                spec_unique_keys(up),
                0 <= removed <= up.len(),
                self@ == up.skip(removed),
                removed == 0 || up.len() - removed >= self.max_memory_entries,
                self.max_memory_entries == old(self).spec_capacity(),
            decreases self.memory@.len(),
        {
            let ghost before = self@;
            self.memory.remove(0);
            proof {
                assert(self@ =~= before.drop_first());
                assert(before.drop_first() =~= up.skip(removed + 1));
                removed = removed + 1;
            }
        }
        proof {
            if up.len() > self.spec_capacity() {
                assert(removed == up.len() - self.spec_capacity());
                assert(self@ == spec_mem_trim(up, old(self).spec_capacity()));
            } else {
                assert(removed == 0);
                assert(up.skip(0) =~= up);
            }
            let s2 = self@;
            assert forall|a: int, b: int| 0 <= a < b < s2.len() implies (#[trigger] s2[a]).0
                != (#[trigger] s2[b]).0 by {
                assert(s2[a] == up[removed + a] && s2[b] == up[removed + b]);
            }
        }
    }

    /// Whether a durable entry written at `timestamp` has expired `days`
    /// days after `now`: strictly older than `now - days * 86400` seconds.
    pub fn is_expired(timestamp: i64, now: i64, days: u64) -> (r: bool)
        ensures
            r == (timestamp < now - days * 86400),
    {
        let cutoff: i128 = now as i128 - days as i128 * 86400;
        (timestamp as i128) < cutoff
    }
}

/// Storing into a fresh memory tier and reading the same key back returns
/// exactly the stored embedding: the in-memory half of the cache
/// round trip.
pub proof fn lemma_memory_roundtrip(k: u64, v: Seq<u32>, max: nat)
    requires
        max >= 1,
    ensures
        spec_mem_lookup(
            spec_mem_trim(spec_mem_upsert(Seq::<MemEntry>::empty(), k, v), max),
            k,
        ) == Some(v),
{
    let s0 = Seq::<MemEntry>::empty();
    assert(!spec_contains_key(s0, k));
    let s1 = spec_mem_upsert(s0, k, v);
    assert(s1 == s0.push((k, v)));
    assert(s1.len() == 1);
    let s2 = spec_mem_trim(s1, max);
    assert(s2 == s1);
    assert(s2[0].0 == k);
    assert(spec_contains_key(s2, k));
    let w = spec_key_index(s2, k);
    assert(0 <= w < s2.len() && s2[w].0 == k);
    assert(w == 0);
    assert(s2[0].1 == v);
}

/// A copy of an embedding's bit patterns.
fn clone_bits(v: &Vec<u32>) -> (r: Vec<u32>)
    ensures
        r@ == v@,
{
    let mut out: Vec<u32> = Vec::new();
    let mut i: usize = 0;
    while i < v.len()
        invariant
            i <= v@.len(),
            out@ == v@.take(i as int),
        decreases v@.len() - i,
    {
        out.push(v[i]);
        assert(out@ =~= v@.take(i + 1));
        i += 1;
    }
    assert(v@.take(v@.len() as int) =~= v@);
    out
}

/// Appends the little-endian bytes of `x`.
fn push_le64(out: &mut Vec<u8>, x: u64)
    ensures
        final(out)@ == old(out)@ + spec_le64(x),
{
    let ghost o0 = out@;
    out.push((x & 0xff) as u8);
    out.push(((x >> 8) & 0xff) as u8);
    out.push(((x >> 16) & 0xff) as u8);
    out.push(((x >> 24) & 0xff) as u8);
    out.push(((x >> 32) & 0xff) as u8);
    out.push(((x >> 40) & 0xff) as u8);
    out.push(((x >> 48) & 0xff) as u8);
    out.push(((x >> 56) & 0xff) as u8);
    assert(out@ =~= o0 + spec_le64(x));
}

/// Appends the little-endian bytes of `x`.
fn push_le32(out: &mut Vec<u8>, x: u32)
    ensures
        final(out)@ == old(out)@ + spec_le32(x),
{
    let ghost o0 = out@;
    out.push((x & 0xff) as u8);
    out.push(((x >> 8) & 0xff) as u8);
    out.push(((x >> 16) & 0xff) as u8);
    out.push(((x >> 24) & 0xff) as u8);
    assert(out@ =~= o0 + spec_le32(x));
}

/// Reads a `u64` from eight little-endian bytes at `off`.
fn read_u64(b: &Vec<u8>, off: usize) -> (r: u64)
    requires
        off + 8 <= b@.len(),
    ensures
        r == spec_u64_of(b@.subrange(off as int, off + 8)),
{
    let l = b.len();
    assert(off + 8 <= l);
    let r = (b[off] as u64) | (b[off + 1] as u64) << 8 | (b[off + 2] as u64) << 16 | (b[off
        + 3] as u64) << 24 | (b[off + 4] as u64) << 32 | (b[off + 5] as u64) << 40 | (b[off
        + 6] as u64) << 48 | (b[off + 7] as u64) << 56;
    proof {
        let sub = b@.subrange(off as int, off + 8);
        assert(sub[0] == b@[off as int] && sub[1] == b@[off + 1] && sub[2] == b@[off + 2]
            && sub[3] == b@[off + 3] && sub[4] == b@[off + 4] && sub[5] == b@[off + 5]
            && sub[6] == b@[off + 6] && sub[7] == b@[off + 7]);
    }
    r
}

/// Reads a `u32` from four little-endian bytes at `off`.
fn read_u32(b: &Vec<u8>, off: usize) -> (r: u32)
    requires
        off + 4 <= b@.len(),
    ensures
        r == spec_u32_of(b@.subrange(off as int, off + 4)),
{
    let l = b.len();
    assert(off + 4 <= l);
    let r = (b[off] as u32) | (b[off + 1] as u32) << 8 | (b[off + 2] as u32) << 16 | (b[off
        + 3] as u32) << 24;
    proof {
        let sub = b@.subrange(off as int, off + 4);
        assert(sub[0] == b@[off as int] && sub[1] == b@[off + 1] && sub[2] == b@[off + 2]
            && sub[3] == b@[off + 3]);
    }
    r
}

/// Relies on String::from_utf8: succeeds exactly on valid UTF-8 and then
/// returns the decoded character sequence.
#[verifier::external_body]
fn string_from_utf8(b: Vec<u8>) -> (r: Option<String>)
    ensures
        (match r {
            Some(s) => vstd::utf8::valid_utf8(b@) && s@ == vstd::utf8::decode_utf8(b@),
            None => !vstd::utf8::valid_utf8(b@),
        }),
{
    String::from_utf8(b).ok()
}

impl EmbeddingCache {
    /// Serialises one durable cache record.
    pub fn encode_entry(hash: u64, embedding: &Vec<u32>, model: &str, timestamp: i64) -> (r:
        Vec<u8>)
        ensures
            r@ == spec_encode_entry(hash, embedding@, model.spec_bytes(), timestamp),
    {
        let mut out: Vec<u8> = Vec::new();
        push_le64(&mut out, hash);
        push_le64(&mut out, embedding.len() as u64);
        let ghost head = spec_le64(hash) + spec_le64(embedding@.len() as u64);
        assert(out@ =~= head);
        let mut i: usize = 0;
        while i < embedding.len()
            invariant
                i <= embedding@.len(),
                head == spec_le64(hash) + spec_le64(embedding@.len() as u64),
                out@ == head + spec_emb_bytes(embedding@.take(i as int)),
            decreases embedding@.len() - i,
        {
            assert(embedding@.take(i + 1).drop_last() =~= embedding@.take(i as int));
            assert(embedding@.take(i + 1).last() == embedding@[i as int]);
            push_le32(&mut out, embedding[i]);
            assert(out@ =~= head + spec_emb_bytes(embedding@.take(i + 1)));
            i += 1;
        }
        assert(embedding@.take(embedding@.len() as int) =~= embedding@);
        let mb = model.as_bytes();
        let mlen = mb.len();
        assert(mlen == model.spec_bytes().len());
        push_le64(&mut out, mlen as u64);
        let ghost head2 = head + spec_emb_bytes(embedding@) + spec_le64(
            model.spec_bytes().len() as u64,
        );
        assert(out@ =~= head2);
        let mut j: usize = 0;
        while j < mb.len()
            invariant
                j <= mb@.len(),
                mb@ == model.spec_bytes(),
                out@ == head2 + mb@.take(j as int),
            decreases mb@.len() - j,
        {
            let ghost o0 = out@;
            out.push(mb[j]);
            assert(out@ =~= head2 + mb@.take(j + 1));
            j += 1;
        }
        assert(mb@.take(mb@.len() as int) =~= mb@);
        let tbits: u64 = if timestamp >= 0 {
            timestamp as u64
        } else {
            ((timestamp as i128) + 0x1_0000_0000_0000_0000i128) as u64
        };
        assert(tbits == spec_i64_bits(timestamp));
        push_le64(&mut out, tbits);
        assert(out@ =~= spec_encode_entry(
            hash,
            embedding@,
            model.spec_bytes(),
            timestamp,
        ));
        out
    }

    /// Parses one durable cache record; returns `None` on any malformed
    /// input.
    pub fn decode_entry(bytes: &Vec<u8>) -> (r: Option<(u64, Vec<u32>, String, i64)>)
        ensures
            (match r {
                Some(x) => spec_decode_entry(bytes@) == Some((x.0, x.1@, x.2@, x.3)),
                None => spec_decode_entry(bytes@) is None,
            }),
    {
        let blen = bytes.len();
        if blen < 32 {
            proof {
                if bytes@.len() >= 24 {
                    let n = spec_u64_of(bytes@.subrange(8, 16)) as int;
                    if 16 + 4 * n + 8 <= bytes@.len() {
                        let moff = 16 + 4 * n;
                        let m = spec_u64_of(bytes@.subrange(moff, moff + 8)) as int;
                        assert(moff + 8 + m + 8 >= 32);
                        assert(moff + 8 + m + 8 != bytes@.len());
                    }
                }
            }
            return None;
        }
        let hash = read_u64(bytes, 0);
        assert(bytes@.subrange(0, 8) =~= bytes@.take(8));
        let n64 = read_u64(bytes, 8);
        let rem: usize = blen - 32;
        if n64 > (rem / 4) as u64 {
            proof {
                let n = n64 as int;
                if 16 + 4 * n + 8 <= bytes@.len() {
                    let moff = 16 + 4 * n;
                    let m = spec_u64_of(bytes@.subrange(moff, moff + 8)) as int;
                    assert(4 * n > bytes@.len() - 32);
                    assert(moff + 8 + m + 8 > bytes@.len());
                }
            }
            return None;
        }
        let n: usize = n64 as usize;
        let moff: usize = 16 + 4 * n;
        assert(moff + 16 <= blen);
        let mut comps: Vec<u32> = Vec::new();
        let mut i: usize = 0;
        while i < n
            invariant
                i <= n,
                n == n64,
                moff == 16 + 4 * n,
                moff + 16 <= bytes@.len(),
                comps@.len() == i,
                forall|k: int|
                    0 <= k < i ==> comps@[k] == spec_u32_of(
                        bytes@.subrange(16 + 4 * k, 20 + 4 * k),
                    ),
            decreases n - i,
        {
            let c = read_u32(bytes, 16 + 4 * i);
            comps.push(c);
            i += 1;
        }
        let m64 = read_u64(bytes, moff);
        let have: usize = blen - moff - 16;
        if m64 != have as u64 {
            proof {
                assert((16 + 4 * (n64 as int)) + 8 + (m64 as int) + 8 != bytes@.len());
            }
            return None;
        }
        let m: usize = m64 as usize;
        let mut mbv: Vec<u8> = Vec::new();
        let mut j: usize = 0;
        while j < m
            invariant
                j <= m,
                blen == bytes@.len(),
                moff + 8 + m + 8 == bytes@.len(),
                mbv@ == bytes@.subrange(moff + 8, moff + 8 + j),
            decreases m - j,
        {
            mbv.push(bytes[moff + 8 + j]);
            assert(mbv@ =~= bytes@.subrange(moff + 8, moff + 8 + j + 1));
            j += 1;
        }
        let ghost mb = bytes@.subrange(moff + 8, moff + 8 + m);
        let model = match string_from_utf8(mbv) {
            Some(s) => s,
            None => {
                return None;
            },
        };
        let v = read_u64(bytes, moff + 8 + m);
        let ts: i64 = if v <= 0x7fff_ffff_ffff_ffff {
            v as i64
        } else {
            ((v as i128) - 0x1_0000_0000_0000_0000i128) as i64
        };
        assert(ts == spec_bits_i64(v));
        proof {
            let ghost comps_spec = Seq::new(
                n64 as nat,
                |k: int| spec_u32_of(bytes@.subrange(16 + 4 * k, 20 + 4 * k)),
            );
            assert(comps@ =~= comps_spec);
        }
        Some((hash, comps, model, ts))
    }
}

/// The encoding of an embedding is four bytes per component.
proof fn lemma_emb_bytes_len(emb: Seq<u32>)
    ensures
        spec_emb_bytes(emb).len() == 4 * emb.len(),
    decreases emb.len(),
{
    if emb.len() > 0 {
        lemma_emb_bytes_len(emb.drop_last());
    }
}

/// Component `i` of an embedding sits at offset `4 * i` of its encoding.
proof fn lemma_emb_bytes_at(emb: Seq<u32>, i: int)
    requires
        0 <= i < emb.len(),
    ensures
        spec_emb_bytes(emb).subrange(4 * i, 4 * i + 4) =~= spec_le32(emb[i]),
    decreases emb.len(),
{
    lemma_emb_bytes_len(emb);
    if i == emb.len() - 1 {
        lemma_emb_bytes_len(emb.drop_last());
        assert(spec_emb_bytes(emb).subrange(4 * i, 4 * i + 4) =~= spec_le32(emb.last()));
    } else {
        lemma_emb_bytes_at(emb.drop_last(), i);
        lemma_emb_bytes_len(emb.drop_last());
        assert(spec_emb_bytes(emb).subrange(4 * i, 4 * i + 4) =~= spec_emb_bytes(
            emb.drop_last(),
        ).subrange(4 * i, 4 * i + 4));
    }
}

/// Writing a `u64` little-endian and reading it back returns the value.
proof fn lemma_le64_roundtrip(x: u64)
    ensures
        spec_u64_of(spec_le64(x)) == x,
{
    let b0 = (x & 0xff) as u8;
    let b1 = ((x >> 8) & 0xff) as u8;
    let b2 = ((x >> 16) & 0xff) as u8;
    let b3 = ((x >> 24) & 0xff) as u8;
    let b4 = ((x >> 32) & 0xff) as u8;
    let b5 = ((x >> 40) & 0xff) as u8;
    let b6 = ((x >> 48) & 0xff) as u8;
    let b7 = ((x >> 56) & 0xff) as u8;
    assert((b0 as u64) | (b1 as u64) << 8 | (b2 as u64) << 16 | (b3 as u64) << 24 | (
    b4 as u64) << 32 | (b5 as u64) << 40 | (b6 as u64) << 48 | (b7 as u64) << 56 == x)
        by (bit_vector)
        requires
            b0 == (x & 0xff) as u8,
            b1 == ((x >> 8) & 0xff) as u8,
            b2 == ((x >> 16) & 0xff) as u8,
            b3 == ((x >> 24) & 0xff) as u8,
            b4 == ((x >> 32) & 0xff) as u8,
            b5 == ((x >> 40) & 0xff) as u8,
            b6 == ((x >> 48) & 0xff) as u8,
            b7 == ((x >> 56) & 0xff) as u8,
    ;
}

/// Writing a `u32` little-endian and reading it back returns the value.
proof fn lemma_le32_roundtrip(x: u32)
    ensures
        spec_u32_of(spec_le32(x)) == x,
{
    let b0 = (x & 0xff) as u8;
    let b1 = ((x >> 8) & 0xff) as u8;
    let b2 = ((x >> 16) & 0xff) as u8;
    let b3 = ((x >> 24) & 0xff) as u8;
    assert((b0 as u32) | (b1 as u32) << 8 | (b2 as u32) << 16 | (b3 as u32) << 24 == x)
        by (bit_vector)
        requires
            b0 == (x & 0xff) as u8,
            b1 == ((x >> 8) & 0xff) as u8,
            b2 == ((x >> 16) & 0xff) as u8,
            b3 == ((x >> 24) & 0xff) as u8,
    ;
}

/// A serialised cache record parses back to exactly the values that were
/// written: the durable tier loses nothing.
pub proof fn lemma_entry_roundtrip(hash: u64, emb: Seq<u32>, model: Seq<char>, timestamp: i64)
    requires
        emb.len() < 0x1_0000_0000_0000_0000,
        vstd::utf8::encode_utf8(model).len() < 0x1_0000_0000_0000_0000,
    ensures
        spec_decode_entry(
            spec_encode_entry(hash, emb, vstd::utf8::encode_utf8(model), timestamp),
        ) == Some((hash, emb, model, timestamp)),
{
    broadcast use vstd::utf8::encode_utf8_valid_utf8;
    broadcast use vstd::utf8::encode_utf8_decode_utf8;

    let mb = vstd::utf8::encode_utf8(model);
    let b = spec_encode_entry(hash, emb, mb, timestamp);
    lemma_emb_bytes_len(emb);
    let n: int = emb.len() as int;
    let m: int = mb.len() as int;
    assert(b.len() == 32 + 4 * n + m);
    assert(b.subrange(0, 8) =~= spec_le64(hash));
    lemma_le64_roundtrip(hash);
    assert(b.subrange(8, 16) =~= spec_le64(emb.len() as u64));
    lemma_le64_roundtrip(emb.len() as u64);
    assert(spec_u64_of(b.subrange(8, 16)) == n);
    assert(16 + 4 * n + 8 <= b.len());
    let comps = Seq::new(n as nat, |i: int| spec_u32_of(b.subrange(16 + 4 * i, 20 + 4 * i)));
    assert forall|i: int| 0 <= i < n implies comps[i] == emb[i] by {
        lemma_emb_bytes_at(emb, i);
        assert(b.subrange(16 + 4 * i, 20 + 4 * i) =~= spec_emb_bytes(emb).subrange(
            4 * i,
            4 * i + 4,
        ));
        lemma_le32_roundtrip(emb[i]);
    }
    assert(comps =~= emb);
    let moff = 16 + 4 * n;
    assert(b.subrange(moff, moff + 8) =~= spec_le64(mb.len() as u64));
    lemma_le64_roundtrip(mb.len() as u64);
    assert(spec_u64_of(b.subrange(moff, moff + 8)) == m);
    assert(moff + 8 + m + 8 == b.len());
    assert(b.subrange(moff + 8, moff + 8 + m) =~= mb);
    assert(vstd::utf8::valid_utf8(mb));
    assert(vstd::utf8::decode_utf8(mb) == model);
    assert(b.subrange(moff + 8 + m, moff + 16 + m) =~= spec_le64(spec_i64_bits(timestamp)));
    lemma_le64_roundtrip(spec_i64_bits(timestamp));
    assert(spec_bits_i64(spec_i64_bits(timestamp)) == timestamp);
}

} // verus!
