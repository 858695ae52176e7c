//! Bulk invalidation of cached entries by tag or by key prefix.
//!
//! An [`InvalidationCache`] wraps a backend and keeps two indexes beside it:
//! which keys carry which tag, and which keys start with which prefix, a
//! prefix being the part of a key before one of its `:` separators
//! (`"users:123:profile"` has the prefixes `"users"` and `"users:123"`).
//! Each index is a list of distinct (name, key) pairs, so a name that no key
//! carries any more is simply absent.
use crate::backends::{CacheBackend, Key, Value};
use crate::error::Error;
use std::collections::{HashMap, HashSet};
use std::time::Duration;
use vstd::prelude::*;
use vstd::string::StringSliceAdditionalSpecFns;
use vstd::utf8::{
    decode_utf8, encode_utf8, encode_utf8_decode_utf8, encode_utf8_valid_utf8,
    is_char_boundary_iff_not_is_continuation_byte,
};

verus! {

/// A label under which cached entries can be invalidated together.
#[derive(Debug, Clone, Eq, Hash)]
pub struct Tag(String);

impl View for Tag {
    type V = Seq<char>;

    closed spec fn view(&self) -> Seq<char> {
        self.0@
    }
}

impl PartialEq for Tag {
    fn eq(&self, other: &Tag) -> (r: bool)
        ensures
            r == (self@ == other@),
    {
        self.0 == other.0
    }
}

impl vstd::std_specs::cmp::PartialEqSpecImpl for Tag {
    open spec fn obeys_eq_spec() -> bool {
        true
    }

    open spec fn eq_spec(&self, other: &Tag) -> bool {
        self@ == other@
    }
}

impl Tag {
    /// A tag with the given text.
    pub fn new(tag: &str) -> (r: Self)
        ensures
            r@ == tag@,
    {
        Tag(tag.to_owned())
    }

    /// The tag's text.
    pub fn as_str(&self) -> (r: &str)
        ensures
            r@ == self@,
    {
        self.0.as_str()
    }
}

impl From<String> for Tag {
    fn from(s: String) -> (r: Tag)
        ensures
            r@ == s@,
    {
        Tag(s)
    }
}

impl From<&str> for Tag {
    fn from(s: &str) -> (r: Tag)
        ensures
            r@ == s@,
    {
        Tag(s.to_owned())
    }
}

impl vstd::std_specs::convert::FromSpecImpl<String> for Tag {
    open spec fn obeys_from_spec() -> bool {
        true
    }

    closed spec fn from_spec(v: String) -> Tag {
        Tag(v)
    }
}

impl vstd::std_specs::convert::FromSpecImpl<&str> for Tag {
    open spec fn obeys_from_spec() -> bool {
        false
    }

    closed spec fn from_spec(v: &str) -> Tag {
        arbitrary()
    }
}

/// The texts of a sequence of tags.
pub open spec fn tag_views(tags: Seq<Tag>) -> Seq<Seq<char>> {
    tags.map_values(|t: Tag| t@)
}

/// A value together with the tags it is cached under.
#[derive(Debug, Clone)]
pub struct TaggedCacheEntry<T> {
    /// The cached value.
    pub value: T,
    /// Its tags, each once.
    pub tags: Vec<Tag>,
}

impl<T> TaggedCacheEntry<T> {
    /// A value with no tag.
    pub fn new(value: T) -> (r: Self)
        ensures
            r.value == value,
            r.tags@.len() == 0,
    {
        TaggedCacheEntry { value, tags: Vec::new() }
    }

    /// The same entry with `tag` added, unless it already has it.
    pub fn with_tag(self, tag: Tag) -> (r: Self)
        ensures
            r.value == self.value,
            tag_views(self.tags@).no_duplicates() ==> tag_views(r.tags@).no_duplicates(),
            tag_views(r.tags@).to_set() == tag_views(self.tags@).to_set().insert(tag@),
    {
        let mut s = self;
        let mut i: usize = 0;
        while i < s.tags.len()
            invariant
                0 <= i <= s.tags@.len(),
                s.value == self.value,
                s.tags@ == self.tags@,
                forall|j: int| 0 <= j < i ==> s.tags@[j]@ != tag@,
            decreases s.tags@.len() - i,
        {
            if s.tags[i] == tag {
                proof {
                    assert(tag_views(s.tags@)[i as int] == tag@);
                    assert(tag_views(s.tags@).to_set().insert(tag@) =~= tag_views(s.tags@).to_set());
                }
                return s;
            }
            i += 1;
        }
        let ghost before = s.tags@;
        s.tags.push(tag);
        proof {
            assert(tag_views(s.tags@) =~= tag_views(before).push(tag@));
            assert forall|j: int| 0 <= j < tag_views(before).len() implies tag_views(before)[j] != tag@ by {
                assert(before[j]@ != tag@);
            }
            assert(!tag_views(before).contains(tag@));
            assert(tag_views(s.tags@).to_set() =~= tag_views(before).to_set().insert(tag@)) by {
                assert forall|x: Seq<char>| tag_views(s.tags@).to_set().contains(x) <==> tag_views(before).to_set().insert(tag@).contains(x) by {
                    if tag_views(before).contains(x) {
                        let j = choose|j: int| 0 <= j < tag_views(before).len() && tag_views(before)[j] == x;
                        assert(tag_views(s.tags@)[j] == x);
                    }
                    if x == tag@ {
                        assert(tag_views(s.tags@)[before.len() as int] == x);
                    }
                    if tag_views(s.tags@).contains(x) {
                        let j = choose|j: int| 0 <= j < tag_views(s.tags@).len() && tag_views(s.tags@)[j] == x;
                        if j < before.len() {
                            assert(tag_views(before)[j] == x);
                        }
                    }
                }
            }
        }
        s
    }

    /// The same entry with each of `tags` added that it does not have yet.
    pub fn with_tags(self, tags: Vec<Tag>) -> (r: Self)
        ensures
            r.value == self.value,
            tag_views(self.tags@).no_duplicates() ==> tag_views(r.tags@).no_duplicates(),
            tag_views(r.tags@).to_set() == tag_views(self.tags@).to_set() + tag_views(tags@).to_set(),
    {
        let mut s = self;
        let ghost start = tag_views(s.tags@).to_set();
        let mut i: usize = 0;
        while i < tags.len()
            invariant
                0 <= i <= tags@.len(),
                tag_views(self.tags@).no_duplicates() ==> tag_views(s.tags@).no_duplicates(),
                s.value == self.value,
                forall|x: Seq<char>| #[trigger] tag_views(s.tags@).to_set().contains(x)
                    <==> start.contains(x) || exists|j: int| 0 <= j < i && tags@[j]@ == x,
            decreases tags@.len() - i,
        {
            let t = Tag(tags[i].0.clone());
            let ghost before = tag_views(s.tags@).to_set();
            s = s.with_tag(t);
            proof {
                assert forall|x: Seq<char>| #[trigger] tag_views(s.tags@).to_set().contains(x)
                    <==> start.contains(x) || exists|j: int| 0 <= j < i + 1 && tags@[j]@ == x by {
                    if x == tags@[i as int]@ {
                        assert(before.insert(t@).contains(x));
                    }
                    if exists|j: int| 0 <= j < i + 1 && tags@[j]@ == x {
                        let j = choose|j: int| 0 <= j < i + 1 && tags@[j]@ == x;
                        if j < i {
                            assert(before.contains(x));
                        }
                    }
                }
            }
            i += 1;
        }
        proof {
            assert forall|x: Seq<char>| tag_views(s.tags@).to_set().contains(x)
                <==> (start + tag_views(tags@).to_set()).contains(x) by {
                if exists|j: int| 0 <= j < i && tags@[j]@ == x {
                    let j = choose|j: int| 0 <= j < i && tags@[j]@ == x;
                    assert(tag_views(tags@)[j] == x);
                }
                if tag_views(tags@).contains(x) {
                    let j = choose|j: int| 0 <= j < tag_views(tags@).len() && tag_views(tags@)[j] == x;
                    assert(tags@[j]@ == x);
                }
            }
            assert(tag_views(s.tags@).to_set() =~= start + tag_views(tags@).to_set());
        }
        s
    }
}

/// Whether the index lists the pair (`name`, `key`).
pub open spec fn indexed(ix: Seq<(String, String)>, name: Seq<char>, key: Seq<char>) -> bool {
    exists|i: int| 0 <= i < ix.len() && ix[i].0@ == name && #[trigger] ix[i].1@ == key
}

/// Whether the index lists no pair twice.
pub open spec fn distinct_pairs(ix: Seq<(String, String)>) -> bool {
    forall|i: int, j: int| 0 <= i < j < ix.len() ==> !(ix[i].0@ == ix[j].0@ && ix[i].1@ == ix[j].1@)
}

/// Whether `prefix` is the part of `key` before one of its `:` separators.
pub open spec fn is_segment_prefix(prefix: Seq<char>, key: Seq<char>) -> bool {
    exists|i: int|
        0 <= i < encode_utf8(key).len() && encode_utf8(key)[i] == 0x3au8
            && #[trigger] decode_utf8(encode_utf8(key).subrange(0, i)) == prefix
}

/// Adds the pair (`name`, `key`) unless it is listed.
fn index_insert(ix: &mut Vec<(String, String)>, name: String, key: String)
    requires
        distinct_pairs(old(ix)@),
    ensures
        distinct_pairs(final(ix)@),
        forall|n: Seq<char>, k: Seq<char>| #[trigger] indexed(final(ix)@, n, k)
            <==> indexed(old(ix)@, n, k) || (n == name@ && k == key@),
{
    let mut i: usize = 0;
    while i < ix.len()
        invariant
            0 <= i <= ix@.len(),
            distinct_pairs(ix@),
            forall|j: int| 0 <= j < i ==> !(ix@[j].0@ == name@ && ix@[j].1@ == key@),
        decreases ix@.len() - i,
    {
        if ix[i].0 == name && ix[i].1 == key {
            return;
        }
        i += 1;
    }
    let ghost before = ix@;
    ix.push((name, key));
    proof {
        assert forall|n: Seq<char>, k: Seq<char>| #[trigger] indexed(ix@, n, k)
            <==> indexed(before, n, k) || (n == name@ && k == key@) by {
            if indexed(before, n, k) {
                let j = choose|j: int| 0 <= j < before.len() && before[j].0@ == n && #[trigger] before[j].1@ == k;
                assert(ix@[j] == before[j]);
            }
            if n == name@ && k == key@ {
                assert(ix@[before.len() as int].1@ == k);
            }
            if indexed(ix@, n, k) {
                let j = choose|j: int| 0 <= j < ix@.len() && ix@[j].0@ == n && #[trigger] ix@[j].1@ == k;
                if j < before.len() {
                    assert(before[j] == ix@[j]);
                }
            }
        }
    }
}

/// Drops every pair whose key is `key`.
fn index_forget(ix: &mut Vec<(String, String)>, key: &String)
    requires
        distinct_pairs(old(ix)@),
    ensures
        distinct_pairs(final(ix)@),
        forall|n: Seq<char>, k: Seq<char>| #[trigger] indexed(final(ix)@, n, k)
            <==> indexed(old(ix)@, n, k) && k != key@,
{
    let ghost start = ix@;
    let ghost mut idx: Seq<int> = Seq::empty();
    let mut kept: Vec<(String, String)> = Vec::new();
    let mut i: usize = 0;
    while i < ix.len()
        invariant
            ix@ == start,
            0 <= i <= start.len(),
            distinct_pairs(start),
            idx.len() == kept@.len(),
            forall|a: int| 0 <= a < kept@.len() ==> 0 <= #[trigger] idx[a] < i && kept@[a] == start[idx[a]] && start[idx[a]].1@ != key@,
            forall|a: int, c: int| 0 <= a < c < kept@.len() ==> #[trigger] idx[a] < #[trigger] idx[c],
            forall|b: int| 0 <= b < i && #[trigger] start[b].1@ != key@ ==> exists|a: int| 0 <= a < kept@.len() && idx[a] == b,
        decreases start.len() - i,
    {
        if !(ix[i].1 == *key) {
            let pair = (ix[i].0.clone(), ix[i].1.clone());
            kept.push(pair);
            proof {
                let ghost old_idx = idx;
                idx = idx.push(i as int);
                assert forall|b: int| 0 <= b < i + 1 && #[trigger] start[b].1@ != key@ implies exists|a: int| 0 <= a < kept@.len() && idx[a] == b by {
                    if b == i {
                        assert(idx[idx.len() - 1] == b);
                    } else {
                        let a = choose|a: int| 0 <= a < old_idx.len() && old_idx[a] == b;
                        assert(idx[a] == b);
                    }
                }
            }
        } else {
            proof {
                assert forall|b: int| 0 <= b < i + 1 && #[trigger] start[b].1@ != key@ implies exists|a: int| 0 <= a < kept@.len() && idx[a] == b by {
                    assert(b < i);
                }
            }
        }
        i += 1;
    }
    proof {
        assert forall|a: int, c: int| 0 <= a < c < kept@.len() implies !(kept@[a].0@ == kept@[c].0@ && kept@[a].1@ == kept@[c].1@) by {
            assert(idx[a] < idx[c]);
        }
        assert forall|n: Seq<char>, k: Seq<char>| #[trigger] indexed(kept@, n, k) <==> indexed(start, n, k) && k != key@ by {
            if indexed(kept@, n, k) {
                let a = choose|a: int| 0 <= a < kept@.len() && kept@[a].0@ == n && #[trigger] kept@[a].1@ == k;
                assert(start[idx[a]].1@ == k);
            }
            if indexed(start, n, k) && k != key@ {
                let b = choose|b: int| 0 <= b < start.len() && start[b].0@ == n && #[trigger] start[b].1@ == k;
                let a = choose|a: int| 0 <= a < kept@.len() && idx[a] == b;
                assert(kept@[a].1@ == k);
            }
        }
    }
    *ix = kept;
}

/// The keys listed under `name`, each once.
fn index_lookup(ix: &Vec<(String, String)>, name: &String) -> (r: Vec<String>)
    requires
        distinct_pairs(ix@),
    ensures
        forall|k: Seq<char>| (exists|a: int| 0 <= a < r@.len() && #[trigger] r@[a]@ == k) <==> indexed(ix@, name@, k),
        forall|a: int, c: int| 0 <= a < c < r@.len() ==> r@[a]@ != r@[c]@,
{
    let ghost mut idx: Seq<int> = Seq::empty();
    let mut out: Vec<String> = Vec::new();
    let mut i: usize = 0;
    while i < ix.len()
        invariant
            0 <= i <= ix@.len(),
            distinct_pairs(ix@),
            idx.len() == out@.len(),
            forall|a: int| 0 <= a < out@.len() ==> 0 <= #[trigger] idx[a] < i && ix@[idx[a]].0@ == name@ && out@[a]@ == ix@[idx[a]].1@,
            forall|a: int, c: int| 0 <= a < c < out@.len() ==> #[trigger] idx[a] < #[trigger] idx[c],
            forall|b: int| 0 <= b < i && #[trigger] ix@[b].0@ == name@ ==> exists|a: int| 0 <= a < out@.len() && idx[a] == b,
        decreases ix@.len() - i,
    {
        if ix[i].0 == *name {
            out.push(ix[i].1.clone());
            proof {
                let ghost old_idx = idx;
                idx = idx.push(i as int);
                assert forall|b: int| 0 <= b < i + 1 && #[trigger] ix@[b].0@ == name@ implies exists|a: int| 0 <= a < out@.len() && idx[a] == b by {
                    if b == i {
                        assert(idx[idx.len() - 1] == b);
                    } else {
                        let a = choose|a: int| 0 <= a < old_idx.len() && old_idx[a] == b;
                        assert(idx[a] == b);
                    }
                }
            }
        } else {
            proof {
                assert forall|b: int| 0 <= b < i + 1 && #[trigger] ix@[b].0@ == name@ implies exists|a: int| 0 <= a < out@.len() && idx[a] == b by {
                    assert(b < i);
                }
            }
        }
        i += 1;
    }
    proof {
        assert forall|a: int, c: int| 0 <= a < c < out@.len() implies out@[a]@ != out@[c]@ by {
            assert(idx[a] < idx[c]);
            assert(ix@[idx[a]].0@ == ix@[idx[c]].0@);
        }
        assert forall|k: Seq<char>| (exists|a: int| 0 <= a < out@.len() && #[trigger] out@[a]@ == k) <==> indexed(ix@, name@, k) by {
            if exists|a: int| 0 <= a < out@.len() && #[trigger] out@[a]@ == k {
                let a = choose|a: int| 0 <= a < out@.len() && #[trigger] out@[a]@ == k;
                assert(ix@[idx[a]].1@ == k);
            }
            if indexed(ix@, name@, k) {
                let b = choose|b: int| 0 <= b < ix@.len() && ix@[b].0@ == name@ && #[trigger] ix@[b].1@ == k;
                let a = choose|a: int| 0 <= a < out@.len() && idx[a] == b;
                assert(out@[a]@ == k);
            }
        }
    }
    out
}

/// A backend with tag and prefix indexes for bulk invalidation.
#[derive(Debug)]
pub struct InvalidationCache<B: CacheBackend> {
    backend: B,
    tag_to_keys: Vec<(String, String)>,
    prefixes: Vec<(String, String)>,
}

impl<B: CacheBackend> InvalidationCache<B> {
    /// The wrapped backend.
    pub closed spec fn target(&self) -> B {
        self.backend
    }

    /// Whether `key` is registered under the tag `tag`.
    pub closed spec fn tagged(&self, tag: Seq<char>, key: Seq<char>) -> bool {
        indexed(self.tag_to_keys@, tag, key)
    }

    /// Whether `key` is registered under the prefix `prefix`.
    pub closed spec fn under_prefix(&self, prefix: Seq<char>, key: Seq<char>) -> bool {
        indexed(self.prefixes@, prefix, key)
    }

    /// The indexes list each pair once and the backend is well formed.
    pub closed spec fn wf(&self) -> bool {
        &&& distinct_pairs(self.tag_to_keys@)
        &&& distinct_pairs(self.prefixes@)
        &&& self.backend.well_formed()
    }

    /// Wraps `backend`, with empty indexes.
    pub fn new(backend: B) -> (r: Self)
        requires
            backend.well_formed(),
        ensures
            r.wf(),
            r.target() == backend,
            forall|t: Seq<char>, k: Seq<char>| !r.tagged(t, k),
            forall|p: Seq<char>, k: Seq<char>| !r.under_prefix(p, k),
    {
        InvalidationCache { backend, tag_to_keys: Vec::new(), prefixes: Vec::new() }
    }

    /// Stores `value` under `key` in the backend and, if that succeeds,
    /// registers the key under `tags` and under its prefixes.
    pub fn set_with_tags(&mut self, key: Key, value: Value, ttl: Option<Duration>, tags: Vec<Tag>) -> (r: crate::Result<()>)
        requires
            old(self).wf(),
        ensures
            final(self).wf(),
            r is Ok ==> forall|t: Seq<char>| tag_views(tags@).contains(t) ==> final(self).tagged(t, key@),
            r is Ok ==> forall|p: Seq<char>| is_segment_prefix(p, key@) ==> final(self).under_prefix(p, key@),
    {
        let name = key.clone();
        match self.backend.set(key, value, ttl) {
            Ok(()) => {},
            Err(e) => {
                return Err(e);
            },
        }
        self.register_key_with_tags(name.as_str(), tags);
        Ok(())
    }

    /// Removes `key` from the backend and, if that succeeds, from the indexes.
    pub fn remove(&mut self, key: &str) -> (r: crate::Result<()>)
        requires
            old(self).wf(),
        ensures
            final(self).wf(),
            r is Ok ==> forall|t: Seq<char>, k: Seq<char>| final(self).tagged(t, k) <==> old(self).tagged(t, k) && k != key@,
            r is Ok ==> forall|p: Seq<char>, k: Seq<char>| final(self).under_prefix(p, k) <==> old(self).under_prefix(p, k) && k != key@,
    {
        let owned = key.to_owned();
        let result = self.backend.remove(&owned);
        if result.is_ok() {
            self.unregister_key(key);
        }
        result
    }

    /// Registers `key` under each of `tags` and under each of its prefixes.
    pub fn register_key_with_tags(&mut self, key: &str, tags: Vec<Tag>)
        requires
            old(self).wf(),
        ensures
            final(self).wf(),
            final(self).target() == old(self).target(),
            forall|t: Seq<char>, k: Seq<char>| final(self).tagged(t, k)
                <==> old(self).tagged(t, k) || (k == key@ && tag_views(tags@).contains(t)),
            forall|p: Seq<char>, k: Seq<char>| final(self).under_prefix(p, k)
                <==> old(self).under_prefix(p, k) || (k == key@ && is_segment_prefix(p, key@)),
    {
        let ghost start = self.tag_to_keys@;
        let mut i: usize = 0;
        while i < tags.len()
            invariant
                0 <= i <= tags@.len(),
                self.wf(),
                self.backend == old(self).backend,
                self.prefixes == old(self).prefixes,
                start == old(self).tag_to_keys@,
                forall|t: Seq<char>, k: Seq<char>| #[trigger] indexed(self.tag_to_keys@, t, k)
                    <==> indexed(start, t, k) || (k == key@ && exists|j: int| 0 <= j < i && tags@[j]@ == t),
            decreases tags@.len() - i,
        {
            index_insert(&mut self.tag_to_keys, tags[i].0.clone(), key.to_owned());
            proof {
                assert forall|t: Seq<char>, k: Seq<char>| #[trigger] indexed(self.tag_to_keys@, t, k)
                    <==> indexed(start, t, k) || (k == key@ && exists|j: int| 0 <= j < i + 1 && tags@[j]@ == t) by {
                    if k == key@ && t == tags@[i as int]@ {
                        assert(exists|j: int| 0 <= j < i + 1 && tags@[j]@ == t);
                    }
                    if exists|j: int| 0 <= j < i + 1 && tags@[j]@ == t {
                        let j = choose|j: int| 0 <= j < i + 1 && tags@[j]@ == t;
                        if j < i {
                            assert(exists|j2: int| 0 <= j2 < i && tags@[j2]@ == t);
                        }
                    }
                }
            }
            i += 1;
        }
        proof {
            assert forall|t: Seq<char>| tag_views(tags@).contains(t) <==> exists|j: int| 0 <= j < tags@.len() && tags@[j]@ == t by {
                if tag_views(tags@).contains(t) {
                    let j = choose|j: int| 0 <= j < tag_views(tags@).len() && tag_views(tags@)[j] == t;
                    assert(tags@[j]@ == t);
                }
                if exists|j: int| 0 <= j < tags@.len() && tags@[j]@ == t {
                    let j = choose|j: int| 0 <= j < tags@.len() && tags@[j]@ == t;
                    assert(tag_views(tags@)[j] == t);
                }
            }
        }
        self.register_key_with_prefixes(key);
    }

    /// Registers `key` under each part of it that precedes a `:`.
    fn register_key_with_prefixes(&mut self, key: &str)
        requires
            old(self).wf(),
        ensures
            final(self).wf(),
            final(self).backend == old(self).backend,
            final(self).tag_to_keys == old(self).tag_to_keys,
            forall|p: Seq<char>, k: Seq<char>| final(self).under_prefix(p, k)
                <==> old(self).under_prefix(p, k) || (k == key@ && is_segment_prefix(p, key@)),
    {
        let ghost start = self.prefixes@;
        let bytes = key.as_bytes();
        proof {
            encode_utf8_valid_utf8(key@);
        }
        let mut i: usize = 0;
        while i < bytes.len()
            invariant
                0 <= i <= bytes@.len(),
                bytes@ == encode_utf8(key@),
                vstd::utf8::valid_utf8(bytes@),
                self.wf(),
                self.backend == old(self).backend,
                self.tag_to_keys == old(self).tag_to_keys,
                start == old(self).prefixes@,
                forall|p: Seq<char>, k: Seq<char>| #[trigger] indexed(self.prefixes@, p, k)
                    <==> indexed(start, p, k) || (k == key@ && exists|j: int| 0 <= j < i && bytes@[j] == 0x3au8
                        && #[trigger] decode_utf8(bytes@.subrange(0, j)) == p),
            decreases bytes@.len() - i,
        {
            if bytes[i] == 0x3au8 {
                proof {
                    is_char_boundary_iff_not_is_continuation_byte(bytes@, i as int);
                }
                let (head, _) = key.split_at(i);
                let name = head.to_owned();
                proof {
                    encode_utf8_decode_utf8(head@);
                    assert(decode_utf8(bytes@.subrange(0, i as int)) == name@);
                }
                index_insert(&mut self.prefixes, name, key.to_owned());
                proof {
                    assert forall|p: Seq<char>, k: Seq<char>| #[trigger] indexed(self.prefixes@, p, k)
                        <==> indexed(start, p, k) || (k == key@ && exists|j: int| 0 <= j < i + 1 && bytes@[j] == 0x3au8
                            && #[trigger] decode_utf8(bytes@.subrange(0, j)) == p) by {
                        if exists|j: int| 0 <= j < i + 1 && bytes@[j] == 0x3au8 && #[trigger] decode_utf8(bytes@.subrange(0, j)) == p {
                            let j = choose|j: int| 0 <= j < i + 1 && bytes@[j] == 0x3au8 && #[trigger] decode_utf8(bytes@.subrange(0, j)) == p;
                            if j < i {
                                assert(exists|j2: int| 0 <= j2 < i && bytes@[j2] == 0x3au8 && #[trigger] decode_utf8(bytes@.subrange(0, j2)) == p);
                            }
                        }
                    }
                }
            } else {
                proof {
                    assert forall|p: Seq<char>, k: Seq<char>| #[trigger] indexed(self.prefixes@, p, k)
                        <==> indexed(start, p, k) || (k == key@ && exists|j: int| 0 <= j < i + 1 && bytes@[j] == 0x3au8
                            && #[trigger] decode_utf8(bytes@.subrange(0, j)) == p) by {
                        if exists|j: int| 0 <= j < i + 1 && bytes@[j] == 0x3au8 && #[trigger] decode_utf8(bytes@.subrange(0, j)) == p {
                            let j = choose|j: int| 0 <= j < i + 1 && bytes@[j] == 0x3au8 && #[trigger] decode_utf8(bytes@.subrange(0, j)) == p;
                            assert(j < i);
                        }
                    }
                }
            }
            i += 1;
        }
    }

    /// Removes `key` from every tag and every prefix.
    pub fn unregister_key(&mut self, key: &str)
        requires
            old(self).wf(),
        ensures
            final(self).wf(),
            final(self).target() == old(self).target(),
            forall|t: Seq<char>, k: Seq<char>| final(self).tagged(t, k) <==> old(self).tagged(t, k) && k != key@,
            forall|p: Seq<char>, k: Seq<char>| final(self).under_prefix(p, k) <==> old(self).under_prefix(p, k) && k != key@,
    {
        let owned = key.to_owned();
        index_forget(&mut self.tag_to_keys, &owned);
        index_forget(&mut self.prefixes, &owned);
    }

    /// The keys registered under `tag`, each once.
    pub fn get_keys_by_tag(&self, tag: &Tag) -> (r: Vec<String>)
        requires
            self.wf(),
        ensures
            forall|k: Seq<char>| (exists|a: int| 0 <= a < r@.len() && #[trigger] r@[a]@ == k) <==> self.tagged(tag@, k),
            forall|a: int, c: int| 0 <= a < c < r@.len() ==> r@[a]@ != r@[c]@,
    {
        index_lookup(&self.tag_to_keys, &tag.0)
    }

    /// The keys registered under `prefix`, each once.
    pub fn get_keys_by_prefix(&self, prefix: &str) -> (r: Vec<String>)
        requires
            self.wf(),
        ensures
            forall|k: Seq<char>| (exists|a: int| 0 <= a < r@.len() && #[trigger] r@[a]@ == k) <==> self.under_prefix(prefix@, k),
            forall|a: int, c: int| 0 <= a < c < r@.len() ==> r@[a]@ != r@[c]@,
    {
        let owned = prefix.to_owned();
        index_lookup(&self.prefixes, &owned)
    }

    /// A copy of the tag index as a map from each tag to its keys.
    pub fn get_tag_map(&self) -> HashMap<Tag, HashSet<String>> {
        let mut m: HashMap<Tag, HashSet<String>> = HashMap::new();
        let mut i: usize = 0;
        while i < self.tag_to_keys.len()
            decreases self.tag_to_keys@.len() - i,
        {
            let tag = Tag(self.tag_to_keys[i].0.clone());
            let mut keys = match m.remove(&tag) {
                Some(keys) => keys,
                None => HashSet::new(),
            };
            keys.insert(self.tag_to_keys[i].1.clone());
            m.insert(tag, keys);
            i += 1;
        }
        m
    }

    /// A copy of the prefix index as a map from each prefix to its keys.
    pub fn get_prefix_map(&self) -> HashMap<String, HashSet<String>> {
        let mut m: HashMap<String, HashSet<String>> = HashMap::new();
        let mut i: usize = 0;
        while i < self.prefixes.len()
            decreases self.prefixes@.len() - i,
        {
            let prefix = self.prefixes[i].0.clone();
            let mut keys = match m.remove(&prefix) {
                Some(keys) => keys,
                None => HashSet::new(),
            };
            keys.insert(self.prefixes[i].1.clone());
            m.insert(prefix, keys);
            i += 1;
        }
        m
    }

    /// Removes each of `keys` from the backend and the indexes, in order,
    /// stopping at the first failure.
    fn remove_all(&mut self, keys: Vec<String>) -> (r: crate::Result<()>)
        requires
            old(self).wf(),
        ensures
            final(self).wf(),
            final(self).target().well_formed(),
            forall|t: Seq<char>, k: Seq<char>| final(self).tagged(t, k) ==> old(self).tagged(t, k),
            forall|p: Seq<char>, k: Seq<char>| final(self).under_prefix(p, k) ==> old(self).under_prefix(p, k),
            r is Ok ==> forall|a: int, t: Seq<char>| 0 <= a < keys@.len() ==> !(#[trigger] final(self).tagged(t, keys@[a]@)),
            r is Ok ==> forall|a: int, p: Seq<char>| 0 <= a < keys@.len() ==> !(#[trigger] final(self).under_prefix(p, keys@[a]@)),
    {
        let mut i: usize = 0;
        while i < keys.len()
            invariant
                0 <= i <= keys@.len(),
                self.wf(),
                forall|t: Seq<char>, k: Seq<char>| self.tagged(t, k) ==> old(self).tagged(t, k),
                forall|p: Seq<char>, k: Seq<char>| self.under_prefix(p, k) ==> old(self).under_prefix(p, k),
                forall|a: int, t: Seq<char>| 0 <= a < i ==> !(#[trigger] self.tagged(t, keys@[a]@)),
                forall|a: int, p: Seq<char>| 0 <= a < i ==> !(#[trigger] self.under_prefix(p, keys@[a]@)),
            decreases keys@.len() - i,
        {
            let ghost head = *self;
            match self.backend.remove(&keys[i]) {
                Ok(()) => {},
                Err(e) => {
                    return Err(e);
                },
            }
            let ghost before = *self;
            assert(before.tag_to_keys == head.tag_to_keys && before.prefixes == head.prefixes);
            self.unregister_key(keys[i].as_str());
            proof {
                assert forall|a: int, t: Seq<char>| 0 <= a < i + 1 implies !(#[trigger] self.tagged(t, keys@[a]@)) by {
                    if a < i {
                        assert(!head.tagged(t, keys@[a]@));
                    }
                }
                assert forall|a: int, p: Seq<char>| 0 <= a < i + 1 implies !(#[trigger] self.under_prefix(p, keys@[a]@)) by {
                    if a < i {
                        assert(!head.under_prefix(p, keys@[a]@));
                    }
                }
            }
            i += 1;
        }
        Ok(())
    }
}

/// Invalidation of every entry under a tag or a prefix.
pub trait CacheInvalidation {
    /// Whether the indexes and the backend are consistent.
    spec fn ready(&self) -> bool;

    /// Removes every entry registered under `tag`.
    fn invalidate_tag(&mut self, tag: &Tag) -> (r: crate::Result<()>)
        requires
            old(self).ready(),
        ensures
            final(self).ready(),
    ;

    /// Removes every entry registered under `prefix`.
    fn invalidate_prefix(&mut self, prefix: &str) -> (r: crate::Result<()>)
        requires
            old(self).ready(),
        ensures
            final(self).ready(),
    ;

    /// Removes every entry registered under any of `tags`.
    fn invalidate_tags(&mut self, tags: Vec<Tag>) -> (r: crate::Result<()>)
        requires
            old(self).ready(),
        ensures
            final(self).ready(),
    ;

    /// Removes every entry registered under any of `prefixes`.
    fn invalidate_prefixes(&mut self, prefixes: Vec<String>) -> (r: crate::Result<()>)
        requires
            old(self).ready(),
        ensures
            final(self).ready(),
    ;
}

impl<B: CacheBackend> CacheInvalidation for InvalidationCache<B> {
    open spec fn ready(&self) -> bool {
        self.wf()
    }

    /// Removes, one by one, the keys registered under `tag`, each from the
    /// backend and then from every index; stops at the first failure.
    fn invalidate_tag(&mut self, tag: &Tag) -> (r: crate::Result<()>)
        ensures
            forall|t: Seq<char>, k: Seq<char>| final(self).tagged(t, k) ==> old(self).tagged(t, k),
            r is Ok ==> forall|k: Seq<char>, t: Seq<char>| old(self).tagged(tag@, k) ==> !final(self).tagged(t, k),
            r is Ok ==> forall|k: Seq<char>, p: Seq<char>| old(self).tagged(tag@, k) ==> !final(self).under_prefix(p, k),
    {
        let keys = self.get_keys_by_tag(tag);
        let r = self.remove_all(keys);
        proof {
            if r is Ok {
                assert forall|k: Seq<char>, t: Seq<char>| old(self).tagged(tag@, k) implies !self.tagged(t, k) by {
                    let a = choose|a: int| 0 <= a < keys@.len() && #[trigger] keys@[a]@ == k;
                }
                assert forall|k: Seq<char>, p: Seq<char>| old(self).tagged(tag@, k) implies !self.under_prefix(p, k) by {
                    let a = choose|a: int| 0 <= a < keys@.len() && #[trigger] keys@[a]@ == k;
                }
            }
        }
        r
    }

    /// Removes, one by one, the keys registered under `prefix`, each from
    /// the backend and then from every index; stops at the first failure.
    fn invalidate_prefix(&mut self, prefix: &str) -> (r: crate::Result<()>)
        ensures
            forall|p: Seq<char>, k: Seq<char>| final(self).under_prefix(p, k) ==> old(self).under_prefix(p, k),
            r is Ok ==> forall|k: Seq<char>, t: Seq<char>| old(self).under_prefix(prefix@, k) ==> !final(self).tagged(t, k),
            r is Ok ==> forall|k: Seq<char>, p: Seq<char>| old(self).under_prefix(prefix@, k) ==> !final(self).under_prefix(p, k),
    {
        let keys = self.get_keys_by_prefix(prefix);
        let r = self.remove_all(keys);
        proof {
            if r is Ok {
                assert forall|k: Seq<char>, t: Seq<char>| old(self).under_prefix(prefix@, k) implies !self.tagged(t, k) by {
                    let a = choose|a: int| 0 <= a < keys@.len() && #[trigger] keys@[a]@ == k;
                }
                assert forall|k: Seq<char>, p: Seq<char>| old(self).under_prefix(prefix@, k) implies !self.under_prefix(p, k) by {
                    let a = choose|a: int| 0 <= a < keys@.len() && #[trigger] keys@[a]@ == k;
                }
            }
        }
        r
    }

    /// Removes every key registered under any of `tags`, one by one, each
    /// from the backend and then from every index; stops at the first failure.
    fn invalidate_tags(&mut self, tags: Vec<Tag>) -> (r: crate::Result<()>)
        ensures
            r is Ok ==> forall|a: int, k: Seq<char>|
                0 <= a < tags@.len() && #[trigger] old(self).tagged(tags@[a]@, k)
                    ==> forall|t: Seq<char>| !final(self).tagged(t, k),
    {
        let mut all: Vec<String> = Vec::new();
        let mut i: usize = 0;
        while i < tags.len()
            invariant
                0 <= i <= tags@.len(),
                self.wf(),
                *self == *old(self),
                forall|a: int, k: Seq<char>| 0 <= a < i && #[trigger] self.tagged(tags@[a]@, k)
                    ==> exists|b: int| 0 <= b < all@.len() && all@[b]@ == k,
            decreases tags@.len() - i,
        {
            let mut found = self.get_keys_by_tag(&tags[i]);
            let ghost before = all@;
            let ghost fv = found@;
            all.append(&mut found);
            proof {
                assert forall|a: int, k: Seq<char>| 0 <= a < i + 1 && #[trigger] self.tagged(tags@[a]@, k)
                    implies exists|b: int| 0 <= b < all@.len() && all@[b]@ == k by {
                    if a < i {
                        let b = choose|b: int| 0 <= b < before.len() && before[b]@ == k;
                        assert(all@[b] == before[b]);
                    } else {
                        let c = choose|c: int| 0 <= c < fv.len() && #[trigger] fv[c]@ == k;
                        assert(all@[before.len() + c] == fv[c]);
                    }
                }
            }
            i += 1;
        }
        let r = self.remove_all(all);
        proof {
            if r is Ok {
                assert forall|a: int, k: Seq<char>|
                    0 <= a < tags@.len() && #[trigger] old(self).tagged(tags@[a]@, k)
                        implies forall|t: Seq<char>| !self.tagged(t, k) by {
                    let b = choose|b: int| 0 <= b < all@.len() && all@[b]@ == k;
                    assert forall|t: Seq<char>| !self.tagged(t, k) by {
                        assert(!self.tagged(t, all@[b]@));
                    }
                }
            }
        }
        r
    }

    /// Removes every key registered under any of `prefixes`, one by one,
    /// each from the backend and then from every index; stops at the first
    /// failure.
    fn invalidate_prefixes(&mut self, prefixes: Vec<String>) -> (r: crate::Result<()>)
        ensures
            r is Ok ==> forall|a: int, k: Seq<char>|
                0 <= a < prefixes@.len() && #[trigger] old(self).under_prefix(prefixes@[a]@, k)
                    ==> forall|p: Seq<char>| !final(self).under_prefix(p, k),
    {
        let mut all: Vec<String> = Vec::new();
        let mut i: usize = 0;
        while i < prefixes.len()
            invariant
                0 <= i <= prefixes@.len(),
                self.wf(),
                *self == *old(self),
                forall|a: int, k: Seq<char>| 0 <= a < i && #[trigger] self.under_prefix(prefixes@[a]@, k)
                    ==> exists|b: int| 0 <= b < all@.len() && all@[b]@ == k,
            decreases prefixes@.len() - i,
        {
            let mut found = self.get_keys_by_prefix(prefixes[i].as_str());
            let ghost before = all@;
            let ghost fv = found@;
            all.append(&mut found);
            proof {
                assert forall|a: int, k: Seq<char>| 0 <= a < i + 1 && #[trigger] self.under_prefix(prefixes@[a]@, k)
                    implies exists|b: int| 0 <= b < all@.len() && all@[b]@ == k by {
                    if a < i {
                        let b = choose|b: int| 0 <= b < before.len() && before[b]@ == k;
                        assert(all@[b] == before[b]);
                    } else {
                        let c = choose|c: int| 0 <= c < fv.len() && #[trigger] fv[c]@ == k;
                        assert(all@[before.len() + c] == fv[c]);
                    }
                }
            }
            i += 1;
        }
        let r = self.remove_all(all);
        proof {
            if r is Ok {
                assert forall|a: int, k: Seq<char>|
                    0 <= a < prefixes@.len() && #[trigger] old(self).under_prefix(prefixes@[a]@, k)
                        implies forall|p: Seq<char>| !self.under_prefix(p, k) by {
                    let b = choose|b: int| 0 <= b < all@.len() && all@[b]@ == k;
                    assert forall|p: Seq<char>| !self.under_prefix(p, k) by {
                        assert(!self.under_prefix(p, all@[b]@));
                    }
                }
            }
        }
        r
    }
}

impl<B: CacheBackend> CacheBackend for InvalidationCache<B> {
    open spec fn well_formed(&self) -> bool {
        self.wf()
    }

    /// Reads from the wrapped backend.
    fn get(&mut self, key: &Key) -> (r: crate::Result<Option<Value>>) {
        self.backend.get(key)
    }

    /// Writes to the wrapped backend, without registering any tag.
    fn set(&mut self, key: Key, value: Value, ttl: Option<Duration>) -> (r: crate::Result<()>) {
        self.backend.set(key, value, ttl)
    }

    /// Removes from the wrapped backend; the indexes keep the key.
    fn remove(&mut self, key: &Key) -> (r: crate::Result<()>) {
        self.backend.remove(key)
    }

    /// Asks the wrapped backend.
    fn contains_key(&mut self, key: &Key) -> (r: crate::Result<bool>) {
        self.backend.contains_key(key)
    }

    /// Clears the wrapped backend; the indexes keep their keys.
    fn clear(&mut self) -> (r: crate::Result<()>) {
        self.backend.clear()
    }
}

} // verus!
