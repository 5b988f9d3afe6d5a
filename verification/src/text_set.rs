use vstd::prelude::*;
use std::collections::HashMap;
use vstd::string::StringExecFns;

use crate::text::{chars_of, str_eq};

verus! {

/// The bucket modulus of `text_hash`, a prime below 2^32.
pub const TEXT_HASH_MODULUS: u64 = 4294967291;

/// A polynomial hash of a text's characters.
pub open spec fn text_hash(s: Seq<char>) -> u64
    decreases s.len(),
{
    if s.len() == 0 {
        0
    } else {
        ((text_hash(s.drop_last()) as int * 31 + s.last() as u32 as int) % (
            TEXT_HASH_MODULUS as int)) as u64
    }
}

fn hash_text(text: &str) -> (h: u64)
    ensures
        h == text_hash(text@),
{
    let chars = chars_of(text);
    let mut h: u64 = 0;
    let mut i: usize = 0;
    while i < chars.len()
        invariant
            i <= chars@.len(),
            h < TEXT_HASH_MODULUS,
            h == text_hash(chars@.take(i as int)),
        decreases chars.len() - i,
    {
        let ch = chars[i];
        let c = (ch as u32) as u64;
        assert(h * 31 + c < 0x1_0000_0000_0000) by (nonlinear_arith)
            requires
                h < TEXT_HASH_MODULUS,
                c <= 0xffff_ffff,
        ;
        assert(chars@.take(i + 1).drop_last() == chars@.take(i as int));
        assert(chars@.take(i + 1).last() == ch);
        h = (h * 31 + c) % TEXT_HASH_MODULUS;
        i += 1;
    }
    assert(chars@.take(i as int) == chars@);
    h
}

/// Whether the bucket of `text`'s hash holds `text`.
spec fn buckets_hold(buckets: Map<u64, Vec<String>>, text: Seq<char>) -> bool {
    let h = text_hash(text);
    &&& buckets.contains_key(h)
    &&& exists|i: int| 0 <= i < buckets[h]@.len() && #[trigger] buckets[h]@[i]@ == text
}

proof fn lemma_bucket_replaced(
    before: Map<u64, Vec<String>>,
    after: Map<u64, Vec<String>>,
    h: u64,
    old_bucket: Seq<String>,
    new_bucket: Vec<String>,
    text: Seq<char>,
    found: bool,
)
    requires
        text_hash(text) == h,
        after == before.remove(h).insert(h, new_bucket),
        old_bucket == (if before.contains_key(h) {
            before[h]@
        } else {
            Seq::<String>::empty()
        }),
        found <==> exists|j: int| 0 <= j < old_bucket.len() && #[trigger] old_bucket[j]@ == text,
        found ==> new_bucket@ == old_bucket,
        !found ==> new_bucket@.len() == old_bucket.len() + 1 && new_bucket@.drop_last() == old_bucket
            && new_bucket@.last()@ == text,
    ensures
        found == buckets_hold(before, text),
        forall|t: Seq<char>| #[trigger]
            buckets_hold(after, t) <==> (buckets_hold(before, t) || t == text),
{
    assert forall|t: Seq<char>| #[trigger] buckets_hold(after, t) <==> (buckets_hold(before, t)
        || t == text) by {
        let th = text_hash(t);
        if th == h {
            assert(after.contains_key(h) && after[h] == new_bucket);
            if buckets_hold(before, t) {
                let j = choose|j: int| 0 <= j < before[h]@.len() && #[trigger] before[h]@[j]@ == t;
                assert(old_bucket[j]@ == t);
                if !found {
                    assert(new_bucket@.drop_last()[j] == new_bucket@[j]);
                }
                assert(new_bucket@[j]@ == t);
            }
            if t == text {
                if found {
                    let j = choose|j: int| 0 <= j < old_bucket.len() && #[trigger] old_bucket[j]@ == text;
                    assert(new_bucket@[j]@ == t);
                } else {
                    assert(new_bucket@[old_bucket.len() as int]@ == t);
                }
            }
            if buckets_hold(after, t) && t != text {
                let j = choose|j: int| 0 <= j < new_bucket@.len() && #[trigger] new_bucket@[j]@ == t;
                if !found {
                    assert(j < old_bucket.len());
                    assert(new_bucket@.drop_last()[j] == new_bucket@[j]);
                }
                assert(old_bucket[j]@ == t);
                assert(before.contains_key(h));
                assert(before[h]@[j]@ == t);
            }
        } else {
            assert(after.contains_key(th) == before.contains_key(th));
            if before.contains_key(th) {
                assert(after[th] == before[th]);
            }
        }
    }
    if found {
        let j = choose|j: int| 0 <= j < old_bucket.len() && #[trigger] old_bucket[j]@ == text;
        assert(before.contains_key(h));
        assert(before[h]@[j]@ == text);
    } else if buckets_hold(before, text) {
        let j = choose|j: int| 0 <= j < before[h]@.len() && #[trigger] before[h]@[j]@ == text;
        assert(old_bucket[j]@ == text);
    }
}

/// A set of texts, hashed into buckets.
pub struct TextSet {
    buckets: HashMap<u64, Vec<String>>,
}

impl TextSet {
    #[verifier::type_invariant]
    spec fn buckets_hashed(self) -> bool {
        forall|h: u64, i: int|
            #![trigger self.buckets@[h]@[i]]
            self.buckets@.contains_key(h) && 0 <= i < self.buckets@[h]@.len() ==> text_hash(
                self.buckets@[h]@[i]@,
            ) == h
    }

    /// Whether the set holds `text`.
    pub closed spec fn contains(self, text: Seq<char>) -> bool {
        buckets_hold(self.buckets@, text)
    }

    pub fn new() -> (set: Self)
        ensures
            forall|t: Seq<char>| !set.contains(t),
    {
        broadcast use vstd::std_specs::hash::group_hash_axioms;

        TextSet { buckets: HashMap::new() }
    }

    /// Whether the set holds `text`.
    pub fn has(&self, text: &str) -> (found: bool)
        ensures
            found == self.contains(text@),
    {
        broadcast use vstd::std_specs::hash::group_hash_axioms;

        proof {
            use_type_invariant(self);
        }
        let h = hash_text(text);
        match self.buckets.get(&h) {
            None => false,
            Some(bucket) => {
                let mut i: usize = 0;
                while i < bucket.len()
                    invariant
                        i <= bucket@.len(),
                        h == text_hash(text@),
                        self.buckets@.contains_key(h),
                        bucket@ == self.buckets@[h]@,
                        forall|j: int| 0 <= j < i ==> #[trigger] bucket@[j]@ != text@,
                    decreases bucket.len() - i,
                {
                    if str_eq(bucket[i].as_str(), text) {
                        assert(self.buckets@[h]@[i as int]@ == text@);
                        assert(buckets_hold(self.buckets@, text@));
                        return true;
                    }
                    i += 1;
                }
                false
            },
        }
    }

    /// Adds `text`; says whether it was new.
    pub fn insert(&mut self, text: &str) -> (fresh: bool)
        ensures
            fresh == !old(self).contains(text@),
            forall|t: Seq<char>| #[trigger]
                final(self).contains(t) <==> (old(self).contains(t) || t == text@),
    {
        broadcast use vstd::std_specs::hash::group_hash_axioms;

        proof {
            use_type_invariant(&*self);
        }
        let h = hash_text(text);
        let ghost before = self.buckets@;
        let mut buckets: HashMap<u64, Vec<String>> = HashMap::new();
        std::mem::swap(&mut buckets, &mut self.buckets);
        let mut bucket: Vec<String> = match buckets.remove(&h) {
            Some(b) => b,
            None => Vec::new(),
        };
        let ghost old_bucket = bucket@;
        assert(old_bucket == (if before.contains_key(h) {
            before[h]@
        } else {
            Seq::<String>::empty()
        }));
        let mut found = false;
        let mut i: usize = 0;
        while i < bucket.len()
            invariant
                i <= bucket@.len(),
                bucket@ == old_bucket,
                found <==> exists|j: int| 0 <= j < i && #[trigger] bucket@[j]@ == text@,
            decreases bucket.len() - i,
        {
            if str_eq(bucket[i].as_str(), text) {
                found = true;
            }
            i += 1;
        }
        if !found {
            let added = String::from_str(text);
            bucket.push(added);
            assert(bucket@.drop_last() == old_bucket);
        }
        assert forall|j: int| 0 <= j < bucket@.len() implies text_hash(#[trigger] bucket@[j]@) == h by {
            if j < old_bucket.len() {
                assert(before.contains_key(h));
                assert(before[h]@[j] == old_bucket[j]);
            }
        }
        let ghost removed = buckets@;
        let ghost nb = bucket;
        buckets.insert(h, bucket);
        assert forall|k: u64, j: int|
            #![trigger buckets@[k]@[j]]
            buckets@.contains_key(k) && 0 <= j < buckets@[k]@.len() implies text_hash(
                buckets@[k]@[j]@,
            ) == k by {
            if k != h {
                assert(before.contains_key(k));
                assert(buckets@[k] == before[k]);
            }
        }
        self.buckets = buckets;
        proof {
            assert(removed == before.remove(h));
            lemma_bucket_replaced(before, self.buckets@, h, old_bucket, nb, text@, found);
        }
        !found
    }
}

} // verus!
