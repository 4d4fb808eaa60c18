//! The set of OpenType features of a shaping request.
//!
//! Features are kept in ascending order of the bytes of their tags, so that
//! two sets with the same features are the same sequence whatever the order
//! in which the features were inserted.

use vstd::prelude::*;
use vstd::utf8::encode_utf8;

verus! {

/// Whether `a` comes before `b` in the order of their bytes: at the first
/// index where they differ `a` has the smaller byte, or `a` is a proper
/// prefix of `b`.
pub open spec fn spec_bytes_less(a: Seq<u8>, b: Seq<u8>) -> bool
    decreases a.len(),
{
    if b.len() == 0 {
        false
    } else if a.len() == 0 {
        true
    } else if a[0] != b[0] {
        a[0] < b[0]
    } else {
        spec_bytes_less(a.drop_first(), b.drop_first())
    }
}

/// No sequence comes before itself.
pub proof fn lemma_less_irreflexive(a: Seq<u8>)
    ensures
        !spec_bytes_less(a, a),
    decreases a.len(),
{
    if a.len() > 0 {
        lemma_less_irreflexive(a.drop_first());
    }
}

/// Of two different sequences one comes before the other.
pub proof fn lemma_less_total(a: Seq<u8>, b: Seq<u8>)
    ensures
        spec_bytes_less(a, b) || spec_bytes_less(b, a) || a == b,
        !(spec_bytes_less(a, b) && spec_bytes_less(b, a)),
    decreases a.len(),
{
    if a.len() > 0 && b.len() > 0 && a[0] == b[0] {
        lemma_less_total(a.drop_first(), b.drop_first());
        if a.drop_first() == b.drop_first() {
            assert(a =~= seq![a[0]] + a.drop_first());
            assert(b =~= seq![b[0]] + b.drop_first());
        }
    } else if a.len() == 0 && b.len() == 0 {
        assert(a =~= b);
    }
}

/// The order is transitive.
pub proof fn lemma_less_transitive(a: Seq<u8>, b: Seq<u8>, c: Seq<u8>)
    requires
        spec_bytes_less(a, b),
        spec_bytes_less(b, c),
    ensures
        spec_bytes_less(a, c),
    decreases a.len(),
{
    if a.len() > 0 && b.len() > 0 && c.len() > 0 && a[0] == b[0] && b[0] == c[0] {
        lemma_less_transitive(a.drop_first(), b.drop_first(), c.drop_first());
    }
}

/// Whether `a` comes before `b` in the order of their bytes.
pub fn bytes_less(a: &[u8], b: &[u8]) -> (less: bool)
    ensures
        less == spec_bytes_less(a@, b@),
{
    let mut i: usize = 0;
    proof {
        assert(a@.skip(0) =~= a@);
        assert(b@.skip(0) =~= b@);
    }
    while i < a.len() && i < b.len()
        invariant
            i <= a@.len(),
            i <= b@.len(),
            spec_bytes_less(a@, b@) == spec_bytes_less(a@.skip(i as int), b@.skip(i as int)),
        decreases a@.len() - i,
    {
        proof {
            assert(a@.skip(i as int)[0] == a@[i as int]);
            assert(b@.skip(i as int)[0] == b@[i as int]);
            assert(a@.skip(i as int).drop_first() =~= a@.skip(i as int + 1));
            assert(b@.skip(i as int).drop_first() =~= b@.skip(i as int + 1));
        }
        if a[i] != b[i] {
            return a[i] < b[i];
        }
        i = i + 1;
    }
    proof {
        assert(a@.skip(i as int).len() == a@.len() - i);
        assert(b@.skip(i as int).len() == b@.len() - i);
    }
    i < b.len()
}

/// Whether two byte slices hold the same bytes.
pub fn bytes_equal(a: &[u8], b: &[u8]) -> (equal: bool)
    ensures
        equal == (a@ == b@),
{
    if a.len() != b.len() {
        return false;
    }
    let mut i: usize = 0;
    while i < a.len()
        invariant
            a@.len() == b@.len(),
            i <= a@.len(),
            forall|k: int| 0 <= k < i ==> a@[k] == b@[k],
        decreases a@.len() - i,
    {
        if a[i] != b[i] {
            return false;
        }
        i = i + 1;
    }
    assert(a@ =~= b@);
    true
}

/// One feature: a tag and the value that the feature is set to.
#[derive(Debug, Clone, PartialEq, Eq)]
pub struct FeatureSetting {
    /// The tag of the feature; OpenType tags are four bytes long.
    pub tag: String,
    /// The value of the feature; 0 switches it off, 1 switches it on.
    pub value: u32,
}

/// The features of a shaping request, at most one value per tag.
#[derive(Debug, Clone, PartialEq, Eq)]
pub struct FeatureSet {
    entries: Vec<FeatureSetting>,
}

impl View for FeatureSet {
    type V = Seq<(Seq<u8>, u32)>;

    /// The features as pairs of tag bytes and value, in ascending order of
    /// the tag bytes.
    closed spec fn view(&self) -> Seq<(Seq<u8>, u32)> {
        Seq::new(
            self.entries@.len(),
            |i: int| (encode_utf8(self.entries@[i].tag@), self.entries@[i].value),
        )
    }
}

/// Whether the tags of `features` ascend strictly.
pub open spec fn spec_ascending(features: Seq<(Seq<u8>, u32)>) -> bool {
    forall|i: int, j: int|
        0 <= i < j < features.len() ==> spec_bytes_less(
            (#[trigger] features[i]).0,
            (#[trigger] features[j]).0,
        )
}

/// Number of features whose tag comes before `tag`.
pub open spec fn spec_rank(features: Seq<(Seq<u8>, u32)>, tag: Seq<u8>) -> int
    decreases features.len(),
{
    if features.len() == 0 {
        0
    } else if spec_bytes_less(features[0].0, tag) {
        1 + spec_rank(features.drop_first(), tag)
    } else {
        0
    }
}

/// The value of the feature `tag`, if the set has it.
pub open spec fn spec_feature(features: Seq<(Seq<u8>, u32)>, tag: Seq<u8>) -> Option<u32> {
    let r = spec_rank(features, tag);
    if r < features.len() && features[r].0 == tag {
        Some(features[r].1)
    } else {
        None
    }
}

/// The set after `tag` was set to `value`: the value of a tag that is
/// present is replaced, a new tag is inserted at its place in the order.
pub open spec fn spec_with_feature(features: Seq<(Seq<u8>, u32)>, tag: Seq<u8>, value: u32) -> Seq<
    (Seq<u8>, u32),
> {
    let r = spec_rank(features, tag);
    if r < features.len() && features[r].0 == tag {
        features.update(r, (tag, value))
    } else {
        features.insert(r, (tag, value))
    }
}

/// In an ascending set the rank of a tag is the index from which on no tag
/// comes before it.
pub proof fn lemma_rank(features: Seq<(Seq<u8>, u32)>, tag: Seq<u8>)
    requires
        spec_ascending(features),
    ensures
        0 <= spec_rank(features, tag) <= features.len(),
        forall|k: int|
            0 <= k < spec_rank(features, tag) ==> spec_bytes_less((#[trigger] features[k]).0, tag),
        forall|k: int|
            spec_rank(features, tag) <= k < features.len() ==> !spec_bytes_less(
                (#[trigger] features[k]).0,
                tag,
            ),
    decreases features.len(),
{
    if features.len() > 0 {
        let rest = features.drop_first();
        assert forall|i: int, j: int| 0 <= i < j < rest.len() implies spec_bytes_less(
            (#[trigger] rest[i]).0,
            (#[trigger] rest[j]).0,
        ) by {
            assert(rest[i] == features[i + 1]);
            assert(rest[j] == features[j + 1]);
        }
        if spec_bytes_less(features[0].0, tag) {
            lemma_rank(rest, tag);
            assert forall|k: int| 0 <= k < spec_rank(features, tag) implies spec_bytes_less(
                (#[trigger] features[k]).0,
                tag,
            ) by {
                if k > 0 {
                    assert(features[k] == rest[k - 1]);
                }
            }
            assert forall|k: int|
                spec_rank(features, tag) <= k < features.len() implies !spec_bytes_less(
                (#[trigger] features[k]).0,
                tag,
            ) by {
                assert(features[k] == rest[k - 1]);
            }
        } else {
            assert forall|k: int| 0 <= k < features.len() implies !spec_bytes_less(
                (#[trigger] features[k]).0,
                tag,
            ) by {
                if k > 0 {
                    assert(spec_bytes_less(features[0].0, features[k].0));
                    if spec_bytes_less(features[k].0, tag) {
                        lemma_less_transitive(features[0].0, features[k].0, tag);
                    }
                }
            }
        }
    }
}

/// An index before which every tag comes before `tag`, and from which on
/// none does, is the rank of `tag`.
pub proof fn lemma_rank_is(features: Seq<(Seq<u8>, u32)>, tag: Seq<u8>, r: int)
    requires
        spec_ascending(features),
        0 <= r <= features.len(),
        forall|k: int| 0 <= k < r ==> spec_bytes_less((#[trigger] features[k]).0, tag),
        r < features.len() ==> !spec_bytes_less(features[r].0, tag),
    ensures
        spec_rank(features, tag) == r,
{
    lemma_rank(features, tag);
    let p = spec_rank(features, tag);
    if p < r {
        assert(spec_bytes_less(features[p].0, tag));
    }
    if r < p {
        assert(spec_bytes_less(features[r].0, tag));
    }
}

/// Setting a feature keeps the set ascending, gives the tag its value and
/// leaves every other tag as it was.
pub proof fn lemma_with_feature(features: Seq<(Seq<u8>, u32)>, tag: Seq<u8>, value: u32)
    requires
        spec_ascending(features),
    ensures
        spec_ascending(spec_with_feature(features, tag, value)),
        spec_feature(spec_with_feature(features, tag, value), tag) == Some(value),
        forall|other: Seq<u8>|
            other != tag ==> spec_feature(spec_with_feature(features, tag, value), other)
                == spec_feature(features, other),
{
    lemma_rank(features, tag);
    let r = spec_rank(features, tag);
    let after = spec_with_feature(features, tag, value);
    let present = r < features.len() && features[r].0 == tag;
    // Where each pair of `after` comes from.
    assert forall|i: int, j: int| 0 <= i < j < after.len() implies spec_bytes_less(
        (#[trigger] after[i]).0,
        (#[trigger] after[j]).0,
    ) by {
        lemma_after_tags(features, tag, value, i);
        lemma_after_tags(features, tag, value, j);
        if present {
            assert(spec_bytes_less(features[i].0, features[j].0));
        } else {
            let i0 = if i < r {
                i
            } else {
                i - 1
            };
            let j0 = if j < r {
                j
            } else {
                j - 1
            };
            if i == r {
                // after[i] is the new pair, after[j] an old pair at or after r
                assert(!spec_bytes_less(features[j0].0, tag));
                lemma_less_total(features[j0].0, tag);
                if features[j0].0 == tag {
                    if j0 > r {
                        assert(spec_bytes_less(features[r].0, features[j0].0));
                        assert(!spec_bytes_less(features[r].0, tag));
                    }
                }
            } else if j == r {
                assert(spec_bytes_less(features[i0].0, tag));
            } else {
                assert(spec_bytes_less(features[i0].0, features[j0].0));
            }
        }
    }
    lemma_after_tags(features, tag, value, r);
    assert forall|k: int| 0 <= k < r implies spec_bytes_less((#[trigger] after[k]).0, tag) by {
        lemma_after_tags(features, tag, value, k);
    }
    lemma_less_irreflexive(tag);
    lemma_rank_is(after, tag, r);
    assert forall|other: Seq<u8>| other != tag implies spec_feature(after, other) == spec_feature(
        features,
        other,
    ) by {
        lemma_rank(features, other);
        let q = spec_rank(features, other);
        // The rank of `other` in `after`.
        let q2 = if present || q <= r && !(q == r && spec_bytes_less(tag, other)) {
            q
        } else {
            q + 1
        };
        lemma_less_total(tag, other);
        assert forall|k: int| 0 <= k < q2 implies spec_bytes_less(
            (#[trigger] after[k]).0,
            other,
        ) by {
            lemma_after_tags(features, tag, value, k);
            if present {
                assert(spec_bytes_less(features[k].0, other));
            } else if k < r {
                assert(spec_bytes_less(features[k].0, other));
            } else if k == r {
                if q > r {
                    assert(spec_bytes_less(features[r].0, other));
                    assert(!spec_bytes_less(features[r].0, tag));
                    lemma_less_total(features[r].0, tag);
                    if spec_bytes_less(tag, features[r].0) {
                        lemma_less_transitive(tag, features[r].0, other);
                    }
                }
            } else {
                assert(spec_bytes_less(features[k - 1].0, other));
            }
        }
        if q2 < after.len() {
            lemma_after_tags(features, tag, value, q2);
            if present {
                assert(!spec_bytes_less(features[q2].0, other));
            } else if q2 < r {
                assert(!spec_bytes_less(features[q2].0, other));
            } else if q2 == r {
                if q < r {
                } else if spec_bytes_less(tag, other) {
                } else {
                }
                if q == r && q < features.len() {
                    assert(!spec_bytes_less(features[q].0, other));
                }
                if q < r {
                    assert(!spec_bytes_less(features[q].0, other));
                    assert(spec_bytes_less(features[q].0, tag));
                    if spec_bytes_less(tag, other) {
                        lemma_less_transitive(features[q].0, tag, other);
                    }
                }
            } else {
                assert(!spec_bytes_less(features[q2 - 1].0, other));
            }
        }
        lemma_rank_is(after, other, q2);
    }
}

/// The pairs of a set after a feature was set, in terms of the pairs before.
proof fn lemma_after_tags(features: Seq<(Seq<u8>, u32)>, tag: Seq<u8>, value: u32, k: int)
    requires
        spec_ascending(features),
        0 <= k < spec_with_feature(features, tag, value).len(),
    ensures
        ({
            let r = spec_rank(features, tag);
            let after = spec_with_feature(features, tag, value);
            let present = r < features.len() && features[r].0 == tag;
            &&& 0 <= r <= features.len()
            &&& present ==> after.len() == features.len() && after[k].0 == features[k].0 && (k != r
                ==> after[k] == features[k]) && after[r] == (tag, value)
            &&& !present ==> after.len() == features.len() + 1 && after[r] == (tag, value) && (k < r
                ==> after[k] == features[k]) && (k > r ==> after[k] == features[k - 1])
        }),
{
    lemma_rank(features, tag);
}

/// In an ascending set every feature stands at the rank of its tag, and
/// its tag has its value.
pub proof fn lemma_feature_at(features: Seq<(Seq<u8>, u32)>, i: int)
    requires
        spec_ascending(features),
        0 <= i < features.len(),
    ensures
        spec_rank(features, features[i].0) == i,
        spec_feature(features, features[i].0) == Some(features[i].1),
{
    lemma_less_irreflexive(features[i].0);
    assert forall|k: int| 0 <= k < i implies spec_bytes_less(
        (#[trigger] features[k]).0,
        features[i].0,
    ) by {
        assert(spec_bytes_less(features[k].0, features[i].0));
    }
    lemma_rank_is(features, features[i].0, i);
}

/// Two ascending sets that give every tag the same value agree in each
/// position that the first of them has.
proof fn lemma_same_features_at(a: Seq<(Seq<u8>, u32)>, b: Seq<(Seq<u8>, u32)>, i: int)
    requires
        spec_ascending(a),
        spec_ascending(b),
        forall|tag: Seq<u8>| spec_feature(a, tag) == spec_feature(b, tag),
        0 <= i < a.len(),
    ensures
        i < b.len(),
        a[i] == b[i],
    decreases i,
{
    let t = a[i].0;
    lemma_feature_at(a, i);
    lemma_rank(b, t);
    let j = spec_rank(b, t);
    assert(spec_feature(b, t) == Some(a[i].1));
    assert(j < b.len() && b[j] == a[i]);
    lemma_less_irreflexive(t);
    if j < i {
        lemma_same_features_at(a, b, j);
        assert(spec_bytes_less(a[j].0, a[i].0));
    } else if j > i {
        let u = b[i].0;
        assert(spec_bytes_less(b[i].0, b[j].0));
        lemma_feature_at(b, i);
        lemma_rank(a, u);
        let k = spec_rank(a, u);
        assert(spec_feature(a, u) == Some(b[i].1));
        assert(k < a.len() && a[k] == b[i]);
        if k < i {
            lemma_same_features_at(a, b, k);
            lemma_less_irreflexive(u);
            assert(spec_bytes_less(b[k].0, b[i].0));
        } else if k > i {
            assert(spec_bytes_less(a[i].0, a[k].0));
            lemma_less_transitive(t, u, t);
        }
    }
}

/// An ascending set is determined by the values that it gives the tags:
/// two ascending sets that give every tag the same value are the same
/// sequence.
pub proof fn lemma_same_features_same_set(a: Seq<(Seq<u8>, u32)>, b: Seq<(Seq<u8>, u32)>)
    requires
        spec_ascending(a),
        spec_ascending(b),
        forall|tag: Seq<u8>| spec_feature(a, tag) == spec_feature(b, tag),
    ensures
        a == b,
{
    if a.len() > 0 {
        lemma_same_features_at(a, b, a.len() - 1);
    }
    if b.len() > 0 {
        lemma_same_features_at(b, a, b.len() - 1);
    }
    assert forall|i: int| 0 <= i < a.len() implies a[i] == b[i] by {
        lemma_same_features_at(a, b, i);
    }
    assert(a =~= b);
}

/// The order in which two different features are set does not show in the
/// set.
pub proof fn lemma_insertion_order(
    features: Seq<(Seq<u8>, u32)>,
    first: Seq<u8>,
    first_value: u32,
    second: Seq<u8>,
    second_value: u32,
)
    requires
        spec_ascending(features),
        first != second,
    ensures
        spec_with_feature(spec_with_feature(features, first, first_value), second, second_value)
            == spec_with_feature(
            spec_with_feature(features, second, second_value),
            first,
            first_value,
        ),
{
    let one = spec_with_feature(features, first, first_value);
    let two = spec_with_feature(features, second, second_value);
    let a = spec_with_feature(one, second, second_value);
    let b = spec_with_feature(two, first, first_value);
    lemma_with_feature(features, first, first_value);
    lemma_with_feature(features, second, second_value);
    lemma_with_feature(one, second, second_value);
    lemma_with_feature(two, first, first_value);
    assert forall|tag: Seq<u8>| spec_feature(a, tag) == spec_feature(b, tag) by {
        if tag == first {
            assert(spec_feature(a, tag) == spec_feature(one, tag));
        } else if tag == second {
            assert(spec_feature(b, tag) == spec_feature(two, tag));
        } else {
            assert(spec_feature(a, tag) == spec_feature(one, tag));
            assert(spec_feature(one, tag) == spec_feature(features, tag));
            assert(spec_feature(b, tag) == spec_feature(two, tag));
            assert(spec_feature(two, tag) == spec_feature(features, tag));
        }
    }
    lemma_same_features_same_set(a, b);
}

impl FeatureSet {
    /// The tags ascend strictly, so no tag occurs twice.
    pub open spec fn wf(&self) -> bool {
        spec_ascending(self@)
    }

    /// An empty set.
    pub fn new() -> (set: FeatureSet)
        ensures
            set.wf(),
            set@.len() == 0,
    {
        FeatureSet { entries: Vec::new() }
    }

    /// Number of features.
    pub fn len(&self) -> (n: usize)
        ensures
            n == self@.len(),
    {
        self.entries.len()
    }

    /// Whether the set has no feature.
    pub fn is_empty(&self) -> (b: bool)
        ensures
            b == (self@.len() == 0),
    {
        self.entries.len() == 0
    }

    /// Number of features whose tag comes before `tag`.
    fn rank(&self, tag: &[u8]) -> (r: usize)
        requires
            self.wf(),
        ensures
            r == spec_rank(self@, tag@),
            r <= self@.len(),
    {
        let mut r: usize = 0;
        while r < self.entries.len()
            invariant
                self.wf(),
                r <= self.entries@.len(),
                forall|k: int| 0 <= k < r ==> spec_bytes_less((#[trigger] self@[k]).0, tag@),
            decreases self.entries@.len() - r,
        {
            if !bytes_less(self.entries[r].tag.as_str().as_bytes(), tag) {
                proof {
                    assert(self@[r as int].0 == encode_utf8(self.entries@[r as int].tag@));
                    lemma_rank_is(self@, tag@, r as int);
                }
                return r;
            }
            proof {
                assert(self@[r as int].0 == encode_utf8(self.entries@[r as int].tag@));
            }
            r = r + 1;
        }
        proof {
            lemma_rank_is(self@, tag@, r as int);
        }
        r
    }

    /// Sets the feature `tag` to `value` and returns the value that the
    /// feature had before, if it was present.
    pub fn insert(&mut self, tag: String, value: u32) -> (previous: Option<u32>)
        requires
            old(self).wf(),
        ensures
            final(self).wf(),
            final(self)@ == spec_with_feature(old(self)@, encode_utf8(tag@), value),
            previous == spec_feature(old(self)@, encode_utf8(tag@)),
    {
        let ghost before = self@;
        let ghost tag_bytes = encode_utf8(tag@);
        proof {
            lemma_with_feature(before, tag_bytes, value);
        }
        let r: usize = self.rank(tag.as_str().as_bytes());
        if r < self.entries.len() && bytes_equal(
            self.entries[r].tag.as_str().as_bytes(),
            tag.as_str().as_bytes(),
        ) {
            let previous: u32 = self.entries[r].value;
            assert(before[r as int].0 == encode_utf8(self.entries@[r as int].tag@));
            self.entries.set(r, FeatureSetting { tag, value });
            assert(self@ =~= spec_with_feature(before, tag_bytes, value));
            Some(previous)
        } else {
            proof {
                if r < self.entries@.len() {
                    assert(before[r as int].0 == encode_utf8(self.entries@[r as int].tag@));
                }
            }
            self.entries.insert(r, FeatureSetting { tag, value });
            assert(self@ =~= spec_with_feature(before, tag_bytes, value));
            None
        }
    }

    /// The value of the feature `tag`, if the set has it.
    pub fn get(&self, tag: &str) -> (r: Option<&u32>)
        requires
            self.wf(),
        ensures
            r is Some <==> spec_feature(self@, encode_utf8(tag@)) is Some,
            r matches Some(v) ==> Some(*v) == spec_feature(self@, encode_utf8(tag@)),
    {
        let r: usize = self.rank(tag.as_bytes());
        if r < self.entries.len() && bytes_equal(
            self.entries[r].tag.as_str().as_bytes(),
            tag.as_bytes(),
        ) {
            assert(self@[r as int].0 == encode_utf8(self.entries@[r as int].tag@));
            Some(&self.entries[r].value)
        } else {
            proof {
                if r < self.entries@.len() {
                    assert(self@[r as int].0 == encode_utf8(self.entries@[r as int].tag@));
                }
            }
            None
        }
    }

    /// Whether the set has the feature `tag`.
    pub fn contains_key(&self, tag: &str) -> (b: bool)
        requires
            self.wf(),
        ensures
            b == spec_feature(self@, encode_utf8(tag@)) is Some,
    {
        self.get(tag).is_some()
    }

    /// The feature at position `index` in ascending order of the tags.
    pub fn entry(&self, index: usize) -> (r: Option<&FeatureSetting>)
        ensures
            r is Some <==> index < self@.len(),
            r matches Some(f) ==> (encode_utf8(f.tag@), f.value) == self@[index as int],
    {
        if index < self.entries.len() {
            Some(&self.entries[index])
        } else {
            None
        }
    }
}

} // verus!
