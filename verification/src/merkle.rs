//! Merkle aggregation: an ordered sequence of digests reduced to one root.

use crate::crypto::sha256;
use crate::crypto::zeros;
use vstd::prelude::*;

verus! {

/// The parent of two digests: the digest of the left bytes followed by the
/// right bytes.
pub open spec fn combine(left: Seq<u8>, right: Seq<u8>) -> Seq<u8> {
    sha256(left + right)
}

/// One level up: adjacent digests are paired left to right, and the last one
/// of an odd count is paired with itself.
pub open spec fn merkle_level(hashes: Seq<Seq<u8>>) -> Seq<Seq<u8>> {
    Seq::new(
        (hashes.len() + 1) / 2,
        |i: int|
            combine(
                hashes[2 * i],
                if 2 * i + 1 < hashes.len() {
                    hashes[2 * i + 1]
                } else {
                    hashes[2 * i]
                },
            ),
    )
}

/// The root of a sequence of digests: the zero digest for no digest at all,
/// otherwise the one digest that is left when levels are taken until a level
/// holds a single digest. A single digest is thus combined with itself once.
pub open spec fn merkle_root(hashes: Seq<Seq<u8>>) -> Seq<u8>
    decreases hashes.len(),
{
    if hashes.len() == 0 {
        zeros(32)
    } else {
        let parents = merkle_level(hashes);
        if parents.len() > 1 {
            merkle_root(parents)
        } else {
            parents[0]
        }
    }
}

/// The byte strings of a sequence of digests.
pub open spec fn digests(hashes: Seq<crate::crypto::Hash>) -> Seq<Seq<u8>> {
    Seq::new(hashes.len(), |i: int| hashes[i]@)
}

/// Two distinct byte strings with the same SHA-256 digest.
pub open spec fn sha256_collision(x: Seq<u8>, y: Seq<u8>) -> bool {
    x != y && sha256(x) == sha256(y)
}

/// The digest of `left` followed by `right`.
pub fn combine_hashes(left: &crate::crypto::Hash, right: &crate::crypto::Hash) -> (parent:
    crate::crypto::Hash)
    ensures
        parent@ == combine(left@, right@),
{
    let mut data: Vec<u8> = Vec::new();
    data.extend_from_slice(left.as_bytes());
    data.extend_from_slice(right.as_bytes());
    assert(data@ =~= left@ + right@);
    crate::crypto::Hash::from(data.as_slice())
}

/// The Merkle root of `hashes`, taken in the order given.
pub fn root_hash(hashes: Vec<crate::crypto::Hash>) -> (root: crate::crypto::Hash)
    ensures
        root@ == merkle_root(digests(hashes@)),
    decreases hashes.len(),
{
    let count = hashes.len();
    if count == 0 {
        return crate::crypto::Hash::default();
    }
    let pairs = count / 2 + count % 2;
    let ghost level = merkle_level(digests(hashes@));
    let mut parents: Vec<crate::crypto::Hash> = Vec::new();
    let mut k: usize = 0;
    while k < pairs
        invariant
            count == hashes.len(),
            pairs == (count + 1) / 2,
            k <= pairs,
            level == merkle_level(digests(hashes@)),
            parents.len() == k,
            forall|j: int| 0 <= j < k ==> parents[j]@ == level[j],
        decreases pairs - k,
    {
        let left = &hashes[2 * k];
        let parent = if 2 * k + 1 < count {
            combine_hashes(left, &hashes[2 * k + 1])
        } else {
            combine_hashes(left, left)
        };
        parents.push(parent);
        k += 1;
    }
    assert(digests(parents@) =~= level);
    if parents.len() > 1 {
        root_hash(parents)
    } else {
        parents[0]
    }
}

/// The root of no digest is the zero digest.
pub proof fn lemma_root_of_none()
    ensures
        merkle_root(Seq::<Seq<u8>>::empty()) == zeros(32),
{
}

/// The root of a single digest is that digest combined with itself.
pub proof fn lemma_root_of_one(x: Seq<u8>)
    ensures
        merkle_root(seq![x]) == combine(x, x),
{
    assert(merkle_level(seq![x]).len() == 1);
}

/// The root of two digests is their parent.
pub proof fn lemma_root_of_two(a: Seq<u8>, b: Seq<u8>)
    ensures
        merkle_root(seq![a, b]) == combine(a, b),
{
    assert(merkle_level(seq![a, b]).len() == 1);
}

/// The root depends on the order of the digests: two distinct digests of one
/// length give one root in one order and another in the other, unless SHA-256
/// maps the two concatenations, which differ, to the same digest.
pub proof fn lemma_root_is_order_sensitive(a: Seq<u8>, b: Seq<u8>)
    requires
        a.len() == b.len(),
        a != b,
    ensures
        a + b != b + a,
        !sha256_collision(a + b, b + a) ==> merkle_root(seq![a, b]) != merkle_root(seq![b, a]),
{
    lemma_root_of_two(a, b);
    lemma_root_of_two(b, a);
    if a + b == b + a {
        assert forall|i: int| 0 <= i < a.len() implies a[i] == b[i] by {
            assert((a + b)[i] == (b + a)[i]);
        }
        assert(a =~= b);
    }
}

/// Two different pairs of digests with the same parent.
pub open spec fn pair_collision(
    left: Seq<u8>,
    right: Seq<u8>,
    other_left: Seq<u8>,
    other_right: Seq<u8>,
) -> bool {
    (left != other_left || right != other_right) && combine(left, right) == combine(
        other_left,
        other_right,
    )
}

/// Whether any two different pairs of digests have the same parent.
pub open spec fn some_pair_collides() -> bool {
    exists|left: Seq<u8>, right: Seq<u8>, other_left: Seq<u8>, other_right: Seq<u8>|
        pair_collision(left, right, other_left, other_right)
}

/// Two different pairs with the same parent, whose left digests have one
/// length, are a collision of SHA-256.
pub proof fn lemma_pair_collision_is_sha256_collision(
    left: Seq<u8>,
    right: Seq<u8>,
    other_left: Seq<u8>,
    other_right: Seq<u8>,
)
    requires
        pair_collision(left, right, other_left, other_right),
        left.len() == other_left.len(),
    ensures
        sha256_collision(left + right, other_left + other_right),
{
    if left + right == other_left + other_right {
        assert(left =~= (left + right).subrange(0, left.len() as int));
        assert(other_left =~= (other_left + other_right).subrange(0, left.len() as int));
        assert(right =~= (left + right).subrange(left.len() as int, (left + right).len() as int));
        assert(other_right =~= (other_left + other_right).subrange(
            left.len() as int,
            (left + right).len() as int,
        ));
    }
}

/// The root binds the digests under it: two different sequences of one
/// length have different roots, unless somewhere in the two trees two
/// different pairs of digests have the same parent.
pub proof fn lemma_root_binds_digests(first: Seq<Seq<u8>>, second: Seq<Seq<u8>>)
    requires
        first.len() == second.len(),
        first != second,
    ensures
        merkle_root(first) != merkle_root(second) || some_pair_collides(),
    decreases first.len(),
{
    let above_first = merkle_level(first);
    let above_second = merkle_level(second);
    if first.len() == 0 {
        assert(first =~= second);
    } else if above_first == above_second {
        assert(!(first =~= second));
        let i = choose|i: int| 0 <= i < first.len() && first[i] != second[i];
        let k = i / 2;
        assert(above_first[k] == above_second[k]);
        let right = if 2 * k + 1 < first.len() {
            first[2 * k + 1]
        } else {
            first[2 * k]
        };
        let other_right = if 2 * k + 1 < first.len() {
            second[2 * k + 1]
        } else {
            second[2 * k]
        };
        assert(pair_collision(first[2 * k], right, second[2 * k], other_right));
    } else if above_first.len() > 1 {
        lemma_root_binds_digests(above_first, above_second);
    } else {
        assert(!(above_first =~= above_second));
    }
}

} // verus!
