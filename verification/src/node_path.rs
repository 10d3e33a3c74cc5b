//! Paths into an argument tree.
//!
//! A path is a number. Its binary digits below the leading one, read from
//! the least significant upwards, say at each level of the tree whether to
//! go to the first child (0) or to the rest (1). The number 1 is the whole
//! tree.

use vstd::prelude::*;
use crate::number::{
    radix_power,
    unsigned_value,
    signed_value,
    is_shortest_signed,
    number_le,
    number_is_odd,
    number_shr,
    number_shl,
    number_add,
    number_shortest,
    number_from_unsigned,
    number_magnitude,
    lemma_signed_value_step,
    lemma_value_of_byte,
    lemma_unsigned_value_positive,
    lemma_negative_as_unsigned,
};

verus! {

/// The number of bytes of the shortest two's complement form of `n`.
pub open spec fn signed_width(n: int) -> nat
    decreases (if n < 0 {
        -n
    } else {
        n
    }),
{
    if -128 <= n < 128 {
        1
    } else {
        1 + signed_width(n / 256)
    }
}

/// The index of a path made from the number `n`: a negative number stands
/// for the number that the bytes of its shortest two's complement form
/// spell in base 256.
pub open spec fn index_of_number(n: int) -> nat {
    if n < 0 {
        (n + radix_power(signed_width(n))) as nat
    } else {
        n as nat
    }
}

/// The path that takes the steps of `start` and, from where they end, the
/// steps of `then`: the digits of `start` below its leading one, with `then`
/// above them.
pub open spec fn compose_paths_spec(start: nat, then: nat) -> nat
    decreases start,
{
    if start <= 1 {
        then
    } else {
        2 * compose_paths_spec(start / 2, then) + start % 2
    }
}

/// The shortest bytes that spell `n` in base 256; none for zero.
pub open spec fn path_bytes(n: nat) -> Seq<u8>
    decreases n,
{
    if n == 0 {
        Seq::empty()
    } else {
        path_bytes(n / 256).push((n % 256) as u8)
    }
}

/// The shortest two's complement form of a number has `signed_width` bytes.
pub proof fn lemma_shortest_signed_width(bytes: Seq<u8>)
    requires
        is_shortest_signed(bytes),
    ensures
        bytes.len() == signed_width(signed_value(bytes)),
        bytes.len() >= 2 ==> !(-128 <= signed_value(bytes) < 128),
    decreases bytes.len(),
{
    if bytes.len() == 1 {
        assert(bytes =~= seq![bytes[0]]);
        lemma_value_of_byte(bytes[0]);
    } else {
        let front = bytes.drop_last();
        lemma_signed_value_step(bytes);
        assert(front[0] == bytes[0]);
        if front.len() >= 2 {
            assert(front[1] == bytes[1]);
        }
        lemma_shortest_signed_width(front);
        if front.len() == 1 {
            assert(front =~= seq![bytes[0]]);
            lemma_value_of_byte(bytes[0]);
            assert(bytes.last() == bytes[1]);
        }
        let v = signed_value(bytes);
        let f = signed_value(front);
        let last = bytes.last() as int;
        assert(v == f * 256 + last);
        assert(!(-128 <= v < 128));
        assert(v / 256 == f);
    }
}

/// The shortest bytes that spell a number in base 256 are its `path_bytes`.
pub proof fn lemma_path_bytes_of_shortest(bytes: Seq<u8>)
    requires
        bytes.len() >= 1 ==> bytes[0] != 0,
    ensures
        path_bytes(unsigned_value(bytes)) == bytes,
    decreases bytes.len(),
{
    if bytes.len() == 0 {
        assert(bytes =~= Seq::<u8>::empty());
    } else {
        let front = bytes.drop_last();
        lemma_unsigned_value_positive(bytes);
        if front.len() >= 1 {
            assert(front[0] == bytes[0]);
        }
        lemma_path_bytes_of_shortest(front);
        let n = unsigned_value(bytes);
        let f = unsigned_value(front);
        let last = bytes.last() as nat;
        assert(n == f * 256 + last);
        assert(n / 256 == f);
        assert(n % 256 == last);
        assert(front.push(bytes.last()) =~= bytes);
    }
}

/// A path into an argument tree.
pub struct NodePath {
    index: Vec<u8>,
}

/// The composition of two paths, on numbers that are zero or more.
fn compose_paths(start: &[u8], then: &[u8]) -> (r: Vec<u8>)
    requires
        signed_value(start@) >= 0,
        signed_value(then@) >= 0,
    ensures
        signed_value(r@) == compose_paths_spec(
            signed_value(start@) as nat,
            signed_value(then@) as nat,
        ),
    decreases signed_value(start@),
{
    let one: Vec<u8> = vec![1u8];
    proof {
        lemma_value_of_byte(1u8);
        assert(one@ =~= seq![1u8]);
        vstd::arithmetic::power2::lemma2_to64();
    }
    if number_le(start, one.as_slice()) {
        number_shortest(then)
    } else {
        let half = number_shr(start, 1);
        let below = compose_paths(half.as_slice(), then);
        let doubled = number_shl(below.as_slice(), 1);
        if number_is_odd(start) {
            number_add(doubled.as_slice(), one.as_slice())
        } else {
            doubled
        }
    }
}

impl NodePath {
    #[verifier::type_invariant]
    spec fn index_is_natural(self) -> bool {
        signed_value(self.index@) >= 0
    }

    /// The path as a number.
    pub closed spec fn view(&self) -> nat {
        signed_value(self.index@) as nat
    }

    /// The path of the number that `index` spells in two's complement, or
    /// the path 1, the whole tree, without one.
    pub fn new(index: Option<Vec<u8>>) -> (p: NodePath)
        ensures
            p@ == (match index {
                Some(bytes) => index_of_number(signed_value(bytes@)),
                None => 1nat,
            }),
    {
        match index {
            None => {
                let one: Vec<u8> = vec![1u8];
                proof {
                    lemma_value_of_byte(1u8);
                    assert(one@ =~= seq![1u8]);
                }
                NodePath { index: one }
            },
            Some(bytes) => {
                let zero: Vec<u8> = Vec::new();
                assert(signed_value(zero@) == 0);
                if number_le(zero.as_slice(), bytes.as_slice()) {
                    NodePath { index: bytes }
                } else {
                    let shortest = number_shortest(bytes.as_slice());
                    proof {
                        lemma_shortest_signed_width(shortest@);
                        lemma_negative_as_unsigned(shortest@);
                    }
                    NodePath { index: number_from_unsigned(shortest.as_slice()) }
                }
            },
        }
    }

    /// The bytes of the atom that stands for the path: the shortest that
    /// spell its number in base 256.
    pub fn as_path(&self) -> (bytes: Vec<u8>)
        ensures
            bytes@ == path_bytes(self@),
    {
        proof {
            use_type_invariant(self);
        }
        let magnitude = number_magnitude(self.index.as_slice());
        if magnitude.len() == 1 && magnitude[0] == 0 {
            proof {
                assert(magnitude@ =~= seq![0u8]);
                lemma_value_of_byte(0u8);
            }
            Vec::new()
        } else {
            proof {
                lemma_path_bytes_of_shortest(magnitude@);
            }
            magnitude
        }
    }

    /// The path that takes the steps of this path and, from where they
    /// end, the steps of `other`.
    pub fn add(&self, other: NodePath) -> (p: NodePath)
        ensures
            p@ == compose_paths_spec(self@, other@),
    {
        proof {
            use_type_invariant(self);
            use_type_invariant(&other);
        }
        NodePath { index: compose_paths(self.index.as_slice(), other.index.as_slice()) }
    }

    /// This path with its index doubled. From the whole tree, that is the
    /// step to the first child.
    pub fn first(&self) -> (p: NodePath)
        ensures
            p@ == self@ * 2,
    {
        proof {
            use_type_invariant(self);
            vstd::arithmetic::power2::lemma2_to64();
        }
        NodePath { index: number_shl(self.index.as_slice(), 1) }
    }

    /// This path with its index doubled and one added. From the whole
    /// tree, that is the step to the rest.
    pub fn rest(&self) -> (p: NodePath)
        ensures
            p@ == self@ * 2 + 1,
    {
        proof {
            use_type_invariant(self);
            vstd::arithmetic::power2::lemma2_to64();
            lemma_value_of_byte(1u8);
        }
        let one: Vec<u8> = vec![1u8];
        assert(one@ =~= seq![1u8]);
        let doubled = number_shl(self.index.as_slice(), 1);
        NodePath { index: number_add(doubled.as_slice(), one.as_slice()) }
    }
}

/// The path `inner`, then, within what it leads to, the path `outer`.
pub fn compose(outer: NodePath, inner: &NodePath) -> (p: NodePath)
    ensures
        p@ == compose_paths_spec(inner@, outer@),
{
    inner.add(outer)
}

/// Composing is associative.
pub proof fn lemma_compose_associative(a: nat, b: nat, c: nat)
    requires
        b >= 1,
    ensures
        compose_paths_spec(compose_paths_spec(a, b), c) == compose_paths_spec(
            a,
            compose_paths_spec(b, c),
        ),
    decreases a,
{
    if a <= 1 {
    } else {
        lemma_compose_associative(a / 2, b, c);
        lemma_compose_positive(a / 2, b);
        let inner = compose_paths_spec(a / 2, b);
        let whole = 2 * inner + a % 2;
        assert(whole / 2 == inner);
        assert(whole % 2 == a % 2);
    }
}

/// A path composed with a path that is not zero is not zero.
pub proof fn lemma_compose_positive(a: nat, b: nat)
    requires
        b >= 1,
    ensures
        compose_paths_spec(a, b) >= 1,
    decreases a,
{
    if a > 1 {
        lemma_compose_positive(a / 2, b);
    }
}

/// The whole tree is the unit of composing.
pub proof fn lemma_compose_whole(a: nat)
    requires
        a >= 1,
    ensures
        compose_paths_spec(1, a) == a,
        compose_paths_spec(a, 1) == a,
    decreases a,
{
    if a > 1 {
        lemma_compose_whole(a / 2);
    }
}

} // verus!
