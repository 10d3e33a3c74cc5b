//! Reading a program from its bytes.
//!
//! The byte `0xff` starts a pair, which is followed by its two children.
//! The byte `0x80` is the empty atom and a byte below it the atom of that
//! byte. Any other first byte starts an atom with its length: the bits of
//! the byte below its leading ones are the most significant part of the
//! length, and as many bytes follow for the rest of it as the byte has
//! leading ones after the first.

use vstd::prelude::*;
use clvmr::allocator::Allocator;
use clvmr::allocator::NodePtr;
use crate::tree::Tree;
use crate::arena::{valid, tree_of, extends, atom_node, pair_node, nil_node, OptimizeError};

verus! {

/// Why a program could not be read.
pub enum ReadError {
    /// The bytes end before the program does, or start an atom with a byte
    /// that starts none.
    BadEncoding,
    /// The arena could not hold the program; what was read until then is
    /// not looked at any further.
    Arena(clvmr::error::EvalErr),
}

/// The number of bytes that spell the length of an atom, for the first
/// byte of an atom that has its length spelled; zero for any other byte.
pub open spec fn header_len(first: u8) -> nat {
    if 0x80 < first <= 0xbf {
        1
    } else if 0xc0 <= first <= 0xdf {
        2
    } else if 0xe0 <= first <= 0xef {
        3
    } else if 0xf0 <= first <= 0xf7 {
        4
    } else if 0xf8 <= first <= 0xfb {
        5
    } else {
        0
    }
}

/// The bits of the first byte that belong to the length.
pub open spec fn header_bits(first: u8) -> nat {
    if 0x80 < first <= 0xbf {
        (first - 0x80) as nat
    } else if 0xc0 <= first <= 0xdf {
        (first - 0xc0) as nat
    } else if 0xe0 <= first <= 0xef {
        (first - 0xe0) as nat
    } else if 0xf0 <= first <= 0xf7 {
        (first - 0xf0) as nat
    } else {
        (first - 0xf8) as nat
    }
}

/// The number that `count` bytes from `at` on spell in base 256, after the
/// number `high`.
pub open spec fn length_from(bytes: Seq<u8>, at: int, count: nat, high: nat) -> nat
    decreases count,
{
    if count == 0 {
        high
    } else {
        length_from(bytes, at + 1, (count - 1) as nat, high * 256 + bytes[at] as nat)
    }
}

/// The tree that the bytes from `pos` on spell, and where its bytes end;
/// `None` where they spell none.
pub open spec fn parse(bytes: Seq<u8>, pos: nat) -> Option<(Tree, nat)>
    decreases bytes.len() - pos,
{
    if pos >= bytes.len() {
        None
    } else {
        let first = bytes[pos as int];
        if first == 0xff {
            match parse(bytes, pos + 1) {
                Some((left, middle)) => if middle <= pos || middle > bytes.len() {
                    None
                } else {
                    match parse(bytes, middle) {
                        Some((right, end)) => Some((Tree::pair(left, right), end)),
                        None => None,
                    }
                },
                None => None,
            }
        } else if first == 0x80 {
            Some((Tree::nil(), pos + 1))
        } else if first < 0x80 {
            Some((Tree::byte(first), pos + 1))
        } else if header_len(first) == 0 || pos + header_len(first) > bytes.len() {
            None
        } else {
            let start = pos + header_len(first);
            let size = length_from(
                bytes,
                pos as int + 1,
                (header_len(first) - 1) as nat,
                header_bits(first),
            );
            if start + size > bytes.len() {
                None
            } else {
                Some((Tree::Atom(bytes.subrange(start as int, (start + size) as int)), start + size))
            }
        }
    }
}

/// The length of an atom whose first byte is `bytes[pos]`, and the number
/// of bytes that spell it.
fn atom_length(bytes: &[u8], pos: usize) -> (res: Option<(usize, u64)>)
    requires
        pos < bytes@.len(),
        0x80 < bytes@[pos as int] < 0xff,
    ensures
        match res {
            Some((header, size)) => {
                &&& header == header_len(bytes@[pos as int])
                &&& header >= 1
                &&& pos + header <= bytes@.len()
                &&& size == length_from(
                    bytes@,
                    pos + 1,
                    (header - 1) as nat,
                    header_bits(bytes@[pos as int]),
                )
            },
            None => header_len(bytes@[pos as int]) == 0 || pos + header_len(bytes@[pos as int])
                > bytes@.len(),
        },
{
    let first = bytes[pos];
    let (header, bits): (usize, u8) = if first <= 0xbf {
        (1, first - 0x80)
    } else if first <= 0xdf {
        (2, first - 0xc0)
    } else if first <= 0xef {
        (3, first - 0xe0)
    } else if first <= 0xf7 {
        (4, first - 0xf0)
    } else if first <= 0xfb {
        (5, first - 0xf8)
    } else {
        return None;
    };
    if header > bytes.len() - pos {
        return None;
    }
    let mut size: u64 = bits as u64;
    let mut i: usize = 1;
    while i < header
        invariant
            1 <= i <= header <= 5,
            pos + header <= bytes@.len(),
            bytes@.len() <= usize::MAX,
            i == 1 ==> size < 0x40,
            i == 2 ==> size < 0x4000,
            i == 3 ==> size < 0x40_0000,
            i == 4 ==> size < 0x4000_0000,
            i == 5 ==> size < 0x40_0000_0000,
            length_from(bytes@, pos + 1, (header - 1) as nat, bits as nat) == length_from(
                bytes@,
                pos + i,
                (header - i) as nat,
                size as nat,
            ),
        decreases header - i,
    {
        size = size * 256 + bytes[pos + i] as u64;
        i += 1;
    }
    Some((header, size))
}

/// Reads the node that the bytes from `pos` on spell, into the arena.
fn node_from_bytes_at(a: &mut Allocator, bytes: &[u8], pos: usize) -> (res: Result<
    (NodePtr, usize),
    ReadError,
>)
    ensures
        extends(*old(a), *final(a)),
        match res {
            Ok((n, end)) => valid(*final(a), n) && pos < end <= bytes@.len() && parse(
                bytes@,
                pos as nat,
            ) == Some((tree_of(*final(a), n), end as nat)),
            Err(e) => e is BadEncoding ==> parse(bytes@, pos as nat) is None,
        },
    decreases bytes@.len() - pos,
{
    if pos >= bytes.len() {
        return Err(ReadError::BadEncoding);
    }
    let first = bytes[pos];
    if first == 0xff {
        let (left, middle) = node_from_bytes_at(a, bytes, pos + 1)?;
        let ghost between = *a;
        let (right, end) = node_from_bytes_at(a, bytes, middle)?;
        match pair_node(a, left, right) {
            Ok(n) => Ok((n, end)),
            Err(OptimizeError::Arena(e)) => Err(ReadError::Arena(e)),
            Err(_) => Err(ReadError::BadEncoding),
        }
    } else if first == 0x80 {
        Ok((nil_node(a), pos + 1))
    } else if first < 0x80 {
        let one: Vec<u8> = vec![first];
        assert(one@ =~= seq![first]);
        match atom_node(a, one.as_slice()) {
            Ok(n) => Ok((n, pos + 1)),
            Err(OptimizeError::Arena(e)) => Err(ReadError::Arena(e)),
            Err(_) => Err(ReadError::BadEncoding),
        }
    } else {
        match atom_length(bytes, pos) {
            None => Err(ReadError::BadEncoding),
            Some((header, size)) => {
                let start = pos + header;
                if size > (bytes.len() - start) as u64 {
                    return Err(ReadError::BadEncoding);
                }
                let end = start + size as usize;
                let blob = vstd::slice::slice_subrange(bytes, start, end);
                match atom_node(a, blob) {
                    Ok(n) => Ok((n, end)),
                    Err(OptimizeError::Arena(e)) => Err(ReadError::Arena(e)),
                    Err(_) => Err(ReadError::BadEncoding),
                }
            },
        }
    }
}

/// The tree that the bytes spell from their start; what follows it in the
/// bytes is left unread.
pub open spec fn parsed(bytes: Seq<u8>) -> Option<Tree> {
    match parse(bytes, 0) {
        Some((t, _)) => Some(t),
        None => None,
    }
}

/// Reads a program from its bytes into the arena.
pub fn node_from_bytes(a: &mut Allocator, bytes: &[u8]) -> (res: Result<NodePtr, ReadError>)
    ensures
        extends(*old(a), *final(a)),
        match res {
            Ok(n) => valid(*final(a), n) && parsed(bytes@) == Some(tree_of(*final(a), n)),
            Err(e) => e is BadEncoding ==> parsed(bytes@) is None,
        },
{
    match node_from_bytes_at(a, bytes, 0) {
        Ok((n, _)) => Ok(n),
        Err(e) => Err(e),
    }
}

} // verus!
