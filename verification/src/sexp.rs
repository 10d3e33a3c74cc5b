//! Expressions with the places they came from.

use vstd::prelude::*;
use vstd::string::StringExecFns;
use std::rc::Rc;
use num_bigint::BigInt;
use sha2::Digest;
use sha2::Sha256;
use crate::srcloc::Srcloc;
use crate::number::signed_value;
use crate::text::{decimal, text_of, push_bytes, push_char};
use crate::tree::Tree;

verus! {

/// An expression: nil, a pair, a number held as its two's complement
/// bytes, a quoted text with its quote character, or an atom.
#[derive(Clone, Debug)]
pub enum SExp {
    Nil(Srcloc),
    Cons(Srcloc, Rc<SExp>, Rc<SExp>),
    Integer(Srcloc, Vec<u8>),
    QuotedString(Srcloc, u8, Vec<u8>),
    Atom(Srcloc, Vec<u8>),
}

/// A number in decimal, with a minus sign where it is below zero.
pub open spec fn signed_decimal(n: int) -> Seq<char> {
    if n < 0 {
        seq!['-'] + decimal((-n) as nat)
    } else {
        decimal(n as nat)
    }
}

/// `BigInt::to_string`, on a number read by `BigInt::from_signed_bytes_be`:
/// the number in decimal.
#[verifier::external_body]
pub(crate) fn number_to_decimal(x: &[u8]) -> (s: String)
    ensures
        s@ == signed_decimal(signed_value(x@)),
{
    BigInt::from_signed_bytes_be(x).to_string()
}

/// The SHA-256 digest of a byte string.
pub uninterp spec fn sha256_digest(data: Seq<u8>) -> Seq<u8>;

/// `Sha256::digest`: the digest of the bytes, which has 32 bytes.
#[verifier::external_body]
pub(crate) fn sha256(data: &[u8]) -> (digest: Vec<u8>)
    ensures
        digest@ == sha256_digest(data@),
        digest@.len() == 32,
{
    Sha256::digest(data).to_vec()
}

/// The hash of a tree: that of an atom is the digest of the byte 1 and the
/// atom's bytes, that of a pair the digest of the byte 2 and the hashes of
/// its two children.
pub open spec fn tree_hash(t: Tree) -> Seq<u8>
    decreases t,
{
    match t {
        Tree::Atom(bytes) => sha256_digest(seq![1u8] + bytes),
        Tree::Pair(left, right) => sha256_digest(seq![2u8] + tree_hash(*left) + tree_hash(*right)),
    }
}

/// The hash of an atom with the given bytes.
pub fn sha256tree_from_atom(bytes: &[u8]) -> (hash: Vec<u8>)
    ensures
        hash@ == tree_hash(Tree::Atom(bytes@)),
        hash@.len() == 32,
{
    let mut data: Vec<u8> = Vec::new();
    data.push(1u8);
    let mut i: usize = 0;
    while i < bytes.len()
        invariant
            i <= bytes.len(),
            data@ == seq![1u8] + bytes@.take(i as int),
        decreases bytes.len() - i,
    {
        proof {
            assert((seq![1u8] + bytes@.take(i as int)).push(bytes@[i as int]) =~= seq![1u8]
                + bytes@.take(i as int + 1));
        }
        data.push(bytes[i]);
        i += 1;
    }
    assert(bytes@.take(i as int) =~= bytes@);
    sha256(data.as_slice())
}

/// The hash of a pair whose children have the given hashes.
pub fn sha256tree_from_pair(left: &Vec<u8>, right: &Vec<u8>) -> (hash: Vec<u8>)
    ensures
        hash@ == sha256_digest(seq![2u8] + left@ + right@),
        hash@.len() == 32,
{
    let mut data: Vec<u8> = Vec::new();
    data.push(2u8);
    let mut i: usize = 0;
    while i < left.len()
        invariant
            i <= left.len(),
            data@ == seq![2u8] + left@.take(i as int),
        decreases left.len() - i,
    {
        proof {
            assert((seq![2u8] + left@.take(i as int)).push(left@[i as int]) =~= seq![2u8]
                + left@.take(i as int + 1));
        }
        data.push(left[i]);
        i += 1;
    }
    assert(left@.take(i as int) =~= left@);
    let mut j: usize = 0;
    while j < right.len()
        invariant
            j <= right.len(),
            data@ == seq![2u8] + left@ + right@.take(j as int),
        decreases right.len() - j,
    {
        proof {
            assert((seq![2u8] + left@ + right@.take(j as int)).push(right@[j as int]) =~= seq![2u8]
                + left@ + right@.take(j as int + 1));
        }
        data.push(right[j]);
        j += 1;
    }
    assert(right@.take(j as int) =~= right@);
    sha256(data.as_slice())
}

impl SExp {
    /// The tree that the expression stands for: its places left out.
    pub open spec fn tree(self) -> Tree
        decreases self,
    {
        match self {
            SExp::Nil(_) => Tree::nil(),
            SExp::Cons(_, a, b) => Tree::pair(a.tree(), b.tree()),
            SExp::Integer(_, bytes) => Tree::Atom(bytes@),
            SExp::QuotedString(_, _, bytes) => Tree::Atom(bytes@),
            SExp::Atom(_, bytes) => Tree::Atom(bytes@),
        }
    }

    /// The place of the expression.
    pub open spec fn loc_spec(self) -> Srcloc {
        match self {
            SExp::Nil(l) => l,
            SExp::Cons(l, _, _) => l,
            SExp::Integer(l, _) => l,
            SExp::QuotedString(l, _, _) => l,
            SExp::Atom(l, _) => l,
        }
    }

    /// The number that the expression stands for; a pair stands for none.
    pub open spec fn number(self) -> Option<int> {
        match self {
            SExp::Nil(_) => Some(0int),
            SExp::Cons(_, _, _) => None,
            SExp::Integer(_, bytes) => Some(signed_value(bytes@)),
            SExp::QuotedString(_, _, bytes) => Some(signed_value(bytes@)),
            SExp::Atom(_, bytes) => Some(signed_value(bytes@)),
        }
    }

    /// The expression as text: `()` for nil, a number in decimal, a quoted
    /// text between its quotes, an atom as its characters, and a pair as
    /// the list that it starts, in parentheses.
    pub open spec fn render(self) -> Seq<char>
        decreases self, 0nat,
    {
        match self {
            SExp::Nil(_) => "()"@,
            SExp::Cons(_, a, b) => "("@ + a.render() + b.render_tail() + ")"@,
            SExp::Integer(_, bytes) => signed_decimal(signed_value(bytes@)),
            SExp::QuotedString(_, q, bytes) => seq![q as char] + text_of(bytes@) + seq![q as char],
            SExp::Atom(_, bytes) => text_of(bytes@),
        }
    }

    /// The rest of a list as text: nothing for nil, a space and the next
    /// element for a pair, and ` . ` before anything else.
    pub open spec fn render_tail(self) -> Seq<char>
        decreases self, 1nat,
    {
        match self {
            SExp::Nil(_) => Seq::empty(),
            SExp::Cons(_, a, b) => " "@ + a.render() + b.render_tail(),
            _ => " . "@ + self.render(),
        }
    }

    /// The place of the expression.
    pub fn loc(&self) -> (l: Srcloc)
        ensures
            l == self.loc_spec(),
    {
        match self {
            SExp::Nil(l) => l.copy(),
            SExp::Cons(l, _, _) => l.copy(),
            SExp::Integer(l, _) => l.copy(),
            SExp::QuotedString(l, _, _) => l.copy(),
            SExp::Atom(l, _) => l.copy(),
        }
    }

    /// The two's complement bytes of the number that the expression stands
    /// for.
    pub fn get_number(&self) -> (res: Option<Vec<u8>>)
        ensures
            res is Some <==> self.number() is Some,
            res matches Some(bytes) ==> Some(signed_value(bytes@)) == self.number(),
    {
        match self {
            SExp::Nil(_) => Some(Vec::new()),
            SExp::Cons(_, _, _) => None,
            SExp::Integer(_, bytes) => Some(bytes.clone()),
            SExp::QuotedString(_, _, bytes) => Some(bytes.clone()),
            SExp::Atom(_, bytes) => Some(bytes.clone()),
        }
    }

    /// Appends the rest of a list as text.
    fn push_tail(&self, s: &mut String)
        ensures
            final(s)@ == old(s)@ + self.render_tail(),
        decreases *self, 1nat,
    {
        match self {
            SExp::Nil(_) => {
                assert(s@ + Seq::<char>::empty() =~= s@);
            },
            SExp::Cons(_, a, b) => {
                s.append(" ");
                a.push_text(s);
                b.push_tail(s);
                assert(s@ =~= old(s)@ + self.render_tail());
            },
            _ => {
                s.append(" . ");
                self.push_text(s);
                assert(s@ =~= old(s)@ + self.render_tail());
            },
        }
    }

    /// Appends the expression as text.
    fn push_text(&self, s: &mut String)
        ensures
            final(s)@ == old(s)@ + self.render(),
        decreases *self, 0nat,
    {
        match self {
            SExp::Nil(_) => {
                s.append("()");
            },
            SExp::Cons(_, a, b) => {
                s.append("(");
                a.push_text(s);
                b.push_tail(s);
                s.append(")");
                assert(s@ =~= old(s)@ + self.render());
            },
            SExp::Integer(_, bytes) => {
                s.append(number_to_decimal(bytes.as_slice()).as_str());
            },
            SExp::QuotedString(_, q, bytes) => {
                push_char(s, *q as char);
                push_bytes(s, bytes.as_slice());
                push_char(s, *q as char);
                assert(s@ =~= old(s)@ + self.render());
            },
            SExp::Atom(_, bytes) => {
                push_bytes(s, bytes.as_slice());
            },
        }
    }

    /// The expression as text.
    pub fn to_string(&self) -> (s: String)
        ensures
            s@ == self.render(),
    {
        let mut s = String::new();
        assert(s@ + self.render() =~= self.render());
        self.push_text(&mut s);
        s
    }
}

/// The hash of the tree that an expression stands for.
pub fn sha256tree(s: &SExp) -> (hash: Vec<u8>)
    ensures
        hash@ == tree_hash(s.tree()),
        hash@.len() == 32,
    decreases *s,
{
    match s {
        SExp::Cons(_, a, b) => {
            let t1 = sha256tree(a);
            let t2 = sha256tree(b);
            sha256tree_from_pair(&t1, &t2)
        },
        SExp::Nil(_) => {
            let empty: Vec<u8> = Vec::new();
            assert(empty@ =~= Seq::<u8>::empty());
            sha256tree_from_atom(empty.as_slice())
        },
        SExp::Integer(_, bytes) => sha256tree_from_atom(bytes.as_slice()),
        SExp::QuotedString(_, _, bytes) => sha256tree_from_atom(bytes.as_slice()),
        SExp::Atom(_, bytes) => sha256tree_from_atom(bytes.as_slice()),
    }
}

} // verus!
