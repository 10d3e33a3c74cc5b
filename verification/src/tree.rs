//! The mathematical model of a program: a finite binary tree whose leaves
//! are byte strings.

use vstd::prelude::*;

verus! {

/// What a node of an arena stands for.
pub enum Tree {
    Atom(Seq<u8>),
    Pair(Box<Tree>, Box<Tree>),
}

impl Tree {
    /// The empty atom, which is both the empty list and "false".
    pub open spec fn nil() -> Tree {
        Tree::Atom(Seq::empty())
    }

    /// The atom made of the single byte `b`.
    pub open spec fn byte(b: u8) -> Tree {
        Tree::Atom(seq![b])
    }

    pub open spec fn pair(left: Tree, right: Tree) -> Tree {
        Tree::Pair(Box::new(left), Box::new(right))
    }

    /// The number of nodes of the tree.
    pub open spec fn size(self) -> nat
        decreases self,
    {
        match self {
            Tree::Atom(_) => 1,
            Tree::Pair(left, right) => 1 + left.size() + right.size(),
        }
    }

    pub open spec fn is_nil(self) -> bool {
        self == Tree::nil()
    }

    pub open spec fn left(self) -> Tree
        recommends
            self is Pair,
    {
        *self->Pair_0
    }

    pub open spec fn right(self) -> Tree
        recommends
            self is Pair,
    {
        *self->Pair_1
    }

    /// The elements of a nil-terminated list, or `None` where the chain of
    /// right children ends in another atom.
    pub open spec fn items(self) -> Option<Seq<Tree>>
        decreases self,
    {
        match self {
            Tree::Atom(bytes) => if bytes.len() == 0 {
                Some(Seq::empty())
            } else {
                None
            },
            Tree::Pair(first, rest) => match rest.items() {
                Some(tail) => Some(seq![*first] + tail),
                None => None,
            },
        }
    }

    pub open spec fn is_proper_list(self) -> bool {
        self.items() is Some
    }

    /// The nil-terminated list of the given elements.
    pub open spec fn list(items: Seq<Tree>) -> Tree
        decreases items.len(),
    {
        if items.len() == 0 {
            Tree::nil()
        } else {
            Tree::pair(items[0], Tree::list(items.subrange(1, items.len() as int)))
        }
    }
}

/// A list built from the elements of a list is that list again.
pub proof fn lemma_list_of_items(t: Tree)
    requires
        t.is_proper_list(),
    ensures
        Tree::list(t.items().unwrap()) == t,
    decreases t,
{
    match t {
        Tree::Atom(bytes) => {
            assert(bytes =~= Seq::empty());
        },
        Tree::Pair(first, rest) => {
            lemma_list_of_items(*rest);
            let tail = rest.items().unwrap();
            let all = seq![*first] + tail;
            assert(all.subrange(1, all.len() as int) =~= tail);
        },
    }
}

/// Each element of a list is smaller than the list.
pub proof fn lemma_item_smaller(t: Tree, i: int)
    requires
        t.is_proper_list(),
        0 <= i < t.items().unwrap().len(),
    ensures
        t.items().unwrap()[i].size() < t.size(),
    decreases t,
{
    match t {
        Tree::Atom(_) => {},
        Tree::Pair(first, rest) => {
            if i > 0 {
                lemma_item_smaller(*rest, i - 1);
            }
        },
    }
}

/// The elements of a list built from `items` are `items`.
pub proof fn lemma_items_of_list(items: Seq<Tree>)
    ensures
        Tree::list(items).items() == Some(items),
    decreases items.len(),
{
    if items.len() == 0 {
        assert(items =~= Seq::empty());
    } else {
        let tail = items.subrange(1, items.len() as int);
        lemma_items_of_list(tail);
        assert(seq![items[0]] + tail =~= items);
    }
}

} // verus!
