//! Arena allocation for syntax trees, and the immutable list that tree nodes
//! use for their children.

use vstd::prelude::*;

verus! {

/// `bumpalo::Bump`, the bump allocator, declared as an opaque type: nothing
/// inside an arena is visible to the proofs.
#[verifier::external_type_specification]
#[verifier::external_body]
pub struct ExBump<const MIN_ALIGN: usize>(bumpalo::Bump<MIN_ALIGN>);

/// The arena that owns every node of one parse.
pub type Arena = bumpalo::Bump;

/// Moves `value` into the arena with `bumpalo::Bump::alloc` and hands back a
/// shared reference to it. Trusted: the referenced value is the one given.
#[verifier::external_body]
pub(crate) fn alloc_in<'a, T>(arena: &'a Arena, value: T) -> (r: &'a T)
    ensures
        *r == value,
{
    arena.alloc(value)
}

/// Copies `items` into the arena with `bumpalo::Bump::alloc_slice_copy`.
/// Trusted: the slice handed back holds the same elements in the same order.
#[verifier::external_body]
pub(crate) fn alloc_slice_in<'a, T: Copy>(arena: &'a Arena, items: &[T]) -> (r: &'a [T])
    ensures
        r@ == items@,
{
    arena.alloc_slice_copy(items)
}

/// An immutable singly linked list whose cells live in an arena.
#[derive(Clone, Copy, Debug, PartialEq)]
pub enum List<'a, T> {
    Nil,
    Cons(&'a T, &'a List<'a, T>),
}

impl<'a, T> List<'a, T> {
    /// The elements, first to last.
    pub open spec fn view(self) -> Seq<T>
        decreases self,
    {
        match self {
            List::Nil => Seq::empty(),
            List::Cons(head, tail) => seq![*head].add(tail.view()),
        }
    }

    pub fn is_empty(&self) -> (b: bool)
        ensures
            b == (self@.len() == 0),
            b == (*self is Nil),
    {
        match self {
            List::Nil => true,
            List::Cons(_, _) => false,
        }
    }

    /// The first element, if there is one.
    pub fn first(&self) -> (r: Option<&T>)
        ensures
            match r {
                Some(head) => self@.len() > 0 && *head == self@[0] && *self is Cons && self->Cons_0 == head,
                None => self@.len() == 0,
            },
    {
        match self {
            List::Nil => None,
            List::Cons(head, _) => Some(*head),
        }
    }
}

impl<'a, T: Copy> List<'a, T> {
    /// The list with `head` put in front of `tail`.
    pub fn cons(arena: &'a Arena, head: T, tail: List<'a, T>) -> (r: List<'a, T>)
        ensures
            r == List::Cons(&head, &tail),
            r@ == seq![head].add(tail@),
    {
        List::Cons(alloc_in(arena, head), alloc_in(arena, tail))
    }

    /// The number of elements, or `usize::MAX` should there be more.
    pub fn len(&self) -> (n: usize)
        ensures
            n == if self@.len() <= usize::MAX { self@.len() as usize } else { usize::MAX },
    {
        let mut n: usize = 0;
        let mut rest: List<'a, T> = *self;
        loop
            invariant
                self@.len() == n + rest@.len(),
                n < usize::MAX || rest is Nil || self@.len() > usize::MAX,
            decreases rest,
        {
            match rest {
                List::Nil => {
                    return n;
                },
                List::Cons(_, tail) => {
                    if n == usize::MAX {
                        return n;
                    }
                    n = n + 1;
                    rest = *tail;
                },
            }
        }
    }

    /// The elements in a vector, first to last.
    pub fn to_vec(&self) -> (v: Vec<T>)
        ensures
            v@ == self@,
    {
        let mut v: Vec<T> = Vec::new();
        let mut rest: List<'a, T> = *self;
        loop
            invariant
                self@ == v@.add(rest@),
            decreases rest,
        {
            match rest {
                List::Nil => {
                    assert(v@.add(rest@) =~= v@);
                    return v;
                },
                List::Cons(head, tail) => {
                    proof {
                        assert(v@.push(*head).add(tail@) =~= v@.add(rest@));
                    }
                    v.push(*head);
                    rest = *tail;
                },
            }
        }
    }

    /// The list of the elements of `items`, in the same order.
    pub fn from_slice(arena: &'a Arena, items: &[T]) -> (r: List<'a, T>)
        ensures
            r@ == items@,
    {
        let mut built: List<'a, T> = List::Nil;
        let mut i: usize = items.len();
        while i > 0
            invariant
                i <= items@.len(),
                built@ == items@.subrange(i as int, items@.len() as int),
            decreases i,
        {
            i = i - 1;
            let head: T = items[i];
            proof {
                assert(seq![head].add(built@) =~= items@.subrange(i as int, items@.len() as int));
            }
            built = List::Cons(alloc_in(arena, head), alloc_in(arena, built));
        }
        assert(items@.subrange(0, items@.len() as int) =~= items@);
        built
    }
}

/// The list of the elements of a sequence, in their order.
pub open spec fn list_of<'a, T>(items: Seq<T>) -> List<'a, T>
    decreases items.len(),
{
    if items.len() == 0 {
        List::Nil
    } else {
        List::Cons(&items[0], &list_of(items.drop_first()))
    }
}

/// A list is the list of its elements.
pub proof fn lemma_list_of_view<'a, T>(list: List<'a, T>)
    ensures
        list_of::<T>(list@) == list,
    decreases list,
{
    match list {
        List::Nil => {},
        List::Cons(head, tail) => {
            lemma_list_of_view(*tail);
            assert(list@.drop_first() =~= tail@);
            assert(list@[0] == *head);
        },
    }
}

} // verus!
