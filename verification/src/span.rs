//! Spans of the source text, and the list type that the syntax tree and the IR
//! are built from.

use vstd::prelude::*;

verus! {

/// A half-open range of byte offsets into the source text.
#[derive(Clone, Copy, Debug, PartialEq, Eq, Structural)]
pub struct Span {
    pub start: usize,
    pub end: usize,
}

impl Span {
    /// The span lies inside a text of `len` bytes.
    pub open spec fn within(self, len: nat) -> bool {
        self.start <= self.end <= len
    }

    /// The bytes that the span covers; nothing where it does not lie inside `src`.
    pub open spec fn text(self, src: Seq<u8>) -> Seq<u8> {
        if self.within(src.len()) {
            src.subrange(self.start as int, self.end as int)
        } else {
            Seq::empty()
        }
    }

    /// The span from `start` up to `end`.
    pub fn new(start: usize, end: usize) -> (s: Span)
        ensures
            s == (Span { start, end }),
    {
        Span { start, end }
    }

    /// Whether the span lies inside `src`.
    pub fn fits(&self, src: &[u8]) -> (r: bool)
        ensures
            r == self.within(src@.len()),
    {
        self.start <= self.end && self.end <= src.len()
    }

    /// A span inside `src` that covers the same bytes: the span itself where
    /// it lies inside `src`, and the empty span at the start where not.
    pub fn clamp(&self, src: &[u8]) -> (n: Span)
        ensures
            n == if self.within(src@.len()) { *self } else { Span { start: 0, end: 0 } },
            n.within(src@.len()),
            n.text(src@) == self.text(src@),
    {
        if self.fits(src) {
            *self
        } else {
            let n = Span { start: 0, end: 0 };
            assert(n.text(src@) =~= self.text(src@));
            n
        }
    }

    /// Whether the span covers exactly the bytes of `word`.
    pub fn spells(&self, src: &[u8], word: &[u8]) -> (r: bool)
        ensures
            r == (self.text(src@) == word@),
    {
        let a = self.clamp(src);
        if a.end - a.start != word.len() {
            assert(a.text(src@).len() != word@.len());
            return false;
        }
        let mut i: usize = 0;
        while i < word.len()
            invariant
                a.within(src@.len()),
                a.end - a.start == word@.len(),
                a.text(src@) == self.text(src@),
                i <= word@.len(),
                forall|k: int| 0 <= k < i ==> a.text(src@)[k] == word@[k],
            decreases word@.len() - i,
        {
            if src[a.start + i] != word[i] {
                assert(a.text(src@)[i as int] != word@[i as int]);
                return false;
            }
            i = i + 1;
        }
        assert(a.text(src@) =~= word@);
        true
    }

    /// Whether two spans cover equal bytes.
    pub fn same_text(&self, other: &Span, src: &[u8]) -> (r: bool)
        ensures
            r == (self.text(src@) == other.text(src@)),
    {
        let a = self.clamp(src);
        let b = other.clamp(src);
        if a.end - a.start != b.end - b.start {
            assert(a.text(src@).len() != b.text(src@).len());
            return false;
        }
        let n: usize = a.end - a.start;
        let mut i: usize = 0;
        while i < n
            invariant
                a.within(src@.len()),
                b.within(src@.len()),
                n == a.end - a.start,
                n == b.end - b.start,
                a.text(src@) == self.text(src@),
                b.text(src@) == other.text(src@),
                i <= n,
                forall|k: int| 0 <= k < i ==> a.text(src@)[k] == b.text(src@)[k],
            decreases n - i,
        {
            if src[a.start + i] != src[b.start + i] {
                assert(a.text(src@)[i as int] != b.text(src@)[i as int]);
                return false;
            }
            i = i + 1;
        }
        assert(a.text(src@) =~= b.text(src@));
        true
    }
}

/// A list, built from the front.
#[derive(Debug, PartialEq, Eq)]
pub enum List<T> {
    Nil,
    Cons(Box<T>, Box<List<T>>),
}

impl<T> List<T> {
    /// The items, first to last.
    pub open spec fn view(self) -> Seq<T>
        decreases self,
    {
        match self {
            List::Nil => Seq::empty(),
            List::Cons(head, tail) => seq![*head] + tail.view(),
        }
    }

    /// The number of items.
    pub open spec fn len(self) -> nat
        decreases self,
    {
        match self {
            List::Nil => 0,
            List::Cons(_, tail) => 1 + tail.len(),
        }
    }

    /// Counts the items.
    pub fn length(&self) -> (n: usize)
        requires
            self.len() <= usize::MAX,
        ensures
            n == self.len(),
        decreases self,
    {
        match self {
            List::Nil => 0,
            List::Cons(_, tail) => 1 + tail.length(),
        }
    }

    /// The list of the items of `items`, in their order.
    pub fn from_vec(items: Vec<T>) -> (l: List<T>)
        ensures
            l@ == items@,
    {
        let mut items = items;
        let mut l: List<T> = List::Nil;
        let ghost all = items@;
        assert(items@ + l@ =~= all);
        while items.len() > 0
            invariant
                items@ + l@ == all,
            decreases items@.len(),
        {
            let ghost before = items@;
            let ghost back = l@;
            let last = items.pop().unwrap();
            l = List::Cons(Box::new(last), Box::new(l));
            assert(items@ + l@ =~= before + back);
        }
        assert(items@ + l@ =~= l@);
        l
    }

}

impl<T: Copy> List<T> {
    /// The items of the list, in their order.
    pub fn to_vec(&self) -> (items: Vec<T>)
        ensures
            items@ == self@,
    {
        let mut items: Vec<T> = Vec::new();
        let mut rest = self;
        assert(items@ + rest@ =~= self@);
        loop
            invariant
                items@ + rest@ == self@,
            ensures
                items@ == self@,
            decreases rest,
        {
            match rest {
                List::Nil => {
                    assert(items@ + rest@ =~= items@);
                    break;
                },
                List::Cons(head, tail) => {
                    let ghost before = items@;
                    items.push(**head);
                    assert(items@ + tail@ =~= before + rest@);
                    rest = tail;
                },
            }
        }
        items
    }
}

} // verus!
