//! An immutable singly linked list: the sequence type of the syntax tree. Two lists are equal
//! exactly when they hold equal items in the same order.

use vstd::prelude::*;

verus! {

#[derive(Debug, PartialEq)]
pub enum List<T> {
    Nil,
    Cons(Box<T>, Box<List<T>>),
}

impl<T> List<T> {
    /// The items of the list, first to last.
    pub open spec fn seq(self) -> Seq<T>
        decreases self,
    {
        match self {
            List::Nil => Seq::empty(),
            List::Cons(h, t) => seq![*h] + t.seq(),
        }
    }

    pub open spec fn spec_len(self) -> nat {
        self.seq().len()
    }

    pub(crate) proof fn lemma_seq_len(self)
        ensures
            self is Cons ==> self.seq().len() == 1 + self->Cons_1.seq().len(),
            self is Nil ==> self.seq().len() == 0,
            self is Cons ==> self.seq()[0] == *self->Cons_0,
            self is Cons ==> self.seq().drop_first() == self->Cons_1.seq(),
    {
        match self {
            List::Nil => {},
            List::Cons(h, t) => {
                assert((seq![*h] + t.seq()).drop_first() =~= t.seq());
            },
        }
    }

    pub fn new() -> (res: List<T>)
        ensures
            res.seq() == Seq::<T>::empty(),
    {
        List::Nil
    }

    /// The number of items.
    pub fn len(&self) -> (res: usize)
        requires
            self.seq().len() <= usize::MAX,
        ensures
            res == self.seq().len(),
        decreases self,
    {
        match self {
            List::Nil => 0,
            List::Cons(_, t) => {
                proof { self.lemma_seq_len(); }
                1 + t.len()
            },
        }
    }

    /// The item at `index`, counting from 0.
    #[verifier::loop_isolation(false)]
    pub fn get(&self, index: usize) -> (res: &T)
        requires
            index < self.seq().len(),
        ensures
            *res == self.seq()[index as int],
        decreases self,
    {
        proof { self.lemma_seq_len(); }
        match self {
            List::Nil => {
                assert(false);
                loop
                    decreases 0nat,
                {
                }
            },
            List::Cons(h, t) => {
                if index == 0 {
                    h
                } else {
                    proof {
                        assert(self.seq()[index as int] == t.seq()[index - 1]);
                    }
                    t.get(index - 1)
                }
            },
        }
    }

    /// The list of the vector's items, in order.
    pub fn from_vec(v: Vec<T>) -> (res: List<T>)
        ensures
            res.seq() == v@,
    {
        let mut v = v;
        let mut res: List<T> = List::Nil;
        let ghost orig = v@;
        while v.len() > 0
            invariant
                orig == v@ + res.seq(),
            decreases v.len(),
        {
            let ghost before = v@;
            let x = v.pop().unwrap();
            proof {
                assert(before == v@.push(x));
            }
            res = List::Cons(Box::new(x), Box::new(res));
            assert(orig =~= v@ + res.seq());
        }
        assert(v@ + res.seq() =~= res.seq());
        res
    }

    /// The vector of the list's items, in order.
    pub fn into_vec(self) -> (res: Vec<T>)
        ensures
            res@ == self.seq(),
    {
        let mut res: Vec<T> = Vec::new();
        let mut rest = self;
        let ghost orig = self.seq();
        loop
            invariant
                orig == self.seq(),
                orig == res@ + rest.seq(),
            decreases rest,
        {
            match rest {
                List::Nil => {
                    assert(rest.seq() == Seq::<T>::empty());
                    assert(res@ + rest.seq() =~= res@);
                    assert(orig == res@);
                    return res;
                },
                List::Cons(h, t) => {
                    proof {
                        List::Cons(h, t).lemma_seq_len();
                    }
                    let ghost old_res = res@;
                    res.push(*h);
                    rest = *t;
                    assert(orig =~= res@ + rest.seq());
                },
            }
        }
    }
}

} // verus!
