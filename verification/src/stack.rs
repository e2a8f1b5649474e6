//! The operand stack: signed 64-bit integers, last in first out. Taking from
//! an empty stack gives zero.

use vstd::prelude::*;
use crate::decimal::{decimal, push_decimal};

verus! {

/// The value on top of a stack, or zero when the stack is empty.
pub open spec fn top(s: Seq<i64>) -> i64 {
    if s.len() == 0 {
        0
    } else {
        s.last()
    }
}

/// The stack without its top value; an empty stack stays empty.
pub open spec fn below(s: Seq<i64>) -> Seq<i64> {
    if s.len() == 0 {
        s
    } else {
        s.drop_last()
    }
}

/// The text of a stack: every value in decimal with a blank behind it, from
/// the bottom to the top.
pub open spec fn stack_text(s: Seq<i64>) -> Seq<char>
    decreases s.len(),
{
    if s.len() == 0 {
        Seq::empty()
    } else {
        (stack_text(s.drop_last()) + decimal(s.last() as int)).push(' ')
    }
}

/// A stack of signed 64-bit integers. Its view lists the values from the
/// bottom to the top.
#[derive(Debug)]
pub struct Stack(Vec<i64>);

impl View for Stack {
    type V = Seq<i64>;

    closed spec fn view(&self) -> Seq<i64> {
        self.0@
    }
}

impl Clone for Stack {
    fn clone(&self) -> (copy: Stack)
        ensures
            copy@ == self@,
    {
        Stack(self.0.clone())
    }
}

impl Stack {
    /// An empty stack.
    pub fn new() -> (s: Stack)
        ensures
            s@ == Seq::<i64>::empty(),
    {
        Stack(Vec::new())
    }

    /// Removes every value.
    pub fn reset(&mut self)
        ensures
            final(self)@ == Seq::<i64>::empty(),
    {
        self.0.clear();
    }

    /// Removes the top value and returns it. On an empty stack it returns
    /// zero and the stack stays empty.
    pub fn pop(&mut self) -> (val: i64)
        ensures
            val == top(old(self)@),
            final(self)@ == below(old(self)@),
            old(self)@.len() == 0 ==> val == 0 && final(self)@.len() == 0,
    {
        match self.0.pop() {
            Some(val) => val,
            None => 0,
        }
    }

    /// Puts a value on top.
    pub fn push(&mut self, val: i64)
        ensures
            final(self)@ == old(self)@.push(val),
    {
        self.0.push(val);
    }

    /// The top value, or zero on an empty stack.
    pub fn peek(&self) -> (val: i64)
        ensures
            val == top(self@),
            self@.len() == 0 ==> val == 0,
    {
        let n = self.0.len();
        if n == 0 {
            0
        } else {
            self.0[n - 1]
        }
    }

    /// The number of values on the stack.
    pub fn len(&self) -> (n: usize)
        ensures
            n == self@.len(),
    {
        self.0.len()
    }

    /// The text of the stack: every value in decimal with a blank behind
    /// it, from the bottom to the top.
    pub fn to_string(&self) -> (text: String)
        ensures
            text@ == stack_text(self@),
    {
        let mut text = String::new();
        let mut i: usize = 0;
        while i < self.0.len()
            invariant
                i <= self.0.len(),
                text@ == stack_text(self.0@.take(i as int)),
            decreases self.0.len() - i,
        {
            assert(self.0@.take(i + 1).drop_last() =~= self.0@.take(i as int));
            push_decimal(&mut text, self.0[i]);
            text.push(' ');
            i += 1;
        }
        assert(self.0@.take(i as int) =~= self.0@);
        text
    }

    /// The values from the bottom to the top.
    pub fn to_vec(&self) -> (values: Vec<i64>)
        ensures
            values@ == self@,
    {
        self.0.clone()
    }
}

} // verus!
