//! Fixed-size call stack holding return addresses.
use vstd::prelude::*;

verus! {

/// Number of return addresses the stack can hold.
pub const STACK_CAPACITY: usize = 16;

/// Fixed-size call stack holding return addresses.
pub struct Stack {
    values: [u16; STACK_CAPACITY],
    len: usize,
}

impl View for Stack {
    type V = Seq<u16>;

    /// The addresses on the stack, bottom first; the last one is the top.
    closed spec fn view(&self) -> Seq<u16> {
        self.values@.subrange(0, self.len as int)
    }
}

impl Stack {
    pub const CAPACITY: usize = STACK_CAPACITY;

    /// The stack never holds more than `CAPACITY` addresses.
    pub closed spec fn wf(&self) -> bool {
        self.len <= STACK_CAPACITY
    }

    /// A well-formed stack holds at most `CAPACITY` addresses.
    pub proof fn lemma_bounded(&self)
        requires
            self.wf(),
        ensures
            self@.len() <= STACK_CAPACITY,
    {
    }

    /// An empty stack.
    pub fn new() -> (s: Self)
        ensures
            s.wf(),
            s@ == Seq::<u16>::empty(),
    {
        Stack { values: [0; STACK_CAPACITY], len: 0 }
    }

    /// Number of addresses on the stack.
    pub fn len(&self) -> (n: usize)
        requires
            self.wf(),
        ensures
            n == self@.len(),
    {
        self.len
    }

    /// Pushes a value, returning `false` instead of overflowing.
    pub fn push(&mut self, val: u16) -> (pushed: bool)
        requires
            old(self).wf(),
        ensures
            final(self).wf(),
            pushed == (old(self)@.len() < STACK_CAPACITY),
            pushed ==> final(self)@ == old(self)@.push(val),
            !pushed ==> final(self)@ == old(self)@,
    {
        if self.len == STACK_CAPACITY {
            return false;
        }
        self.values[self.len] = val;
        self.len = self.len + 1;
        assert(self@ =~= old(self)@.push(val));
        true
    }

    /// Pops a value, returning `None` instead of underflowing.
    pub fn pop(&mut self) -> (top: Option<u16>)
        requires
            old(self).wf(),
        ensures
            final(self).wf(),
            top == (if old(self)@.len() == 0 { None } else { Some(old(self)@.last()) }),
            final(self)@ == (if old(self)@.len() == 0 { old(self)@ } else { old(self)@.drop_last() }),
    {
        if self.len == 0 {
            return None;
        }
        self.len = self.len - 1;
        assert(self@ =~= old(self)@.drop_last());
        Some(self.values[self.len])
    }

    /// The value on top of the stack, if any.
    pub fn peek(&self) -> (top: Option<u16>)
        requires
            self.wf(),
        ensures
            top == (if self@.len() == 0 { None } else { Some(self@.last()) }),
    {
        match self.len.checked_sub(1) {
            Some(i) => Some(self.values[i]),
            None => None,
        }
    }
}

impl Default for Stack {
    fn default() -> (s: Self)
        ensures
            s.wf(),
            s@ == Seq::<u16>::empty(),
    {
        Self::new()
    }
}

} // verus!
