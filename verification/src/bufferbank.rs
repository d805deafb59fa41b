//! Named byte buffers for resources the engine does not look into, such as
//! wavetables.

use vstd::prelude::*;
use crate::bank::{Bank, BankError, BankView};

verus! {

/// The bytes of one resource.
pub type Buffer = Vec<u8>;

/// Byte buffers under unique names, with deferred removal.
pub struct BufferBank {
    bank: Bank<Buffer>,
}

impl View for BufferBank {
    type V = BankView<Buffer>;

    closed spec fn view(&self) -> BankView<Buffer> {
        self.bank@
    }
}

impl BufferBank {
    /// Whether the bank's invariant holds.
    pub closed spec fn wf(&self) -> bool {
        self.bank.wf()
    }

    /// A well-formed bank has a well-formed state.
    pub proof fn lemma_wf(&self)
        requires
            self.wf(),
        ensures
            self@.wf(),
    {
        self.bank.lemma_wf();
    }

    /// An empty bank.
    pub fn new() -> (bank: Self)
        ensures
            bank.wf(),
            bank@ == BankView::<Buffer>::blank(),
    {
        Self { bank: Bank::new() }
    }

    /// Stores `buffer` under `name`, unless the name is taken.
    pub fn add(&mut self, name: String, buffer: Buffer) -> (r: Result<(), BankError>)
        requires
            old(self).wf(),
        ensures
            final(self).wf(),
            r is Err <==> old(self)@.has(name@),
            r is Err ==> r == Err::<(), BankError>(BankError::DuplicateName) && final(self)@ == old(self)@,
            r is Ok ==> final(self)@ == (BankView {
                items: old(self)@.items.push(buffer),
                labels: old(self)@.labels.push(name@),
                marked: old(self)@.marked.push(false),
            }),
    {
        self.bank.add(name, buffer)
    }

    /// Marks the buffer named `name` for removal; an unknown name changes
    /// nothing.
    pub fn mark_dead(&mut self, name: &str)
        requires
            old(self).wf(),
        ensures
            final(self).wf(),
            final(self)@ == old(self)@.with_mark(name@),
    {
        self.bank.mark_dead(name);
    }

    /// Removes the marked buffers; the others move together, in order.
    pub fn refresh(&mut self)
        requires
            old(self).wf(),
        ensures
            final(self).wf(),
            final(self)@ == old(self)@.swept(),
    {
        self.bank.refresh();
    }

    /// The index of the buffer named `name`, if there is one.
    pub fn get_index(&self, name: &str) -> (r: Option<usize>)
        requires
            self.wf(),
        ensures
            r is Some <==> self@.has(name@),
            r is Some ==> r->0 < self@.labels.len() && self@.labels[r->0 as int] == name@,
            r == self@.index_of(name@),
    {
        self.bank.get_index(name)
    }

    /// Number of buffers.
    pub fn len(&self) -> (n: usize)
        ensures
            n == self@.items.len(),
    {
        self.bank.len()
    }

    /// Buffer `index`.
    pub fn get_buffer(&self, index: usize) -> (b: &Buffer)
        requires
            index < self@.items.len(),
        ensures
            *b == self@.items[index as int],
    {
        self.bank.get(index).unwrap()
    }
}

} // verus!
