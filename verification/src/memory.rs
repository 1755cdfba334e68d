//! The store of a virtual machine.

use vstd::prelude::*;
use crate::cell::Cell;
use crate::machine::{cell_at, store};
use crate::number::{lemma_numbers_of_fails_on, numbers_of, NumberError};
use crate::text::{chars_of, split, split_on, texts_of};

verus! {

/// An addressable store of cells. It holds finitely many cells, from address
/// 0; every address past them reads as zero, and a write past them makes the
/// store grow.
///
/// The view of a memory is the sequence of the integers that its stored
/// cells stand for.
#[derive(Debug)]
pub struct Memory<T: Cell> {
    mem: Vec<T>,
}

/// The integers that a sequence of cells stands for.
pub open spec fn values_of<T: Cell>(cells: Seq<T>) -> Seq<int> {
    Seq::new(cells.len(), |i: int| cells[i].value())
}

impl<T: Cell> View for Memory<T> {
    type V = Seq<int>;

    closed spec fn view(&self) -> Seq<int> {
        values_of(self.mem@)
    }
}

impl<T: Cell> Clone for Memory<T> {
    /// A memory of its own with the same cells.
    fn clone(&self) -> (copy: Self)
        ensures
            copy.cells() == self.cells(),
            copy@ == self@,
    {
        let mut mem: Vec<T> = Vec::new();
        let mut i: usize = 0;
        while i < self.mem.len()
            invariant
                i <= self.mem@.len(),
                mem@ == self.mem@.take(i as int),
            decreases self.mem@.len() - i,
        {
            mem.push(self.mem[i]);
            i += 1;
        }
        Memory { mem }
    }
}

impl<T: Cell> From<Vec<T>> for Memory<T> {
    /// A memory that holds the given cells.
    fn from(cells: Vec<T>) -> (memory: Self) {
        Memory::from_vec(cells)
    }
}

impl<T: Cell> vstd::std_specs::convert::FromSpecImpl<Vec<T>> for Memory<T> {
    open spec fn obeys_from_spec() -> bool {
        true
    }

    open spec fn from_spec(cells: Vec<T>) -> Self {
        Memory::holding(cells)
    }
}

impl<T: Cell> core::str::FromStr for Memory<T> {
    type Err = NumberError;

    /// Reads a memory from a list of decimal numbers with commas between
    /// them, as [`Memory::parse`] does.
    fn from_str(s: &str) -> (r: Result<Self, NumberError>)
        ensures
            parsed_memory(r, numbers_of(split_on(s@, ','), T::lowest(), T::highest())),
    {
        Memory::parse(s)
    }
}

/// What reading a memory gives, given what the text stands for.
pub open spec fn parsed_memory<T: Cell>(
    r: Result<Memory<T>, NumberError>,
    expected: Result<Seq<int>, NumberError>,
) -> bool {
    match expected {
        Ok(values) => r matches Ok(memory) && memory@ == values,
        Err(error) => r matches Err(e) && e == error,
    }
}

impl<T: Cell> Memory<T> {
    /// The memory that holds exactly the given cells.
    pub closed spec fn holding(cells: Vec<T>) -> Self {
        Memory { mem: cells }
    }

    /// Reads a memory from a list of decimal numbers with commas between
    /// them. Nothing but the numbers and the commas may stand in the text:
    /// the first field that is no number of the cell type decides the
    /// error.
    pub fn parse(s: &str) -> (r: Result<Self, NumberError>)
        ensures
            parsed_memory(r, numbers_of(split_on(s@, ','), T::lowest(), T::highest())),
    {
        let text = chars_of(s);
        let fields = split(text.as_slice(), ',');
        let mut mem: Vec<T> = Vec::new();
        let mut i: usize = 0;
        assert(values_of(mem@) =~= Seq::<int>::empty());
        while i < fields.len()
            invariant
                i <= fields@.len(),
                texts_of(fields@) == split_on(s@, ','),
                numbers_of(texts_of(fields@).take(i as int), T::lowest(), T::highest()) == Ok::<
                    Seq<int>,
                    NumberError,
                >(values_of(mem@)),
            decreases fields@.len() - i,
        {
            let ghost through = texts_of(fields@).take(i + 1);
            let ghost before = values_of(mem@);
            assert(through.drop_last() =~= texts_of(fields@).take(i as int));
            proof {
                lemma_numbers_of_fails_on(
                    texts_of(fields@),
                    i + 1,
                    T::lowest(),
                    T::highest(),
                );
            }
            let field = fields[i].as_slice();
            match T::parse(field) {
                Ok(cell) => {
                    mem.push(cell);
                    assert(values_of(mem@) =~= before.push(cell.value()));
                },
                Err(error) => {
                    return Err(error);
                },
            }
            i += 1;
        }
        assert(texts_of(fields@).take(fields@.len() as int) =~= texts_of(fields@));
        Ok(Memory { mem })
    }

    /// The stored cells themselves.
    pub closed spec fn cells(&self) -> Seq<T> {
        self.mem@
    }

    /// What the memory that holds the given cells is.
    pub proof fn lemma_holding(cells: Vec<T>)
        ensures
            Memory::holding(cells).cells() == cells@,
            Memory::holding(cells)@ == values_of(cells@),
    {
    }

    /// The stored cells are no more than the machine can count.
    pub proof fn lemma_len_fits_usize(&self)
        ensures
            self@.len() <= usize::MAX,
    {
        assert(self.mem@.len() == self.mem.len());
    }

    /// A memory that holds the given cells.
    pub fn from_vec(cells: Vec<T>) -> (memory: Self)
        ensures
            memory == Memory::holding(cells),
            memory.cells() == cells@,
            memory@ == values_of(cells@),
    {
        Memory { mem: cells }
    }

    /// The cell at `address`: zero where the address lies past the stored
    /// cells. The store is not changed.
    pub fn get(&self, address: usize) -> (cell: T)
        ensures
            cell.value() == cell_at(self@, address as int),
            address < self.cells().len() ==> cell == self.cells()[address as int],
    {
        if address < self.mem.len() {
            self.mem[address]
        } else {
            T::zero()
        }
    }

    /// Stores `value` at `address`. Where the address lies past the stored
    /// cells, the store grows up to it and the cells in between are zero.
    pub fn set(&mut self, address: usize, value: T)
        requires
            address < usize::MAX,
        ensures
            final(self)@ == store(old(self)@, address as int, value.value()),
    {
        while self.mem.len() <= address
            invariant
                address < usize::MAX,
                old(self).mem@.len() <= self.mem@.len(),
                self.mem@.len() == old(self).mem@.len() || self.mem@.len() <= address + 1,
                forall|i: int| 0 <= i < old(self).mem@.len() ==> self.mem@[i] == old(self).mem@[i],
                forall|i: int|
                    old(self).mem@.len() <= i < self.mem@.len() ==> self.mem@[i].value() == 0,
            decreases address + 1 - self.mem.len(),
        {
            self.mem.push(T::zero());
        }
        self.mem[address] = value;
    }

    /// An iterator over the stored cells, in the order of their addresses.
    pub fn iter(&self) -> (cells: core::slice::Iter<'_, T>)
        ensures
            vstd::std_specs::iter::IteratorSpec::remaining(&cells) == self.cells().as_ref(),
            values_of(self.cells()) == self@,
    {
        self.mem.iter()
    }

    /// The number of stored cells.
    pub fn len(&self) -> (n: usize)
        ensures
            n == self@.len(),
    {
        self.mem.len()
    }

    /// Whether the memory begins with the cells of `prefix`: whether it
    /// stores at least as many cells, and each of the first ones equals the
    /// cell of `prefix` at its place.
    pub fn memory_starts_with(&self, prefix: &[T]) -> (starts: bool)
        ensures
            starts == (prefix@.len() <= self@.len() && self@.subrange(
                0,
                prefix@.len() as int,
            ) == values_of(prefix@)),
    {
        if prefix.len() > self.mem.len() {
            return false;
        }
        let mut i: usize = 0;
        while i < prefix.len()
            invariant
                i <= prefix@.len() <= self@.len(),
                forall|j: int| 0 <= j < i ==> self@[j] == prefix@[j].value(),
            decreases prefix@.len() - i,
        {
            if !self.mem[i].is_same_as(prefix[i]) {
                assert(self@.subrange(0, prefix@.len() as int)[i as int] != values_of(prefix@)[i as int]);
                return false;
            }
            i += 1;
        }
        assert(self@.subrange(0, prefix@.len() as int) =~= values_of(prefix@));
        true
    }
}

} // verus!
