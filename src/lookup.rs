//! The registry of bitwise lookup tables and of the lookups into them that a
//! circuit builder collects before it lays out lookup gates.
use vstd::prelude::*;

verus! {

/// A wire of the circuit: a cell of the witness, or a virtual target that is
/// later connected to one.
#[derive(Clone, Copy, Debug, PartialEq, Eq, Structural)]
pub enum Target {
    Wire { row: usize, column: usize },
    VirtualTarget { index: usize },
}

/// A table of two-input lookups: `(input_0, input_1, output)` triples.
pub type BitwiseLookupTable = Vec<(u16, u16, u16)>;

/// One lookup: two input targets and the output target.
pub type Lookup = (Target, Target, Target);

/// The lookup tables of a circuit, each with the lookups made into it.
pub struct CircuitBuilder {
    pub luts: Vec<BitwiseLookupTable>,
    pub lut_to_lookups: Vec<Vec<Lookup>>,
    pub virtual_target_index: usize,
}

impl CircuitBuilder {
    pub open spec fn wf(&self) -> bool {
        self.luts@.len() == self.lut_to_lookups@.len()
    }

    pub open spec fn tables(&self) -> Seq<Seq<(u16, u16, u16)>> {
        Seq::new(self.luts@.len(), |i: int| self.luts@[i]@)
    }

    pub open spec fn lookups(&self, lut_index: int) -> Seq<Lookup> {
        self.lut_to_lookups@[lut_index]@
    }

    /// A builder with no tables and no lookups.
    pub fn new() -> (r: Self)
        ensures
            r.wf(),
            r.luts@.len() == 0,
            r.virtual_target_index == 0,
    {
        CircuitBuilder { luts: Vec::new(), lut_to_lookups: Vec::new(), virtual_target_index: 0 }
    }

    /// The number of stored lookup tables.
    pub fn get_luts_length(&self) -> (r: usize)
        ensures
            r == self.luts@.len(),
    {
        self.luts.len()
    }

    /// A fresh virtual target.
    pub fn add_virtual_target(&mut self) -> (r: Target)
        requires
            old(self).virtual_target_index < usize::MAX,
        ensures
            r == (Target::VirtualTarget { index: old(self).virtual_target_index }),
            final(self).virtual_target_index == old(self).virtual_target_index + 1,
            final(self).luts@ == old(self).luts@,
            final(self).lut_to_lookups@ == old(self).lut_to_lookups@,
    {
        let index = self.virtual_target_index;
        self.virtual_target_index = index + 1;
        Target::VirtualTarget { index }
    }

    /// Adds `table` to the stored lookup tables unless an equal one is there,
    /// and returns the index of the table within them.
    pub fn add_lookup_table_from_pairs(&mut self, table: BitwiseLookupTable) -> (r: usize)
        requires
            old(self).wf(),
        ensures
            final(self).wf(),
            final(self).virtual_target_index == old(self).virtual_target_index,
            r < final(self).luts@.len(),
            final(self).tables()[r as int] == table@,
            (exists|i: int| 0 <= i < old(self).luts@.len() && old(self).luts@[i]@ == table@) ==> {
                &&& final(self).tables() == old(self).tables()
                &&& final(self).lut_to_lookups@ == old(self).lut_to_lookups@
                &&& forall|i: int| 0 <= i < r ==> old(self).luts@[i]@ != table@
            },
            !(exists|i: int| 0 <= i < old(self).luts@.len() && old(self).luts@[i]@ == table@) ==> {
                &&& r == old(self).luts@.len()
                &&& final(self).tables() == old(self).tables().push(table@)
                &&& final(self).lut_to_lookups@.len() == old(self).lut_to_lookups@.len() + 1
                &&& forall|i: int| 0 <= i < r ==> #[trigger] final(self).lut_to_lookups@[i] == old(self).lut_to_lookups@[i]
                &&& final(self).lut_to_lookups@[r as int]@.len() == 0
            },
    {
        let mut i: usize = 0;
        while i < self.luts.len()
            invariant
                *self == *old(self),
                self.wf(),
                i <= self.luts@.len(),
                forall|k: int| 0 <= k < i ==> self.luts@[k]@ != table@,
            decreases self.luts.len() - i,
        {
            if same_table(&self.luts[i], &table) {
                return i;
            }
            i = i + 1;
        }
        let index = self.luts.len();
        self.luts.push(table);
        self.lut_to_lookups.push(Vec::new());
        assert(self.tables() =~= old(self).tables().push(table@));
        index
    }

    /// Records a lookup of `(looking_in_0, looking_in_1)` in the table at
    /// `lut_index`, and returns the fresh target that holds its output.
    pub fn add_lookup_from_index(&mut self, looking_in_0: Target, looking_in_1: Target, lut_index: usize) -> (r: Target)
        requires
            old(self).wf(),
            lut_index < old(self).luts@.len(),
            old(self).virtual_target_index < usize::MAX,
        ensures
            final(self).wf(),
            r == (Target::VirtualTarget { index: old(self).virtual_target_index }),
            final(self).virtual_target_index == old(self).virtual_target_index + 1,
            final(self).luts@ == old(self).luts@,
            final(self).lut_to_lookups@.len() == old(self).lut_to_lookups@.len(),
            final(self).lookups(lut_index as int) == old(self).lookups(lut_index as int).push((looking_in_0, looking_in_1, r)),
            forall|i: int|
                0 <= i < old(self).lut_to_lookups@.len() && i != lut_index ==> #[trigger] final(self).lut_to_lookups@[i] == old(self).lut_to_lookups@[i],
    {
        let looking_out = self.add_virtual_target();
        let mut lookups: Vec<Lookup> = Vec::new();
        self.lut_to_lookups.set_and_swap(lut_index, &mut lookups);
        lookups.push((looking_in_0, looking_in_1, looking_out));
        self.lut_to_lookups.set(lut_index, lookups);
        looking_out
    }
}

fn same_table(a: &BitwiseLookupTable, b: &BitwiseLookupTable) -> (r: bool)
    ensures
        r == (a@ == b@),
{
    if a.len() != b.len() {
        return false;
    }
    let mut i: usize = 0;
    while i < a.len()
        invariant
            a@.len() == b@.len(),
            i <= a@.len(),
            forall|k: int| 0 <= k < i ==> a@[k] == b@[k],
        decreases a.len() - i,
    {
        let (x0, x1, x2) = a[i];
        let (y0, y1, y2) = b[i];
        if x0 != y0 || x1 != y1 || x2 != y2 {
            return false;
        }
        i = i + 1;
    }
    assert(a@ =~= b@);
    true
}

} // verus!
