use super::crystal::{lemma_field_total, seq_sum, Crystal, CrystalSize};
use crate::text::{decimal, decimal_spec};
use vstd::prelude::*;

verus! {

/// A copy of the crystal's field at one moment.
#[derive(Debug, Clone)]
pub struct CrystalSnapshot {
    pub field: Vec<usize>,
    pub size: CrystalSize,
    pub total_atoms: usize,
}

impl CrystalSnapshot {
    /// The field of `crystal` and the number of atoms in it.
    pub fn new(crystal: &Crystal) -> (r: Self)
        requires
            crystal.wf(),
        ensures
            r.field@ == crystal.field_spec(),
            r.size == crystal.size_spec(),
            r.total_atoms == seq_sum(crystal.field_spec()),
            r.total_atoms == crystal.atoms_spec().len(),
    {
        let source = crystal.field();
        let atoms_amount = crystal.atoms().len();
        proof {
            crystal.lemma_wf_consistent();
            lemma_field_total(crystal.atoms_spec(), crystal.field_spec(), crystal.size_spec());
        }
        let mut field: Vec<usize> = Vec::new();
        let mut total: usize = 0;
        let mut i: usize = 0;
        while i < source.len()
            invariant
                i <= source@.len(),
                field@ == source@.take(i as int),
                total == seq_sum(source@.take(i as int)),
                seq_sum(source@) == crystal.atoms_spec().len(),
                crystal.atoms_spec().len() <= usize::MAX,
            decreases source@.len() - i,
        {
            proof {
                lemma_prefix_sum_bound(source@, i + 1);
                assert(source@.take(i + 1).drop_last() =~= source@.take(i as int));
            }
            total = total + source[i];
            field.push(source[i]);
            i = i + 1;
            assert(field@ =~= source@.take(i as int));
        }
        assert(source@.take(source@.len() as int) =~= source@);
        CrystalSnapshot { field, size: crystal.size(), total_atoms: total }
    }
}

proof fn lemma_prefix_sum_bound(s: Seq<usize>, n: int)
    requires
        0 <= n <= s.len(),
    ensures
        0 <= seq_sum(s.take(n)) <= seq_sum(s),
    decreases s.len(),
{
    if n < s.len() {
        assert(s.drop_last().take(n) =~= s.take(n));
        lemma_prefix_sum_bound(s.drop_last(), n);
        lemma_sum_nonneg(s.drop_last());
    } else {
        assert(s.take(n) =~= s);
        lemma_sum_nonneg(s);
    }
}

proof fn lemma_sum_nonneg(s: Seq<usize>)
    ensures
        seq_sum(s) >= 0,
    decreases s.len(),
{
    if s.len() > 0 {
        lemma_sum_nonneg(s.drop_last());
    }
}

/// A cell of the field that holds atoms: its index, column, row and number of atoms.
#[derive(Debug, Clone, Copy, PartialEq, Eq, Structural)]
pub struct OccupiedCell {
    pub id: usize,
    pub x: usize,
    pub y: usize,
    pub count: usize,
}

/// The occupied cells of a field of rows of `width` cells, in the order of the field.
pub open spec fn occupied_cells_spec(field: Seq<usize>, width: int) -> Seq<OccupiedCell>
    decreases field.len(),
{
    if field.len() == 0 {
        Seq::empty()
    } else {
        let rest = occupied_cells_spec(field.drop_last(), width);
        let id = field.len() - 1;
        if field.last() == 0 {
            rest
        } else {
            rest.push(
                OccupiedCell {
                    id: id as usize,
                    x: (id % width) as usize,
                    y: (id / width) as usize,
                    count: field.last(),
                },
            )
        }
    }
}

/// The tooltip of a cell: `Dot [x; y].` and, on the next line, `Atoms: count.`.
pub open spec fn tooltip_spec(cell: OccupiedCell) -> Seq<char> {
    "Dot ["@ + decimal_spec(cell.x as nat) + "; "@ + decimal_spec(cell.y as nat) + "].\nAtoms: "@
        + decimal_spec(cell.count as nat) + "."@
}

impl CrystalSnapshot {
    /// The cells that hold atoms, in the order of the field, with their column and row: the dots
    /// that are drawn.
    pub fn occupied_cells(&self) -> (r: Vec<OccupiedCell>)
        requires
            self.size.width > 0,
        ensures
            r@ == occupied_cells_spec(self.field@, self.size.width as int),
    {
        let width = self.size.width;
        let mut cells: Vec<OccupiedCell> = Vec::new();
        let mut id: usize = 0;
        while id < self.field.len()
            invariant
                id <= self.field@.len(),
                width == self.size.width > 0,
                cells@ == occupied_cells_spec(self.field@.take(id as int), width as int),
            decreases self.field@.len() - id,
        {
            assert(self.field@.take(id + 1).drop_last() =~= self.field@.take(id as int));
            let count = self.field[id];
            if count != 0 {
                cells.push(OccupiedCell { id, x: id % width, y: id / width, count });
            }
            id = id + 1;
        }
        assert(self.field@.take(self.field@.len() as int) =~= self.field@);
        cells
    }

    /// The tooltip of a cell: `Dot [x; y].` and, on the next line, `Atoms: count.`.
    pub fn tooltip(cell: &OccupiedCell) -> (r: String)
        ensures
            r@ == tooltip_spec(*cell),
    {
        let mut text = String::from_str("Dot [");
        text.append(decimal(cell.x as u64).as_str());
        text.append("; ");
        text.append(decimal(cell.y as u64).as_str());
        text.append("].\nAtoms: ");
        text.append(decimal(cell.count as u64).as_str());
        text.append(".");
        text
    }
}

} // verus!
