use vstd::prelude::*;

verus! {

/// The width and height of the crystal, in cells.
#[derive(Debug, Clone, Copy, PartialEq, Eq, Structural)]
pub struct CrystalSize {
    pub width: usize,
    pub height: usize,
}

/// The cell an atom occupies.
#[derive(Debug, Clone, Copy, PartialEq, Eq, Structural)]
pub struct Atom {
    pub x: usize,
    pub y: usize,
}

/// Where an atom tries to go in one step.
#[derive(Debug, Clone, Copy, PartialEq, Eq, Structural)]
pub enum Movement {
    Stay,
    Up,
    Down,
    Left,
    Right,
}

/// The change of column and of row that a movement asks for (up raises the row).
pub open spec fn movement_delta(m: Movement) -> (int, int) {
    match m {
        Movement::Stay => (0, 0),
        Movement::Up => (0, 1),
        Movement::Down => (0, -1),
        Movement::Left => (-1, 0),
        Movement::Right => (1, 0),
    }
}

/// The coordinate after a step of `d` from `v` on an axis of `bound` cells: a step that would
/// leave the crystal goes the other way instead.
pub open spec fn reflect(v: int, d: int, bound: int) -> int {
    if v + d < 0 || v + d >= bound {
        v - d
    } else {
        v + d
    }
}

/// The index of the cell of `a` in a field stored row by row.
pub open spec fn cell_of(a: Atom, width: int) -> int {
    a.y * width + a.x
}

/// The number of atoms in cell `cell`.
pub open spec fn atoms_in_cell(atoms: Seq<Atom>, cell: int, width: int) -> nat
    decreases atoms.len(),
{
    if atoms.len() == 0 {
        0
    } else {
        atoms_in_cell(atoms.drop_last(), cell, width) + (if cell_of(atoms.last(), width) == cell {
            1nat
        } else {
            0nat
        })
    }
}

/// The sum of a sequence of counts.
pub open spec fn seq_sum(s: Seq<usize>) -> int
    decreases s.len(),
{
    if s.len() == 0 {
        0
    } else {
        seq_sum(s.drop_last()) + s.last()
    }
}

/// The atoms lie inside the crystal and the field counts, cell by cell, the atoms in it.
pub open spec fn consistent(atoms: Seq<Atom>, field: Seq<usize>, size: CrystalSize) -> bool {
    &&& size.width * size.height <= usize::MAX
    &&& field.len() == size.width * size.height
    &&& forall|i: int| 0 <= i < atoms.len() ==> #[trigger] atoms[i].x < size.width && atoms[i].y
        < size.height
    &&& forall|c: int| 0 <= c < field.len() ==> #[trigger] field[c] == atoms_in_cell(
        atoms,
        c,
        size.width as int,
    )
}

proof fn lemma_cell_in_field(a: Atom, size: CrystalSize)
    requires
        a.x < size.width,
        a.y < size.height,
    ensures
        0 <= cell_of(a, size.width as int) < size.width * size.height,
{
    assert(a.y * size.width + a.x < size.width * size.height) by (nonlinear_arith)
        requires
            a.x < size.width,
            a.y < size.height,
    ;
}

proof fn lemma_cells_distinct(a: Atom, b: Atom, width: int)
    requires
        a.x < width,
        b.x < width,
        a != b,
    ensures
        cell_of(a, width) != cell_of(b, width),
{
    if cell_of(a, width) == cell_of(b, width) {
        if a.y < b.y {
            assert(a.y * width + width <= b.y * width) by (nonlinear_arith)
                requires
                    a.y < b.y,
                    width >= 0,
            ;
        } else if a.y > b.y {
            assert(b.y * width + width <= a.y * width) by (nonlinear_arith)
                requires
                    b.y < a.y,
                    width >= 0,
            ;
        }
    }
}

proof fn lemma_atoms_in_cell_update(atoms: Seq<Atom>, i: int, b: Atom, cell: int, width: int)
    requires
        0 <= i < atoms.len(),
    ensures
        atoms_in_cell(atoms.update(i, b), cell, width) + (if cell_of(atoms[i], width) == cell {
            1int
        } else {
            0int
        }) == atoms_in_cell(atoms, cell, width) + (if cell_of(b, width) == cell {
            1int
        } else {
            0int
        }),
    decreases atoms.len(),
{
    if i < atoms.len() - 1 {
        assert(atoms.update(i, b).drop_last() =~= atoms.drop_last().update(i, b));
        lemma_atoms_in_cell_update(atoms.drop_last(), i, b, cell, width);
    } else {
        assert(atoms.update(i, b).drop_last() =~= atoms.drop_last());
    }
}

/// The sum of the counts of cells `0..n`.
spec fn cells_total(atoms: Seq<Atom>, n: int, width: int) -> int
    decreases n,
{
    if n <= 0 {
        0
    } else {
        cells_total(atoms, n - 1, width) + atoms_in_cell(atoms, n - 1, width)
    }
}

proof fn lemma_cells_total_push(atoms: Seq<Atom>, a: Atom, n: int, width: int)
    requires
        n >= 0,
    ensures
        cells_total(atoms.push(a), n, width) == cells_total(atoms, n, width) + (if 0 <= cell_of(
            a,
            width,
        ) < n {
            1int
        } else {
            0int
        }),
    decreases n,
{
    if n > 0 {
        lemma_cells_total_push(atoms, a, n - 1, width);
        assert(atoms.push(a).drop_last() =~= atoms);
    }
}

proof fn lemma_cells_total_counts_atoms(atoms: Seq<Atom>, size: CrystalSize)
    requires
        forall|i: int| 0 <= i < atoms.len() ==> #[trigger] atoms[i].x < size.width && atoms[i].y
            < size.height,
    ensures
        cells_total(atoms, size.width * size.height, size.width as int) == atoms.len(),
    decreases atoms.len(),
{
    let n = size.width * size.height;
    if atoms.len() == 0 {
        lemma_cells_total_zero(atoms, n, size.width as int);
    } else {
        let rest = atoms.drop_last();
        assert forall|i: int| 0 <= i < rest.len() implies #[trigger] rest[i].x < size.width
            && rest[i].y < size.height by {
            assert(rest[i] == atoms[i]);
        }
        lemma_cells_total_counts_atoms(rest, size);
        assert(rest.push(atoms.last()) =~= atoms);
        lemma_cells_total_push(rest, atoms.last(), n as int, size.width as int);
        lemma_cell_in_field(atoms.last(), size);
    }
}

proof fn lemma_cells_total_zero(atoms: Seq<Atom>, n: int, width: int)
    requires
        atoms.len() == 0,
    ensures
        cells_total(atoms, n, width) == 0,
    decreases n,
{
    if n > 0 {
        lemma_cells_total_zero(atoms, n - 1, width);
    }
}

proof fn lemma_field_sum(field: Seq<usize>, atoms: Seq<Atom>, width: int, n: int)
    requires
        0 <= n <= field.len(),
        forall|c: int| 0 <= c < field.len() ==> #[trigger] field[c] == atoms_in_cell(atoms, c, width),
    ensures
        seq_sum(field.take(n)) == cells_total(atoms, n, width),
    decreases n,
{
    if n > 0 {
        lemma_field_sum(field, atoms, width, n - 1);
        assert(field.take(n).drop_last() =~= field.take(n - 1));
    }
}

/// In a consistent crystal the counts of the field add up to the number of atoms.
pub proof fn lemma_field_total(atoms: Seq<Atom>, field: Seq<usize>, size: CrystalSize)
    requires
        consistent(atoms, field, size),
    ensures
        seq_sum(field) == atoms.len(),
{
    lemma_field_sum(field, atoms, size.width as int, field.len() as int);
    assert(field.take(field.len() as int) =~= field);
    lemma_cells_total_counts_atoms(atoms, size);
}

/// Where atom `a` ends up after the step `m` in a crystal of size `size` (see `reflect`).
pub open spec fn moved_atom(a: Atom, m: Movement, size: CrystalSize) -> Atom {
    Atom {
        x: reflect(a.x as int, movement_delta(m).0, size.width as int) as usize,
        y: reflect(a.y as int, movement_delta(m).1, size.height as int) as usize,
    }
}

/// A step that has somewhere to go: one along an axis of a single cell has no other way.
pub open spec fn step_fits(m: Movement, size: CrystalSize) -> bool {
    &&& (m is Left || m is Right ==> size.width >= 2)
    &&& (m is Up || m is Down ==> size.height >= 2)
}

/// A step that has somewhere to go keeps an atom inside the crystal and moves it by at most one
/// cell, along one axis.
pub proof fn lemma_step_stays_inside(a: Atom, m: Movement, size: CrystalSize)
    requires
        a.x < size.width,
        a.y < size.height,
        step_fits(m, size),
    ensures
        moved_atom(a, m, size).x < size.width,
        moved_atom(a, m, size).y < size.height,
        ({
            let dx = moved_atom(a, m, size).x - a.x;
            let dy = moved_atom(a, m, size).y - a.y;
            (if dx < 0 { -dx } else { dx }) + (if dy < 0 { -dy } else { dy }) <= 1
        }),
{
}

/// A field of atoms that wander from cell to cell.
pub struct Crystal {
    atoms: Vec<Atom>,
    field: Vec<usize>,
    size: CrystalSize,
}

impl Crystal {
    /// The field counts the atoms (see `consistent`).
    pub closed spec fn wf(&self) -> bool {
        consistent(self.atoms@, self.field@, self.size)
    }

    /// A well-formed crystal is consistent.
    pub proof fn lemma_wf_consistent(&self)
        requires
            self.wf(),
        ensures
            consistent(self.atoms_spec(), self.field_spec(), self.size_spec()),
    {
    }

    /// The atoms.
    pub closed spec fn atoms_spec(&self) -> Seq<Atom> {
        self.atoms@
    }

    /// The number of atoms per cell, row by row.
    pub closed spec fn field_spec(&self) -> Seq<usize> {
        self.field@
    }

    /// The size of the crystal.
    pub closed spec fn size_spec(&self) -> CrystalSize {
        self.size
    }

    /// A crystal of the given size with `atoms_amount` atoms, all in the middle cell
    /// `(width / 2, height / 2)`. A crystal without cells can only be empty.
    pub fn new(size: CrystalSize, atoms_amount: usize) -> (r: Self)
        requires
            atoms_amount > 0 ==> size.width >= 1 && size.height >= 1,
            size.width * size.height <= usize::MAX,
        ensures
            r.size_spec() == size,
            r.atoms_spec().len() == atoms_amount,
            forall|i: int| 0 <= i < atoms_amount ==> #[trigger] r.atoms_spec()[i] == (Atom {
                x: (size.width / 2) as usize,
                y: (size.height / 2) as usize,
            }),
            r.wf(),
            consistent(r.atoms_spec(), r.field_spec(), r.size_spec()),
    {
        let center = Atom { x: size.width / 2, y: size.height / 2 };
        let mut atoms: Vec<Atom> = Vec::new();
        let mut k: usize = 0;
        while k < atoms_amount
            invariant
                k <= atoms_amount,
                atoms@.len() == k,
                forall|i: int| 0 <= i < k ==> #[trigger] atoms@[i] == center,
            decreases atoms_amount - k,
        {
            atoms.push(center);
            k = k + 1;
        }
        let cells = size.width * size.height;
        let center_cell: usize = if cells > 0 {
            assert(size.width >= 1 && size.height >= 1) by (nonlinear_arith)
                requires
                    cells == size.width * size.height,
                    cells > 0,
            ;
            proof {
                lemma_cell_in_field(center, size);
            }
            center.y * size.width + center.x
        } else {
            0
        };
        let mut field: Vec<usize> = Vec::new();
        let mut c: usize = 0;
        while c < cells
            invariant
                c <= cells,
                cells == size.width * size.height,
                cells > 0 ==> center_cell == cell_of(center, size.width as int),
                atoms@.len() == atoms_amount,
                forall|i: int| 0 <= i < atoms_amount ==> #[trigger] atoms@[i] == center,
                field@.len() == c,
                forall|j: int| 0 <= j < c ==> #[trigger] field@[j] == atoms_in_cell(
                    atoms@,
                    j,
                    size.width as int,
                ),
            decreases cells - c,
        {
            proof {
                lemma_uniform_cell_count(atoms@, center, c as int, size.width as int);
            }
            field.push(if c == center_cell { atoms_amount } else { 0 });
            c = c + 1;
        }
        proof {
            assert forall|i: int| 0 <= i < atoms@.len() implies #[trigger] atoms@[i].x < size.width
                && atoms@[i].y < size.height by {}
        }
        Crystal { atoms, field, size }
    }

    /// The atoms.
    pub fn atoms(&self) -> (r: &Vec<Atom>)
        ensures
            r@ == self.atoms_spec(),
    {
        &self.atoms
    }

    /// The number of atoms per cell, row by row.
    pub fn field(&self) -> (r: &Vec<usize>)
        ensures
            r@ == self.field_spec(),
    {
        &self.field
    }

    /// The size of the crystal.
    pub fn size(&self) -> (r: CrystalSize)
        ensures
            r == self.size_spec(),
    {
        self.size
    }

    /// Moves atom `index` one step in the direction `movement`; a step out of the crystal goes
    /// the other way. The field follows the atom. A step along an axis of a single cell has no
    /// other way to go and is left out.
    pub fn move_atom(&mut self, index: usize, movement: Movement)
        requires
            old(self).wf(),
            index < old(self).atoms_spec().len(),
            movement is Left || movement is Right ==> old(self).size_spec().width >= 2,
            movement is Up || movement is Down ==> old(self).size_spec().height >= 2,
        ensures
            final(self).size_spec() == old(self).size_spec(),
            final(self).atoms_spec() == old(self).atoms_spec().update(
                index as int,
                Atom {
                    x: reflect(
                        old(self).atoms_spec()[index as int].x as int,
                        movement_delta(movement).0,
                        old(self).size_spec().width as int,
                    ) as usize,
                    y: reflect(
                        old(self).atoms_spec()[index as int].y as int,
                        movement_delta(movement).1,
                        old(self).size_spec().height as int,
                    ) as usize,
                },
            ),
            final(self).wf(),
            consistent(final(self).atoms_spec(), final(self).field_spec(), final(self).size_spec()),
    {
        let width = self.size.width;
        let height = self.size.height;
        let atom = self.atoms[index];
        let new_x = match movement {
            Movement::Left => if atom.x == 0 { 1 } else { atom.x - 1 },
            Movement::Right => if atom.x + 1 >= width { atom.x - 1 } else { atom.x + 1 },
            _ => atom.x,
        };
        let new_y = match movement {
            Movement::Down => if atom.y == 0 { 1 } else { atom.y - 1 },
            Movement::Up => if atom.y + 1 >= height { atom.y - 1 } else { atom.y + 1 },
            _ => atom.y,
        };
        let moved = Atom { x: new_x, y: new_y };
        if new_x != atom.x || new_y != atom.y {
            proof {
                lemma_cell_in_field(atom, self.size);
                lemma_cell_in_field(moved, self.size);
                lemma_cells_distinct(atom, moved, width as int);
            }
            let old_cell = atom.y * width + atom.x;
            let new_cell = new_y * width + new_x;
            let ghost old_atoms = self.atoms@;
            let ghost old_field = self.field@;
            proof {
                assert(old_field[old_cell as int] == atoms_in_cell(old_atoms, old_cell as int, width as int));
                lemma_atoms_in_cell_update(old_atoms, index as int, moved, old_cell as int, width as int);
                lemma_atoms_in_cell_update(old_atoms, index as int, moved, new_cell as int, width as int);
                lemma_count_bound(old_atoms.update(index as int, moved), new_cell as int, width as int);
            }
            let atoms_amount = self.atoms.len();
            assert(old_atoms.len() == atoms_amount);
            let old_count = self.field[old_cell];
            self.field.set(old_cell, old_count - 1);
            let new_count = self.field[new_cell];
            self.field.set(new_cell, new_count + 1);
            self.atoms.set(index, moved);
            proof {
                assert forall|c: int| 0 <= c < self.field@.len() implies #[trigger] self.field@[c]
                    == atoms_in_cell(self.atoms@, c, width as int) by {
                    lemma_atoms_in_cell_update(old_atoms, index as int, moved, c, width as int);
                }
                assert forall|i: int| 0 <= i < self.atoms@.len() implies #[trigger] self.atoms@[i].x < width
                    && self.atoms@[i].y < height by {
                    if i != index {
                        assert(self.atoms@[i] == old_atoms[i]);
                    }
                }
            }
        } else {
            assert(self.atoms@.update(index as int, moved) =~= self.atoms@);
        }
    }

    /// One tick of the simulation: every atom takes its own step, `steps[i]` for atom `i`. The
    /// atoms do not depend on one another, so each ends where its step alone takes it; the
    /// number of atoms and the size stay, and the field still counts the atoms of every cell.
    pub fn apply_steps(&mut self, steps: &Vec<Movement>)
        requires
            old(self).wf(),
            steps@.len() == old(self).atoms_spec().len(),
            forall|i: int| 0 <= i < steps@.len() ==> step_fits(#[trigger] steps@[i], old(self).size_spec()),
        ensures
            final(self).size_spec() == old(self).size_spec(),
            final(self).atoms_spec().len() == old(self).atoms_spec().len(),
            forall|i: int|
                0 <= i < final(self).atoms_spec().len() ==> #[trigger] final(self).atoms_spec()[i]
                    == moved_atom(old(self).atoms_spec()[i], steps@[i], old(self).size_spec()),
            final(self).wf(),
            consistent(final(self).atoms_spec(), final(self).field_spec(), final(self).size_spec()),
    {
        let ghost start = self.atoms_spec();
        let mut i: usize = 0;
        while i < steps.len()
            invariant
                i <= steps@.len() == start.len(),
                self.wf(),
                self.size_spec() == old(self).size_spec(),
                start == old(self).atoms_spec(),
                self.atoms_spec().len() == start.len(),
                forall|k: int| 0 <= k < steps@.len() ==> step_fits(#[trigger] steps@[k], old(self).size_spec()),
                forall|k: int|
                    0 <= k < i ==> #[trigger] self.atoms_spec()[k] == moved_atom(
                        start[k],
                        steps@[k],
                        old(self).size_spec(),
                    ),
                forall|k: int| i <= k < start.len() ==> #[trigger] self.atoms_spec()[k] == start[k],
            decreases steps@.len() - i,
        {
            let step = steps[i];
            assert(step_fits(steps@[i as int], old(self).size_spec()));
            self.move_atom(i, step);
            i = i + 1;
        }
    }
}

proof fn lemma_uniform_cell_count(atoms: Seq<Atom>, center: Atom, c: int, width: int)
    requires
        forall|i: int| 0 <= i < atoms.len() ==> #[trigger] atoms[i] == center,
    ensures
        atoms_in_cell(atoms, c, width) == (if c == cell_of(center, width) {
            atoms.len()
        } else {
            0
        }),
    decreases atoms.len(),
{
    if atoms.len() > 0 {
        let rest = atoms.drop_last();
        assert forall|i: int| 0 <= i < rest.len() implies #[trigger] rest[i] == center by {
            assert(rest[i] == atoms[i]);
        }
        lemma_uniform_cell_count(rest, center, c, width);
    }
}

proof fn lemma_count_bound(atoms: Seq<Atom>, cell: int, width: int)
    ensures
        atoms_in_cell(atoms, cell, width) <= atoms.len(),
    decreases atoms.len(),
{
    if atoms.len() > 0 {
        lemma_count_bound(atoms.drop_last(), cell, width);
    }
}

} // verus!
