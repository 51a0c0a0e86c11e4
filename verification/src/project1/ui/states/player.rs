use crate::project1::backend::snapshot::CrystalSnapshot;
use crate::text::{decimal, decimal_spec};
use vstd::prelude::*;

verus! {

/// What the canvas shows: the running simulation or the recorded snapshots.
#[derive(Debug, Clone, Copy, PartialEq, Eq, Structural)]
pub enum ViewMode {
    RealTime,
    Snapshot,
}

impl ViewMode {
    /// The label shown for the mode.
    pub fn label(&self) -> (r: &'static str)
        ensures
            r@ == (match *self {
                ViewMode::RealTime => "Real Time"@,
                ViewMode::Snapshot => "Snapshot"@,
            }),
    {
        match self {
            ViewMode::RealTime => "Real Time",
            ViewMode::Snapshot => "Snapshot",
        }
    }
}

impl Default for ViewMode {
    fn default() -> (r: Self)
        ensures
            r == ViewMode::RealTime,
    {
        ViewMode::RealTime
    }
}

/// The cursor after a step to the left: one back, but not past the first snapshot.
pub open spec fn cursor_left(cursor: Option<usize>) -> Option<usize> {
    match cursor {
        Some(i) => Some(
            if i > 0 {
                (i - 1) as usize
            } else {
                i
            },
        ),
        None => None,
    }
}

/// The cursor after a step to the right among `len` snapshots: one on, but not past the last.
pub open spec fn cursor_right(cursor: Option<usize>, len: nat) -> Option<usize> {
    match cursor {
        Some(i) => Some(
            if i + 1 < len {
                (i + 1) as usize
            } else {
                i
            },
        ),
        None => None,
    }
}

/// A step to the left undoes a step to the right that moved, and the other way round; and a
/// cursor on a snapshot stays on one.
pub proof fn lemma_cursor_steps(i: usize, len: nat)
    requires
        i < len <= usize::MAX,
    ensures
        i + 1 < len ==> cursor_left(cursor_right(Some(i), len)) == Some(i),
        i > 0 ==> cursor_right(cursor_left(Some(i)), len) == Some(i),
        cursor_left(Some(i)) matches Some(j) && j < len,
        cursor_right(Some(i), len) matches Some(j) && j < len,
{
}

/// The recorded snapshots and a cursor on the one shown.
#[derive(Debug, Clone)]
pub struct SnapshotStorage {
    storage: Vec<CrystalSnapshot>,
    current: Option<usize>,
}

impl SnapshotStorage {
    /// The cursor is set exactly when there are snapshots, and then points at one of them.
    pub closed spec fn wf(&self) -> bool {
        &&& self.current is Some <==> self.storage@.len() > 0
        &&& self.current matches Some(i) ==> i < self.storage@.len()
    }

    /// The snapshots, oldest first.
    pub closed spec fn snapshots(&self) -> Seq<CrystalSnapshot> {
        self.storage@
    }

    /// The position of the snapshot shown.
    pub closed spec fn cursor(&self) -> Option<usize> {
        self.current
    }

    /// An empty storage.
    pub fn new() -> (r: Self)
        ensures
            r.snapshots() == Seq::<CrystalSnapshot>::empty(),
            r.cursor() == None::<usize>,
            r.wf(),
    {
        SnapshotStorage { storage: Vec::new(), current: None }
    }

    /// What a well-formed storage promises of its cursor.
    pub proof fn lemma_cursor_valid(&self)
        requires
            self.wf(),
        ensures
            self.cursor() is Some <==> self.snapshots().len() > 0,
            self.cursor() matches Some(i) ==> i < self.snapshots().len(),
    {
    }

    /// Records a snapshot; the first one recorded becomes the one shown.
    pub fn add(&mut self, snapshot: CrystalSnapshot)
        requires
            old(self).wf(),
        ensures
            final(self).wf(),
            final(self).snapshots() == old(self).snapshots().push(snapshot),
            final(self).cursor() == (if old(self).snapshots().len() == 0 {
                Some(0usize)
            } else {
                old(self).cursor()
            }),
    {
        self.storage.push(snapshot);
        if self.storage.len() == 1 {
            self.current = Some(0);
        }
    }

    /// The snapshot at `index`, if there is one.
    pub fn get(&self, index: usize) -> (r: Option<&CrystalSnapshot>)
        ensures
            r == (if index < self.snapshots().len() {
                Some(&self.snapshots()[index as int])
            } else {
                None
            }),
    {
        if index < self.storage.len() {
            Some(&self.storage[index])
        } else {
            None
        }
    }

    /// The position of the snapshot shown.
    pub fn current_index(&self) -> (r: &Option<usize>)
        ensures
            *r == self.cursor(),
    {
        &self.current
    }

    /// Shows the previous snapshot, if there is one.
    pub fn left(&mut self)
        requires
            old(self).wf(),
        ensures
            final(self).wf(),
            final(self).snapshots() == old(self).snapshots(),
            final(self).cursor() == cursor_left(old(self).cursor()),
    {
        if let Some(index) = self.current {
            if index > 0 {
                self.current = Some(index - 1);
            }
        }
    }

    /// Shows the next snapshot, if there is one.
    pub fn right(&mut self)
        requires
            old(self).wf(),
        ensures
            final(self).wf(),
            final(self).snapshots() == old(self).snapshots(),
            final(self).cursor() == cursor_right(old(self).cursor(), old(self).snapshots().len()),
    {
        let len = self.storage.len();
        if let Some(index) = self.current {
            if index < len - 1 {
                self.current = Some(index + 1);
            }
        }
    }

    /// The number of snapshots.
    pub fn len(&self) -> (r: usize)
        ensures
            r == self.snapshots().len(),
    {
        self.storage.len()
    }

    /// Whether there is no snapshot.
    pub fn is_empty(&self) -> (r: bool)
        ensures
            r == (self.snapshots().len() == 0),
    {
        self.storage.len() == 0
    }

    /// Removes all snapshots.
    pub fn clear(&mut self)
        ensures
            final(self).snapshots() == Seq::<CrystalSnapshot>::empty(),
            final(self).cursor() == None::<usize>,
            final(self).wf(),
    {
        self.current = None;
        self.storage.clear();
    }
}

impl Default for SnapshotStorage {
    fn default() -> (r: Self)
        ensures
            r.snapshots() == Seq::<CrystalSnapshot>::empty(),
            r.cursor() == None::<usize>,
            r.wf(),
    {
        Self::new()
    }
}

/// `n` in decimal, with a leading zero below ten.
pub open spec fn two_digits(n: nat) -> Seq<char> {
    if n < 10 {
        "0"@ + decimal_spec(n)
    } else {
        decimal_spec(n)
    }
}

/// The clock of a running simulation, `mm : ss`: the whole minutes and the seconds past them of
/// the time it has run, or `00 : 00` when it does not run.
pub open spec fn time_text_spec(elapsed_secs: Option<u64>) -> Seq<char> {
    match elapsed_secs {
        None => "00 : 00"@,
        Some(s) => two_digits((s / 60) as nat) + " : "@ + two_digits((s % 60) as nat),
    }
}

/// `n` in decimal, with a leading zero below ten.
fn two_digits_text(n: u64) -> (r: String)
    ensures
        r@ == two_digits(n as nat),
{
    let mut r = if n < 10 {
        String::from_str("0")
    } else {
        String::new()
    };
    r.append(decimal(n).as_str());
    r
}

/// The clock of a running simulation, `mm : ss`, from the whole seconds it has run; `00 : 00`
/// when it does not run.
pub fn time_text(elapsed_secs: Option<u64>) -> (r: String)
    ensures
        r@ == time_text_spec(elapsed_secs),
{
    match elapsed_secs {
        None => String::from_str("00 : 00"),
        Some(s) => {
            let mut r = two_digits_text(s / 60);
            r.append(" : ");
            r.append(two_digits_text(s % 60).as_str());
            r
        },
    }
}

} // verus!
