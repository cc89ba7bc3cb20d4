//! A finished row of the row store: one or more cells per column family.

use vstd::prelude::*;

verus! {

/// One cell of a row.
#[derive(Debug)]
pub struct Cell {
    /// The cell's qualifier (its name within the family).
    pub qualifier: String,
    /// The cell's payload bytes.
    pub value: Vec<u8>,
    /// Write timestamp in microseconds.
    pub timestamp_micros: u64,
}

/// The mathematical value of a [`Cell`].
pub struct CellV {
    pub qualifier: Seq<char>,
    pub value: Seq<u8>,
    pub timestamp_micros: u64,
}

impl View for Cell {
    type V = CellV;

    open spec fn view(&self) -> CellV {
        CellV { qualifier: self.qualifier@, value: self.value@, timestamp_micros: self.timestamp_micros }
    }
}

/// Copies a byte vector exactly.
fn clone_bytes(v: &Vec<u8>) -> (r: Vec<u8>)
    ensures
        r@ == v@,
{
    let mut r: Vec<u8> = Vec::new();
    let mut i: usize = 0;
    while i < v.len()
        invariant
            i <= v.len(),
            r@ == v@.take(i as int),
        decreases v.len() - i,
    {
        r.push(v[i]);
        proof {
            assert(r@ =~= v@.take(i + 1));
        }
        i += 1;
    }
    proof {
        assert(v@.take(v@.len() as int) =~= v@);
    }
    r
}

impl Clone for Cell {
    /// A clone carries the same qualifier, bytes and timestamp.
    fn clone(&self) -> (r: Self)
        ensures
            r@ == self@,
    {
        Cell {
            qualifier: self.qualifier.clone(),
            value: clone_bytes(&self.value),
            timestamp_micros: self.timestamp_micros,
        }
    }
}

/// Copies a list of cells exactly.
fn clone_cells(src: &Vec<Cell>) -> (r: Vec<Cell>)
    ensures
        cells_view(r@) == cells_view(src@),
        r@.len() == src@.len(),
{
    let mut out: Vec<Cell> = Vec::new();
    let mut j: usize = 0;
    while j < src.len()
        invariant
            j <= src.len(),
            out@.len() == j,
            forall|k: int| 0 <= k < j ==> (#[trigger] out@[k])@ == src@[k]@,
        decreases src.len() - j,
    {
        out.push(src[j].clone());
        j += 1;
    }
    proof {
        assert(cells_view(out@) =~= cells_view(src@));
    }
    out
}

/// The cells filed under one column family.
#[derive(Debug)]
pub struct CellFamily {
    pub family: String,
    pub cells: Vec<Cell>,
}

/// The views of a list of cells.
pub open spec fn cells_view(cs: Seq<Cell>) -> Seq<CellV> {
    cs.map_values(|c: Cell| c@)
}

/// The cells of the first family in `s` named `name`, scanning from the
/// front.
pub open spec fn family_in(s: Seq<CellFamily>, name: Seq<char>) -> Option<Seq<CellV>>
    decreases s.len(),
{
    if s.len() == 0 {
        None
    } else if s[0].family@ == name {
        Some(cells_view(s[0].cells@))
    } else {
        family_in(s.drop_first(), name)
    }
}

/// A scan that finds `name` first at `i` agrees with `family_in`.
proof fn lemma_family_at(s: Seq<CellFamily>, name: Seq<char>, i: int)
    requires
        0 <= i < s.len(),
        s[i].family@ == name,
        forall|j: int| 0 <= j < i ==> (#[trigger] s[j]).family@ != name,
    ensures
        family_in(s, name) == Some(cells_view(s[i].cells@)),
    decreases i,
{
    if i > 0 {
        let d = s.drop_first();
        assert forall|j: int| 0 <= j < i - 1 implies (#[trigger] d[j]).family@ != name by {
            assert(d[j] == s[j + 1]);
        }
        assert(d[i - 1] == s[i]);
        lemma_family_at(d, name, i - 1);
    }
}

/// A scan that finds no family named `name` agrees with `family_in`.
proof fn lemma_family_none(s: Seq<CellFamily>, name: Seq<char>)
    requires
        forall|j: int| 0 <= j < s.len() ==> (#[trigger] s[j]).family@ != name,
    ensures
        family_in(s, name) is None,
    decreases s.len(),
{
    if s.len() > 0 {
        let d = s.drop_first();
        assert forall|j: int| 0 <= j < d.len() implies (#[trigger] d[j]).family@ != name by {
            assert(d[j] == s[j + 1]);
        }
        lemma_family_none(d, name);
    }
}

/// Appending a family for another name leaves a lookup alone; a missing
/// one it fills only for its own name.
proof fn lemma_family_push(s: Seq<CellFamily>, f: CellFamily, name: Seq<char>)
    ensures
        family_in(s, name) is Some ==> family_in(s.push(f), name) == family_in(s, name),
        family_in(s, name) is None && f.family@ == name ==> family_in(s.push(f), name) == Some(
            cells_view(f.cells@),
        ),
        family_in(s, name) is None && f.family@ != name ==> family_in(s.push(f), name) is None,
    decreases s.len(),
{
    if s.len() == 0 {
        assert(s.push(f).drop_first() =~= Seq::<CellFamily>::empty());
        assert(s.push(f)[0] == f);
    } else {
        assert(s.push(f)[0] == s[0]);
        assert(s.push(f).drop_first() =~= s.drop_first().push(f));
        lemma_family_push(s.drop_first(), f, name);
    }
}

/// Overwriting index `i` in place changes the lookup of its name alone.
proof fn lemma_family_update(s: Seq<CellFamily>, i: int, f: CellFamily, name: Seq<char>)
    requires
        0 <= i < s.len(),
        s[i].family@ == f.family@,
        name != f.family@,
    ensures
        family_in(s.update(i, f), name) == family_in(s, name),
    decreases i,
{
    let s2 = s.update(i, f);
    if i == 0 {
        assert(s2[0] == f);
        assert(s2.drop_first() =~= s.drop_first());
    } else {
        assert(s2[0] == s[0]);
        if s[0].family@ != name {
            assert(s2.drop_first() =~= s.drop_first().update(i - 1, f));
            lemma_family_update(s.drop_first(), i - 1, f, name);
        }
    }
}

/// A finished row: its key and its cells, indexed by column family.
#[derive(Debug)]
pub struct Row {
    /// The row's key.
    pub row_key: String,
    /// The row's cells, grouped by family.
    pub cells: Vec<CellFamily>,
}

impl Row {
    /// At most one group per family name.
    pub open spec fn wf(self) -> bool {
        forall|i: int, j: int|
            #![trigger self.cells@[i], self.cells@[j]]
            0 <= i < j < self.cells@.len() ==> self.cells@[i].family@ != self.cells@[j].family@
    }

    /// The cells filed under `column`, if any.
    pub open spec fn spec_cells(self, column: Seq<char>) -> Option<Seq<CellV>> {
        family_in(self.cells@, column)
    }

    /// A row with a key and no cells.
    pub fn new(row_key: String) -> (r: Self)
        ensures
            r.wf(),
            r.row_key@ == row_key@,
            r.cells@.len() == 0,
    {
        Row { row_key, cells: Vec::new() }
    }

    /// Finds the index of the family named `column`.
    fn find_family(&self, column: &String) -> (r: Option<usize>)
        ensures
            (r matches Some(i) ==> i < self.cells@.len() && self.cells@[i as int].family@
                == column@ && (forall|j: int|
                0 <= j < i ==> (#[trigger] self.cells@[j]).family@ != column@) && self.spec_cells(
                column@,
            ) == Some(cells_view(self.cells@[i as int].cells@))),
            (r is None ==> self.spec_cells(column@) is None && (forall|j: int|
                0 <= j < self.cells@.len() ==> (#[trigger] self.cells@[j]).family@ != column@)),
    {
        let mut i: usize = 0;
        while i < self.cells.len()
            invariant
                i <= self.cells.len(),
                forall|j: int| 0 <= j < i ==> (#[trigger] self.cells@[j]).family@ != column@,
            decreases self.cells.len() - i,
        {
            if self.cells[i].family == *column {
                proof {
                    lemma_family_at(self.cells@, column@, i as int);
                }
                return Some(i);
            }
            i += 1;
        }
        proof {
            lemma_family_none(self.cells@, column@);
        }
        None
    }

    /// All cells filed under `column`, cloned out of the row.
    pub fn get_cells(&self, column: &str) -> (r: Option<Vec<Cell>>)
        ensures
            (r matches Some(cs) ==> self.spec_cells(column@) == Some(cells_view(cs@))),
            (r is None ==> self.spec_cells(column@) is None),
    {
        let col = String::from_str(column);
        let found = self.find_family(&col);
        match found {
            Some(i) => Some(clone_cells(&self.cells[i].cells)),
            None => None,
        }
    }

    /// Only the top (last) cell filed under `column`.
    pub fn get_cell(&mut self, column: &str) -> (r: Option<Cell>)
        ensures
            *final(self) == *old(self),
            (match old(self).spec_cells(column@) {
                Some(cs) => if cs.len() > 0 {
                    r matches Some(c) && c@ == cs.last()
                } else {
                    r is None
                },
                None => r is None,
            }),
    {
        let col = String::from_str(column);
        let found = self.find_family(&col);
        match found {
            Some(i) => {
                let src = &self.cells[i].cells;
                if src.len() > 0 {
                    let c = src[src.len() - 1].clone();
                    proof {
                        let cs = cells_view(self.cells@[i as int].cells@);
                        assert(c@ == cs[cs.len() - 1]);
                    }
                    Some(c)
                } else {
                    None
                }
            },
            None => None,
        }
    }

    /// Files `cells` under `family`, returning the cells previously filed
    /// there, if any.
    pub fn add_cells(&mut self, family: &str, cells: Vec<Cell>) -> (r: Option<Vec<Cell>>)
        requires
            old(self).wf(),
        ensures
            final(self).wf(),
            final(self).row_key@ == old(self).row_key@,
            final(self).spec_cells(family@) == Some(cells_view(cells@)),
            forall|other: Seq<char>|
                other != family@ ==> #[trigger] final(self).spec_cells(other) == old(
                    self,
                ).spec_cells(other),
            (match old(self).spec_cells(family@) {
                Some(prior) => r matches Some(cs) && cells_view(cs@) == prior,
                None => r is None,
            }),
    {
        let fam_key = String::from_str(family);
        let found = self.find_family(&fam_key);
        match found {
            Some(i) => {
                let prior = clone_cells(&self.cells[i].cells);
                let fam = String::from_str(family);
                let f = CellFamily { family: fam, cells };
                self.cells[i] = f;
                proof {
                    let s2 = self.cells@;
                    assert(s2 == old(self).cells@.update(i as int, s2[i as int]));
                    lemma_family_at(s2, family@, i as int);
                    assert forall|other: Seq<char>| other != family@ implies #[trigger] family_in(
                        s2,
                        other,
                    ) == family_in(old(self).cells@, other) by {
                        lemma_family_update(old(self).cells@, i as int, s2[i as int], other);
                    }
                }
                Some(prior)
            },
            None => {
                let fam = String::from_str(family);
                let f = CellFamily { family: fam, cells };
                self.cells.push(f);
                proof {
                    let s0 = old(self).cells@;
                    let added = self.cells@[self.cells@.len() - 1];
                    lemma_family_push(s0, added, family@);
                    assert forall|other: Seq<char>| other != family@ implies #[trigger] family_in(
                        self.cells@,
                        other,
                    ) == family_in(s0, other) by {
                        lemma_family_push(s0, added, other);
                    }
                }
                None
            },
        }
    }
}

} // verus!
