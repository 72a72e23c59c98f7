use vstd::prelude::*;

verus! {

/// A square table of interaction coefficients, indexed by the species of the
/// particle that feels a force and the species of the particle that exerts it.
pub struct Relation<T> {
    pub table: Vec<Vec<T>>,
}

impl<T> View for Relation<T> {
    type V = Seq<Seq<T>>;

    open spec fn view(&self) -> Seq<Seq<T>> {
        self.table@.map_values(|row: Vec<T>| row@)
    }
}

/// A square matrix of side `n` whose every cell holds `v`.
pub open spec fn uniform<T>(n: nat, v: T) -> Seq<Seq<T>> {
    Seq::new(n, |i: int| Seq::new(n, |j: int| v))
}

/// `m` is square with side `n`.
pub open spec fn is_square<T>(m: Seq<Seq<T>>, n: nat) -> bool {
    &&& m.len() == n
    &&& forall|i: int| 0 <= i < n ==> (#[trigger] m[i]).len() == n
}

/// The matrix of side `fresh.len()` that keeps the cells of `old` whose
/// indices are both below the smaller side, and takes every other cell from
/// `fresh`.
pub open spec fn overlay<T>(old: Seq<Seq<T>>, fresh: Seq<Seq<T>>) -> Seq<Seq<T>> {
    Seq::new(
        fresh.len(),
        |i: int|
            Seq::new(
                fresh[i].len(),
                |j: int|
                    if i < old.len() && j < old.len() {
                        old[i][j]
                    } else {
                        fresh[i][j]
                    },
            ),
    )
}

impl<T: Copy> Relation<T> {
    /// The relation is square.
    pub open spec fn wf(&self) -> bool {
        is_square(self@, self@.len())
    }

    /// A relation among `s` species whose every coefficient is `v`.
    pub fn new(s: usize, v: T) -> (r: Self)
        ensures
            r.wf(),
            r@ == uniform(s as nat, v),
    {
        let mut table: Vec<Vec<T>> = Vec::new();
        let mut i: usize = 0;
        while i < s
            invariant
                i <= s,
                table@.len() == i,
                forall|k: int| 0 <= k < i ==> (#[trigger] table@[k])@ == Seq::new(s as nat, |j: int| v),
            decreases s - i,
        {
            let mut row: Vec<T> = Vec::new();
            let mut j: usize = 0;
            while j < s
                invariant
                    j <= s,
                    row@ == Seq::new(j as nat, |k: int| v),
                decreases s - j,
            {
                row.push(v);
                j = j + 1;
                assert(row@ =~= Seq::new(j as nat, |k: int| v));
            }
            table.push(row);
            i = i + 1;
        }
        let r = Relation { table };
        assert(r@ =~= uniform(s as nat, v));
        r
    }

    /// The number of species.
    pub fn dim(&self) -> (n: usize)
        ensures
            n == self@.len(),
    {
        self.table.len()
    }

    /// The coefficient applied when a particle of species `c` feels a
    /// particle of species `r`.
    pub fn get(&self, c: usize, r: usize) -> (g: T)
        requires
            self.wf(),
            c < self@.len(),
            r < self@.len(),
        ensures
            g == self@[c as int][r as int],
    {
        assert(self@[c as int] == self.table@[c as int]@);
        self.table[c][r]
    }

    /// Overwrites the coefficient for species `c` feeling species `r`; the
    /// value is stored as given.
    pub fn set(&mut self, v: T, c: usize, r: usize)
        requires
            old(self).wf(),
            c < old(self)@.len(),
            r < old(self)@.len(),
        ensures
            final(self).wf(),
            final(self)@ == old(self)@.update(c as int, old(self)@[c as int].update(r as int, v)),
    {
        let n = self.table[c].len();
        let mut row: Vec<T> = Vec::new();
        let mut k: usize = 0;
        while k < n
            invariant
                self.wf(),
                c < self@.len(),
                r < self@.len(),
                n == self@[c as int].len(),
                k <= n,
                row@.len() == k,
                forall|q: int| 0 <= q < k ==> #[trigger] row@[q] == (if q == r { v } else { self@[c as int][q] }),
            decreases n - k,
        {
            if k == r {
                row.push(v);
            } else {
                row.push(self.table[c][k]);
            }
            k = k + 1;
        }
        proof {
            assert(row@ =~= self@[c as int].update(r as int, v));
        }
        let ghost before = self@;
        self.table.set(c, row);
        assert(self@ =~= before.update(c as int, before[c as int].update(r as int, v)));
    }

    /// A relation of the side of `fresh` that keeps the coefficients of this
    /// one among the species both share, and takes all others from `fresh`.
    pub fn overlaid_on(&self, fresh: &Relation<T>) -> (r: Relation<T>)
        requires
            self.wf(),
            fresh.wf(),
        ensures
            r.wf(),
            r@ == overlay(self@, fresh@),
    {
        let n = fresh.table.len();
        let m = self.table.len();
        let mut table: Vec<Vec<T>> = Vec::new();
        let mut i: usize = 0;
        while i < n
            invariant
                self.wf(),
                fresh.wf(),
                n == fresh@.len(),
                m == self@.len(),
                i <= n,
                table@.len() == i,
                forall|k: int| 0 <= k < i ==> (#[trigger] table@[k])@ == overlay(self@, fresh@)[k],
            decreases n - i,
        {
            let mut row: Vec<T> = Vec::new();
            let mut j: usize = 0;
            while j < n
                invariant
                    self.wf(),
                    fresh.wf(),
                    n == fresh@.len(),
                    m == self@.len(),
                    i < n,
                    j <= n,
                    row@.len() == j,
                    forall|q: int| 0 <= q < j ==> #[trigger] row@[q] == overlay(self@, fresh@)[i as int][q],
                decreases n - j,
            {
                if i < m && j < m {
                    row.push(self.get(i, j));
                } else {
                    row.push(fresh.get(i, j));
                }
                j = j + 1;
            }
            assert(row@ =~= overlay(self@, fresh@)[i as int]);
            table.push(row);
            i = i + 1;
        }
        let r = Relation { table };
        assert(r@ =~= overlay(self@, fresh@));
        r
    }

    /// A relation among `n` species that keeps the coefficients of this one
    /// among the species both share; every other coefficient is `fill`.
    pub fn resize_preserving(&self, n: usize, fill: T) -> (r: Relation<T>)
        requires
            self.wf(),
        ensures
            r.wf(),
            r@ == overlay(self@, uniform(n as nat, fill)),
            r@.len() == n,
            n == self@.len() ==> r@ == self@,
            forall|i: int, j: int|
                0 <= i < n && 0 <= j < n ==> #[trigger] r@[i][j] == if i < self@.len() && j
                    < self@.len() {
                    self@[i][j]
                } else {
                    fill
                },
    {
        let fresh = Relation::new(n, fill);
        let r = self.overlaid_on(&fresh);
        proof {
            if n == self@.len() {
                assert forall|i: int| 0 <= i < n implies #[trigger] r@[i] == self@[i] by {
                    assert(r@[i] =~= self@[i]);
                }
                assert(r@ =~= self@);
            }
        }
        r
    }
}

} // verus!
