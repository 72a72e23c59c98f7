use vstd::prelude::*;

verus! {

/// A particle: its position, its velocity and its species.
#[derive(Clone, Copy, Debug)]
pub struct Atom<V> {
    pub pos: V,
    pub vel: V,
    pub t: usize,
}

impl<V: Copy> Atom<V> {
    pub fn new(pos: V, vel: V, t: usize) -> (a: Self)
        ensures
            a == (Atom { pos, vel, t }),
    {
        Atom { pos, vel, t }
    }
}

/// The particles that seeding makes from `positions`: each at rest (its
/// velocity `zero`), the particle at index `i` of species `i % m`.
pub open spec fn seeded<V>(positions: Seq<V>, zero: V, m: nat) -> Seq<Atom<V>> {
    Seq::new(positions.len(), |i: int| Atom { pos: positions[i], vel: zero, t: (i % (m as int)) as usize })
}

/// How many of `atoms` are of species `k`.
pub open spec fn count_species<V>(atoms: Seq<Atom<V>>, k: nat) -> nat
    decreases atoms.len(),
{
    if atoms.len() == 0 {
        0
    } else {
        count_species(atoms.drop_last(), k) + if atoms.last().t == k {
            1nat
        } else {
            0nat
        }
    }
}

/// Places one particle at each of `positions`, at rest, with species given
/// round-robin over `m` species.
pub fn seed<V: Copy>(positions: &Vec<V>, zero: V, m: usize) -> (atoms: Vec<Atom<V>>)
    requires
        m > 0,
    ensures
        atoms@ == seeded(positions@, zero, m as nat),
        forall|i: int| 0 <= i < atoms@.len() ==> (#[trigger] atoms@[i]).t < m,
{
    let n = positions.len();
    let mut atoms: Vec<Atom<V>> = Vec::new();
    let mut i: usize = 0;
    while i < n
        invariant
            m > 0,
            n == positions@.len(),
            i <= n,
            atoms@ == seeded(positions@, zero, m as nat).subrange(0, i as int),
        decreases n - i,
    {
        atoms.push(Atom::new(positions[i], zero, i % m));
        i = i + 1;
        assert(atoms@ =~= seeded(positions@, zero, m as nat).subrange(0, i as int));
    }
    assert(atoms@ =~= seeded(positions@, zero, m as nat));
    atoms
}

/// The number of particles of species `k` among particles whose species are
/// given round-robin over `m` species.
proof fn lemma_round_robin_count<V>(atoms: Seq<Atom<V>>, m: nat, k: nat)
    requires
        m > 0,
        k < m,
        forall|i: int| 0 <= i < atoms.len() ==> (#[trigger] atoms[i]).t == i % (m as int),
    ensures
        count_species(atoms, k) == atoms.len() / m + if k < atoms.len() % m {
            1nat
        } else {
            0nat
        },
    decreases atoms.len(),
{
    if atoms.len() == 0 {
    } else {
        let s = atoms.drop_last();
        assert forall|i: int| 0 <= i < s.len() implies (#[trigger] s[i]).t == i % (m as int) by {
            assert(s[i] == atoms[i]);
        }
        lemma_round_robin_count(s, m, k);
        let l = s.len() as int;
        let q = l / (m as int);
        let r = l % (m as int);
        vstd::arithmetic::div_mod::lemma_fundamental_div_mod(l, m as int);
        assert(atoms.last().t == r);
        if r + 1 < m {
            vstd::arithmetic::div_mod::lemma_fundamental_div_mod_converse(l + 1, m as int, q, r + 1);
        } else {
            assert((q + 1) * (m as int) == q * (m as int) + m) by (nonlinear_arith);
            vstd::arithmetic::div_mod::lemma_fundamental_div_mod_converse(l + 1, m as int, q + 1, 0);
        }
    }
}

/// Round-robin seeding is fair: among the particles seeded over `m`
/// species, each is of a species below `m`, and the counts of any two
/// species differ by at most one.
pub proof fn lemma_seeding_fair<V>(positions: Seq<V>, zero: V, m: usize, k1: nat, k2: nat)
    requires
        m > 0,
        k1 < m,
        k2 < m,
    ensures
        forall|i: int| 0 <= i < positions.len() ==> (#[trigger] seeded(positions, zero, m as nat)[i]).t < m,
        count_species(seeded(positions, zero, m as nat), k1) <= count_species(seeded(positions, zero, m as nat), k2) + 1,
        count_species(seeded(positions, zero, m as nat), k2) <= count_species(seeded(positions, zero, m as nat), k1) + 1,
{
    let atoms = seeded(positions, zero, m as nat);
    assert forall|i: int| 0 <= i < atoms.len() implies (#[trigger] atoms[i]).t == i % (m as int) by {
        assert(0 <= i % (m as int) < m);
    }
    lemma_round_robin_count(atoms, m as nat, k1);
    lemma_round_robin_count(atoms, m as nat, k2);
}

} // verus!
