//! How many cells of each material the world holds, and how the counts may
//! change while particles move: sand and walls are never created or
//! destroyed; wood only turns into fire; water only evaporates, each time
//! putting out one fire, so that both become air.
use vstd::prelude::*;
use vstd::multiset::Multiset;
use crate::material::Material;
use crate::particle::Particle;
use crate::model::swapped;

verus! {

/// The materials of the cells, in order.
pub open spec fn materials(cells: Seq<Particle>) -> Seq<Material> {
    Seq::new(cells.len(), |i: int| cells[i].material)
}

/// How many cells hold each material.
pub open spec fn census(cells: Seq<Particle>) -> Multiset<Material> {
    materials(cells).to_multiset()
}

/// The counts of `new` can arise from those of `old` by burning wood
/// (a wood cell becomes fire) and by water putting out fire (a water cell
/// and a fire cell both become air), any number of times.
pub open spec fn census_evolves(old: Seq<Particle>, new: Seq<Particle>) -> bool {
    let a = census(old);
    let b = census(new);
    &&& b.count(Material::Sand) == a.count(Material::Sand)
    &&& b.count(Material::Wall) == a.count(Material::Wall)
    &&& b.count(Material::Wood) <= a.count(Material::Wood)
    &&& b.count(Material::Water) <= a.count(Material::Water)
    &&& b.count(Material::Fire) - a.count(Material::Fire) == (a.count(Material::Wood) - b.count(
        Material::Wood,
    )) - (a.count(Material::Water) - b.count(Material::Water))
    &&& b.count(Material::Air) - a.count(Material::Air) == 2 * (a.count(Material::Water) - b.count(
        Material::Water,
    ))
}

/// Putting `p` into cell `i` adds one of its material to the census and
/// removes one of the material that was there.
pub proof fn lemma_census_update(s: Seq<Particle>, i: int, p: Particle)
    requires
        0 <= i < s.len(),
    ensures
        census(s.update(i, p)) == census(s).insert(p.material).remove(s[i].material),
        census(s).count(s[i].material) > 0,
{
    broadcast use vstd::seq_lib::to_multiset_update, vstd::seq_lib::to_multiset_contains;

    assert(materials(s.update(i, p)) =~= materials(s).update(i, p.material));
    assert(materials(s).contains(materials(s)[i]));
}

/// Every count of `census(s).insert(a).remove(b)`, when `s` holds some `b`.
proof fn lemma_counts_after(s: Seq<Particle>, a: Material, b: Material, m: Material)
    requires
        census(s).count(b) > 0,
    ensures
        census(s).insert(a).remove(b).count(m) == census(s).count(m) + (if a == m { 1int } else { 0 }) - (
        if b == m { 1int } else { 0 }),
{
    broadcast use vstd::multiset::group_multiset_axioms;

}

/// The census is unchanged when a cell keeps its material.
pub proof fn lemma_census_same_material(s: Seq<Particle>, i: int, p: Particle)
    requires
        0 <= i < s.len(),
        p.material == s[i].material,
    ensures
        census(s.update(i, p)) == census(s),
{
    lemma_census_update(s, i, p);
    assert forall|m: Material| #[trigger] census(s.update(i, p)).count(m) == census(s).count(m) by {
        lemma_counts_after(s, p.material, s[i].material, m);
    }
    assert(census(s.update(i, p)) =~= census(s));
}

/// Exchanging two cells keeps the census.
pub proof fn lemma_census_swap(s: Seq<Particle>, i: int, j: int)
    requires
        0 <= i < s.len(),
        0 <= j < s.len(),
    ensures
        census(swapped(s, i, j)) == census(s),
{
    let s1 = s.update(i, s[j]);
    lemma_census_update(s, i, s[j]);
    lemma_census_update(s1, j, s[i]);
    assert(s1[j] == s[j]);
    assert forall|m: Material| #[trigger] census(swapped(s, i, j)).count(m) == census(s).count(m) by {
        lemma_counts_after(s, s[j].material, s[i].material, m);
        lemma_counts_after(s1, s[i].material, s[j].material, m);
    }
    assert(census(swapped(s, i, j)) =~= census(s));
}

/// Burning: a wood cell turning into fire is a census step.
pub proof fn lemma_census_burn(s: Seq<Particle>, i: int, p: Particle)
    requires
        0 <= i < s.len(),
        s[i].material == Material::Wood,
        p.material == Material::Fire,
    ensures
        census_evolves(s, s.update(i, p)),
{
    lemma_census_update(s, i, p);
    assert forall|m: Material| #[trigger] census(s.update(i, p)).count(m) == census(s).count(m) + (if m
        == Material::Fire { 1int } else { 0 }) - (if m == Material::Wood { 1int } else { 0 }) by {
        lemma_counts_after(s, p.material, s[i].material, m);
    }
}

/// Quenching: a fire cell and a water cell both becoming air is a census
/// step.
pub proof fn lemma_census_quench(s: Seq<Particle>, f: int, w: int, a: Particle)
    requires
        0 <= f < s.len(),
        0 <= w < s.len(),
        s[f].material == Material::Fire,
        s[w].material == Material::Water,
        a.material == Material::Air,
    ensures
        census_evolves(s, s.update(f, a).update(w, a)),
{
    let s1 = s.update(f, a);
    lemma_census_update(s, f, a);
    lemma_census_update(s1, w, a);
    assert(s1[w] == s[w]);
    assert forall|m: Material| #[trigger] census(s1.update(w, a)).count(m) == census(s).count(m) + (if m
        == Material::Air { 2int } else { 0 }) - (if m == Material::Fire { 1int } else { 0 }) - (if m
        == Material::Water { 1int } else { 0 }) by {
        lemma_counts_after(s, a.material, s[f].material, m);
        lemma_counts_after(s1, a.material, s[w].material, m);
    }
}

/// No change is a census step.
pub proof fn lemma_census_evolves_refl(s: Seq<Particle>)
    ensures
        census_evolves(s, s),
{
}

/// Census steps compose: whatever a sequence of moves, burns and quenches
/// does, the counts change as one census step.
pub proof fn lemma_census_evolves_trans(a: Seq<Particle>, b: Seq<Particle>, c: Seq<Particle>)
    requires
        census_evolves(a, b),
        census_evolves(b, c),
    ensures
        census_evolves(a, c),
{
}

/// Cells with the same census are a census step apart.
pub proof fn lemma_census_equal_evolves(a: Seq<Particle>, b: Seq<Particle>)
    requires
        census(a) == census(b),
    ensures
        census_evolves(a, b),
{
}

/// A run of world states in which each is a census step from the one
/// before (as each `set_motion`, `advance` and `settle` of a particle's walk
/// is) changes the counts, from first to last, as one census step: moving a
/// particle never creates or destroys sand, walls or water except by water
/// evaporating on fire, and never creates wood.
pub proof fn lemma_census_run(states: Seq<Seq<Particle>>)
    requires
        states.len() > 0,
        forall|i: int|
            #![trigger states[i]]
            0 <= i < states.len() - 1 ==> census_evolves(states[i], states[i + 1]),
    ensures
        census_evolves(states[0], states.last()),
    decreases states.len(),
{
    if states.len() == 1 {
        lemma_census_evolves_refl(states[0]);
    } else {
        let prefix = states.drop_last();
        assert forall|i: int| #![trigger prefix[i]] 0 <= i < prefix.len() - 1 implies census_evolves(
            prefix[i],
            prefix[i + 1],
        ) by {
            assert(prefix[i] == states[i]);
            assert(prefix[i + 1] == states[i + 1]);
        }
        lemma_census_run(prefix);
        let n = states.len() - 1;
        assert(states[n - 1] == prefix.last());
        assert(census_evolves(states[n - 1], states[n]));
        lemma_census_evolves_trans(states[0], states[n - 1], states[n]);
    }
}

} // verus!
