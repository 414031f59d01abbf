use vstd::prelude::*;

use crate::column::{ColumnPos, ColumnStore};

verus! {

/// A unique identifier for the biomes generated by the standard world generator.
#[derive(Debug, Clone, Copy, PartialEq, Eq, Structural, Hash)]
pub enum BiomeId {
    Void,
    Plains,
    OakForest,
    Desert,
    PineForest,
    Ocean,
}

/// The total number of [`BiomeId`] instances.
pub const BIOME_ID_COUNT: usize = 6;

/// The weight with which a biome is picked among the biomes that a climate allows.
pub open spec fn biome_weight_spec(id: BiomeId) -> u32 {
    match id {
        BiomeId::Void => 0,
        BiomeId::Plains => 100,
        BiomeId::OakForest => 100,
        BiomeId::Desert => 100,
        BiomeId::PineForest => 50,
        BiomeId::Ocean => 100,
    }
}

impl Default for BiomeId {
    fn default() -> (r: BiomeId)
        ensures
            r == BiomeId::Void,
    {
        BiomeId::Void
    }
}

impl BiomeId {
    /// Returns every biome but [`BiomeId::Void`], in declaration order.
    pub fn iter_all() -> (r: Vec<BiomeId>)
        ensures
            r@ == seq![
                BiomeId::Plains,
                BiomeId::OakForest,
                BiomeId::Desert,
                BiomeId::PineForest,
                BiomeId::Ocean,
            ],
    {
        let r = vec![
            BiomeId::Plains,
            BiomeId::OakForest,
            BiomeId::Desert,
            BiomeId::PineForest,
            BiomeId::Ocean,
        ];
        assert(r@ =~= seq![
            BiomeId::Plains,
            BiomeId::OakForest,
            BiomeId::Desert,
            BiomeId::PineForest,
            BiomeId::Ocean,
        ]);
        r
    }

    /// Returns the weight of the biome in the registry.
    pub fn weight(self) -> (r: u32)
        ensures
            r == biome_weight_spec(self),
    {
        match self {
            BiomeId::Void => 0,
            BiomeId::Plains => 100,
            BiomeId::OakForest => 100,
            BiomeId::Desert => 100,
            BiomeId::PineForest => 50,
            BiomeId::Ocean => 100,
        }
    }
}

/// The total weight of a list of biomes.
pub open spec fn total_weight(biomes: Seq<BiomeId>) -> int
    decreases biomes.len(),
{
    if biomes.len() == 0 {
        0
    } else {
        total_weight(biomes.drop_last()) + biome_weight_spec(biomes.last())
    }
}

/// The total weight of `biomes[i..]`.
pub open spec fn weight_from(biomes: Seq<BiomeId>, i: int) -> int
    decreases biomes.len() - i,
{
    if i < 0 || i >= biomes.len() {
        0
    } else {
        biome_weight_spec(biomes[i]) + weight_from(biomes, i + 1)
    }
}

/// The biome that the weighted walk picks from `biomes[i..]` for the value `v`: the walk returns
/// the current biome if `v` is below its weight, and otherwise subtracts the weight and moves on.
///
/// Each biome thus owns a range of values as wide as its weight, in order. The walk is meant for
/// `0 <= v < weight_from(biomes, i)`, where it always ends on one of the biomes
/// ([`lemma_pick_is_allowed`]); past the end of the list it has no biome to give, and yields
/// [`BiomeId::Void`].
pub open spec fn weighted_pick(biomes: Seq<BiomeId>, v: int, i: int) -> BiomeId
    decreases biomes.len() - i,
{
    if i < 0 || i >= biomes.len() {
        BiomeId::Void
    } else if v < biome_weight_spec(biomes[i]) {
        biomes[i]
    } else {
        weighted_pick(biomes, v - biome_weight_spec(biomes[i]), i + 1)
    }
}

/// The weight of a prefix plus the weight of the rest is the total weight.
proof fn lemma_split_weight(biomes: Seq<BiomeId>, i: int)
    requires
        0 <= i <= biomes.len(),
    ensures
        total_weight(biomes.subrange(0, i)) + weight_from(biomes, i) == total_weight(biomes),
    decreases biomes.len() - i,
{
    if i == biomes.len() {
        assert(biomes.subrange(0, i) =~= biomes);
    } else {
        lemma_split_weight(biomes, i + 1);
        lemma_total_weight_push(biomes, i);
    }
}

proof fn lemma_total_weight_push(biomes: Seq<BiomeId>, i: int)
    requires
        0 <= i < biomes.len(),
    ensures
        total_weight(biomes.subrange(0, i + 1)) == total_weight(biomes.subrange(0, i))
            + biome_weight_spec(biomes[i]),
{
    assert(biomes.subrange(0, i + 1).drop_last() =~= biomes.subrange(0, i));
}

/// Picks a biome among the allowed ones (in order), weighted by their registry weights, from the
/// hash of a biome cell.
///
/// The allowed biomes must have a positive total weight that fits in a `u32`.
pub fn pick_biome(allowed: &Vec<BiomeId>, hash: u64) -> (r: BiomeId)
    requires
        0 < total_weight(allowed@) <= u32::MAX,
    ensures
        r == weighted_pick(allowed@, (hash as int % 0x1_0000_0000) % total_weight(allowed@), 0),
        allowed@.contains(r),
        biome_weight_spec(r) > 0,
{
    let mut total: u32 = 0;
    let mut i: usize = 0;
    while i < allowed.len()
        invariant
            0 <= i <= allowed@.len(),
            total == total_weight(allowed@.subrange(0, i as int)),
            total_weight(allowed@) <= u32::MAX,
        decreases allowed@.len() - i,
    {
        proof {
            lemma_total_weight_push(allowed@, i as int);
            lemma_total_weight_prefix_le(allowed@, i as int + 1);
        }
        total = total + allowed[i].weight();
        i = i + 1;
    }
    assert(allowed@.subrange(0, allowed@.len() as int) =~= allowed@);
    assert(hash as u32 == hash % 0x1_0000_0000) by (bit_vector);
    let mut value: u32 = (#[verifier::truncate] (hash as u32)) % total;
    let ghost v0 = value as int;
    assert(v0 == (hash as int % 0x1_0000_0000) % total_weight(allowed@));
    let mut index: usize = 0;
    while index < allowed.len()
        invariant
            0 <= index <= allowed@.len(),
            total == total_weight(allowed@),
            0 <= v0 < total,
            v0 == (hash as int % 0x1_0000_0000) % total_weight(allowed@),
            value == v0 - total_weight(allowed@.subrange(0, index as int)),
            weighted_pick(allowed@, v0, 0) == weighted_pick(allowed@, value as int, index as int),
        decreases allowed@.len() - index,
    {
        let biome = allowed[index];
        let w = biome.weight();
        proof {
            lemma_total_weight_push(allowed@, index as int);
        }
        if value < w {
            assert(weighted_pick(allowed@, value as int, index as int) == biome);
            assert(allowed@[index as int] == biome);
            return biome;
        }
        assert(weighted_pick(allowed@, value as int, index as int) == weighted_pick(
            allowed@,
            value - w,
            index + 1,
        ));
        index = index + 1;
        value = value - w;
    }
    // The whole list was walked: the value would be at least the total weight.
    assert(allowed@.subrange(0, index as int) =~= allowed@);
    assert(false);
    BiomeId::Void
}

/// The total weight of a prefix is at most the total weight of the whole list.
proof fn lemma_total_weight_prefix_le(biomes: Seq<BiomeId>, n: int)
    requires
        0 <= n <= biomes.len(),
    ensures
        total_weight(biomes.subrange(0, n)) <= total_weight(biomes),
    decreases biomes.len() - n,
{
    if n < biomes.len() {
        lemma_total_weight_push(biomes, n);
        lemma_total_weight_prefix_le(biomes, n + 1);
    } else {
        assert(biomes.subrange(0, n) =~= biomes);
    }
}


/// The distinct values of `s[..n]`, in order of first occurrence.
pub open spec fn first_occurrences(s: Seq<BiomeId>, n: int) -> Seq<BiomeId>
    decreases n,
{
    if n <= 0 {
        seq![]
    } else {
        let p = first_occurrences(s, n - 1);
        if p.contains(s[n - 1]) {
            p
        } else {
            p.push(s[n - 1])
        }
    }
}

/// Contains the result of the biome stage of a column: the biome of each column, and the
/// distinct biomes present.
pub struct BiomeStage {
    /// The individual biome values for each column.
    pub ids: ColumnStore<BiomeId>,
    /// The unique biomes that are present, in order of first occurrence.
    pub unique_biomes: Vec<BiomeId>,
}

/// Returns whether `v` holds `b`.
fn contains_biome(v: &Vec<BiomeId>, b: BiomeId) -> (r: bool)
    ensures
        r == v@.contains(b),
{
    let mut i: usize = 0;
    while i < v.len()
        invariant
            0 <= i <= v@.len(),
            forall|k: int| 0 <= k < i ==> v@[k] != b,
        decreases v@.len() - i,
    {
        if v[i] == b {
            return true;
        }
        i = i + 1;
    }
    false
}

impl BiomeStage {
    /// Builds the biome stage of a column from the biome sampled for each of its columns,
    /// collecting the distinct biomes in order of first occurrence (by [`ColumnPos`] index).
    pub fn from_ids(ids: ColumnStore<BiomeId>) -> (r: BiomeStage)
        ensures
            r.ids@ == ids@,
            r.unique_biomes@ == first_occurrences(ids@, 1024),
    {
        let mut unique_biomes: Vec<BiomeId> = Vec::new();
        let all = ColumnPos::iter_all();
        let mut i: usize = 0;
        while i < all.len()
            invariant
                all@.len() == 1024,
                forall|k: int| 0 <= k < 1024 ==> #[trigger] all@[k]@ == k,
                ids@.len() == 1024,
                0 <= i <= 1024,
                unique_biomes@ == first_occurrences(ids@, i as int),
            decreases 1024 - i,
        {
            let biome = *ids.index(all[i]);
            if !contains_biome(&unique_biomes, biome) {
                unique_biomes.push(biome);
            }
            i = i + 1;
        }
        BiomeStage { ids, unique_biomes }
    }
}

/// The distinct biomes of a column hold every biome of the column, nothing else, and each one
/// once.
pub proof fn lemma_first_occurrences(s: Seq<BiomeId>, n: int)
    requires
        0 <= n <= s.len(),
    ensures
        first_occurrences(s, n).no_duplicates(),
        forall|k: int| 0 <= k < n ==> first_occurrences(s, n).contains(#[trigger] s[k]),
        forall|b: BiomeId| first_occurrences(s, n).contains(b) ==> exists|k: int| 0 <= k < n && s[k] == b,
    decreases n,
{
    if n > 0 {
        lemma_first_occurrences(s, n - 1);
        let p = first_occurrences(s, n - 1);
        if !p.contains(s[n - 1]) {
            let q = p.push(s[n - 1]);
            assert forall|k: int| 0 <= k < n implies q.contains(#[trigger] s[k]) by {
                if k < n - 1 {
                    assert(p.contains(s[k]));
                    let j = choose|j: int| 0 <= j < p.len() && p[j] == s[k];
                    assert(q[j] == s[k]);
                } else {
                    assert(q[q.len() - 1] == s[k]);
                }
            }
            assert forall|b: BiomeId| q.contains(b) implies exists|k: int| 0 <= k < n && s[k] == b by {
                let j = choose|j: int| 0 <= j < q.len() && q[j] == b;
                if j < p.len() {
                    assert(p[j] == b);
                    assert(p.contains(b));
                } else {
                    assert(s[n - 1] == b);
                }
            }
            assert forall|a: int, b: int| 0 <= a < b < q.len() implies q[a] != q[b] by {
                if b == q.len() - 1 {
                    assert(p[a] == q[a]);
                    if q[a] == q[b] {
                        assert(p.contains(s[n - 1]));
                    }
                } else {
                    assert(p[a] == q[a] && p[b] == q[b]);
                }
            }
        } else {
            assert forall|k: int| 0 <= k < n implies p.contains(#[trigger] s[k]) by {
                if k < n - 1 {
                } else {
                }
            }
        }
    }
}

} // verus!

verus! {

/// For a value below the weight of the rest of the list, the weighted walk picks one of the
/// allowed biomes.
pub proof fn lemma_pick_is_allowed(biomes: Seq<BiomeId>, v: int, i: int)
    requires
        0 <= i <= biomes.len(),
        0 <= v < weight_from(biomes, i),
    ensures
        biomes.contains(weighted_pick(biomes, v, i)),
    decreases biomes.len() - i,
{
    if v < biome_weight_spec(biomes[i]) {
        assert(biomes[i] == weighted_pick(biomes, v, i));
    } else {
        lemma_pick_is_allowed(biomes, v - biome_weight_spec(biomes[i]), i + 1);
    }
}

/// For a value below the weight of the rest of the list, the weighted walk never picks a biome
/// of weight zero (such as [`BiomeId::Void`]).
pub proof fn lemma_weightless_never_picked(biomes: Seq<BiomeId>, v: int, i: int)
    requires
        0 <= i <= biomes.len(),
        0 <= v < weight_from(biomes, i),
    ensures
        biome_weight_spec(weighted_pick(biomes, v, i)) > 0,
    decreases biomes.len() - i,
{
    if v >= biome_weight_spec(biomes[i]) {
        lemma_weightless_never_picked(biomes, v - biome_weight_spec(biomes[i]), i + 1);
    }
}

/// The weighted walk over a whole list, for a value below its total weight, picks one of its
/// biomes, and one of positive weight.
pub proof fn lemma_pick_over_list(biomes: Seq<BiomeId>, v: int)
    requires
        0 <= v < total_weight(biomes),
    ensures
        biomes.contains(weighted_pick(biomes, v, 0)),
        biome_weight_spec(weighted_pick(biomes, v, 0)) > 0,
{
    lemma_split_weight(biomes, 0);
    assert(biomes.subrange(0, 0) =~= Seq::<BiomeId>::empty());
    lemma_pick_is_allowed(biomes, v, 0);
    lemma_weightless_never_picked(biomes, v, 0);
}

} // verus!
