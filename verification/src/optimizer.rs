//! The bonus scorer: ranks the pooled gems, enchantments and foods by the
//! incremental centi-gain their bonuses would add on top of a reference
//! profile, and hands out the locally best candidate.

use vstd::prelude::*;
use crate::{Bonus, Bonuses, ItemSlot, SLOT_COUNT, Stat};
use crate::character::CurStats;
use crate::items::{Color, Enchantment, EnchantmentView, Food, FoodView, Gem, GemView};
use crate::requirements::{Requirement, cap_gain_inc, weighted_gain, sat128, sat_add_i128};

verus! {

/// Incremental centi-gain one requirement grants a single bonus `b` placed
/// on top of the stat values in `reference`. Requirements on other stats
/// grant nothing.
pub open spec fn bonus_req_gain(req: Requirement, b: Bonus, reference: CurStats) -> int {
    match req {
        Requirement::RequirementCap(c) => if c.stat == b.stat {
            cap_gain_inc(c.val as int, c.weight as int, b.val as int, reference.spec_get(b.stat) as int)
        } else {
            0
        },
        Requirement::RequirementWeighted(w) => if w.stat == b.stat {
            weighted_gain(w.weight as int, b.val as int)
        } else {
            0
        },
    }
}

/// Incremental centi-gain of bonus `b` under the first `n` requirements,
/// accumulated with each partial sum clamped to `i128`.
pub open spec fn bonus_gain_upto(b: Bonus, reference: CurStats, reqs: Seq<Requirement>, n: int) -> int
    decreases n,
{
    if n <= 0 {
        0
    } else {
        sat128(bonus_gain_upto(b, reference, reqs, n - 1) + bonus_req_gain(reqs[n - 1], b, reference))
    }
}

/// Incremental centi-gain of bonus `b` under a requirement list.
pub open spec fn bonus_gain(b: Bonus, reference: CurStats, reqs: Seq<Requirement>) -> int {
    bonus_gain_upto(b, reference, reqs, reqs.len() as int)
}

/// Summed incremental centi-gain of the first `n` bonuses of a candidate.
pub open spec fn bonuses_gain_upto(
    bs: Seq<Bonus>,
    reference: CurStats,
    reqs: Seq<Requirement>,
    n: int,
) -> int
    decreases n,
{
    if n <= 0 {
        0
    } else {
        sat128(bonuses_gain_upto(bs, reference, reqs, n - 1) + bonus_gain(bs[n - 1], reference, reqs))
    }
}

/// A candidate's score: the summed incremental centi-gain of every bonus it
/// grants, against `reference`.
pub open spec fn bonuses_gain(bs: Seq<Bonus>, reference: CurStats, reqs: Seq<Requirement>) -> int {
    bonuses_gain_upto(bs, reference, reqs, bs.len() as int)
}

/// One requirement never grants a bonus a negative incremental gain.
proof fn lemma_bonus_req_gain_nonneg(req: Requirement, b: Bonus, reference: CurStats)
    ensures
        bonus_req_gain(req, b, reference) >= 0,
{
    match req {
        Requirement::RequirementCap(c) => {
            if c.stat == b.stat {
                let rem = c.val as int;
                let refv = reference.spec_get(b.stat) as int;
                if refv <= rem {
                    assert((rem - refv) * (c.weight as int) >= 0) by (nonlinear_arith)
                        requires rem - refv >= 0, c.weight as int >= 0,
                    ;
                    assert((b.val as int) * (c.weight as int) >= 0) by (nonlinear_arith)
                        requires b.val as int >= 0, c.weight as int >= 0,
                    ;
                }
            }
        },
        Requirement::RequirementWeighted(w) => {
            if w.stat == b.stat {
                assert((b.val as int) * (w.weight as int) >= 0) by (nonlinear_arith)
                    requires b.val as int >= 0, w.weight as int >= 0,
                ;
            }
        },
    }
}

/// A bonus's accumulated incremental gain never goes negative.
proof fn lemma_bonus_gain_nonneg(b: Bonus, reference: CurStats, reqs: Seq<Requirement>, n: int)
    ensures
        bonus_gain_upto(b, reference, reqs, n) >= 0,
    decreases n,
{
    if n > 0 {
        lemma_bonus_gain_nonneg(b, reference, reqs, n - 1);
        lemma_bonus_req_gain_nonneg(reqs[n - 1], b, reference);
    }
}

/// A candidate's score never goes negative.
proof fn lemma_bonuses_gain_nonneg(bs: Seq<Bonus>, reference: CurStats, reqs: Seq<Requirement>, n: int)
    ensures
        bonuses_gain_upto(bs, reference, reqs, n) >= 0,
    decreases n,
{
    if n > 0 {
        lemma_bonuses_gain_nonneg(bs, reference, reqs, n - 1);
        lemma_bonus_gain_nonneg(bs[n - 1], reference, reqs, reqs.len() as int);
    }
}

/// The sort keys of a gem pool against a reference profile: the exact
/// summed incremental centi-gain of each gem's bonuses.
pub open spec fn gem_keys(pool: Seq<GemView>, reference: CurStats, reqs: Seq<Requirement>) -> Seq<int> {
    pool.map_values(|g: GemView| bonuses_gain(g.bonuses, reference, reqs))
}

/// The sort keys of an enchantment pool against a reference profile: the
/// exact summed incremental centi-gain of each enchantment's bonuses.
pub open spec fn enchant_keys(
    pool: Seq<EnchantmentView>,
    reference: CurStats,
    reqs: Seq<Requirement>,
) -> Seq<int> {
    pool.map_values(|e: EnchantmentView| bonuses_gain(e.bonuses, reference, reqs))
}

/// The index the ranking puts first: the position of the greatest key, the
/// last such position when several keys are equal. This reproduces a stable
/// ascending sort followed by a reversal: among equal keys the later pool
/// entry comes out on top.
pub open spec fn best_index(keys: Seq<int>) -> int
    decreases keys.len(),
{
    if keys.len() <= 1 {
        0
    } else {
        let b = best_index(keys.drop_last());
        if keys.last() >= keys[b] {
            keys.len() - 1
        } else {
            b
        }
    }
}

/// The ranking's first index always points into the pool.
pub proof fn lemma_best_index_in_range(keys: Seq<int>)
    requires
        keys.len() > 0,
    ensures
        0 <= best_index(keys) < keys.len(),
    decreases keys.len(),
{
    if keys.len() > 1 {
        lemma_best_index_in_range(keys.drop_last());
    }
}

/// The ranking's first index carries the greatest key of the pool.
pub proof fn lemma_best_index_is_max(keys: Seq<int>)
    requires
        keys.len() > 0,
    ensures
        forall|j: int| 0 <= j < keys.len() ==> #[trigger] keys[j] <= keys[best_index(keys)],
    decreases keys.len(),
{
    if keys.len() > 1 {
        lemma_best_index_in_range(keys.drop_last());
        lemma_best_index_is_max(keys.drop_last());
        assert forall|j: int| 0 <= j < keys.len()
            implies #[trigger] keys[j] <= keys[best_index(keys)] by {
            if j < keys.len() - 1 {
                assert(keys.drop_last()[j] == keys[j]);
            }
        }
    }
}

/// The gem the ranking hands out: the best-keyed pool entry, the last on
/// ties; when that is the universal gem and it is barred, the next in the
/// ranking instead.
pub open spec fn chosen_gem(
    finder: BestBonusFinder,
    reference: CurStats,
    reqs: Seq<Requirement>,
    allow_tear: bool,
) -> GemView {
    let pool = finder.spec_gems();
    let keys = gem_keys(pool, reference, reqs);
    let i0 = best_index(keys);
    if !allow_tear && is_tear(pool[i0]) {
        pool[best_index(keys.update(i0, -1))]
    } else {
        pool[i0]
    }
}

/// The enchantment the ranking hands out for a slot: the best-keyed pool
/// entry, the last on ties.
pub open spec fn chosen_enchant(
    finder: BestBonusFinder,
    slot: ItemSlot,
    reference: CurStats,
    reqs: Seq<Requirement>,
) -> EnchantmentView {
    let pool = finder.spec_enchants(slot);
    pool[best_index(enchant_keys(pool, reference, reqs))]
}

/// The integer values of a vector of keys.
pub open spec fn int_keys(s: Seq<i128>) -> Seq<int> {
    s.map_values(|x: i128| x as int)
}

/// The position of the greatest key, the last such position on ties.
fn argmax_last(keys: &Vec<i128>) -> (b: usize)
    requires
        keys@.len() > 0,
    ensures
        b < keys@.len(),
        b == best_index(int_keys(keys@)),
{
    let ghost ks = int_keys(keys@);
    let n = keys.len();
    let mut best: usize = 0;
    let mut i: usize = 1;
    proof {
        assert(ks.take(1).len() == 1);
        assert(best_index(ks.take(1)) == 0);
    }
    while i < n
        invariant
            1 <= i <= n,
            best < i,
            n == keys@.len(),
            ks == int_keys(keys@),
            ks.len() == n,
            best == best_index(ks.take(i as int)),
        decreases n - i,
    {
        proof {
            assert(ks.take(i as int + 1).drop_last() =~= ks.take(i as int));
            assert(ks.take(i as int + 1).last() == ks[i as int]);
            assert(ks.take(i as int)[best as int] == ks[best as int]);
        }
        if keys[i] >= keys[best] {
            best = i;
        }
        i = i + 1;
    }
    proof {
        assert(ks.take(n as int) =~= ks);
    }
    best
}

/// The name that designates the universal three-color gem, as a character
/// sequence.
pub open spec fn tear_name() -> Seq<char> {
    "Nightmare's Tear"@
}

/// Whether a gem is the designated universal gem.
pub open spec fn is_tear(g: GemView) -> bool {
    g.name == tear_name()
}

/// Whether this gem is the designated universal gem.
pub fn gem_is_tear(g: &Gem) -> (r: bool)
    ensures
        r == is_tear(g@),
{
    let tear: String = String::from_str("Nightmare's Tear");
    g.name == tear
}

/// When the universal gem is barred, the ranking never hands it out: the
/// fallback index differs from the barred one, and the pool holds at most
/// one universal gem.
pub proof fn lemma_chosen_gem_not_tear(finder: BestBonusFinder, reference: CurStats, reqs: Seq<Requirement>)
    requires
        finder.wf(),
    ensures
        !is_tear(chosen_gem(finder, reference, reqs, false)),
{
    let pool = finder.spec_gems();
    let keys = gem_keys(pool, reference, reqs);
    lemma_best_index_in_range(keys);
    let i0 = best_index(keys);
    if is_tear(pool[i0]) {
        let keys2 = keys.update(i0, -1);
        lemma_best_index_in_range(keys2);
        lemma_best_index_is_max(keys2);
        let b2 = best_index(keys2);
        let j: int = if i0 == 0 { 1 } else { 0 };
        lemma_bonuses_gain_nonneg(pool[j].bonuses, reference, reqs, pool[j].bonuses.len() as int);
        assert(keys[j] == bonuses_gain(pool[j].bonuses, reference, reqs));
        assert(j != i0);
        assert(keys2[j] == keys[j]);
        assert(keys2[j] >= 0);
        assert(keys2[j] <= keys2[b2]);
        assert(b2 != i0);
    }
}

/// The fixed gem catalog, as the scorer's contracts see it.
pub open spec fn default_gems() -> Seq<GemView> {
    seq![
        (GemView {
            colors: seq![Color::Red],
            bonuses: seq![(Bonus { stat: Stat::APR, val: 20 })],
            name: "fractured"@,
        }),
        (GemView {
            colors: seq![Color::Yellow],
            bonuses: seq![(Bonus { stat: Stat::HasteRate, val: 20 })],
            name: "quick"@,
        }),
        (GemView {
            colors: seq![Color::Red],
            bonuses: seq![(Bonus { stat: Stat::Agility, val: 20 })],
            name: "delicate"@,
        }),
        (GemView {
            colors: seq![Color::Yellow],
            bonuses: seq![(Bonus { stat: Stat::HitRate, val: 20 })],
            name: "rigid"@,
        }),
        (GemView {
            colors: seq![Color::Red],
            bonuses: seq![(Bonus { stat: Stat::ExpertiseRate, val: 20 })],
            name: "precise"@,
        }),
        (GemView {
            colors: seq![Color::Red, Color::Yellow],
            bonuses: seq![(Bonus { stat: Stat::Agility, val: 10 }), (Bonus { stat: Stat::CritRate, val: 10 })],
            name: "deadly"@,
        }),
        (GemView {
            colors: seq![Color::Red, Color::Yellow],
            bonuses: seq![(Bonus { stat: Stat::ExpertiseRate, val: 10 }), (Bonus { stat: Stat::HitRate, val: 10 })],
            name: "accurate"@,
        }),
        (GemView {
            colors: seq![Color::Red, Color::Yellow],
            bonuses: seq![(Bonus { stat: Stat::Agility, val: 10 }), (Bonus { stat: Stat::HasteRate, val: 10 })],
            name: "deft"@,
        }),
        (GemView {
            colors: seq![Color::Red, Color::Yellow],
            bonuses: seq![(Bonus { stat: Stat::Agility, val: 10 }), (Bonus { stat: Stat::HitRate, val: 10 })],
            name: "glinting"@,
        }),
        (GemView {
            colors: seq![Color::Red, Color::Blue],
            bonuses: seq![(Bonus { stat: Stat::APR, val: 10 })],
            name: "puissant"@,
        }),
        (GemView {
            colors: seq![Color::Red, Color::Blue, Color::Yellow],
            bonuses: seq![
                (Bonus { stat: Stat::Agility, val: 10 }),
                (Bonus { stat: Stat::Strength, val: 10 }),
                (Bonus { stat: Stat::Stamina, val: 10 }),
            ],
            name: "Nightmare's Tear"@,
        }),
    ]
}

/// The fixed enchantment catalog for one slot: every slot has the agility
/// enchantment; gloves have three more, in this order.
pub open spec fn default_enchants(slot: ItemSlot) -> Seq<EnchantmentView> {
    let temp_agi = (EnchantmentView {
        slot,
        bonuses: seq![(Bonus { stat: Stat::Agility, val: 20 })],
        name: "temp_agi"@,
    });
    if slot == ItemSlot::Gloves {
        seq![
            temp_agi,
            (EnchantmentView {
                slot: ItemSlot::Gloves,
                bonuses: seq![(Bonus { stat: Stat::ExpertiseRate, val: 15 })],
                name: "expertise"@,
            }),
            (EnchantmentView {
                slot: ItemSlot::Gloves,
                bonuses: seq![(Bonus { stat: Stat::AttackPower, val: 44 })],
                name: "crusher"@,
            }),
            (EnchantmentView {
                slot: ItemSlot::Gloves,
                bonuses: seq![(Bonus { stat: Stat::HitRate, val: 20 })],
                name: "precision"@,
            }),
        ]
    } else {
        seq![temp_agi]
    }
}

/// The fixed food catalog.
pub open spec fn default_foods() -> Seq<FoodView> {
    seq![
        (FoodView {
            name: "crit loin"@,
            bonuses: seq![(Bonus { stat: Stat::CritRate, val: 40 })],
        }),
        (FoodView {
            name: "agility loin"@,
            bonuses: seq![(Bonus { stat: Stat::Agility, val: 40 })],
        }),
    ]
}

/// A one-color list.
fn colors1(a: Color) -> (r: Vec<Color>)
    ensures
        r@ == seq![a],
{
    let mut v: Vec<Color> = Vec::new();
    v.push(a);
    proof {
        assert(v@ =~= seq![a]);
    }
    v
}

/// A two-color list.
fn colors2(a: Color, b: Color) -> (r: Vec<Color>)
    ensures
        r@ == seq![a, b],
{
    let mut v: Vec<Color> = Vec::new();
    v.push(a);
    v.push(b);
    proof {
        assert(v@ =~= seq![a, b]);
    }
    v
}

/// A three-color list.
fn colors3(a: Color, b: Color, c: Color) -> (r: Vec<Color>)
    ensures
        r@ == seq![a, b, c],
{
    let mut v: Vec<Color> = Vec::new();
    v.push(a);
    v.push(b);
    v.push(c);
    proof {
        assert(v@ =~= seq![a, b, c]);
    }
    v
}

/// A single-bonus set.
fn bonuses1(s: Stat, v: u32) -> (r: Bonuses)
    ensures
        r@ == seq![(Bonus { stat: s, val: v })],
{
    let mut b: Vec<Bonus> = Vec::new();
    b.push(Bonus::new(s, v));
    proof {
        assert(b@ =~= seq![(Bonus { stat: s, val: v })]);
    }
    Bonuses::new(b)
}

/// A two-bonus set.
fn bonuses2(s1: Stat, v1: u32, s2: Stat, v2: u32) -> (r: Bonuses)
    ensures
        r@ == seq![(Bonus { stat: s1, val: v1 }), (Bonus { stat: s2, val: v2 })],
{
    let mut b: Vec<Bonus> = Vec::new();
    b.push(Bonus::new(s1, v1));
    b.push(Bonus::new(s2, v2));
    proof {
        assert(b@ =~= seq![(Bonus { stat: s1, val: v1 }), (Bonus { stat: s2, val: v2 })]);
    }
    Bonuses::new(b)
}

/// A three-bonus set.
fn bonuses3(s1: Stat, v1: u32, s2: Stat, v2: u32, s3: Stat, v3: u32) -> (r: Bonuses)
    ensures
        r@ == seq![
            (Bonus { stat: s1, val: v1 }),
            (Bonus { stat: s2, val: v2 }),
            (Bonus { stat: s3, val: v3 }),
        ],
{
    let mut b: Vec<Bonus> = Vec::new();
    b.push(Bonus::new(s1, v1));
    b.push(Bonus::new(s2, v2));
    b.push(Bonus::new(s3, v3));
    proof {
        assert(b@ =~= seq![
            (Bonus { stat: s1, val: v1 }),
            (Bonus { stat: s2, val: v2 }),
            (Bonus { stat: s3, val: v3 }),
        ]);
    }
    Bonuses::new(b)
}

/// The static catalog of candidate bonuses: a gem pool, an enchantment pool
/// per slot, and a food pool. Read-only configuration owned by the scorer.
pub struct BestBonusFinder {
    pub gem_pool: Vec<Gem>,
    pub enchant_pool: Vec<Vec<Enchantment>>,
    pub food_pool: Vec<Food>,
}

impl BestBonusFinder {
    /// The pooled gems, in pool order.
    pub open spec fn spec_gems(self) -> Seq<GemView> {
        self.gem_pool@.map_values(|g: Gem| g@)
    }

    /// The enchantments pooled for `slot`, in pool order.
    pub open spec fn spec_enchants(self, slot: ItemSlot) -> Seq<EnchantmentView> {
        self.enchant_pool@[slot.index_spec()]@.map_values(|e: Enchantment| e@)
    }

    /// The pooled foods, in pool order.
    pub open spec fn spec_foods(self) -> Seq<FoodView> {
        self.food_pool@.map_values(|f: Food| f@)
    }

    /// Well-formedness: at least two pooled gems (so a fallback exists when
    /// the universal gem is barred), at most one of them the universal gem,
    /// and a non-empty enchantment pool for every slot.
    pub open spec fn wf(self) -> bool {
        &&& self.spec_gems().len() >= 2
        &&& forall|i: int, j: int| 0 <= i < self.spec_gems().len()
            && 0 <= j < self.spec_gems().len()
            && is_tear(#[trigger] self.spec_gems()[i]) && is_tear(#[trigger] self.spec_gems()[j])
            ==> i == j
        &&& self.enchant_pool@.len() == SLOT_COUNT
        &&& forall|s: ItemSlot| (#[trigger] self.spec_enchants(s)).len() > 0
    }
}


/// The all-zero reference profile.
pub open spec fn zero_stats() -> CurStats {
    CurStats {
        agility: 0,
        attack_power: 0,
        crit_rate: 0,
        apr: 0,
        expertise_rate: 0,
        haste_rate: 0,
        hit_rate: 0,
        strength: 0,
        stamina: 0,
    }
}

/// Whether a food is worth trying: its bonuses grant a strictly positive
/// incremental centi-gain against an empty profile.
pub open spec fn food_useful(f: FoodView, reqs: Seq<Requirement>) -> bool {
    bonuses_gain(f.bonuses, zero_stats(), reqs) > 0
}

/// The views of a sequence of foods.
pub open spec fn food_views(s: Seq<Food>) -> Seq<FoodView> {
    s.map_values(|f: Food| f@)
}

/// The useful foods among the first `n` of the pool, pool order preserved.
pub open spec fn useful_foods_upto(pool: Seq<FoodView>, reqs: Seq<Requirement>, n: int) -> Seq<FoodView>
    decreases n,
{
    if n <= 0 {
        Seq::empty()
    } else {
        let pre = useful_foods_upto(pool, reqs, n - 1);
        if food_useful(pool[n - 1], reqs) {
            pre.push(pool[n - 1])
        } else {
            pre
        }
    }
}

/// The useful foods of a pool, pool order preserved.
pub open spec fn useful_foods(pool: Seq<FoodView>, reqs: Seq<Requirement>) -> Seq<FoodView> {
    useful_foods_upto(pool, reqs, pool.len() as int)
}

impl BestBonusFinder {
    /// The fixed catalog: the pooled gems, one enchantment pool per slot,
    /// and the pooled foods — exactly the default catalog. Configuration
    /// data, not search logic.
    #[verifier::rlimit(100)]
    pub fn new() -> (r: Self)
        ensures
            r.wf(),
            r.spec_gems() == default_gems(),
            forall|s: ItemSlot| #[trigger] r.spec_enchants(s) == default_enchants(s),
            r.spec_foods() == default_foods(),
    {
        let mut gem_pool: Vec<Gem> = Vec::new();
        gem_pool.push(Gem::new(
            colors1(Color::Red),
            bonuses1(Stat::APR, 20),
            String::from_str("fractured"),
        ));
        gem_pool.push(Gem::new(
            colors1(Color::Yellow),
            bonuses1(Stat::HasteRate, 20),
            String::from_str("quick"),
        ));
        gem_pool.push(Gem::new(
            colors1(Color::Red),
            bonuses1(Stat::Agility, 20),
            String::from_str("delicate"),
        ));
        gem_pool.push(Gem::new(
            colors1(Color::Yellow),
            bonuses1(Stat::HitRate, 20),
            String::from_str("rigid"),
        ));
        gem_pool.push(Gem::new(
            colors1(Color::Red),
            bonuses1(Stat::ExpertiseRate, 20),
            String::from_str("precise"),
        ));
        gem_pool.push(Gem::new(
            colors2(Color::Red, Color::Yellow),
            bonuses2(Stat::Agility, 10, Stat::CritRate, 10),
            String::from_str("deadly"),
        ));
        gem_pool.push(Gem::new(
            colors2(Color::Red, Color::Yellow),
            bonuses2(Stat::ExpertiseRate, 10, Stat::HitRate, 10),
            String::from_str("accurate"),
        ));
        gem_pool.push(Gem::new(
            colors2(Color::Red, Color::Yellow),
            bonuses2(Stat::Agility, 10, Stat::HasteRate, 10),
            String::from_str("deft"),
        ));
        gem_pool.push(Gem::new(
            colors2(Color::Red, Color::Yellow),
            bonuses2(Stat::Agility, 10, Stat::HitRate, 10),
            String::from_str("glinting"),
        ));
        gem_pool.push(Gem::new(
            colors2(Color::Red, Color::Blue),
            bonuses1(Stat::APR, 10),
            String::from_str("puissant"),
        ));
        gem_pool.push(Gem::new(
            colors3(Color::Red, Color::Blue, Color::Yellow),
            bonuses3(Stat::Agility, 10, Stat::Strength, 10, Stat::Stamina, 10),
            String::from_str("Nightmare's Tear"),
        ));
        let mut enchant_pool: Vec<Vec<Enchantment>> = Vec::new();
        let mut i: usize = 0;
        while i < SLOT_COUNT
            invariant
                i <= SLOT_COUNT,
                enchant_pool@.len() == i,
                forall|j: int| 0 <= j < i
                    ==> (#[trigger] enchant_pool@[j])@.map_values(|e: Enchantment| e@)
                        =~= seq![default_enchants(ItemSlot::from_index_spec(j))[0]],
            decreases SLOT_COUNT - i,
        {
            let item_slot = ItemSlot::from_index(i);
            let mut pool: Vec<Enchantment> = Vec::new();
            pool.push(Enchantment::new(
                item_slot,
                bonuses1(Stat::Agility, 20),
                String::from_str("temp_agi"),
            ));
            enchant_pool.push(pool);
            i = i + 1;
        }
        let gloves = ItemSlot::Gloves.index();
        let ghost pre_gloves = enchant_pool@[gloves as int]@;
        proof {
            assert(ItemSlot::from_index_spec(gloves as int) == ItemSlot::Gloves);
            assert(pre_gloves.map_values(|e: Enchantment| e@)
                =~= seq![default_enchants(ItemSlot::Gloves)[0]]);
            assert(pre_gloves.len() == 1);
            assert(pre_gloves.map_values(|e: Enchantment| e@)[0] == pre_gloves[0]@);
            assert(pre_gloves[0]@ == default_enchants(ItemSlot::Gloves)[0]);
        }
        enchant_pool[gloves].push(Enchantment::new(
            ItemSlot::Gloves,
            bonuses1(Stat::ExpertiseRate, 15),
            String::from_str("expertise"),
        ));
        enchant_pool[gloves].push(Enchantment::new(
            ItemSlot::Gloves,
            bonuses1(Stat::AttackPower, 44),
            String::from_str("crusher"),
        ));
        enchant_pool[gloves].push(Enchantment::new(
            ItemSlot::Gloves,
            bonuses1(Stat::HitRate, 20),
            String::from_str("precision"),
        ));
        proof {
            assert(enchant_pool@[gloves as int]@.len() == 4);
            assert(enchant_pool@[gloves as int]@[0] == pre_gloves[0]);
            assert(enchant_pool@[gloves as int]@.map_values(|e: Enchantment| e@)
                =~~= default_enchants(ItemSlot::Gloves));
        }
        let mut food_pool: Vec<Food> = Vec::new();
        food_pool.push(Food::new(
            String::from_str("crit loin"),
            bonuses1(Stat::CritRate, 40),
        ));
        food_pool.push(Food::new(
            String::from_str("agility loin"),
            bonuses1(Stat::Agility, 40),
        ));
        let r = Self { gem_pool, enchant_pool, food_pool };
        proof {
            assert(r.spec_gems() =~~= default_gems());
            assert(r.spec_foods() =~~= default_foods());
            assert forall|s: ItemSlot| #[trigger] r.spec_enchants(s) == default_enchants(s) by {
                assert(0 <= s.index_spec() < SLOT_COUNT);
                assert(ItemSlot::from_index_spec(s.index_spec()) == s);
                if s == ItemSlot::Gloves {
                    assert(r.enchant_pool@[s.index_spec()]@.map_values(|e: Enchantment| e@)
                        =~~= default_enchants(s));
                    assert(r.spec_enchants(s) =~~= default_enchants(s));
                } else {
                    assert(r.enchant_pool@[s.index_spec()]@.map_values(|e: Enchantment| e@)
                        =~= seq![default_enchants(s)[0]]);
                    assert(r.spec_enchants(s) =~~= default_enchants(s));
                }
            }
            assert forall|i2: int, j2: int| 0 <= i2 < r.spec_gems().len()
                && 0 <= j2 < r.spec_gems().len()
                && is_tear(#[trigger] r.spec_gems()[i2]) && is_tear(#[trigger] r.spec_gems()[j2])
                implies i2 == j2 by {
                reveal_strlit("fractured");
                reveal_strlit("quick");
                reveal_strlit("delicate");
                reveal_strlit("rigid");
                reveal_strlit("precise");
                reveal_strlit("deadly");
                reveal_strlit("accurate");
                reveal_strlit("deft");
                reveal_strlit("glinting");
                reveal_strlit("puissant");
                reveal_strlit("Nightmare's Tear");
                assert(is_tear(r.spec_gems()[i2]) ==> i2 == 10) by {
                    if i2 != 10 {
                        assert(r.spec_gems()[i2].name.len() != "Nightmare's Tear"@.len());
                    }
                };
                assert(is_tear(r.spec_gems()[j2]) ==> j2 == 10) by {
                    if j2 != 10 {
                        assert(r.spec_gems()[j2].name.len() != "Nightmare's Tear"@.len());
                    }
                };
            }
        }
        r
    }

    /// Incremental centi-gain of one bonus against `reference`, summed over
    /// the requirements that speak of the bonus's stat.
    fn get_gain_by_bonus(&self, bonus: &Bonus, reference: &CurStats, reqs: &Vec<Requirement>) -> (g: i128)
        ensures
            g as int == bonus_gain(*bonus, *reference, reqs@),
    {
        let n = reqs.len();
        let mut gain: i128 = 0;
        let mut i: usize = 0;
        while i < n
            invariant
                i <= n,
                n == reqs.len(),
                gain as int == bonus_gain_upto(*bonus, *reference, reqs@, i as int),
            decreases n - i,
        {
            let term: i128 = match &reqs[i] {
                Requirement::RequirementCap(cap) => {
                    if cap.get_stat() == bonus.get_stat() {
                        cap.calculate_gain_incremental(
                            bonus.get_val(),
                            reference.get_stat_val(bonus.get_stat()),
                        )
                    } else {
                        0
                    }
                },
                Requirement::RequirementWeighted(weighted) => {
                    if weighted.get_stat() == bonus.get_stat() {
                        weighted.calculate_gain(bonus.get_val())
                    } else {
                        0
                    }
                },
            };
            gain = sat_add_i128(gain, term);
            i = i + 1;
        }
        gain
    }

    /// A candidate's score: the summed incremental centi-gain of its
    /// bonuses against `reference`. Never negative.
    fn score_bonuses(&self, bonuses: &Bonuses, reference: &CurStats, reqs: &Vec<Requirement>) -> (s: i128)
        ensures
            s as int == bonuses_gain(bonuses@, *reference, reqs@),
            s >= 0,
    {
        let list = bonuses.iter();
        let n = list.len();
        let mut score: i128 = 0;
        let mut i: usize = 0;
        while i < n
            invariant
                i <= n,
                n == list.len(),
                list@ == bonuses@,
                score as int == bonuses_gain_upto(bonuses@, *reference, reqs@, i as int),
            decreases n - i,
        {
            let g = self.get_gain_by_bonus(&list[i], reference, reqs);
            score = sat_add_i128(score, g);
            i = i + 1;
        }
        proof {
            lemma_bonuses_gain_nonneg(bonuses@, *reference, reqs@, n as int);
        }
        score
    }

    /// The sort keys of the gem pool against `reference`.
    fn compute_gem_keys(&self, reference: &CurStats, reqs: &Vec<Requirement>) -> (keys: Vec<i128>)
        ensures
            int_keys(keys@) == gem_keys(self.spec_gems(), *reference, reqs@),
            keys@.len() == self.spec_gems().len(),
            forall|j: int| 0 <= j < keys@.len() ==> keys@[j] >= 0,
    {
        let n = self.gem_pool.len();
        let mut keys: Vec<i128> = Vec::new();
        let mut i: usize = 0;
        while i < n
            invariant
                i <= n,
                n == self.gem_pool@.len(),
                keys@.len() == i,
                forall|j: int| 0 <= j < i ==> #[trigger] keys@[j] >= 0
                    && keys@[j] as int == gem_keys(self.spec_gems(), *reference, reqs@)[j],
            decreases n - i,
        {
            let g = &self.gem_pool[i];
            let k = self.score_bonuses(g.get_bonuses(), reference, reqs);
            proof {
                assert(self.spec_gems()[i as int] == self.gem_pool@[i as int]@);
            }
            keys.push(k);
            i = i + 1;
        }
        proof {
            assert(int_keys(keys@) =~= gem_keys(self.spec_gems(), *reference, reqs@));
        }
        keys
    }

    /// The best gem of the pool by summed incremental gain against
    /// `reference`, ties broken toward the later pool entry. When the
    /// universal gem ranks first but `allow_tear` is false, the
    /// second-ranked gem is handed out instead.
    pub fn get_best_gem(&self, reference: &CurStats, reqs: &Vec<Requirement>, allow_tear: bool) -> (r: Gem)
        requires
            self.wf(),
        ensures
            r@ == chosen_gem(*self, *reference, reqs@, allow_tear),
    {
        let keys = self.compute_gem_keys(reference, reqs);
        let i0 = argmax_last(&keys);
        let top = &self.gem_pool[i0];
        proof {
            assert(self.spec_gems()[i0 as int] == self.gem_pool@[i0 as int]@);
        }
        if !allow_tear && gem_is_tear(top) {
            let mut keys2 = keys.clone();
            proof {
                assert(keys2@ =~= keys@);
            }
            keys2[i0] = -1;
            proof {
                assert(int_keys(keys2@) =~= int_keys(keys@).update(i0 as int, -1));
            }
            let i1 = argmax_last(&keys2);
            proof {
                assert(self.spec_gems()[i1 as int] == self.gem_pool@[i1 as int]@);
            }
            self.gem_pool[i1].clone()
        } else {
            top.clone()
        }
    }

    /// The best enchantment pooled for `slot` by summed incremental gain
    /// against `reference`, ties broken toward the later pool entry.
    pub fn get_best_enchantment_by_slot(
        &self,
        slot: ItemSlot,
        reference: &CurStats,
        reqs: &Vec<Requirement>,
    ) -> (r: Enchantment)
        requires
            self.wf(),
        ensures
            r@ == chosen_enchant(*self, slot, *reference, reqs@),
    {
        let idx = slot.index();
        let n = self.enchant_pool[idx].len();
        let ghost pool = self.spec_enchants(slot);
        let mut keys: Vec<i128> = Vec::new();
        let mut i: usize = 0;
        while i < n
            invariant
                i <= n,
                idx == slot.index_spec(),
                idx < self.enchant_pool@.len(),
                n == self.enchant_pool@[idx as int]@.len(),
                pool == self.spec_enchants(slot),
                pool.len() == n,
                keys@.len() == i,
                forall|j: int| 0 <= j < i
                    ==> #[trigger] keys@[j] as int == enchant_keys(pool, *reference, reqs@)[j],
            decreases n - i,
        {
            let e = &self.enchant_pool[idx][i];
            let k = self.score_bonuses(e.get_bonuses(), reference, reqs);
            proof {
                assert(pool[i as int] == self.enchant_pool@[idx as int]@[i as int]@);
            }
            keys.push(k);
            i = i + 1;
        }
        proof {
            assert(int_keys(keys@) =~= enchant_keys(pool, *reference, reqs@));
        }
        let b = argmax_last(&keys);
        proof {
            assert(pool[b as int] == self.enchant_pool@[idx as int]@[b as int]@);
        }
        self.enchant_pool[idx][b].clone()
    }

    /// Every pooled food whose bonuses grant a strictly positive
    /// incremental gain against an empty profile, pool order preserved.
    pub fn get_useful_food(&self, reqs: &Vec<Requirement>) -> (r: Vec<Food>)
        ensures
            food_views(r@) == useful_foods(self.spec_foods(), reqs@),
    {
        let cur_stats_clear = CurStats::new();
        proof {
            assert(cur_stats_clear == zero_stats());
        }
        let n = self.food_pool.len();
        let mut r: Vec<Food> = Vec::new();
        let mut i: usize = 0;
        while i < n
            invariant
                i <= n,
                n == self.food_pool@.len(),
                cur_stats_clear == zero_stats(),
                food_views(r@) == useful_foods_upto(self.spec_foods(), reqs@, i as int),
            decreases n - i,
        {
            let f = &self.food_pool[i];
            let score = self.score_bonuses(f.get_bonuses(), &cur_stats_clear, reqs);
            proof {
                assert(self.spec_foods()[i as int] == self.food_pool@[i as int]@);
            }
            if score > 0 {
                let ghost before = food_views(r@);
                r.push(f.clone());
                proof {
                    assert(food_views(r@) =~= before.push(self.spec_foods()[i as int]));
                }
            }
            i = i + 1;
        }
        r
    }
}
} // verus!
