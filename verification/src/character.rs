//! The character side of the search state: the accumulated stat profile,
//! the locked equipment build, and the rotation of alternative items.

use vstd::prelude::*;
use itertools::Itertools;
use crate::text::{decimal_digits, u32_to_string};
use crate::{Stat, Bonus, ItemSlot, SLOT_COUNT, sat32};
use crate::items::{Item, ItemView, item_views};
use crate::requirements::{Requirement, gain_upto, gain_spec, sat_add_i128};

verus! {

/// Add two stat magnitudes, saturating at `u32::MAX`.
pub fn sat_add_u32(a: u32, b: u32) -> (r: u32)
    ensures
        r as int == sat32(a as int + b as int),
{
    if a > u32::MAX - b {
        u32::MAX
    } else {
        a + b
    }
}

/// A stat profile: every stat mapped to a non-negative accumulated
/// magnitude. A stat never raised reads as zero.
#[derive(Clone, Copy)]
pub struct CurStats {
    pub agility: u32,
    pub attack_power: u32,
    pub crit_rate: u32,
    pub apr: u32,
    pub expertise_rate: u32,
    pub haste_rate: u32,
    pub hit_rate: u32,
    pub strength: u32,
    pub stamina: u32,
}

impl CurStats {
    /// The magnitude this profile holds for `stat`.
    pub open spec fn spec_get(self, stat: Stat) -> u32 {
        match stat {
            Stat::Agility => self.agility,
            Stat::AttackPower => self.attack_power,
            Stat::CritRate => self.crit_rate,
            Stat::APR => self.apr,
            Stat::ExpertiseRate => self.expertise_rate,
            Stat::HasteRate => self.haste_rate,
            Stat::HitRate => self.hit_rate,
            Stat::Strength => self.strength,
            Stat::Stamina => self.stamina,
        }
    }

    /// This profile with `stat` replaced by `val`.
    pub open spec fn with_stat_set(self, stat: Stat, val: u32) -> CurStats {
        match stat {
            Stat::Agility => CurStats { agility: val, ..self },
            Stat::AttackPower => CurStats { attack_power: val, ..self },
            Stat::CritRate => CurStats { crit_rate: val, ..self },
            Stat::APR => CurStats { apr: val, ..self },
            Stat::ExpertiseRate => CurStats { expertise_rate: val, ..self },
            Stat::HasteRate => CurStats { haste_rate: val, ..self },
            Stat::HitRate => CurStats { hit_rate: val, ..self },
            Stat::Strength => CurStats { strength: val, ..self },
            Stat::Stamina => CurStats { stamina: val, ..self },
        }
    }

    /// This profile with one bonus applied, saturating at `u32::MAX`.
    pub open spec fn with_stat_added(self, b: Bonus) -> CurStats {
        self.with_stat_set(b.stat, sat32(self.spec_get(b.stat) + b.val) as u32)
    }

    /// The all-zero profile.
    pub fn new() -> (r: Self)
        ensures
            forall|s: Stat| r.spec_get(s) == 0,
            r == (CurStats {
                agility: 0,
                attack_power: 0,
                crit_rate: 0,
                apr: 0,
                expertise_rate: 0,
                haste_rate: 0,
                hit_rate: 0,
                strength: 0,
                stamina: 0,
            }),
    {
        Self {
            agility: 0,
            attack_power: 0,
            crit_rate: 0,
            apr: 0,
            expertise_rate: 0,
            haste_rate: 0,
            hit_rate: 0,
            strength: 0,
            stamina: 0,
        }
    }

    /// Replace the magnitude of `stat` by `val`.
    pub fn set_stat(&mut self, stat: Stat, val: u32)
        ensures
            *final(self) == old(self).with_stat_set(stat, val),
            final(self).spec_get(stat) == val,
            forall|s: Stat| s != stat ==> final(self).spec_get(s) == old(self).spec_get(s),
    {
        match stat {
            Stat::Agility => self.agility = val,
            Stat::AttackPower => self.attack_power = val,
            Stat::CritRate => self.crit_rate = val,
            Stat::APR => self.apr = val,
            Stat::ExpertiseRate => self.expertise_rate = val,
            Stat::HasteRate => self.haste_rate = val,
            Stat::HitRate => self.hit_rate = val,
            Stat::Strength => self.strength = val,
            Stat::Stamina => self.stamina = val,
        }
    }

    /// Raise the magnitude of `stat` by `val`, saturating at `u32::MAX`.
    pub fn add_stat(&mut self, stat: Stat, val: u32)
        ensures
            *final(self) == old(self).with_stat_added((Bonus { stat, val })),
            final(self).spec_get(stat) == sat32(old(self).spec_get(stat) + val),
            forall|s: Stat| s != stat ==> final(self).spec_get(s) == old(self).spec_get(s),
    {
        let cur = self.get_stat_val(stat);
        self.set_stat(stat, sat_add_u32(cur, val));
    }

    pub fn get_stat_val(&self, stat: Stat) -> (v: u32)
        ensures
            v == self.spec_get(stat),
    {
        match stat {
            Stat::Agility => self.agility,
            Stat::AttackPower => self.attack_power,
            Stat::CritRate => self.crit_rate,
            Stat::APR => self.apr,
            Stat::ExpertiseRate => self.expertise_rate,
            Stat::HasteRate => self.haste_rate,
            Stat::HitRate => self.hit_rate,
            Stat::Strength => self.strength,
            Stat::Stamina => self.stamina,
        }
    }

    /// Reset every stat to zero.
    pub fn clear(&mut self)
        ensures
            forall|s: Stat| final(self).spec_get(s) == 0,
    {
        *self = CurStats::new();
    }

    /// The entries of this profile that hold a non-zero magnitude, in
    /// canonical stat order.
    pub open spec fn entries_spec(self) -> Seq<(Stat, u32)> {
        self.entry_spec(Stat::Agility) + self.entry_spec(Stat::AttackPower)
            + self.entry_spec(Stat::CritRate) + self.entry_spec(Stat::APR)
            + self.entry_spec(Stat::ExpertiseRate) + self.entry_spec(Stat::HasteRate)
            + self.entry_spec(Stat::HitRate) + self.entry_spec(Stat::Strength)
            + self.entry_spec(Stat::Stamina)
    }

    /// The singleton entry for `stat`, or nothing when its magnitude is zero.
    pub open spec fn entry_spec(self, stat: Stat) -> Seq<(Stat, u32)> {
        if self.spec_get(stat) == 0 {
            Seq::empty()
        } else {
            seq![(stat, self.spec_get(stat))]
        }
    }

    /// The non-zero stats of this profile, in canonical order.
    pub fn iter_stats(&self) -> (r: Vec<(Stat, u32)>)
        ensures
            r@ == self.entries_spec(),
    {
        let mut r: Vec<(Stat, u32)> = Vec::new();
        self.push_entry(&mut r, Stat::Agility);
        self.push_entry(&mut r, Stat::AttackPower);
        self.push_entry(&mut r, Stat::CritRate);
        self.push_entry(&mut r, Stat::APR);
        self.push_entry(&mut r, Stat::ExpertiseRate);
        self.push_entry(&mut r, Stat::HasteRate);
        self.push_entry(&mut r, Stat::HitRate);
        self.push_entry(&mut r, Stat::Strength);
        self.push_entry(&mut r, Stat::Stamina);
        proof {
            assert(r@ =~= self.entries_spec());
        }
        r
    }

    /// Append the entry for `stat`, when it holds a non-zero magnitude.
    fn push_entry(&self, r: &mut Vec<(Stat, u32)>, stat: Stat)
        ensures
            final(r)@ == old(r)@ + self.entry_spec(stat),
    {
        let v = self.get_stat_val(stat);
        if v != 0 {
            r.push((stat, v));
        }
        proof {
            assert(r@ =~= old(r)@ + self.entry_spec(stat));
        }
    }

    /// One line of the report: the stat's name and its magnitude.
    pub open spec fn stat_line(e: (Stat, u32)) -> Seq<char> {
        e.0.name_spec() + ": "@ + decimal_digits(e.1 as int) + "\n"@
    }

    /// The report lines of the first `n` entries, in order.
    pub open spec fn stats_text_upto(entries: Seq<(Stat, u32)>, n: int) -> Seq<char>
        decreases n,
    {
        if n <= 0 {
            Seq::empty()
        } else {
            Self::stats_text_upto(entries, n - 1) + Self::stat_line(entries[n - 1])
        }
    }

    /// The full stat report: one line per non-zero stat, canonical order.
    pub open spec fn stats_text(entries: Seq<(Stat, u32)>) -> Seq<char> {
        Self::stats_text_upto(entries, entries.len() as int)
    }

    /// Render the non-zero stats, one `name: value` line each, in
    /// canonical order.
    pub fn to_string(&self) -> (r: String)
        ensures
            r@ == Self::stats_text(self.entries_spec()),
    {
        let entries = self.iter_stats();
        let n = entries.len();
        let mut res = String::new();
        let mut i: usize = 0;
        while i < n
            invariant
                i <= n,
                n == entries@.len(),
                entries@ == self.entries_spec(),
                res@ == Self::stats_text_upto(self.entries_spec(), i as int),
            decreases n - i,
        {
            let (stat, v) = entries[i];
            res.append(stat.name());
            res.append(": ");
            let num = u32_to_string(v);
            res.append(num.as_str());
            res.append("\n");
            proof {
                assert(res@ =~= Self::stats_text_upto(self.entries_spec(), i as int + 1));
            }
            i = i + 1;
        }
        res
    }

    /// The profile holding, stat for stat, the sum of this profile and
    /// `other`, each sum saturating at `u32::MAX`.
    pub fn sum_of(&self, other: &CurStats) -> (r: CurStats)
        ensures
            forall|s: Stat| r.spec_get(s) == sat32(self.spec_get(s) + other.spec_get(s)),
    {
        CurStats {
            agility: sat_add_u32(self.agility, other.agility),
            attack_power: sat_add_u32(self.attack_power, other.attack_power),
            crit_rate: sat_add_u32(self.crit_rate, other.crit_rate),
            apr: sat_add_u32(self.apr, other.apr),
            expertise_rate: sat_add_u32(self.expertise_rate, other.expertise_rate),
            haste_rate: sat_add_u32(self.haste_rate, other.haste_rate),
            hit_rate: sat_add_u32(self.hit_rate, other.hit_rate),
            strength: sat_add_u32(self.strength, other.strength),
            stamina: sat_add_u32(self.stamina, other.stamina),
        }
    }

    /// Total centi-gain of this profile under a requirement list.
    pub fn calculate_gain(&self, reqs: &Vec<Requirement>) -> (g: i128)
        ensures
            g as int == gain_spec(*self, reqs@),
    {
        let n = reqs.len();
        let mut gain: i128 = 0;
        let mut i: usize = 0;
        while i < n
            invariant
                i <= n,
                n == reqs.len(),
                gain as int == gain_upto(*self, reqs@, i as int),
            decreases n - i,
        {
            let term: i128 = match &reqs[i] {
                Requirement::RequirementCap(cap) => cap.calculate_gain(
                    self.get_stat_val(cap.stat),
                ),
                Requirement::RequirementWeighted(weighted) => weighted.calculate_gain(
                    self.get_stat_val(weighted.stat),
                ),
            };
            gain = sat_add_i128(gain, term);
            i = i + 1;
        }
        gain
    }
}


/// The view of an optional item.
pub open spec fn opt_item_view(o: Option<Item>) -> Option<ItemView> {
    match o {
        Option::None => Option::None,
        Option::Some(i) => Option::Some(i@),
    }
}

/// Clone an optional item; the clone's view is the original's view.
pub fn clone_opt_item(o: &Option<Item>) -> (r: Option<Item>)
    ensures
        opt_item_view(r) == opt_item_view(*o),
{
    match o {
        Option::None => Option::None,
        Option::Some(i) => Option::Some(i.clone()),
    }
}

/// The locked equipment build: one optional item per defined slot, held in
/// canonical slot order.
pub struct ItemBuild {
    pub slots: Vec<Option<Item>>,
}

impl ItemBuild {
    /// Well-formedness: one entry per defined slot.
    pub open spec fn wf(self) -> bool {
        self.slots@.len() == SLOT_COUNT
    }

    /// The item locked into `slot`, if any.
    pub open spec fn spec_item(self, slot: ItemSlot) -> Option<ItemView> {
        opt_item_view(self.slots@[slot.index_spec()])
    }

    /// An empty build: every slot open.
    pub fn new() -> (r: Self)
        ensures
            r.wf(),
            forall|s: ItemSlot| r.spec_item(s) is None,
    {
        let mut slots: Vec<Option<Item>> = Vec::new();
        let mut i: usize = 0;
        while i < SLOT_COUNT
            invariant
                i <= SLOT_COUNT,
                slots@.len() == i,
                forall|j: int| 0 <= j < i ==> slots@[j] is None,
            decreases SLOT_COUNT - i,
        {
            slots.push(Option::None);
            i = i + 1;
        }
        ItemBuild { slots }
    }

    /// Lock `item` into the slot it is made for, replacing what was there.
    pub fn lock_item(&mut self, item: Item)
        requires
            old(self).wf(),
        ensures
            final(self).wf(),
            final(self).spec_item(item@.slot) == Option::Some(item@),
            forall|s: ItemSlot| s != item@.slot
                ==> final(self).spec_item(s) == old(self).spec_item(s),
    {
        let idx = item.get_slot().index();
        self.slots[idx] = Option::Some(item);
        proof {
            assert forall|s: ItemSlot| s != ItemSlot::from_index_spec(idx as int)
                implies final(self).spec_item(s) == old(self).spec_item(s) by {
                assert(s.index_spec() != idx as int);
            }
        }
    }

    /// The item locked into `slot`, or nothing.
    pub fn get_item(&self, slot: ItemSlot) -> (r: &Option<Item>)
        requires
            self.wf(),
        ensures
            opt_item_view(*r) == self.spec_item(slot),
    {
        &self.slots[slot.index()]
    }

    /// Walk the build in canonical slot order.
    pub fn item_iter(&self) -> (r: ItemBuildIter<'_>)
        ensures
            r.curr_pos == 0,
            r.target == self,
    {
        ItemBuildIter { curr_pos: 0, target: self }
    }

    /// Open every slot again.
    pub fn clear(&mut self)
        ensures
            final(self).wf(),
            forall|s: ItemSlot| final(self).spec_item(s) is None,
    {
        *self = ItemBuild::new();
    }
}

/// A walk over an `ItemBuild` in canonical slot order.
pub struct ItemBuildIter<'a> {
    pub curr_pos: usize,
    pub target: &'a ItemBuild,
}

impl<'a> ItemBuildIter<'a> {
    /// The next slot and a copy of what it holds, or nothing once every
    /// slot has been seen.
    pub fn next(&mut self) -> (r: Option<(ItemSlot, Option<Item>)>)
        requires
            old(self).target.wf(),
        ensures
            final(self).target == old(self).target,
            old(self).curr_pos >= SLOT_COUNT ==> r is None && final(self).curr_pos == old(self).curr_pos,
            old(self).curr_pos < SLOT_COUNT ==> {
                &&& final(self).curr_pos == old(self).curr_pos + 1
                &&& r matches Some(p) && p.0 == ItemSlot::from_index_spec(old(self).curr_pos as int)
                    && opt_item_view(p.1) == old(self).target.spec_item(p.0)
            },
    {
        if self.curr_pos >= SLOT_COUNT {
            return Option::None;
        }
        let slot = ItemSlot::from_index(self.curr_pos);
        let item = clone_opt_item(self.target.get_item(slot));
        self.curr_pos = self.curr_pos + 1;
        Option::Some((slot, item))
    }
}

/// How many elements the cartesian product over `pools` has: the product of
/// the pool sizes, with the empty list of pools counting one (empty) element.
pub open spec fn product_count(pools: Seq<Seq<ItemView>>) -> nat
    decreases pools.len(),
{
    if pools.len() == 0 {
        1
    } else {
        product_count(pools.drop_last()) * pools.last().len()
    }
}

/// Element `n` of the cartesian product over `pools`, in the order where
/// the first pool varies slowest and the last pool varies fastest.
pub open spec fn product_elem(pools: Seq<Seq<ItemView>>, n: int) -> Seq<ItemView>
    decreases pools.len(),
{
    if pools.len() == 0 {
        Seq::empty()
    } else {
        product_elem(pools.drop_last(), n / pools.last().len() as int)
            .push(pools.last()[n % pools.last().len() as int])
    }
}

/// The views of a list of item pools.
pub open spec fn pools_views(pools: Seq<Vec<Item>>) -> Seq<Seq<ItemView>> {
    pools.map_values(|p: Vec<Item>| item_views(p@))
}

/// Relies on itertools' `multi_cartesian_product`: it yields the products
/// of the pools in order, the last pool varying fastest; with no pools at
/// all it yields exactly one empty product, and with any empty pool none.
#[verifier::external_body]
fn nth_product(pools: &Vec<Vec<Item>>, n: usize) -> (r: Option<Vec<Item>>)
    ensures
        (r is Some) == (n < product_count(pools_views(pools@))),
        r matches Some(v) ==> item_views(v@) == product_elem(pools_views(pools@), n as int),
{
    pools.iter().map(|p| p.iter().cloned()).multi_cartesian_product().nth(n)
}

/// The per-slot alternatives considered for rotation: a pool of items for
/// every slot, and the list of slots that take part, in registration order.
pub struct Rotatables {
    pub rotatable_items: Vec<Vec<Item>>,
    pub which_slots_to_rotate: Vec<ItemSlot>,
}

impl Rotatables {
    /// Well-formedness: one pool per defined slot, every registered slot's
    /// pool is non-empty, no slot is registered twice, and every pooled
    /// item is made for the slot it is pooled under.
    pub open spec fn wf(self) -> bool {
        &&& self.rotatable_items@.len() == SLOT_COUNT
        &&& forall|i: int| 0 <= i < self.which_slots_to_rotate@.len()
            ==> self.rotatable_items@[(#[trigger] self.which_slots_to_rotate@[i]).index_spec()]@.len() > 0
        &&& forall|i: int, j: int| 0 <= i < self.which_slots_to_rotate@.len()
            && 0 <= j < self.which_slots_to_rotate@.len() && i != j
            ==> self.which_slots_to_rotate@[i] != self.which_slots_to_rotate@[j]
        &&& forall|s: ItemSlot, k: int| 0 <= k < self.spec_pool(s).len()
            ==> (#[trigger] self.spec_pool(s)[k]).slot == s
    }

    /// The pool of alternatives registered for `slot`.
    pub open spec fn spec_pool(self, slot: ItemSlot) -> Seq<ItemView> {
        item_views(self.rotatable_items@[slot.index_spec()]@)
    }

    /// The registered slots, in registration order.
    pub open spec fn spec_slots(self) -> Seq<ItemSlot> {
        self.which_slots_to_rotate@
    }

    /// The pools of the registered slots, in registration order.
    pub open spec fn ordered_pools_spec(self) -> Seq<Seq<ItemView>> {
        Seq::new(self.spec_slots().len(), |i: int| self.spec_pool(self.spec_slots()[i]))
    }

    /// No alternatives registered yet.
    pub fn new() -> (r: Self)
        ensures
            r.wf(),
            r.spec_slots() == Seq::<ItemSlot>::empty(),
            forall|s: ItemSlot| r.spec_pool(s) == Seq::<ItemView>::empty(),
    {
        let mut pools: Vec<Vec<Item>> = Vec::new();
        let mut i: usize = 0;
        while i < SLOT_COUNT
            invariant
                i <= SLOT_COUNT,
                pools@.len() == i,
                forall|j: int| 0 <= j < i ==> (#[trigger] pools@[j])@.len() == 0,
            decreases SLOT_COUNT - i,
        {
            pools.push(Vec::new());
            i = i + 1;
        }
        let r = Rotatables { rotatable_items: pools, which_slots_to_rotate: Vec::new() };
        proof {
            assert forall|s: ItemSlot| r.spec_pool(s) =~= Seq::<ItemView>::empty() by {
                assert(r.rotatable_items@[s.index_spec()]@.len() == 0);
            }
        }
        r
    }

    /// Whether `slot` already takes part in the rotation.
    fn slot_registered(&self, slot: ItemSlot) -> (r: bool)
        ensures
            r == self.spec_slots().contains(slot),
    {
        let n = self.which_slots_to_rotate.len();
        let mut i: usize = 0;
        while i < n
            invariant
                i <= n,
                n == self.which_slots_to_rotate@.len(),
                forall|j: int| 0 <= j < i ==> self.which_slots_to_rotate@[j] != slot,
            decreases n - i,
        {
            if self.which_slots_to_rotate[i] == slot {
                return true;
            }
            i = i + 1;
        }
        false
    }

    /// Register `item` as one more alternative for its slot; the slot joins
    /// the rotation the first time an alternative is registered for it.
    pub fn rotate(&mut self, item: Item)
        requires
            old(self).wf(),
        ensures
            final(self).wf(),
            final(self).spec_slots() == (if old(self).spec_slots().contains(item@.slot) {
                old(self).spec_slots()
            } else {
                old(self).spec_slots().push(item@.slot)
            }),
            final(self).spec_pool(item@.slot) == old(self).spec_pool(item@.slot).push(item@),
            forall|s: ItemSlot| s != item@.slot
                ==> final(self).spec_pool(s) == old(self).spec_pool(s),
    {
        let slot = item.get_slot();
        let idx = slot.index();
        if !self.slot_registered(slot) {
            self.which_slots_to_rotate.push(slot);
        }
        let ghost before = self.rotatable_items@[idx as int]@;
        self.rotatable_items[idx].push(item);
        proof {
            assert(item_views(self.rotatable_items@[idx as int]@)
                =~= item_views(before).push(item@));
            assert forall|s: ItemSlot| s != ItemSlot::from_index_spec(idx as int)
                implies final(self).spec_pool(s) == old(self).spec_pool(s) by {
                assert(s.index_spec() != idx as int);
            }
            assert forall|s: ItemSlot, k: int| 0 <= k < final(self).spec_pool(s).len()
                implies (#[trigger] final(self).spec_pool(s)[k]).slot == s by {
                if s == ItemSlot::from_index_spec(idx as int) {
                    if k < final(self).spec_pool(s).len() - 1 {
                        assert(final(self).spec_pool(s)[k] == old(self).spec_pool(s)[k]);
                    }
                } else {
                    assert(s.index_spec() != idx as int);
                    assert(final(self).spec_pool(s) == old(self).spec_pool(s));
                }
            }
        }
    }

    /// The registered slots, in registration order.
    pub fn slots_in_rotation(&self) -> (r: &Vec<ItemSlot>)
        ensures
            r@ == self.spec_slots(),
    {
        &self.which_slots_to_rotate
    }

    /// A copy of the pool registered for `slot`. Asking for a slot that
    /// never took part in the rotation is a configuration error and is
    /// excluded here.
    pub fn get_from_slot(&self, slot: ItemSlot) -> (r: Vec<Item>)
        requires
            self.wf(),
            self.spec_slots().contains(slot),
        ensures
            item_views(r@) == self.spec_pool(slot),
    {
        let r = self.rotatable_items[slot.index()].clone();
        proof {
            assert forall|i: int| 0 <= i < r@.len()
                implies #[trigger] r@[i]@ == self.rotatable_items@[slot.index_spec()]@[i]@ by {
            }
            assert(item_views(r@) =~= self.spec_pool(slot));
        }
        r
    }

    /// Start enumerating every assignment of one alternative per registered
    /// slot.
    pub fn iter_variants(&self) -> (r: RotateVariantsGenerator)
        requires
            self.wf(),
        ensures
            r.to_skip == 0,
            pools_views(r.pools@) == self.ordered_pools_spec(),
    {
        let n = self.which_slots_to_rotate.len();
        let mut pools: Vec<Vec<Item>> = Vec::new();
        let mut i: usize = 0;
        while i < n
            invariant
                i <= n,
                n == self.which_slots_to_rotate@.len(),
                self.wf(),
                pools@.len() == i,
                forall|j: int| 0 <= j < i ==> item_views((#[trigger] pools@[j])@)
                    == self.spec_pool(self.which_slots_to_rotate@[j]),
            decreases n - i,
        {
            let slot = self.which_slots_to_rotate[i];
            proof {
                assert(self.spec_slots()[i as int] == slot);
            }
            pools.push(self.get_from_slot(slot));
            i = i + 1;
        }
        let r = RotateVariantsGenerator { to_skip: 0, pools };
        proof {
            assert(pools_views(r.pools@) =~= self.ordered_pools_spec());
        }
        r
    }
}

/// A restartable enumeration of the cartesian product of the registered
/// pools: request `n` and get the `n`-th assignment of one item per slot.
/// With no registered slots there is exactly one variant, the empty
/// assignment, and every later request signals exhaustion.
pub struct RotateVariantsGenerator {
    pub to_skip: usize,
    pub pools: Vec<Vec<Item>>,
}

impl RotateVariantsGenerator {
    /// The variant this generator will yield next, by index.
    pub open spec fn count_spec(self) -> nat {
        product_count(pools_views(self.pools@))
    }

    /// The `n`-th assignment of one item per registered slot, without
    /// advancing this generator.
    pub fn variant_at(&self, n: usize) -> (r: Option<Vec<Item>>)
        ensures
            (r is Some) == (n < self.count_spec()),
            r matches Some(v) ==> item_views(v@)
                == product_elem(pools_views(self.pools@), n as int),
    {
        nth_product(&self.pools, n)
    }

    /// The next assignment of one item per registered slot, or nothing when
    /// the product is exhausted.
    pub fn next(&mut self) -> (r: Option<Vec<Item>>)
        ensures
            final(self).pools == old(self).pools,
            final(self).to_skip == (if old(self).to_skip == usize::MAX {
                usize::MAX as int
            } else {
                old(self).to_skip + 1
            }),
            (r is Some) == (old(self).to_skip < old(self).count_spec()),
            r matches Some(v) ==> item_views(v@)
                == product_elem(pools_views(old(self).pools@), old(self).to_skip as int),
    {
        let r = self.variant_at(self.to_skip);
        if self.to_skip < usize::MAX {
            self.to_skip = self.to_skip + 1;
        }
        r
    }
}

/// Each variant of the product has one entry per pool, each drawn from its
/// own pool.
pub proof fn lemma_product_elem_shape(pools: Seq<Seq<ItemView>>, n: int)
    requires
        0 <= n < product_count(pools),
    ensures
        product_elem(pools, n).len() == pools.len(),
        forall|i: int| 0 <= i < pools.len()
            ==> pools[i].contains(#[trigger] product_elem(pools, n)[i]),
    decreases pools.len(),
{
    if pools.len() > 0 {
        let last = pools.last();
        let dl = pools.drop_last();
        assert(product_count(pools) == product_count(dl) * last.len());
        assert(last.len() > 0 && product_count(dl) > 0) by (nonlinear_arith)
            requires
                product_count(dl) * last.len() > n >= 0,
        ;
        let q = n / last.len() as int;
        let m = n % last.len() as int;
        vstd::arithmetic::div_mod::lemma_mod_bound(n, last.len() as int);
        assert(n < (last.len() as int) * (product_count(dl) as int)) by (nonlinear_arith)
            requires
                n < (product_count(dl) as int) * (last.len() as int),
        ;
        vstd::arithmetic::div_mod::lemma_multiply_divide_lt(n, last.len() as int, product_count(dl) as int);
        assert(0 <= q < product_count(dl));
        lemma_product_elem_shape(dl, q);
        let e = product_elem(pools, n);
        assert(e == product_elem(dl, q).push(last[m]));
        assert forall|i: int| 0 <= i < pools.len()
            implies pools[i].contains(#[trigger] e[i]) by {
            if i < pools.len() - 1 {
                assert(e[i] == product_elem(dl, q)[i]);
                assert(dl[i] == pools[i]);
            } else {
                assert(e[i] == last[m]);
                assert(last.contains(last[m]));
            }
        }
    }
}

/// A product of non-empty pools has at least one element.
pub proof fn lemma_product_count_positive(pools: Seq<Seq<ItemView>>)
    requires
        forall|i: int| 0 <= i < pools.len() ==> (#[trigger] pools[i]).len() > 0,
    ensures
        product_count(pools) >= 1,
    decreases pools.len(),
{
    if pools.len() > 0 {
        assert forall|i: int| 0 <= i < pools.drop_last().len()
            implies (#[trigger] pools.drop_last()[i]).len() > 0 by {
            assert(pools.drop_last()[i] == pools[i]);
        }
        lemma_product_count_positive(pools.drop_last());
        assert(pools.last().len() > 0);
        assert(product_count(pools.drop_last()) * pools.last().len() >= 1)
            by (nonlinear_arith)
            requires
                product_count(pools.drop_last()) >= 1,
                pools.last().len() >= 1,
        ;
    }
}

/// Law: with no registered slots the rotation enumerator has exactly one
/// variant, the empty assignment; every request past it signals exhaustion.
pub proof fn lemma_rotation_zero_slots()
    ensures
        product_count(Seq::<Seq<ItemView>>::empty()) == 1,
        product_elem(Seq::<Seq<ItemView>>::empty(), 0) == Seq::<ItemView>::empty(),
{
}

/// Law: with a single registered slot holding `pool`, the enumerator has
/// exactly `pool.len()` variants, and the `k`-th variant is the `k`-th
/// alternative, in registration order.
pub proof fn lemma_rotation_single_slot(pool: Seq<ItemView>, k: int)
    requires
        0 <= k < pool.len(),
    ensures
        product_count(seq![pool]) == pool.len(),
        product_elem(seq![pool], k) == seq![pool[k]],
{
    let pools = seq![pool];
    assert(pools.len() == 1);
    assert(pools.last() == pool);
    assert(pools.drop_last() =~= Seq::<Seq<ItemView>>::empty());
    assert(product_count(Seq::<Seq<ItemView>>::empty()) == 1);
    assert(product_count(pools) == 1 * pool.len());
    assert(k % pool.len() as int == k && k / pool.len() as int == 0) by {
        vstd::arithmetic::div_mod::lemma_small_mod(k as nat, pool.len() as nat);
        vstd::arithmetic::div_mod::lemma_basic_div(k, pool.len() as int);
    }
    assert(product_elem(Seq::<Seq<ItemView>>::empty(), 0) == Seq::<ItemView>::empty());
    assert(product_elem(pools, k) =~= seq![pool[k]]);
}

} // verus!
