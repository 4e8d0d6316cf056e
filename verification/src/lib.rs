//! Equipment augmentation optimizer: picks the gems, enchantments and food
//! that maximize a weighted benefit function over a character's stats,
//! subject to hard stat caps with diminishing returns.
//!
//! All weights and gains are exact fixed-point numbers: a weight is given in
//! hundredths of a gain point per stat point ("centi-weight"), and every gain
//! is likewise a whole number of hundredths of a point ("centi-gain").

use vstd::prelude::*;

pub mod character;
pub mod items;
pub mod optimizer;
pub mod requirements;
pub mod distribution;
pub mod simulator;
pub mod text;

pub use crate::character::{CurStats, ItemBuild, Rotatables};
pub use crate::items::{Item, Gem, GemSocket, Color};
pub use crate::requirements::{Requirement, RequirementCap, RequirementWeighted};
pub use crate::simulator::Simulator;

verus! {

/// Identifier of one equipment slot on a character. The set is closed and
/// ordered; `index` gives each slot its place in the canonical order.
#[derive(Clone, Copy, PartialEq, Eq, Structural, Hash, Debug)]
pub enum ItemSlot {
    Head,
    Neck,
    Shoulder,
    Back,
    Chest,
    Bracer,
    WpnMain,
    WpnOff,
    Idol,
    Gloves,
    Belt,
    Legs,
    Feet,
    Ring1,
    Ring2,
    Trinket1,
    Trinket2,
}

/// Number of defined equipment slots.
pub const SLOT_COUNT: usize = 17;

impl ItemSlot {
    /// Position of this slot in the canonical slot order.
    pub open spec fn index_spec(self) -> int {
        match self {
            ItemSlot::Head => 0,
            ItemSlot::Neck => 1,
            ItemSlot::Shoulder => 2,
            ItemSlot::Back => 3,
            ItemSlot::Chest => 4,
            ItemSlot::Bracer => 5,
            ItemSlot::WpnMain => 6,
            ItemSlot::WpnOff => 7,
            ItemSlot::Idol => 8,
            ItemSlot::Gloves => 9,
            ItemSlot::Belt => 10,
            ItemSlot::Legs => 11,
            ItemSlot::Feet => 12,
            ItemSlot::Ring1 => 13,
            ItemSlot::Ring2 => 14,
            ItemSlot::Trinket1 => 15,
            ItemSlot::Trinket2 => 16,
        }
    }

    /// The slot standing at position `i` of the canonical order.
    pub open spec fn from_index_spec(i: int) -> ItemSlot {
        if i == 0 { ItemSlot::Head }
        else if i == 1 { ItemSlot::Neck }
        else if i == 2 { ItemSlot::Shoulder }
        else if i == 3 { ItemSlot::Back }
        else if i == 4 { ItemSlot::Chest }
        else if i == 5 { ItemSlot::Bracer }
        else if i == 6 { ItemSlot::WpnMain }
        else if i == 7 { ItemSlot::WpnOff }
        else if i == 8 { ItemSlot::Idol }
        else if i == 9 { ItemSlot::Gloves }
        else if i == 10 { ItemSlot::Belt }
        else if i == 11 { ItemSlot::Legs }
        else if i == 12 { ItemSlot::Feet }
        else if i == 13 { ItemSlot::Ring1 }
        else if i == 14 { ItemSlot::Ring2 }
        else if i == 15 { ItemSlot::Trinket1 }
        else { ItemSlot::Trinket2 }
    }

    /// Executable form of `index_spec`.
    pub fn index(self) -> (i: usize)
        ensures
            i == self.index_spec(),
            i < SLOT_COUNT,
    {
        match self {
            ItemSlot::Head => 0,
            ItemSlot::Neck => 1,
            ItemSlot::Shoulder => 2,
            ItemSlot::Back => 3,
            ItemSlot::Chest => 4,
            ItemSlot::Bracer => 5,
            ItemSlot::WpnMain => 6,
            ItemSlot::WpnOff => 7,
            ItemSlot::Idol => 8,
            ItemSlot::Gloves => 9,
            ItemSlot::Belt => 10,
            ItemSlot::Legs => 11,
            ItemSlot::Feet => 12,
            ItemSlot::Ring1 => 13,
            ItemSlot::Ring2 => 14,
            ItemSlot::Trinket1 => 15,
            ItemSlot::Trinket2 => 16,
        }
    }

    /// The slot's name as a character sequence.
    pub open spec fn name_spec(self) -> Seq<char> {
        match self {
            ItemSlot::Head => "Head"@,
            ItemSlot::Neck => "Neck"@,
            ItemSlot::Shoulder => "Shoulder"@,
            ItemSlot::Back => "Back"@,
            ItemSlot::Chest => "Chest"@,
            ItemSlot::Bracer => "Bracer"@,
            ItemSlot::WpnMain => "WpnMain"@,
            ItemSlot::WpnOff => "WpnOff"@,
            ItemSlot::Idol => "Idol"@,
            ItemSlot::Gloves => "Gloves"@,
            ItemSlot::Belt => "Belt"@,
            ItemSlot::Legs => "Legs"@,
            ItemSlot::Feet => "Feet"@,
            ItemSlot::Ring1 => "Ring1"@,
            ItemSlot::Ring2 => "Ring2"@,
            ItemSlot::Trinket1 => "Trinket1"@,
            ItemSlot::Trinket2 => "Trinket2"@,
        }
    }

    /// The slot's name.
    pub fn name(self) -> (r: &'static str)
        ensures
            r@ == self.name_spec(),
    {
        match self {
            ItemSlot::Head => "Head",
            ItemSlot::Neck => "Neck",
            ItemSlot::Shoulder => "Shoulder",
            ItemSlot::Back => "Back",
            ItemSlot::Chest => "Chest",
            ItemSlot::Bracer => "Bracer",
            ItemSlot::WpnMain => "WpnMain",
            ItemSlot::WpnOff => "WpnOff",
            ItemSlot::Idol => "Idol",
            ItemSlot::Gloves => "Gloves",
            ItemSlot::Belt => "Belt",
            ItemSlot::Legs => "Legs",
            ItemSlot::Feet => "Feet",
            ItemSlot::Ring1 => "Ring1",
            ItemSlot::Ring2 => "Ring2",
            ItemSlot::Trinket1 => "Trinket1",
            ItemSlot::Trinket2 => "Trinket2",
        }
    }

    /// Executable form of `from_index_spec`.
    pub fn from_index(i: usize) -> (s: ItemSlot)
        requires
            i < SLOT_COUNT,
        ensures
            s == ItemSlot::from_index_spec(i as int),
            s.index_spec() == i,
    {
        if i == 0 { ItemSlot::Head }
        else if i == 1 { ItemSlot::Neck }
        else if i == 2 { ItemSlot::Shoulder }
        else if i == 3 { ItemSlot::Back }
        else if i == 4 { ItemSlot::Chest }
        else if i == 5 { ItemSlot::Bracer }
        else if i == 6 { ItemSlot::WpnMain }
        else if i == 7 { ItemSlot::WpnOff }
        else if i == 8 { ItemSlot::Idol }
        else if i == 9 { ItemSlot::Gloves }
        else if i == 10 { ItemSlot::Belt }
        else if i == 11 { ItemSlot::Legs }
        else if i == 12 { ItemSlot::Feet }
        else if i == 13 { ItemSlot::Ring1 }
        else if i == 14 { ItemSlot::Ring2 }
        else if i == 15 { ItemSlot::Trinket1 }
        else { ItemSlot::Trinket2 }
    }
}

/// Identifier of one character stat. Closed, small set.
#[derive(Clone, Copy, PartialEq, Eq, Structural, Hash, Debug)]
pub enum Stat {
    Agility,
    AttackPower,
    CritRate,
    APR,
    ExpertiseRate,
    HasteRate,
    HitRate,
    Strength,
    Stamina,
}

impl Stat {
    /// The stat's name as a character sequence.
    pub open spec fn name_spec(self) -> Seq<char> {
        match self {
            Stat::Agility => "Agility"@,
            Stat::AttackPower => "AttackPower"@,
            Stat::CritRate => "CritRate"@,
            Stat::APR => "APR"@,
            Stat::ExpertiseRate => "ExpertiseRate"@,
            Stat::HasteRate => "HasteRate"@,
            Stat::HitRate => "HitRate"@,
            Stat::Strength => "Strength"@,
            Stat::Stamina => "Stamina"@,
        }
    }

    /// The stat's name.
    pub fn name(self) -> (r: &'static str)
        ensures
            r@ == self.name_spec(),
    {
        match self {
            Stat::Agility => "Agility",
            Stat::AttackPower => "AttackPower",
            Stat::CritRate => "CritRate",
            Stat::APR => "APR",
            Stat::ExpertiseRate => "ExpertiseRate",
            Stat::HasteRate => "HasteRate",
            Stat::HitRate => "HitRate",
            Stat::Strength => "Strength",
            Stat::Stamina => "Stamina",
        }
    }
}

/// Clamp an unbounded stat magnitude to the range of `u32`.
pub open spec fn sat32(x: int) -> int {
    if x > u32::MAX as int {
        u32::MAX as int
    } else {
        x
    }
}

/// The magnitude a proc-style bonus settles at: its raw value scaled by the
/// uptime fraction `duration / cooldown`, rounded half-up, clamped to `u32`.
pub open spec fn proc_value(val: int, duration: int, cooldown: int) -> int
    recommends
        cooldown > 0,
{
    sat32((2 * val * duration + cooldown) / (2 * cooldown))
}

/// A single stat bonus: one stat raised by a fixed non-negative magnitude.
#[derive(Clone, Copy)]
pub struct Bonus {
    pub stat: Stat,
    pub val: u32,
}

impl Bonus {
    pub fn new(stat: Stat, val: u32) -> (b: Self)
        ensures
            b.stat == stat,
            b.val == val,
    {
        Self { stat, val }
    }

    /// A bonus that is only active part of the time: its effective magnitude
    /// is `val * duration / cooldown`, rounded half-up.
    pub fn new_proccable(stat: Stat, val: u32, duration: u32, cooldown: u32) -> (b: Self)
        requires
            cooldown > 0,
        ensures
            b.stat == stat,
            b.val == proc_value(val as int, duration as int, cooldown as int),
    {
        proof {
            assert(2 * (val as int) * (duration as int) + (cooldown as int) < u128::MAX as int)
                by (nonlinear_arith)
                requires
                    0 <= val as int <= u32::MAX,
                    0 <= duration as int <= u32::MAX,
                    0 <= cooldown as int <= u32::MAX,
            ;
        }
        let num: u128 = 2 * (val as u128) * (duration as u128) + (cooldown as u128);
        let den: u128 = 2 * (cooldown as u128);
        let q: u128 = num / den;
        let true_val: u32 = if q > u32::MAX as u128 {
            u32::MAX
        } else {
            q as u32
        };
        Self { stat, val: true_val }
    }

    /// Raise `cur_stats` by this bonus, saturating at `u32::MAX`.
    pub fn apply_bonus(&self, cur_stats: &mut CurStats)
        ensures
            *final(cur_stats) == old(cur_stats).with_stat_added(*self),
    {
        cur_stats.add_stat(self.stat, self.val);
    }

    pub fn get_stat(&self) -> (s: Stat)
        ensures
            s == self.stat,
    {
        self.stat
    }

    pub fn get_val(&self) -> (v: u32)
        ensures
            v == self.val,
    {
        self.val
    }
}

/// What a stat profile becomes once every bonus of `bonuses` from place `n`
/// on has been applied, one after the other, each saturating at `u32::MAX`.
pub open spec fn applied_from(stats: CurStats, bonuses: Seq<Bonus>, n: int) -> CurStats
    decreases bonuses.len() - n,
{
    if n < 0 || n >= bonuses.len() {
        stats
    } else {
        applied_from(stats.with_stat_added(bonuses[n]), bonuses, n + 1)
    }
}

/// What a stat profile becomes once every bonus of `bonuses` has been applied.
pub open spec fn applied(stats: CurStats, bonuses: Seq<Bonus>) -> CurStats {
    applied_from(stats, bonuses, 0)
}

/// An ordered sequence of bonuses, applied to a profile as one unit.
pub struct Bonuses {
    pub bonuses: Vec<Bonus>,
}

impl View for Bonuses {
    type V = Seq<Bonus>;

    open spec fn view(&self) -> Seq<Bonus> {
        self.bonuses@
    }
}

impl Bonuses {
    pub fn new(bonuses: Vec<Bonus>) -> (b: Self)
        ensures
            b@ == bonuses@,
    {
        Self { bonuses }
    }

    /// Apply every bonus of the set to `cur_stats`, in order.
    pub fn apply_bonuses(&self, cur_stats: &mut CurStats)
        ensures
            *final(cur_stats) == applied(*old(cur_stats), self@),
    {
        let n = self.bonuses.len();
        let mut i: usize = 0;
        while i < n
            invariant
                i <= n,
                n == self.bonuses.len(),
                applied_from(*cur_stats, self.bonuses@, i as int)
                    == applied(*old(cur_stats), self@),
            decreases n - i,
        {
            let b = &self.bonuses[i];
            cur_stats.add_stat(b.stat, b.val);
            i = i + 1;
        }
    }

    /// The bonuses of the set, for callers that walk them one by one.
    pub fn iter(&self) -> (r: &Vec<Bonus>)
        ensures
            r@ == self@,
    {
        &self.bonuses
    }
}

impl Clone for Bonuses {
    fn clone(&self) -> (b: Self)
        ensures
            b@ == self@,
    {
        let c = Bonuses { bonuses: self.bonuses.clone() };
        proof {
            assert(c.bonuses@ =~= self.bonuses@);
        }
        c
    }
}

} // verus!
