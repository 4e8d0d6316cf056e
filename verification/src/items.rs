//! Equipment entities: items with gem sockets, gems, enchantments and food.
//! Each executable type has a mathematical view (`@`) that the contracts
//! speak about.

use vstd::prelude::*;
use crate::{Bonus, Bonuses, ItemSlot};
use crate::character::CurStats;

verus! {

/// A gem or socket color.
#[derive(Clone, Copy, PartialEq, Eq, Structural, Debug)]
pub enum Color {
    Red,
    Blue,
    Yellow,
}

impl Color {
    /// The color's name as a character sequence.
    pub open spec fn name_spec(self) -> Seq<char> {
        match self {
            Color::Red => "Red"@,
            Color::Blue => "Blue"@,
            Color::Yellow => "Yellow"@,
        }
    }

    /// The color's name.
    pub fn name(self) -> (r: &'static str)
        ensures
            r@ == self.name_spec(),
    {
        match self {
            Color::Red => "Red",
            Color::Blue => "Blue",
            Color::Yellow => "Yellow",
        }
    }
}

/// Mathematical view of a `Gem`.
#[verifier::ext_equal]
pub ghost struct GemView {
    pub colors: Seq<Color>,
    pub bonuses: Seq<Bonus>,
    pub name: Seq<char>,
}

/// A gem: a name, the set of socket colors it fits, and the bonuses it
/// grants. Immutable; pooled.
pub struct Gem {
    pub colors: Vec<Color>,
    pub bonuses: Bonuses,
    pub name: String,
}

impl View for Gem {
    type V = GemView;

    open spec fn view(&self) -> GemView {
        GemView { colors: self.colors@, bonuses: self.bonuses@, name: self.name@ }
    }
}

impl Gem {
    pub fn new(colors: Vec<Color>, bonuses: Bonuses, name: String) -> (g: Self)
        ensures
            g@ == (GemView { colors: colors@, bonuses: bonuses@, name: name@ }),
    {
        Self { colors, bonuses, name }
    }

    pub fn get_colors(&self) -> (r: &Vec<Color>)
        ensures
            r@ == self@.colors,
    {
        &self.colors
    }

    pub fn get_bonuses(&self) -> (r: &Bonuses)
        ensures
            r@ == self@.bonuses,
    {
        &self.bonuses
    }

    pub fn get_name(&self) -> (r: &str)
        ensures
            r@ == self@.name,
    {
        self.name.as_str()
    }

    /// Whether this gem fits a socket of color `c`.
    pub fn has_color(&self, c: Color) -> (r: bool)
        ensures
            r == self@.colors.contains(c),
    {
        let n = self.colors.len();
        let mut i: usize = 0;
        while i < n
            invariant
                i <= n,
                n == self.colors.len(),
                forall|j: int| 0 <= j < i ==> self.colors@[j] != c,
            decreases n - i,
        {
            if self.colors[i] == c {
                return true;
            }
            i = i + 1;
        }
        false
    }
}

impl Clone for Gem {
    fn clone(&self) -> (r: Self)
        ensures
            r@ == self@,
    {
        let r = Gem {
            colors: self.colors.clone(),
            bonuses: self.bonuses.clone(),
            name: self.name.clone(),
        };
        proof {
            assert(r.colors@ =~= self.colors@);
            assert(r@ =~= self@);
        }
        r
    }
}

/// Mathematical view of a `GemSocket`.
#[verifier::ext_equal]
pub ghost struct SocketView {
    pub color: Color,
    pub gem: Option<GemView>,
}

impl SocketView {
    /// A socket matches exactly when it holds a gem whose color set
    /// contains the socket's color; an empty socket never matches.
    pub open spec fn is_match(self) -> bool {
        self.gem matches Some(g) && g.colors.contains(self.color)
    }
}

/// The view of an optional gem.
pub open spec fn opt_gem_view(o: Option<Gem>) -> Option<GemView> {
    match o {
        Option::None => Option::None,
        Option::Some(g) => Option::Some(g@),
    }
}

/// A socket on an item: a required color and an optional inserted gem.
pub struct GemSocket {
    pub color: Color,
    pub gem: Option<Gem>,
}

impl View for GemSocket {
    type V = SocketView;

    open spec fn view(&self) -> SocketView {
        SocketView { color: self.color, gem: opt_gem_view(self.gem) }
    }
}

impl GemSocket {
    pub fn new(color: Color) -> (s: Self)
        ensures
            s@ == (SocketView { color, gem: Option::None }),
    {
        Self { color, gem: Option::None }
    }

    pub fn get_color(&self) -> (c: Color)
        ensures
            c == self@.color,
    {
        self.color
    }

    pub fn get_gem(&self) -> (r: &Option<Gem>)
        ensures
            opt_gem_view(*r) == self@.gem,
    {
        &self.gem
    }

    pub fn is_empty(&self) -> (r: bool)
        ensures
            r == (self@.gem is None),
    {
        self.gem.is_none()
    }

    pub fn set_gem(&mut self, gem: &Gem)
        ensures
            final(self)@ == (SocketView { color: old(self)@.color, gem: Option::Some(gem@) }),
    {
        self.gem = Option::Some(gem.clone());
    }

    pub fn set_empty(&mut self)
        ensures
            final(self)@ == (SocketView { color: old(self)@.color, gem: Option::None }),
    {
        self.gem = Option::None;
    }

    /// Whether the inserted gem's colors contain this socket's color.
    pub fn does_match(&self) -> (r: bool)
        ensures
            r == self@.is_match(),
    {
        match &self.gem {
            Option::None => false,
            Option::Some(g) => g.has_color(self.color),
        }
    }
}

impl Clone for GemSocket {
    fn clone(&self) -> (r: Self)
        ensures
            r@ == self@,
    {
        GemSocket {
            color: self.color,
            gem: match &self.gem {
                Option::None => Option::None,
                Option::Some(g) => Option::Some(g.clone()),
            },
        }
    }
}

/// Mathematical view of an `Enchantment`.
#[verifier::ext_equal]
pub ghost struct EnchantmentView {
    pub slot: ItemSlot,
    pub bonuses: Seq<Bonus>,
    pub name: Seq<char>,
}

/// The view of an optional enchantment.
pub open spec fn opt_enchant_view(o: Option<Enchantment>) -> Option<EnchantmentView> {
    match o {
        Option::None => Option::None,
        Option::Some(e) => Option::Some(e@),
    }
}

/// An enchantment: a name, the slot it targets, and the bonuses it grants.
/// Immutable; pooled, one pool per slot.
pub struct Enchantment {
    pub slot: ItemSlot,
    pub bonuses: Bonuses,
    pub name: String,
}

impl View for Enchantment {
    type V = EnchantmentView;

    open spec fn view(&self) -> EnchantmentView {
        EnchantmentView { slot: self.slot, bonuses: self.bonuses@, name: self.name@ }
    }
}

impl Enchantment {
    pub fn new(slot: ItemSlot, bonuses: Bonuses, name: String) -> (e: Self)
        ensures
            e@ == (EnchantmentView { slot, bonuses: bonuses@, name: name@ }),
    {
        Self { slot, bonuses, name }
    }

    pub fn get_slot(&self) -> (s: ItemSlot)
        ensures
            s == self@.slot,
    {
        self.slot
    }

    pub fn get_bonuses(&self) -> (r: &Bonuses)
        ensures
            r@ == self@.bonuses,
    {
        &self.bonuses
    }

    pub fn get_name(&self) -> (r: &str)
        ensures
            r@ == self@.name,
    {
        self.name.as_str()
    }
}

impl Clone for Enchantment {
    fn clone(&self) -> (r: Self)
        ensures
            r@ == self@,
    {
        Enchantment {
            slot: self.slot,
            bonuses: self.bonuses.clone(),
            name: self.name.clone(),
        }
    }
}

/// Mathematical view of a `Food`.
#[verifier::ext_equal]
pub ghost struct FoodView {
    pub name: Seq<char>,
    pub bonuses: Seq<Bonus>,
}

/// A consumable food buff: a name and the bonuses it grants. Immutable;
/// pooled.
pub struct Food {
    pub name: String,
    pub bonuses: Bonuses,
}

impl View for Food {
    type V = FoodView;

    open spec fn view(&self) -> FoodView {
        FoodView { name: self.name@, bonuses: self.bonuses@ }
    }
}

impl Food {
    pub fn new(name: String, bonuses: Bonuses) -> (f: Self)
        ensures
            f@ == (FoodView { name: name@, bonuses: bonuses@ }),
    {
        Self { name, bonuses }
    }

    pub fn get_bonuses(&self) -> (r: &Bonuses)
        ensures
            r@ == self@.bonuses,
    {
        &self.bonuses
    }

    pub fn get_name(&self) -> (r: &str)
        ensures
            r@ == self@.name,
    {
        self.name.as_str()
    }
}

impl Clone for Food {
    fn clone(&self) -> (r: Self)
        ensures
            r@ == self@,
    {
        Food { name: self.name.clone(), bonuses: self.bonuses.clone() }
    }
}

/// Mathematical view of an `Item`.
#[verifier::ext_equal]
pub ghost struct ItemView {
    pub name: Seq<char>,
    pub slot: ItemSlot,
    pub stats: Seq<Bonus>,
    pub sockets: Seq<SocketView>,
    pub socket_bonus: Option<Bonus>,
    pub enchant: Option<EnchantmentView>,
}

impl ItemView {
    /// Whether every socket of the item holds a matching gem.
    pub open spec fn all_match(self) -> bool {
        forall|i: int| 0 <= i < self.sockets.len() ==> #[trigger] self.sockets[i].is_match()
    }
}

/// The views of a sequence of sockets.
pub open spec fn socket_views(s: Seq<GemSocket>) -> Seq<SocketView> {
    s.map_values(|x: GemSocket| x@)
}

/// A piece of equipment: a name, its fixed slot, intrinsic bonuses, gem
/// sockets, an optional set bonus granted only when every socket matches,
/// and an optional enchantment.
pub struct Item {
    pub name: String,
    pub slot: ItemSlot,
    pub stats: Bonuses,
    pub sockets: Vec<GemSocket>,
    pub socket_bonus: Option<Bonus>,
    pub enchant: Option<Enchantment>,
}

impl View for Item {
    type V = ItemView;

    open spec fn view(&self) -> ItemView {
        ItemView {
            name: self.name@,
            slot: self.slot,
            stats: self.stats@,
            sockets: socket_views(self.sockets@),
            socket_bonus: self.socket_bonus,
            enchant: opt_enchant_view(self.enchant),
        }
    }
}

impl Item {
    pub fn new(
        name: String,
        slot: ItemSlot,
        stats: Bonuses,
        sockets: Vec<GemSocket>,
        socket_bonus: Option<Bonus>,
        enchant: Option<Enchantment>,
    ) -> (r: Self)
        ensures
            r@ == (ItemView {
                name: name@,
                slot,
                stats: stats@,
                sockets: socket_views(sockets@),
                socket_bonus,
                enchant: opt_enchant_view(enchant),
            }),
    {
        Self { name, slot, stats, sockets, socket_bonus, enchant }
    }

    /// Whether every socket of this item holds a matching gem.
    pub fn sockets_match(&self) -> (r: bool)
        ensures
            r == self@.all_match(),
    {
        let n = self.sockets.len();
        let mut i: usize = 0;
        while i < n
            invariant
                i <= n,
                n == self.sockets.len(),
                forall|j: int| 0 <= j < i ==> #[trigger] self@.sockets[j].is_match(),
            decreases n - i,
        {
            proof {
                assert(self@.sockets[i as int] == self.sockets@[i as int]@);
            }
            if !self.sockets[i].does_match() {
                return false;
            }
            i = i + 1;
        }
        true
    }

    pub fn get_name(&self) -> (r: &str)
        ensures
            r@ == self@.name,
    {
        self.name.as_str()
    }

    pub fn get_slot(&self) -> (s: ItemSlot)
        ensures
            s == self@.slot,
    {
        self.slot
    }

    pub fn get_stats_bonuses(&self) -> (r: &Bonuses)
        ensures
            r@ == self@.stats,
    {
        &self.stats
    }

    pub fn get_sockets(&self) -> (r: &Vec<GemSocket>)
        ensures
            socket_views(r@) == self@.sockets,
    {
        &self.sockets
    }

    /// Borrow one socket for mutation.
    pub fn get_socket_mut(&mut self, ind: usize) -> (s: &mut GemSocket)
        requires
            ind < old(self)@.sockets.len(),
        ensures
            (*s)@ == old(self)@.sockets[ind as int],
            final(self)@ == (ItemView {
                sockets: old(self)@.sockets.update(ind as int, (*final(s))@),
                ..old(self)@
            }),
    {
        let r = &mut self.sockets[ind];
        proof {
            assert(socket_views(old(self).sockets@)[ind as int] == old(self).sockets@[ind as int]@);
        }
        r
    }

    pub fn get_socket_bonus(&self) -> (r: &Option<Bonus>)
        ensures
            *r == self@.socket_bonus,
    {
        &self.socket_bonus
    }

    /// Apply the set bonus, if the item has one, to `cur_stats`.
    pub fn apply_socket_bonus(&self, cur_stats: &mut CurStats)
        ensures
            *final(cur_stats) == (match self@.socket_bonus {
                Option::None => *old(cur_stats),
                Option::Some(b) => old(cur_stats).with_stat_added(b),
            }),
    {
        match &self.socket_bonus {
            Option::None => (),
            Option::Some(bonus) => bonus.apply_bonus(cur_stats),
        }
    }

    pub fn is_enchanted(&self) -> (r: bool)
        ensures
            r == (self@.enchant is Some),
    {
        self.enchant.is_some()
    }

    pub fn get_enchantment(&self) -> (r: &Option<Enchantment>)
        ensures
            opt_enchant_view(*r) == self@.enchant,
    {
        &self.enchant
    }

    pub fn set_enchantment(&mut self, enchant: &Enchantment)
        ensures
            final(self)@ == (ItemView { enchant: Option::Some(enchant@), ..old(self)@ }),
    {
        self.enchant = Option::Some(enchant.clone());
    }

    pub fn remove_enchantment(&mut self)
        ensures
            final(self)@ == (ItemView { enchant: Option::None, ..old(self)@ }),
    {
        self.enchant = Option::None;
    }
}

impl Clone for Item {
    fn clone(&self) -> (r: Self)
        ensures
            r@ == self@,
    {
        let r = Item {
            name: self.name.clone(),
            slot: self.slot,
            stats: self.stats.clone(),
            sockets: self.sockets.clone(),
            socket_bonus: self.socket_bonus,
            enchant: match &self.enchant {
                Option::None => Option::None,
                Option::Some(e) => Option::Some(e.clone()),
            },
        };
        proof {
            assert forall|i: int| 0 <= i < self.sockets@.len()
                implies #[trigger] r.sockets@[i]@ == self.sockets@[i]@ by {
            }
            assert(socket_views(r.sockets@) =~= socket_views(self.sockets@));
            assert(r@ =~= self@);
        }
        r
    }
}

/// The views of a sequence of items.
pub open spec fn item_views(s: Seq<Item>) -> Seq<ItemView> {
    s.map_values(|x: Item| x@)
}

/// Clone a vector of items; the clone's views are the originals' views.
pub fn clone_items(items: &Vec<Item>) -> (r: Vec<Item>)
    ensures
        item_views(r@) == item_views(items@),
{
    let r = items.clone();
    proof {
        assert forall|i: int| 0 <= i < items@.len()
            implies #[trigger] r@[i]@ == items@[i]@ by {
        }
        assert(item_views(r@) =~= item_views(items@));
    }
    r
}

} // verus!
