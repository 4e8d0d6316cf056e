//! One fully-resolved candidate solution: a stat profile, its centi-gain,
//! the items as they stood when it was scored, and the chosen food, if any.

use vstd::prelude::*;
use crate::character::CurStats;
use crate::items::{Item, ItemView, SocketView, EnchantmentView, GemView, Food, FoodView, item_views};
use crate::requirements::{Requirement, gain_spec};

verus! {

/// The view of an optional food.
pub open spec fn opt_food_view(o: Option<Food>) -> Option<FoodView> {
    match o {
        Option::None => Option::None,
        Option::Some(f) => Option::Some(f@),
    }
}

/// An immutable snapshot of one candidate outcome of the search. Ordered by
/// centi-gain alone; a later candidate replaces an earlier one only when its
/// gain is strictly greater.
pub struct Distribution {
    pub stat_growth: CurStats,
    pub gain: i128,
    pub items: Vec<Item>,
    pub food: Option<Food>,
}

impl Distribution {
    /// Score `stat_growth` under `reqs` and snapshot the given items.
    pub fn new(stat_growth: CurStats, reqs: &Vec<Requirement>, item_refs: &Vec<Item>) -> (d: Self)
        ensures
            d.stat_growth == stat_growth,
            d.gain as int == gain_spec(stat_growth, reqs@),
            item_views(d.items@) == item_views(item_refs@),
            d.food is None,
    {
        let items = crate::items::clone_items(item_refs);
        let gain = stat_growth.calculate_gain(reqs);
        Self { stat_growth, gain, items, food: Option::None }
    }

    /// Whether `other` exists and beats this snapshot strictly: ties keep
    /// the existing one.
    pub fn is_new_better(&self, other: &Option<&Distribution>) -> (r: bool)
        ensures
            r == ((*other) matches Some(o) && self.gain < o.gain),
    {
        match other {
            Option::None => false,
            Option::Some(o) => self.gain < o.gain,
        }
    }

    pub fn get_gain(&self) -> (g: i128)
        ensures
            g == self.gain,
    {
        self.gain
    }

    pub fn get_stat_growth(&self) -> (r: &CurStats)
        ensures
            *r == self.stat_growth,
    {
        &self.stat_growth
    }

    pub fn get_items(&self) -> (r: &Vec<Item>)
        ensures
            r == &self.items,
    {
        &self.items
    }

    /// Attach the food this snapshot was computed with.
    pub fn set_food(&mut self, f: Food)
        ensures
            final(self).stat_growth == old(self).stat_growth,
            final(self).gain == old(self).gain,
            final(self).items == old(self).items,
            opt_food_view(final(self).food) == Option::Some(f@),
    {
        self.food = Option::Some(f);
    }
}


/// The reported name of an optional gem.
pub open spec fn gem_name_text(o: Option<GemView>) -> Seq<char> {
    match o {
        Option::Some(g) => g.name,
        Option::None => "None"@,
    }
}

/// The reported name of an optional enchantment.
pub open spec fn ench_name_text(o: Option<EnchantmentView>) -> Seq<char> {
    match o {
        Option::Some(e) => e.name,
        Option::None => "None"@,
    }
}

/// One report line for a socket: its color, the inserted gem (or none),
/// and whether the two match.
pub open spec fn socket_line(s: SocketView) -> Seq<char> {
    "\t"@ + s.color.name_spec() + " <- "@ + gem_name_text(s.gem) + " ("@
        + (if s.is_match() { "match"@ } else { "mismatch"@ }) + ")\n"@
}

/// The report lines of the first `n` sockets, in order.
pub open spec fn sockets_text_upto(sockets: Seq<SocketView>, n: int) -> Seq<char>
    decreases n,
{
    if n <= 0 {
        Seq::empty()
    } else {
        sockets_text_upto(sockets, n - 1) + socket_line(sockets[n - 1])
    }
}

/// The report block for one item: its slot, name and enchantment, then one
/// line per socket.
pub open spec fn item_text(it: ItemView) -> Seq<char> {
    "["@ + it.slot.name_spec() + "]"@ + it.name + " <- "@ + ench_name_text(it.enchant)
        + ":\n"@ + sockets_text_upto(it.sockets, it.sockets.len() as int)
}

/// The report blocks of the first `n` items, in order.
pub open spec fn items_text_upto(items: Seq<ItemView>, n: int) -> Seq<char>
    decreases n,
{
    if n <= 0 {
        Seq::empty()
    } else {
        items_text_upto(items, n - 1) + item_text(items[n - 1])
    }
}

/// The report line naming the chosen food, when one was chosen.
pub open spec fn food_line(o: Option<FoodView>) -> Seq<char> {
    match o {
        Option::Some(f) => "Eat "@ + f.name + " for this gain in stats:\n"@,
        Option::None => Seq::empty(),
    }
}

impl Distribution {
    /// The full report: the stat breakdown, the chosen food if any, and
    /// one block per item.
    pub open spec fn report_spec(self) -> Seq<char> {
        CurStats::stats_text(self.stat_growth.entries_spec())
            + food_line(opt_food_view(self.food))
            + items_text_upto(item_views(self.items@), self.items@.len() as int)
    }

    /// Render the report.
    pub fn to_string(&self) -> (r: String)
        ensures
            r@ == self.report_spec(),
    {
        let ghost base = food_line(opt_food_view(self.food));
        let ghost iv = item_views(self.items@);
        let mut res = String::new();
        match &self.food {
            Option::Some(f) => {
                res.append("Eat ");
                res.append(f.get_name());
                res.append(" for this gain in stats:\n");
                proof {
                    assert(res@ =~= base);
                }
            },
            Option::None => {},
        }
        let n = self.items.len();
        let mut i: usize = 0;
        while i < n
            invariant
                i <= n,
                n == self.items@.len(),
                base == food_line(opt_food_view(self.food)),
                iv == item_views(self.items@),
                res@ == base + items_text_upto(iv, i as int),
            decreases n - i,
        {
            let item = &self.items[i];
            proof {
                assert(iv[i as int] == self.items@[i as int]@);
            }
            let ghost head = res@;
            res.append("[");
            res.append(item.get_slot().name());
            res.append("]");
            res.append(item.get_name());
            res.append(" <- ");
            match item.get_enchantment() {
                Option::Some(e) => {
                    res.append(e.get_name());
                },
                Option::None => {
                    res.append("None");
                },
            }
            res.append(":\n");
            let ghost line = ("["@ + item@.slot.name_spec() + "]"@ + item@.name + " <- "@
                + ench_name_text(item@.enchant) + ":\n"@);
            proof {
                assert(res@ =~= head + line);
            }
            let m = item.sockets.len();
            let mut j: usize = 0;
            while j < m
                invariant
                    j <= m,
                    i < n,
                    n == self.items@.len(),
                    m == item.sockets@.len(),
                    item == &self.items[i as int],
                    res@ == head + line + sockets_text_upto(item@.sockets, j as int),
                decreases m - j,
            {
                proof {
                    assert(item@.sockets[j as int] == item.sockets@[j as int]@);
                }
                let ghost shead = res@;
                let socket = &item.sockets[j];
                res.append("\t");
                res.append(socket.get_color().name());
                res.append(" <- ");
                match socket.get_gem() {
                    Option::Some(g) => {
                        res.append(g.get_name());
                    },
                    Option::None => {
                        res.append("None");
                    },
                }
                res.append(" (");
                if socket.does_match() {
                    res.append("match");
                } else {
                    res.append("mismatch");
                }
                res.append(")\n");
                proof {
                    assert(res@ =~= shead + socket_line(item@.sockets[j as int]));
                    assert(res@ =~= head + line + sockets_text_upto(item@.sockets, j as int + 1));
                }
                j = j + 1;
            }
            proof {
                assert(res@ =~= head + item_text(iv[i as int]));
                assert(res@ =~= base + items_text_upto(iv, i as int + 1));
            }
            i = i + 1;
        }
        let mut out = self.stat_growth.to_string();
        out.append(res.as_str());
        proof {
            assert(out@ =~= self.report_spec());
        }
        out
    }
}

} // verus!
