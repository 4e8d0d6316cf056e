//! The search engine and its orchestrator: exhaustive recursive assignment
//! of gems and enchantments over every open socket, rotation of alternative
//! items, food iteration, and retention of the best `Distribution` found.

use vstd::prelude::*;
use crate::{ItemSlot, SLOT_COUNT};
use crate::character::{CurStats, ItemBuild, Rotatables, product_count, product_elem, pools_views};
use crate::distribution::{Distribution, opt_food_view};
use crate::items::{Food, FoodView, Item, ItemView, SocketView, item_views, clone_items};
use crate::optimizer::{
    BestBonusFinder, chosen_enchant, chosen_gem, default_enchants, default_foods, default_gems,
    is_tear, lemma_chosen_gem_not_tear, useful_foods, zero_stats,
};
use crate::requirements::{Requirement, RequirementCap, gain_spec};
use crate::applied;

verus! {

/// One where a socket is open, zero where it holds a gem.
pub open spec fn empty_one(s: SocketView) -> nat {
    if s.gem is None {
        1
    } else {
        0
    }
}

/// How many of these sockets are open.
pub open spec fn socket_empties(sockets: Seq<SocketView>) -> nat
    decreases sockets.len(),
{
    if sockets.len() == 0 {
        0
    } else {
        socket_empties(sockets.drop_last()) + empty_one(sockets.last())
    }
}

/// How many open sockets the whole equipment state has. The search fills
/// one per recursion step, so this is its termination measure.
pub open spec fn state_empties(items: Seq<ItemView>) -> nat
    decreases items.len(),
{
    if items.len() == 0 {
        0
    } else {
        state_empties(items.drop_last()) + socket_empties(items.last().sockets)
    }
}

/// Replacing one socket shifts the open count by the difference of the two
/// sockets' contributions.
proof fn lemma_socket_empties_update(s: Seq<SocketView>, i: int, x: SocketView)
    requires
        0 <= i < s.len(),
    ensures
        socket_empties(s.update(i, x)) + empty_one(s[i]) == socket_empties(s) + empty_one(x),
    decreases s.len(),
{
    let t = s.update(i, x);
    if i == s.len() - 1 {
        assert(t.drop_last() =~= s.drop_last());
    } else {
        assert(t.drop_last() =~= s.drop_last().update(i, x));
        assert(t.last() == s.last());
        lemma_socket_empties_update(s.drop_last(), i, x);
    }
}

/// Replacing one item shifts the open count by the difference of the two
/// items' open sockets.
proof fn lemma_state_empties_update(items: Seq<ItemView>, i: int, x: ItemView)
    requires
        0 <= i < items.len(),
    ensures
        state_empties(items.update(i, x)) + socket_empties(items[i].sockets)
            == state_empties(items) + socket_empties(x.sockets),
    decreases items.len(),
{
    let t = items.update(i, x);
    if i == items.len() - 1 {
        assert(t.drop_last() =~= items.drop_last());
    } else {
        assert(t.drop_last() =~= items.drop_last().update(i, x));
        assert(t.last() == items.last());
        lemma_state_empties_update(items.drop_last(), i, x);
    }
}

/// An open socket counted by position.
proof fn lemma_socket_empties_at(s: Seq<SocketView>, i: int)
    requires
        0 <= i < s.len(),
        s[i].gem is None,
    ensures
        socket_empties(s) >= 1,
    decreases s.len(),
{
    if i == s.len() - 1 {
    } else {
        lemma_socket_empties_at(s.drop_last(), i);
    }
}

/// Whether a socket holds the universal gem.
pub open spec fn socket_is_tear(s: SocketView) -> bool {
    s.gem matches Some(g) && is_tear(g)
}

/// Whether one item holds the universal gem in any socket.
pub open spec fn item_has_tear(it: ItemView) -> bool {
    exists|j: int| 0 <= j < it.sockets.len() && socket_is_tear(#[trigger] it.sockets[j])
}

/// Whether `after` holds the universal gem only where `before` already did:
/// the search places no new universal gem.
pub open spec fn tears_preserved(before: Seq<ItemView>, after: Seq<ItemView>) -> bool {
    forall|i: int, j: int| 0 <= i < after.len() && 0 <= j < after[i].sockets.len()
        && socket_is_tear(#[trigger] after[i].sockets[j])
        ==> 0 <= i < before.len() && 0 <= j < before[i].sockets.len()
            && socket_is_tear(before[i].sockets[j])
}

/// Whether any item of the state holds the universal gem already.
pub open spec fn state_has_tear(items: Seq<ItemView>) -> bool {
    exists|i: int| 0 <= i < items.len() && item_has_tear(#[trigger] items[i])
}

/// Whether any socket of this item already holds the universal gem.
fn item_tear(item: &Item) -> (r: bool)
    ensures
        r == item_has_tear(item@),
{
    let m = item.sockets.len();
    let mut j: usize = 0;
    while j < m
        invariant
            j <= m,
            m == item.sockets@.len(),
            forall|k: int| 0 <= k < j ==> !socket_is_tear(#[trigger] item@.sockets[k]),
        decreases m - j,
    {
        proof {
            assert(item@.sockets[j as int] == item.sockets@[j as int]@);
        }
        let socket = &item.sockets[j];
        match socket.get_gem() {
            Option::Some(g) => {
                if crate::optimizer::gem_is_tear(g) {
                    return true;
                }
            },
            Option::None => {},
        }
        j = j + 1;
    }
    false
}

/// Whether any socket of any item already holds the universal gem.
fn has_tear(items: &Vec<Item>) -> (r: bool)
    ensures
        r == state_has_tear(item_views(items@)),
{
    let n = items.len();
    let mut i: usize = 0;
    while i < n
        invariant
            i <= n,
            n == items@.len(),
            forall|k: int| 0 <= k < i ==> !item_has_tear(#[trigger] item_views(items@)[k]),
        decreases n - i,
    {
        proof {
            assert(item_views(items@)[i as int] == items@[i as int]@);
        }
        if item_tear(&items[i]) {
            return true;
        }
        i = i + 1;
    }
    false
}

/// The larger of two gains.
pub open spec fn max2(a: int, b: int) -> int {
    if a >= b {
        a
    } else {
        b
    }
}

/// The state and profile one search branch hands to its recursive call:
/// socket `j` of item `i` takes the locally best gem, the item takes the
/// locally best enchantment when enchanting is on and it has none, and the
/// set bonus counts once every socket of the item matches.
pub open spec fn gem_branch(
    state: Seq<ItemView>,
    stats: CurStats,
    reqs: Seq<Requirement>,
    finder: BestBonusFinder,
    try_chanting: bool,
    allow_tear: bool,
    i: int,
    j: int,
) -> (Seq<ItemView>, CurStats) {
    let orig = state[i];
    let gem = chosen_gem(finder, stats, reqs, allow_tear);
    let item1 = (ItemView {
        sockets: orig.sockets.update(j, (SocketView {
            color: orig.sockets[j].color,
            gem: Option::Some(gem),
        })),
        ..orig
    });
    let stats1 = applied(stats, gem.bonuses);
    let chanting = try_chanting && orig.enchant is None;
    let ench = chosen_enchant(finder, orig.slot, stats1, reqs);
    let item2 = if chanting {
        (ItemView { enchant: Option::Some(ench), ..item1 })
    } else {
        item1
    };
    let stats2 = if chanting {
        applied(stats1, ench.bonuses)
    } else {
        stats1
    };
    let stats3 = if item2.all_match() {
        match item2.socket_bonus {
            Option::Some(b) => stats2.with_stat_added(b),
            Option::None => stats2,
        }
    } else {
        stats2
    };
    (state.update(i, item2), stats3)
}

/// The gain the search settles on: the best of the "do nothing further"
/// baseline and, for every open socket, the gain the search reaches after
/// taking that socket's branch.
pub open spec fn solve_gain(
    state: Seq<ItemView>,
    stats: CurStats,
    reqs: Seq<Requirement>,
    finder: BestBonusFinder,
    try_chanting: bool,
    allow_tear: bool,
) -> int
    decreases state_empties(state), state.len() + 1, 0int,
{
    best_from(
        state,
        stats,
        reqs,
        finder,
        try_chanting,
        allow_tear && !state_has_tear(state),
        0,
        0,
    )
}

/// The best gain among the baseline and the branches from socket `j` of
/// item `i` onward, in the order the search visits them.
pub open spec fn best_from(
    state: Seq<ItemView>,
    stats: CurStats,
    reqs: Seq<Requirement>,
    finder: BestBonusFinder,
    try_chanting: bool,
    allow_tear: bool,
    i: int,
    j: int,
) -> int
    decreases state_empties(state), state.len() - i, state[i].sockets.len() - j,
        via best_from_decreases
{
    if i < 0 || j < 0 || i >= state.len() {
        gain_spec(stats, reqs)
    } else if j >= state[i].sockets.len() {
        best_from(state, stats, reqs, finder, try_chanting, allow_tear, i + 1, 0)
    } else if state[i].sockets[j].gem is None {
        let branch = gem_branch(state, stats, reqs, finder, try_chanting, allow_tear, i, j);
        max2(
            solve_gain(branch.0, branch.1, reqs, finder, try_chanting, allow_tear),
            best_from(state, stats, reqs, finder, try_chanting, allow_tear, i, j + 1),
        )
    } else {
        best_from(state, stats, reqs, finder, try_chanting, allow_tear, i, j + 1)
    }
}

#[via_fn]
proof fn best_from_decreases(
    state: Seq<ItemView>,
    stats: CurStats,
    reqs: Seq<Requirement>,
    finder: BestBonusFinder,
    try_chanting: bool,
    allow_tear: bool,
    i: int,
    j: int,
) {
    if 0 <= i < state.len() && 0 <= j < state[i].sockets.len() && state[i].sockets[j].gem is None {
        let branch = gem_branch(state, stats, reqs, finder, try_chanting, allow_tear, i, j);
        let orig = state[i];
        let item2 = branch.0[i];
        assert(branch.0 == state.update(i, item2));
        assert(item2.sockets == orig.sockets.update(j, (SocketView {
            color: orig.sockets[j].color,
            gem: Option::Some(chosen_gem(finder, stats, reqs, allow_tear)),
        })));
        lemma_socket_empties_update(orig.sockets, j, item2.sockets[j]);
        lemma_socket_empties_at(orig.sockets, j);
        lemma_state_empties_update(state, i, item2);
        assert(state_empties(branch.0) < state_empties(state));
    }
}

/// Whether the pair `(out_items, out_stats)` is an assignment the search
/// can reach from `(state, stats)`: zero or more branch steps, each filling
/// one open socket exactly as `gem_branch` describes, with the universal
/// gem's availability re-scanned at every step.
pub open spec fn reachable(
    state: Seq<ItemView>,
    stats: CurStats,
    reqs: Seq<Requirement>,
    finder: BestBonusFinder,
    try_chanting: bool,
    allow_tear: bool,
    out_items: Seq<ItemView>,
    out_stats: CurStats,
) -> bool
    decreases state_empties(state),
        via reachable_decreases
{
    ||| (out_items == state && out_stats == stats)
    ||| exists|i: int, j: int| {
        &&& 0 <= i < state.len()
        &&& 0 <= j < state[i].sockets.len()
        &&& (#[trigger] state[i].sockets[j]).gem is None
        &&& {
            let allow2 = allow_tear && !state_has_tear(state);
            let branch = gem_branch(state, stats, reqs, finder, try_chanting, allow2, i, j);
            reachable(branch.0, branch.1, reqs, finder, try_chanting, allow2, out_items, out_stats)
        }
    }
}

#[via_fn]
proof fn reachable_decreases(
    state: Seq<ItemView>,
    stats: CurStats,
    reqs: Seq<Requirement>,
    finder: BestBonusFinder,
    try_chanting: bool,
    allow_tear: bool,
    out_items: Seq<ItemView>,
    out_stats: CurStats,
) {
    let allow2 = allow_tear && !state_has_tear(state);
    assert forall|i: int, j: int| 0 <= i < state.len() && 0 <= j < state[i].sockets.len()
        && state[i].sockets[j].gem is None
        implies state_empties(
            gem_branch(state, stats, reqs, finder, try_chanting, allow2, i, j).0,
        ) < state_empties(state) by {
        let branch = gem_branch(state, stats, reqs, finder, try_chanting, allow2, i, j);
        let orig = state[i];
        let item2 = branch.0[i];
        assert(branch.0 == state.update(i, item2));
        assert(item2.sockets == orig.sockets.update(j, (SocketView {
            color: orig.sockets[j].color,
            gem: Option::Some(chosen_gem(finder, stats, reqs, allow2)),
        })));
        lemma_socket_empties_update(orig.sockets, j, item2.sockets[j]);
        lemma_socket_empties_at(orig.sockets, j);
        lemma_state_empties_update(state, i, item2);
    }
}

/// The search never settles below the baseline of its input state.
proof fn lemma_best_from_ge_baseline(
    state: Seq<ItemView>,
    stats: CurStats,
    reqs: Seq<Requirement>,
    finder: BestBonusFinder,
    try_chanting: bool,
    allow_tear: bool,
    i: int,
    j: int,
)
    ensures
        best_from(state, stats, reqs, finder, try_chanting, allow_tear, i, j)
            >= gain_spec(stats, reqs),
    decreases state_empties(state), state.len() - i, state[i].sockets.len() - j,
{
    if i < 0 || j < 0 || i >= state.len() {
    } else if j >= state[i].sockets.len() {
        lemma_best_from_ge_baseline(state, stats, reqs, finder, try_chanting, allow_tear, i + 1, 0);
    } else {
        lemma_best_from_ge_baseline(state, stats, reqs, finder, try_chanting, allow_tear, i, j + 1);
    }
}

/// The state and profile the pre-enchant pass has after handling the first
/// `n` items: each still-unenchanted item takes the locally best
/// enchantment for its slot, scored against the profile as it stands, and
/// every present enchantment's bonuses are counted into the profile.
pub open spec fn prechant_upto(
    state: Seq<ItemView>,
    stats: CurStats,
    reqs: Seq<Requirement>,
    finder: BestBonusFinder,
    n: int,
) -> (Seq<ItemView>, CurStats)
    decreases n,
{
    if n <= 0 {
        (Seq::<ItemView>::empty(), stats)
    } else {
        let prev = prechant_upto(state, stats, reqs, finder, n - 1);
        let orig = state[n - 1];
        let item2 = if orig.enchant is None {
            (ItemView {
                enchant: Option::Some(chosen_enchant(finder, orig.slot, prev.1, reqs)),
                ..orig
            })
        } else {
            orig
        };
        let stats2 = match item2.enchant {
            Option::Some(e) => applied(prev.1, e.bonuses),
            Option::None => prev.1,
        };
        (prev.0.push(item2), stats2)
    }
}

/// Enchant every still-unenchanted item greedily once, each choice scored
/// against the profile as it stands, then score the resulting state. Every
/// present enchantment's bonuses are counted into the profile.
pub fn prechants_only(
    main_state: Vec<Item>,
    cur_stats: CurStats,
    reqs: &Vec<Requirement>,
    optimizer: &BestBonusFinder,
) -> (r: Distribution)
    requires
        optimizer.wf(),
    ensures
        ({
            let outcome = prechant_upto(
                item_views(main_state@), cur_stats, reqs@, *optimizer,
                main_state@.len() as int,
            );
            item_views(r.items@) == outcome.0 && r.stat_growth == outcome.1
        }),
        r.gain as int == gain_spec(r.stat_growth, reqs@),
        item_views(r.items@).len() == main_state@.len(),
        forall|k: int| 0 <= k < main_state@.len()
            ==> (#[trigger] item_views(r.items@)[k]).slot == item_views(main_state@)[k].slot
                && item_views(r.items@)[k].enchant is Some,
        r.food is None,
{
    let ghost pre = item_views(main_state@);
    let mut cur_stats = cur_stats;
    let ghost stats0 = cur_stats;
    let mut only_chants: Vec<Item> = Vec::new();
    let n = main_state.len();
    let mut i: usize = 0;
    while i < n
        invariant
            i <= n,
            n == main_state@.len(),
            pre == item_views(main_state@),
            optimizer.wf(),
            only_chants@.len() == i,
            item_views(only_chants@)
                == prechant_upto(pre, stats0, reqs@, *optimizer, i as int).0,
            cur_stats == prechant_upto(pre, stats0, reqs@, *optimizer, i as int).1,
            forall|k: int| 0 <= k < i
                ==> (#[trigger] item_views(only_chants@)[k]).slot == item_views(main_state@)[k].slot
                    && item_views(only_chants@)[k].enchant is Some,
        decreases n - i,
    {
        proof {
            assert(item_views(main_state@)[i as int] == main_state@[i as int]@);
        }
        let mut item = main_state[i].clone();
        if !item.is_enchanted() {
            let enchantment = optimizer.get_best_enchantment_by_slot(
                item.get_slot(),
                &cur_stats,
                reqs,
            );
            item.set_enchantment(&enchantment);
        }
        match item.get_enchantment() {
            Option::Some(e) => {
                e.get_bonuses().apply_bonuses(&mut cur_stats);
            },
            Option::None => {},
        }
        let ghost before = item_views(only_chants@);
        let ghost item_view = item@;
        only_chants.push(item);
        proof {
            assert(item_views(only_chants@) =~= before.push(item_view));
        }
        i = i + 1;
    }
    Distribution::new(cur_stats, reqs, &only_chants)
}

/// The exhaustive search: for every open socket on every item, place the
/// locally best gem (and, when enchanting is on, the locally best
/// enchantment for that item), recurse on the state with that socket
/// filled, and keep the strictly best outcome. The gain settled on is
/// exactly `solve_gain` of the input state, and never falls below the
/// "do nothing further" baseline.
pub fn solve_recursively(
    main_state: Vec<Item>,
    cur_stats: CurStats,
    reqs: &Vec<Requirement>,
    optimizer: &BestBonusFinder,
    try_chanting: bool,
    allow_tear: bool,
) -> (r: Distribution)
    requires
        optimizer.wf(),
    ensures
        r.gain as int == solve_gain(
            item_views(main_state@),
            cur_stats,
            reqs@,
            *optimizer,
            try_chanting,
            allow_tear,
        ),
        r.gain as int == gain_spec(r.stat_growth, reqs@),
        r.gain as int >= gain_spec(cur_stats, reqs@),
        reachable(
            item_views(main_state@), cur_stats, reqs@, *optimizer, try_chanting, allow_tear,
            item_views(r.items@), r.stat_growth,
        ),
        (!allow_tear || state_has_tear(item_views(main_state@)))
            ==> tears_preserved(item_views(main_state@), item_views(r.items@)),
        item_views(r.items@).len() == main_state@.len(),
        forall|k: int| 0 <= k < main_state@.len()
            ==> (#[trigger] item_views(r.items@)[k]).slot == item_views(main_state@)[k].slot,
        r.food is None,
    decreases state_empties(item_views(main_state@)),
{
    let ghost pre = item_views(main_state@);
    let mut distr_best = Distribution::new(cur_stats, reqs, &main_state);
    // The universal gem stays available only while the state holds none;
    // scanned once per call, then passed down unchanged to every branch.
    let allow_tear_further = allow_tear && !has_tear(&main_state);
    let ghost total = solve_gain(pre, cur_stats, reqs@, *optimizer, try_chanting, allow_tear);
    proof {
        assert(total == best_from(
            pre, cur_stats, reqs@, *optimizer, try_chanting, allow_tear_further, 0, 0,
        ));
        lemma_best_from_ge_baseline(
            pre, cur_stats, reqs@, *optimizer, try_chanting, allow_tear_further, 0, 0,
        );
        assert(item_views(distr_best.items@) == pre && distr_best.stat_growth == cur_stats);
        assert(reachable(
            pre, cur_stats, reqs@, *optimizer, try_chanting, allow_tear,
            item_views(distr_best.items@), distr_best.stat_growth,
        ));
    }
    let n_items = main_state.len();
    let mut item_ind: usize = 0;
    while item_ind < n_items
        invariant
            item_ind <= n_items,
            n_items == main_state@.len(),
            pre == item_views(main_state@),
            optimizer.wf(),
            allow_tear_further == (allow_tear && !state_has_tear(pre)),
            total == max2(
                distr_best.gain as int,
                best_from(
                    pre, cur_stats, reqs@, *optimizer, try_chanting, allow_tear_further,
                    item_ind as int, 0,
                ),
            ),
            distr_best.gain as int == gain_spec(distr_best.stat_growth, reqs@),
            distr_best.gain as int >= gain_spec(cur_stats, reqs@),
            reachable(
                pre, cur_stats, reqs@, *optimizer, try_chanting, allow_tear,
                item_views(distr_best.items@), distr_best.stat_growth,
            ),
            (!allow_tear || state_has_tear(pre))
                ==> tears_preserved(pre, item_views(distr_best.items@)),
            item_views(distr_best.items@).len() == main_state@.len(),
            forall|k: int| 0 <= k < main_state@.len()
                ==> (#[trigger] item_views(distr_best.items@)[k]).slot
                    == item_views(main_state@)[k].slot,
            distr_best.food is None,
        decreases n_items - item_ind,
    {
        let n_sockets = main_state[item_ind].sockets.len();
        proof {
            assert(pre[item_ind as int] == main_state@[item_ind as int]@);
        }
        let mut ind_socket: usize = 0;
        while ind_socket < n_sockets
            invariant
                ind_socket <= n_sockets,
                item_ind < n_items,
                n_items == main_state@.len(),
                n_sockets == main_state@[item_ind as int].sockets@.len(),
                n_sockets == pre[item_ind as int].sockets.len(),
                pre == item_views(main_state@),
                optimizer.wf(),
                allow_tear_further == (allow_tear && !state_has_tear(pre)),
                total == max2(
                    distr_best.gain as int,
                    best_from(
                        pre, cur_stats, reqs@, *optimizer, try_chanting, allow_tear_further,
                        item_ind as int, ind_socket as int,
                    ),
                ),
                distr_best.gain as int == gain_spec(distr_best.stat_growth, reqs@),
                distr_best.gain as int >= gain_spec(cur_stats, reqs@),
                reachable(
                    pre, cur_stats, reqs@, *optimizer, try_chanting, allow_tear,
                    item_views(distr_best.items@), distr_best.stat_growth,
                ),
                (!allow_tear || state_has_tear(pre))
                    ==> tears_preserved(pre, item_views(distr_best.items@)),
                item_views(distr_best.items@).len() == main_state@.len(),
                forall|k: int| 0 <= k < main_state@.len()
                    ==> (#[trigger] item_views(distr_best.items@)[k]).slot
                        == item_views(main_state@)[k].slot,
                distr_best.food is None,
            decreases n_sockets - ind_socket,
        {
            let ghost orig_view = pre[item_ind as int];
            let mut item = main_state[item_ind].clone();
            proof {
                assert(pre[item_ind as int] == main_state@[item_ind as int]@);
                assert(item@ == orig_view);
                assert(item@.sockets.len() == item.sockets@.len());
                assert(orig_view.sockets[ind_socket as int]
                    == main_state@[item_ind as int].sockets@[ind_socket as int]@);
            }
            if item.sockets[ind_socket].is_empty() {
                let ghost branch = gem_branch(
                    pre, cur_stats, reqs@, *optimizer, try_chanting, allow_tear_further,
                    item_ind as int, ind_socket as int,
                );
                let mut temp_stats = cur_stats;
                let best_gem = optimizer.get_best_gem(&temp_stats, reqs, allow_tear_further);
                item.get_socket_mut(ind_socket).set_gem(&best_gem);
                best_gem.get_bonuses().apply_bonuses(&mut temp_stats);
                if try_chanting && !item.is_enchanted() {
                    let enchantment = optimizer.get_best_enchantment_by_slot(
                        item.get_slot(),
                        &temp_stats,
                        reqs,
                    );
                    item.set_enchantment(&enchantment);
                    enchantment.get_bonuses().apply_bonuses(&mut temp_stats);
                }
                let mut altered_state = clone_items(&main_state);
                altered_state[item_ind] = item.clone();
                if item.sockets_match() {
                    item.apply_socket_bonus(&mut temp_stats);
                }
                proof {
                    assert(item@ =~= branch.0[item_ind as int]);
                    assert(temp_stats == branch.1);
                    let post = item_views(altered_state@);
                    assert(post =~= pre.update(item_ind as int, item@));
                    assert(post == branch.0);
                    lemma_state_empties_update(pre, item_ind as int, item@);
                    lemma_socket_empties_update(
                        orig_view.sockets,
                        ind_socket as int,
                        item@.sockets[ind_socket as int],
                    );
                    lemma_socket_empties_at(orig_view.sockets, ind_socket as int);
                    assert(state_empties(post) < state_empties(pre));
                }
                let distr = solve_recursively(
                    altered_state,
                    temp_stats,
                    reqs,
                    optimizer,
                    try_chanting,
                    allow_tear_further,
                );
                proof {
                    assert(distr.gain as int
                        == solve_gain(branch.0, branch.1, reqs@, *optimizer, try_chanting,
                            allow_tear_further));
                    assert(best_from(
                        pre, cur_stats, reqs@, *optimizer, try_chanting, allow_tear_further,
                        item_ind as int, ind_socket as int,
                    ) == max2(
                        distr.gain as int,
                        best_from(
                            pre, cur_stats, reqs@, *optimizer, try_chanting, allow_tear_further,
                            item_ind as int, ind_socket as int + 1,
                        ),
                    ));
                    // The branch outcome is reachable from this call's state.
                    assert(pre[item_ind as int].sockets[ind_socket as int].gem is None);
                    assert(reachable(branch.0, branch.1, reqs@, *optimizer, try_chanting,
                        allow_tear_further, item_views(distr.items@), distr.stat_growth));
                    assert(reachable(
                        pre, cur_stats, reqs@, *optimizer, try_chanting, allow_tear,
                        item_views(distr.items@), distr.stat_growth,
                    ));
                    if !allow_tear || state_has_tear(pre) {
                        assert(!allow_tear_further);
                        lemma_chosen_gem_not_tear(*optimizer, cur_stats, reqs@);
                        assert forall|a: int, b: int| 0 <= a < branch.0.len()
                            && 0 <= b < branch.0[a].sockets.len()
                            && socket_is_tear(#[trigger] branch.0[a].sockets[b])
                            implies 0 <= a < pre.len() && 0 <= b < pre[a].sockets.len()
                                && socket_is_tear(pre[a].sockets[b]) by {
                            if a == item_ind as int {
                                if b == ind_socket as int {
                                    assert(branch.0[a].sockets[b].gem == Option::Some(
                                        chosen_gem(*optimizer, cur_stats, reqs@, false),
                                    ));
                                    assert(!socket_is_tear(branch.0[a].sockets[b]));
                                } else {
                                    assert(branch.0[a].sockets[b] == pre[a].sockets[b]);
                                }
                            } else {
                                assert(branch.0[a] == pre[a]);
                            }
                        }
                        assert(tears_preserved(pre, branch.0));
                        assert(tears_preserved(branch.0, item_views(distr.items@)));
                        let out = item_views(distr.items@);
                        assert forall|a: int, b: int| 0 <= a < out.len()
                            && 0 <= b < out[a].sockets.len()
                            && socket_is_tear(#[trigger] out[a].sockets[b])
                            implies 0 <= a < pre.len() && 0 <= b < pre[a].sockets.len()
                                && socket_is_tear(pre[a].sockets[b]) by {
                            assert(socket_is_tear(branch.0[a].sockets[b]));
                        }
                        assert(tears_preserved(pre, item_views(distr.items@)));
                    }
                }
                if distr_best.is_new_better(&Option::Some(&distr)) {
                    distr_best = distr;
                }
            }
            ind_socket = ind_socket + 1;
        }
        item_ind = item_ind + 1;
    }
    distr_best
}

/// The profile reached by applying, in order, the intrinsic bonuses of the
/// first `n` of these items to `stats`.
pub open spec fn variant_applied(stats: CurStats, items: Seq<ItemView>, n: int) -> CurStats
    decreases n,
{
    if n <= 0 {
        stats
    } else {
        applied(variant_applied(stats, items, n - 1), items[n - 1].stats)
    }
}

/// What slot `s` holds after locking the first `n` of these items, one
/// after the other, over a slot that held `prev`.
pub open spec fn lock_result(
    prev: Option<ItemView>,
    items: Seq<ItemView>,
    s: ItemSlot,
    n: int,
) -> Option<ItemView>
    decreases n,
{
    if n <= 0 {
        prev
    } else {
        let r = lock_result(prev, items, s, n - 1);
        if items[n - 1].slot == s {
            Option::Some(items[n - 1])
        } else {
            r
        }
    }
}

/// The items standing in the first `n` canonical slots under the content
/// function `f`, empty slots skipped.
pub open spec fn equipped_rec(f: spec_fn(ItemSlot) -> Option<ItemView>, n: int) -> Seq<ItemView>
    decreases n,
{
    if n <= 0 {
        Seq::empty()
    } else {
        equipped_rec(f, n - 1) + (match f(ItemSlot::from_index_spec(n - 1)) {
            Option::Some(v) => seq![v],
            Option::None => Seq::empty(),
        })
    }
}

/// Content functions that agree slot for slot equip the same items.
proof fn lemma_equipped_rec_congruence(
    f: spec_fn(ItemSlot) -> Option<ItemView>,
    g: spec_fn(ItemSlot) -> Option<ItemView>,
    n: int,
)
    requires
        forall|s: ItemSlot| #[trigger] f(s) == g(s),
    ensures
        equipped_rec(f, n) == equipped_rec(g, n),
    decreases n,
{
    if n > 0 {
        lemma_equipped_rec_congruence(f, g, n - 1);
    }
}

/// The position of a registered slot in the registration order.
pub open spec fn slot_position(slots: Seq<ItemSlot>, s: ItemSlot) -> int {
    choose|i: int| 0 <= i < slots.len() && slots[i] == s
}

/// Locking items whose slots avoid `s` leaves `s` untouched.
proof fn lemma_lock_misses(
    prev: Option<ItemView>,
    items: Seq<ItemView>,
    s: ItemSlot,
    n: int,
)
    requires
        forall|i: int| 0 <= i < n && i < items.len() ==> (#[trigger] items[i]).slot != s,
        n <= items.len(),
    ensures
        lock_result(prev, items, s, n) == prev,
    decreases n,
{
    if n > 0 {
        lemma_lock_misses(prev, items, s, n - 1);
    }
}

/// Locking items with pairwise distinct slots puts the one made for `s`
/// into `s`, whatever stood there before.
proof fn lemma_lock_hits(
    prev: Option<ItemView>,
    items: Seq<ItemView>,
    slots: Seq<ItemSlot>,
    s: ItemSlot,
    p: int,
)
    requires
        items.len() == slots.len(),
        forall|i: int| 0 <= i < items.len() ==> (#[trigger] items[i]).slot == slots[i],
        forall|i: int, j: int| 0 <= i < slots.len() && 0 <= j < slots.len() && i != j
            ==> slots[i] != slots[j],
        0 <= p < slots.len(),
        slots[p] == s,
    ensures
        lock_result(prev, items, s, items.len() as int) == Option::Some(items[p]),
    decreases items.len(),
{
    let n = items.len() as int;
    if p == n - 1 {
        assert(lock_result(prev, items, s, n) == Option::Some(items[n - 1]));
    } else {
        assert(items[n - 1].slot == slots[n - 1]);
        assert(slots[n - 1] != s);
        let di = items.drop_last();
        let ds = slots.drop_last();
        assert forall|i: int| 0 <= i < di.len() implies (#[trigger] di[i]).slot == ds[i] by {
            assert(di[i] == items[i]);
        }
        assert forall|i: int, j: int| 0 <= i < ds.len() && 0 <= j < ds.len() && i != j
            implies ds[i] != ds[j] by {
            assert(ds[i] == slots[i] && ds[j] == slots[j]);
        }
        lemma_lock_hits(prev, di, ds, s, p);
        assert(lock_result(prev, items, s, n - 1) == lock_result(prev, di, ds[p], n - 1)) by {
            lemma_lock_prefix(prev, items, di, s, n - 1);
        }
    }
}

/// `lock_result` over a prefix reads only that prefix.
proof fn lemma_lock_prefix(
    prev: Option<ItemView>,
    items: Seq<ItemView>,
    di: Seq<ItemView>,
    s: ItemSlot,
    n: int,
)
    requires
        n <= items.len(),
        n <= di.len(),
        forall|i: int| 0 <= i < n ==> items[i] == di[i],
    ensures
        lock_result(prev, items, s, n) == lock_result(prev, di, s, n),
    decreases n,
{
    if n > 0 {
        lemma_lock_prefix(prev, items, di, s, n - 1);
    }
}

/// The gain one pass of the selected search mode settles on, for a given
/// equipment state and profile.
pub open spec fn mode_gain(
    state: Seq<ItemView>,
    stats: CurStats,
    reqs: Seq<Requirement>,
    finder: BestBonusFinder,
    enable_gems: bool,
    enable_chants: bool,
    enable_prechant: bool,
    allow_tear: bool,
) -> int {
    if enable_chants && !enable_gems {
        gain_spec(prechant_upto(state, stats, reqs, finder, state.len() as int).1, reqs)
    } else if enable_gems && !enable_chants {
        solve_gain(state, stats, reqs, finder, false, allow_tear)
    } else if enable_gems && enable_chants && !enable_prechant {
        solve_gain(state, stats, reqs, finder, true, allow_tear)
    } else if enable_gems && enable_chants && enable_prechant {
        let pc = prechant_upto(state, stats, reqs, finder, state.len() as int);
        max2(
            solve_gain(pc.0, pc.1, reqs, finder, false, allow_tear),
            solve_gain(state, stats, reqs, finder, true, allow_tear),
        )
    } else {
        0
    }
}

/// The view of an optional borrowed food.
pub open spec fn food_choice_view(o: Option<&Food>) -> Option<FoodView> {
    match o {
        Option::None => Option::None,
        Option::Some(f) => Option::Some(f@),
    }
}

/// What the orchestrator retains after walking the first `n` food
/// candidates, as a gain and the food it came with: starting from `init`
/// (the best already held, if any), each pass replaces the kept pair only
/// when its best gain is strictly greater.
pub open spec fn run_fold(
    init: Option<(int, Option<FoodView>)>,
    sim0: Simulator,
    foods: Seq<FoodView>,
    reqs: Seq<Requirement>,
    finder: BestBonusFinder,
    enable_gems: bool,
    enable_chants: bool,
    enable_prechant: bool,
    allow_tear: bool,
    n: int,
) -> Option<(int, Option<FoodView>)>
    decreases n,
{
    if n <= 0 {
        init
    } else {
        let prev = run_fold(
            init, sim0, foods, reqs, finder, enable_gems, enable_chants, enable_prechant,
            allow_tear, n - 1,
        );
        let pb = sim0.pass_best(
            Option::Some(foods[n - 1]), reqs, finder, enable_gems, enable_chants,
            enable_prechant, allow_tear,
        );
        match prev {
            Option::None => Option::Some((pb, Option::Some(foods[n - 1]))),
            Option::Some(p) => if pb > p.0 {
                Option::Some((pb, Option::Some(foods[n - 1])))
            } else {
                prev
            },
        }
    }
}

/// Two simulator states that agree on the rotation and on every slot
/// outside it examine the same variant for every index.
proof fn lemma_variant_gain_stable(
    s1: Simulator,
    s2: Simulator,
    food: Option<FoodView>,
    reqs: Seq<Requirement>,
    finder: BestBonusFinder,
    enable_gems: bool,
    enable_chants: bool,
    enable_prechant: bool,
    allow_tear: bool,
    k: int,
)
    requires
        s1.rotatable == s2.rotatable,
        forall|s: ItemSlot| !s1.rot_registered(s)
            ==> s1.build.spec_item(s) == s2.build.spec_item(s),
    ensures
        s1.variant_mode_gain(
            food, reqs, finder, enable_gems, enable_chants, enable_prechant, allow_tear, k,
        ) == s2.variant_mode_gain(
            food, reqs, finder, enable_gems, enable_chants, enable_prechant, allow_tear, k,
        ),
{
    assert(s1.variant_stats(k) == s2.variant_stats(k));
    assert forall|s: ItemSlot| #[trigger] s1.variant_content(k, s)
        == s2.variant_content(k, s) by {
        if !s1.rot_registered(s) {
            assert(s1.build.spec_item(s) == s2.build.spec_item(s));
        }
    }
    lemma_equipped_rec_congruence(
        |s: ItemSlot| s1.variant_content(k, s),
        |s: ItemSlot| s2.variant_content(k, s),
        SLOT_COUNT as int,
    );
    assert(s1.variant_equipped(k) == s2.variant_equipped(k));
}

/// Two simulator states that agree on the rotation and on every slot
/// outside it examine the same variants, so a pass settles on the same
/// best gain from either.
proof fn lemma_pass_stable(
    s1: Simulator,
    s2: Simulator,
    food: Option<FoodView>,
    reqs: Seq<Requirement>,
    finder: BestBonusFinder,
    enable_gems: bool,
    enable_chants: bool,
    enable_prechant: bool,
    allow_tear: bool,
    k: int,
)
    requires
        s1.rotatable == s2.rotatable,
        forall|s: ItemSlot| !s1.rot_registered(s)
            ==> s1.build.spec_item(s) == s2.build.spec_item(s),
    ensures
        s1.pass_best_upto(
            food, reqs, finder, enable_gems, enable_chants, enable_prechant, allow_tear, k,
        ) == s2.pass_best_upto(
            food, reqs, finder, enable_gems, enable_chants, enable_prechant, allow_tear, k,
        ),
    decreases (if k <= 1 { 1int } else { k }),
{
    if k <= 1 {
        lemma_variant_gain_stable(
            s1, s2, food, reqs, finder, enable_gems, enable_chants, enable_prechant,
            allow_tear, 0,
        );
    } else {
        lemma_pass_stable(
            s1, s2, food, reqs, finder, enable_gems, enable_chants, enable_prechant,
            allow_tear, k - 1,
        );
        lemma_variant_gain_stable(
            s1, s2, food, reqs, finder, enable_gems, enable_chants, enable_prechant,
            allow_tear, k - 1,
        );
    }
}

/// The orchestrator: normalizes the requirement list once, walks rotation
/// variants and food candidates, runs the selected search mode on each, and
/// retains the single best `Distribution` found.
pub struct Simulator {
    pub reqs: Vec<Requirement>,
    pub build: ItemBuild,
    pub distribution: Option<Distribution>,
    pub rotatable: Option<Rotatables>,
}

impl Simulator {
    /// How many rotation variants stand to be enumerated: one when nothing
    /// rotates, else the size of the cartesian product of the pools.
    pub open spec fn spec_variant_total(self) -> nat {
        match self.rotatable {
            Option::None => 1,
            Option::Some(rot) => product_count(rot.ordered_pools_spec()),
        }
    }

    /// Whether `s` takes part in the rotation.
    pub open spec fn rot_registered(self, s: ItemSlot) -> bool {
        self.rotatable matches Some(rot) && rot.spec_slots().contains(s)
    }

    /// What slot `s` holds while rotation variant `k` is examined: the
    /// variant's item for a registered slot, the locked build's item
    /// otherwise.
    pub open spec fn variant_content(self, k: int, s: ItemSlot) -> Option<ItemView> {
        match self.rotatable {
            Option::None => self.build.spec_item(s),
            Option::Some(rot) => if rot.spec_slots().contains(s) {
                Option::Some(
                    product_elem(rot.ordered_pools_spec(), k)[slot_position(rot.spec_slots(), s)],
                )
            } else {
                self.build.spec_item(s)
            },
        }
    }

    /// The equipped items examined for rotation variant `k`, in canonical
    /// slot order.
    pub open spec fn variant_equipped(self, k: int) -> Seq<ItemView> {
        equipped_rec(|s: ItemSlot| self.variant_content(k, s), SLOT_COUNT as int)
    }

    /// The stats granted by rotation variant `k` itself.
    pub open spec fn variant_stats(self, k: int) -> CurStats {
        match self.rotatable {
            Option::None => zero_stats(),
            Option::Some(rot) => {
                let v = product_elem(rot.ordered_pools_spec(), k);
                variant_applied(zero_stats(), v, v.len() as int)
            },
        }
    }

    /// The gain the selected mode settles on for rotation variant `k`,
    /// with the bonuses of `food`, if one is given, counted in first.
    pub open spec fn variant_mode_gain(
        self,
        food: Option<FoodView>,
        reqs: Seq<Requirement>,
        finder: BestBonusFinder,
        enable_gems: bool,
        enable_chants: bool,
        enable_prechant: bool,
        allow_tear: bool,
        k: int,
    ) -> int {
        let stats0 = self.variant_stats(k);
        let stats = match food {
            Option::Some(f) => applied(stats0, f.bonuses),
            Option::None => stats0,
        };
        mode_gain(
            self.variant_equipped(k), stats, reqs, finder,
            enable_gems, enable_chants, enable_prechant, allow_tear,
        )
    }

    /// The best mode gain over the first `k` rotation variants.
    pub open spec fn pass_best_upto(
        self,
        food: Option<FoodView>,
        reqs: Seq<Requirement>,
        finder: BestBonusFinder,
        enable_gems: bool,
        enable_chants: bool,
        enable_prechant: bool,
        allow_tear: bool,
        k: int,
    ) -> int
        decreases k,
    {
        if k <= 1 {
            self.variant_mode_gain(
                food, reqs, finder, enable_gems, enable_chants, enable_prechant, allow_tear, 0,
            )
        } else {
            max2(
                self.pass_best_upto(
                    food, reqs, finder, enable_gems, enable_chants, enable_prechant, allow_tear,
                    k - 1,
                ),
                self.variant_mode_gain(
                    food, reqs, finder, enable_gems, enable_chants, enable_prechant, allow_tear,
                    k - 1,
                ),
            )
        }
    }

    /// The best mode gain over every rotation variant: what one pass of the
    /// orchestrator examines for one food choice.
    pub open spec fn pass_best(
        self,
        food: Option<FoodView>,
        reqs: Seq<Requirement>,
        finder: BestBonusFinder,
        enable_gems: bool,
        enable_chants: bool,
        enable_prechant: bool,
        allow_tear: bool,
    ) -> int {
        self.pass_best_upto(
            food, reqs, finder, enable_gems, enable_chants, enable_prechant, allow_tear,
            self.spec_variant_total() as int,
        )
    }

    /// Well-formedness of the held equipment state.
    pub open spec fn wf(self) -> bool {
        &&& self.build.wf()
        &&& self.rotatable matches Some(rot) ==> rot.wf()
    }

    /// Build a simulator over a starting profile, a requirement list, a
    /// locked build and an optional rotation. Every cap requirement's
    /// absolute target becomes a remaining headroom here, exactly once, by
    /// subtracting the starting profile's value of its stat.
    pub fn new(
        cur_stats: CurStats,
        reqs: Vec<Requirement>,
        build: ItemBuild,
        rotatable: Option<Rotatables>,
    ) -> (r: Self)
        requires
            build.wf(),
            rotatable matches Some(rot) ==> rot.wf(),
            forall|i: int| 0 <= i < reqs@.len()
                ==> ((#[trigger] reqs@[i]) matches Requirement::RequirementCap(c)
                    ==> c.val - cur_stats.spec_get(c.stat) >= i64::MIN),
        ensures
            r.wf(),
            r.distribution is None,
            r.build == build,
            r.rotatable == rotatable,
            r.reqs@.len() == reqs@.len(),
            forall|i: int| 0 <= i < reqs@.len() ==> #[trigger] r.reqs@[i] == (match reqs@[i] {
                Requirement::RequirementCap(c) => Requirement::RequirementCap(
                    RequirementCap {
                        stat: c.stat,
                        val: (c.val - cur_stats.spec_get(c.stat)) as i64,
                        weight: c.weight,
                    },
                ),
                Requirement::RequirementWeighted(w) => reqs@[i],
            }),
    {
        let mut reqs = reqs;
        let ghost reqs0 = reqs@;
        let n = reqs.len();
        let mut i: usize = 0;
        while i < n
            invariant
                i <= n,
                n == reqs@.len(),
                reqs@.len() == reqs0.len(),
                forall|k: int| i <= k < n ==> #[trigger] reqs@[k] == reqs0[k],
                forall|k: int| 0 <= k < n
                    ==> ((#[trigger] reqs0[k]) matches Requirement::RequirementCap(c)
                        ==> c.val - cur_stats.spec_get(c.stat) >= i64::MIN),
                forall|k: int| 0 <= k < i ==> #[trigger] reqs@[k] == (match reqs0[k] {
                    Requirement::RequirementCap(c) => Requirement::RequirementCap(
                        RequirementCap {
                            stat: c.stat,
                            val: (c.val - cur_stats.spec_get(c.stat)) as i64,
                            weight: c.weight,
                        },
                    ),
                    Requirement::RequirementWeighted(w) => reqs0[k],
                }),
            decreases n - i,
        {
            let req = reqs[i];
            match req {
                Requirement::RequirementCap(mut cap) => {
                    cap.make_incremental(&cur_stats);
                    reqs[i] = Requirement::RequirementCap(cap);
                },
                Requirement::RequirementWeighted(_) => {},
            }
            i = i + 1;
        }
        Self { reqs, build, distribution: Option::None, rotatable }
    }

    /// Derive the stats granted by rotation variant `to_skip` and lock its
    /// items into the build. With no rotation configured, variant zero is
    /// the locked build as-is (an empty stat profile), and every later
    /// request signals exhaustion.
    fn next_build(&mut self, to_skip: usize) -> (r: Option<CurStats>)
        requires
            old(self).wf(),
        ensures
            final(self).wf(),
            final(self).reqs == old(self).reqs,
            final(self).rotatable == old(self).rotatable,
            final(self).distribution == old(self).distribution,
            old(self).rotatable is None ==> ((r is Some) <==> to_skip == 0)
                && final(self).build == old(self).build
                && (r is Some ==> r == Option::Some(zero_stats())),
            old(self).rotatable matches Some(rot) ==> ({
                let variant = product_elem(rot.ordered_pools_spec(), to_skip as int);
                &&& ((r is Some) <==> to_skip < product_count(rot.ordered_pools_spec()))
                &&& (r is Some ==> r == Option::Some(variant_applied(
                        zero_stats(), variant, variant.len() as int,
                    ))
                    && (forall|s: ItemSlot| final(self).build.spec_item(s)
                        == lock_result(
                            old(self).build.spec_item(s), variant, s, variant.len() as int,
                        )))
                &&& (r is None ==> final(self).build == old(self).build)
            }),
    {
        let to_return = CurStats::new();
        proof {
            assert(to_return == zero_stats());
        }
        let items_to_lock: Option<Vec<Item>> = match &self.rotatable {
            Option::None => {
                // Nothing to rotate: the locked build stands as-is, once.
                if to_skip == 0 {
                    return Option::Some(to_return);
                } else {
                    return Option::None;
                }
            },
            Option::Some(rot) => {
                let gen = rot.iter_variants();
                gen.variant_at(to_skip)
            },
        };
        let ghost variant: Seq<ItemView> = match &self.rotatable {
            Option::Some(rot) => product_elem(rot.ordered_pools_spec(), to_skip as int),
            Option::None => Seq::empty(),
        };
        match items_to_lock {
            Option::Some(items) => {
                proof {
                    assert(item_views(items@) == variant);
                }
                let mut to_return = to_return;
                let m = items.len();
                let mut j: usize = 0;
                while j < m
                    invariant
                        j <= m,
                        m == items@.len(),
                        item_views(items@) == variant,
                        self.build.wf(),
                        self.reqs == old(self).reqs,
                        self.rotatable == old(self).rotatable,
                        self.distribution == old(self).distribution,
                        to_return == variant_applied(zero_stats(), variant, j as int),
                        forall|s: ItemSlot| self.build.spec_item(s)
                            == lock_result(old(self).build.spec_item(s), variant, s, j as int),
                    decreases m - j,
                {
                    proof {
                        assert(variant[j as int] == items@[j as int]@);
                    }
                    let rotatable_item = &items[j];
                    rotatable_item.get_stats_bonuses().apply_bonuses(&mut to_return);
                    self.build.lock_item(rotatable_item.clone());
                    proof {
                        assert forall|s: ItemSlot| self.build.spec_item(s)
                            == lock_result(old(self).build.spec_item(s), variant, s, j as int + 1) by {
                        }
                    }
                    j = j + 1;
                }
                Option::Some(to_return)
            },
            Option::None => Option::None,
        }
    }

    /// One pass over every rotation variant with one fixed food choice (or
    /// none): run the selected search mode on each variant and keep the
    /// strictly best outcome, attaching the food to it. The retained gain
    /// is exactly the best of the old one and every variant's mode gain.
    fn run_variants(
        &mut self,
        food: Option<&Food>,
        reqs: &Vec<Requirement>,
        optimizer: &BestBonusFinder,
        enable_gems: bool,
        enable_chants: bool,
        enable_prechant: bool,
        allow_tear: bool,
    )
        requires
            old(self).wf(),
            optimizer.wf(),
        ensures
            final(self).wf(),
            final(self).rotatable == old(self).rotatable,
            final(self).reqs == old(self).reqs,
            forall|s: ItemSlot| !old(self).rot_registered(s)
                ==> final(self).build.spec_item(s) == old(self).build.spec_item(s),
            old(self).distribution matches Some(d)
                ==> (final(self).distribution matches Some(d2) && d2.gain >= d.gain),
            (enable_gems || enable_chants) && old(self).distribution is None
                ==> final(self).distribution is Some,
            !(enable_gems || enable_chants) ==> final(self).distribution == old(self).distribution,
            (enable_gems || enable_chants) && old(self).spec_variant_total() <= usize::MAX
                ==> ({
                    let best = old(self).pass_best(
                        food_choice_view(food), reqs@, *optimizer,
                        enable_gems, enable_chants, enable_prechant, allow_tear,
                    );
                    match old(self).distribution {
                        Option::None => final(self).distribution matches Some(d)
                            && d.gain as int == best
                            && opt_food_view(d.food) == food_choice_view(food),
                        Option::Some(o) => if best > o.gain as int {
                            final(self).distribution matches Some(d)
                                && d.gain as int == best
                                && opt_food_view(d.food) == food_choice_view(food)
                        } else {
                            final(self).distribution == old(self).distribution
                        },
                    }
                }),
    {
        let ghost variant_total: nat = self.spec_variant_total();
        let ghost fv = food_choice_view(food);
        let mut skip_that_much_variants: usize = 0;
        loop
            invariant
                self.wf(),
                optimizer.wf(),
                self.rotatable == old(self).rotatable,
                self.reqs == old(self).reqs,
                forall|s: ItemSlot| !old(self).rot_registered(s)
                    ==> self.build.spec_item(s) == old(self).build.spec_item(s),
                skip_that_much_variants <= variant_total,
                variant_total == self.spec_variant_total(),
                fv == food_choice_view(food),
                old(self).distribution matches Some(d)
                    ==> (self.distribution matches Some(d2) && d2.gain >= d.gain),
                (enable_gems || enable_chants) && old(self).distribution is None
                    && skip_that_much_variants > 0 ==> self.distribution is Some,
                !(enable_gems || enable_chants) ==> self.distribution == old(self).distribution,
                skip_that_much_variants == 0 ==> self.distribution == old(self).distribution,
                (enable_gems || enable_chants) && skip_that_much_variants > 0
                    ==> ({
                        let sofar = old(self).pass_best_upto(
                            fv, reqs@, *optimizer, enable_gems, enable_chants, enable_prechant,
                            allow_tear, skip_that_much_variants as int,
                        );
                        match old(self).distribution {
                            Option::None => self.distribution matches Some(d)
                                && d.gain as int == sofar && opt_food_view(d.food) == fv,
                            Option::Some(o) => if sofar > o.gain as int {
                                self.distribution matches Some(d)
                                    && d.gain as int == sofar && opt_food_view(d.food) == fv
                            } else {
                                self.distribution == old(self).distribution
                            },
                        }
                    }),
            decreases variant_total - skip_that_much_variants,
        {
            let ghost cur_variant: int = skip_that_much_variants as int;
            let ghost prev_build = self.build;
            let cur_stats = self.next_build(skip_that_much_variants);
            match cur_stats {
                Option::None => {
                    proof {
                        if skip_that_much_variants == 0 {
                            match &self.rotatable {
                                Option::Some(rot) => {
                                    assert forall|i: int| 0 <= i < rot.ordered_pools_spec().len()
                                        implies (#[trigger] rot.ordered_pools_spec()[i]).len() > 0 by {
                                        assert(rot.ordered_pools_spec()[i]
                                            == rot.spec_pool(rot.spec_slots()[i]));
                                    }
                                    crate::character::lemma_product_count_positive(
                                        rot.ordered_pools_spec(),
                                    );
                                },
                                Option::None => {},
                            }
                        }
                        assert(skip_that_much_variants > 0);
                        assert(skip_that_much_variants == variant_total);
                    }
                    return;
                },
                Option::Some(mut cur_stats) => {
                    proof {
                        // The build now shows exactly rotation variant
                        // `cur_variant`, and the stats are that variant's.
                        match &self.rotatable {
                            Option::None => {
                                assert(cur_stats == old(self).variant_stats(cur_variant));
                                assert forall|s: ItemSlot| self.build.spec_item(s)
                                    == old(self).variant_content(cur_variant, s) by {
                                    assert(!old(self).rot_registered(s));
                                }
                            },
                            Option::Some(rot) => {
                                let slots = rot.spec_slots();
                                let variant = product_elem(rot.ordered_pools_spec(), cur_variant);
                                crate::character::lemma_product_elem_shape(
                                    rot.ordered_pools_spec(), cur_variant,
                                );
                                assert(variant.len() == slots.len());
                                assert forall|i: int| 0 <= i < variant.len()
                                    implies (#[trigger] variant[i]).slot == slots[i] by {
                                    assert(rot.ordered_pools_spec()[i]
                                        == rot.spec_pool(slots[i]));
                                    assert(rot.spec_pool(slots[i]).contains(variant[i]));
                                    let k = choose|k: int| 0 <= k < rot.spec_pool(slots[i]).len()
                                        && rot.spec_pool(slots[i])[k] == variant[i];
                                    assert(rot.spec_pool(slots[i])[k].slot == slots[i]);
                                }
                                assert(cur_stats == old(self).variant_stats(cur_variant));
                                assert forall|s: ItemSlot| self.build.spec_item(s)
                                    == old(self).variant_content(cur_variant, s) by {
                                    assert(self.build.spec_item(s) == lock_result(
                                        prev_build.spec_item(s), variant, s, variant.len() as int,
                                    ));
                                    if slots.contains(s) {
                                        let p = slot_position(slots, s);
                                        assert(0 <= p < slots.len() && slots[p] == s);
                                        lemma_lock_hits(
                                            prev_build.spec_item(s), variant, slots, s, p,
                                        );
                                    } else {
                                        assert forall|i: int| 0 <= i < variant.len()
                                            implies (#[trigger] variant[i]).slot != s by {
                                            assert(slots.contains(slots[i]));
                                        }
                                        lemma_lock_misses(
                                            prev_build.spec_item(s), variant, s,
                                            variant.len() as int,
                                        );
                                        assert(!old(self).rot_registered(s));
                                        assert(prev_build.spec_item(s)
                                            == old(self).build.spec_item(s));
                                    }
                                }
                            },
                        }
                        assert(forall|s: ItemSlot| self.build.spec_item(s)
                            == old(self).variant_content(cur_variant, s));
                    }
                    match food {
                        Option::Some(f) => {
                            f.get_bonuses().apply_bonuses(&mut cur_stats);
                        },
                        Option::None => {},
                    }
                    let ghost vc = |s: ItemSlot| old(self).variant_content(cur_variant, s);
                    let mut main_state: Vec<Item> = Vec::new();
                    let mut si: usize = 0;
                    while si < SLOT_COUNT
                        invariant
                            si <= SLOT_COUNT,
                            self.build.wf(),
                            vc == (|s: ItemSlot| old(self).variant_content(cur_variant, s)),
                            forall|s: ItemSlot| self.build.spec_item(s) == vc(s),
                            item_views(main_state@) == equipped_rec(vc, si as int),
                        decreases SLOT_COUNT - si,
                    {
                        let slot = ItemSlot::from_index(si);
                        let ghost before = item_views(main_state@);
                        match self.build.get_item(slot) {
                            Option::Some(item) => {
                                let ghost iv = item@;
                                main_state.push(item.clone());
                                proof {
                                    assert(item_views(main_state@) =~= before.push(iv));
                                    assert(vc(slot) == Option::Some(iv));
                                    assert(item_views(main_state@)
                                        =~= equipped_rec(vc, si as int + 1));
                                }
                            },
                            Option::None => {
                                proof {
                                    assert(vc(slot) is None);
                                    assert(item_views(main_state@)
                                        =~= equipped_rec(vc, si as int + 1));
                                }
                            },
                        }
                        si = si + 1;
                    }
                    proof {
                        lemma_equipped_rec_congruence(
                            vc,
                            |s: ItemSlot| old(self).variant_content(cur_variant, s),
                            SLOT_COUNT as int,
                        );
                        assert(item_views(main_state@)
                            == old(self).variant_equipped(cur_variant));
                    }
                    let ghost mv = item_views(main_state@);
                    let ghost vmg = old(self).variant_mode_gain(
                        fv, reqs@, *optimizer, enable_gems, enable_chants, enable_prechant,
                        allow_tear, cur_variant,
                    );
                    let mut distr: Option<Distribution> = Option::None;
                    if enable_chants && !enable_gems {
                        distr = Option::Some(prechants_only(
                            clone_items(&main_state),
                            cur_stats,
                            reqs,
                            optimizer,
                        ));
                    }
                    if !enable_chants && enable_gems {
                        distr = Option::Some(solve_recursively(
                            clone_items(&main_state),
                            cur_stats,
                            reqs,
                            optimizer,
                            false,
                            allow_tear,
                        ));
                    }
                    if enable_chants && enable_gems && !enable_prechant {
                        distr = Option::Some(solve_recursively(
                            clone_items(&main_state),
                            cur_stats,
                            reqs,
                            optimizer,
                            true,
                            allow_tear,
                        ));
                    }
                    if enable_chants && enable_gems && enable_prechant {
                        // First enchant everything then place gems; also try
                        // both choices entangled; keep the better outcome.
                        let chanted_distr = prechants_only(
                            clone_items(&main_state),
                            cur_stats,
                            reqs,
                            optimizer,
                        );
                        let distr_pre = solve_recursively(
                            clone_items(chanted_distr.get_items()),
                            *chanted_distr.get_stat_growth(),
                            reqs,
                            optimizer,
                            false,
                            allow_tear,
                        );
                        let distr_post = solve_recursively(
                            main_state,
                            cur_stats,
                            reqs,
                            optimizer,
                            true,
                            allow_tear,
                        );
                        distr = if distr_pre.is_new_better(&Option::Some(&distr_post)) {
                            Option::Some(distr_post)
                        } else {
                            Option::Some(distr_pre)
                        };
                    }
                    proof {
                        if enable_gems || enable_chants {
                            assert(distr matches Some(d) && d.gain as int == vmg);
                        }
                        assert(old(self).pass_best_upto(
                            fv, reqs@, *optimizer, enable_gems, enable_chants, enable_prechant,
                            allow_tear, cur_variant + 1,
                        ) == (if cur_variant == 0 {
                            vmg
                        } else {
                            max2(
                                old(self).pass_best_upto(
                                    fv, reqs@, *optimizer, enable_gems, enable_chants,
                                    enable_prechant, allow_tear, cur_variant,
                                ),
                                vmg,
                            )
                        }));
                    }
                    let replace = match &self.distribution {
                        Option::None => true,
                        Option::Some(d) => d.is_new_better(&distr.as_ref()),
                    };
                    if replace {
                        match distr {
                            Option::Some(mut d) => {
                                match food {
                                    Option::Some(f) => {
                                        d.set_food(f.clone());
                                    },
                                    Option::None => {},
                                }
                                self.distribution = Option::Some(d);
                            },
                            Option::None => {},
                        }
                    }
                    // This variant is handled now; the next request moves on.
                    if skip_that_much_variants == usize::MAX {
                        return;
                    }
                    skip_that_much_variants = skip_that_much_variants + 1;
                },
            }
        }
    }

    /// Run the search: for each useful food candidate (or a single no-food
    /// pass when food is disabled) and each rotation variant, run the
    /// selected mode and keep the globally best `Distribution`. An existing
    /// best is only ever replaced by a strictly better one; the retained
    /// gain is exactly the best over everything examined, with the food of
    /// the winning pass attached.
    pub fn run(
        &mut self,
        enable_gems: bool,
        enable_chants: bool,
        enable_food: bool,
        enable_prechant: bool,
        allow_tear: bool,
    )
        requires
            old(self).wf(),
        ensures
            final(self).wf(),
            final(self).reqs == old(self).reqs,
            final(self).rotatable == old(self).rotatable,
            old(self).distribution matches Some(d)
                ==> (final(self).distribution matches Some(d2) && d2.gain >= d.gain),
            !enable_food && (enable_gems || enable_chants) && old(self).distribution is None
                ==> final(self).distribution is Some,
            !(enable_gems || enable_chants) ==> final(self).distribution == old(self).distribution,
            (enable_gems || enable_chants) && old(self).spec_variant_total() <= usize::MAX
                ==> exists|finder: BestBonusFinder| {
                    &&& #[trigger] finder.wf()
                    &&& finder.spec_gems() == default_gems()
                    &&& (forall|sl: ItemSlot| #[trigger] finder.spec_enchants(sl)
                        == default_enchants(sl))
                    &&& finder.spec_foods() == default_foods()
                    &&& (!enable_food ==> ({
                        let best = old(self).pass_best(
                            Option::None, old(self).reqs@, finder,
                            enable_gems, enable_chants, enable_prechant, allow_tear,
                        );
                        match old(self).distribution {
                            Option::None => final(self).distribution matches Some(d)
                                && d.gain as int == best && d.food is None,
                            Option::Some(o) => if best > o.gain as int {
                                final(self).distribution matches Some(d)
                                    && d.gain as int == best && d.food is None
                            } else {
                                final(self).distribution == old(self).distribution
                            },
                        }
                    }))
                    &&& (enable_food ==> ({
                        let foods = useful_foods(default_foods(), old(self).reqs@);
                        let init = match old(self).distribution {
                            Option::None => Option::<(int, Option<FoodView>)>::None,
                            Option::Some(o) => Option::Some((o.gain as int, opt_food_view(o.food))),
                        };
                        match run_fold(
                            init, *old(self), foods, old(self).reqs@, finder,
                            enable_gems, enable_chants, enable_prechant, allow_tear,
                            foods.len() as int,
                        ) {
                            Option::None => final(self).distribution is None,
                            Option::Some(p) => final(self).distribution matches Some(d)
                                && d.gain as int == p.0 && opt_food_view(d.food) == p.1,
                        }
                    }))
                },
    {
        let optimizer = BestBonusFinder::new();
        let reqs = self.reqs.clone();
        proof {
            assert(reqs@ =~= self.reqs@);
        }
        if enable_food {
            let foods = optimizer.get_useful_food(&reqs);
            let ghost fvs = crate::optimizer::food_views(foods@);
            let ghost init: Option<(int, Option<FoodView>)> = match old(self).distribution {
                Option::None => Option::None,
                Option::Some(o) => Option::Some((o.gain as int, opt_food_view(o.food))),
            };
            let nf = foods.len();
            let mut fi: usize = 0;
            while fi < nf
                invariant
                    fi <= nf,
                    nf == foods@.len(),
                    fvs == crate::optimizer::food_views(foods@),
                    fvs == useful_foods(default_foods(), old(self).reqs@),
                    fvs.len() == nf,
                    init == (match old(self).distribution {
                        Option::None => Option::<(int, Option<FoodView>)>::None,
                        Option::Some(o) => Option::Some((o.gain as int, opt_food_view(o.food))),
                    }),
                    self.wf(),
                    optimizer.wf(),
                    optimizer.spec_gems() == default_gems(),
                    forall|sl: ItemSlot| #[trigger] optimizer.spec_enchants(sl)
                        == default_enchants(sl),
                    optimizer.spec_foods() == default_foods(),
                    reqs@ == old(self).reqs@,
                    self.reqs == old(self).reqs,
                    self.rotatable == old(self).rotatable,
                    forall|s: ItemSlot| !old(self).rot_registered(s)
                        ==> self.build.spec_item(s) == old(self).build.spec_item(s),
                    old(self).distribution matches Some(d)
                        ==> (self.distribution matches Some(d2) && d2.gain >= d.gain),
                    !(enable_gems || enable_chants)
                        ==> self.distribution == old(self).distribution,
                    (enable_gems || enable_chants)
                        && old(self).spec_variant_total() <= usize::MAX
                        ==> (match run_fold(
                            init, *old(self), fvs, old(self).reqs@, optimizer,
                            enable_gems, enable_chants, enable_prechant, allow_tear,
                            fi as int,
                        ) {
                            Option::None => self.distribution is None,
                            Option::Some(p) => self.distribution matches Some(d)
                                && d.gain as int == p.0 && opt_food_view(d.food) == p.1,
                        }),
                decreases nf - fi,
            {
                let ghost pre_pass = *self;
                self.run_variants(
                    Option::Some(&foods[fi]),
                    &reqs,
                    &optimizer,
                    enable_gems,
                    enable_chants,
                    enable_prechant,
                    allow_tear,
                );
                proof {
                    assert forall|s: ItemSlot| !pre_pass.rot_registered(s)
                        implies pre_pass.build.spec_item(s) == old(self).build.spec_item(s) by {
                        assert(pre_pass.rot_registered(s) == old(self).rot_registered(s));
                    }
                    assert forall|s: ItemSlot| !old(self).rot_registered(s)
                        implies self.build.spec_item(s) == old(self).build.spec_item(s) by {
                        assert(pre_pass.rot_registered(s) == old(self).rot_registered(s));
                        assert(self.build.spec_item(s) == pre_pass.build.spec_item(s));
                    }
                    if (enable_gems || enable_chants)
                        && old(self).spec_variant_total() <= usize::MAX {
                        assert(fvs[fi as int] == foods@[fi as int]@);
                        assert(pre_pass.spec_variant_total() == old(self).spec_variant_total());
                        lemma_pass_stable(
                            pre_pass, *old(self), Option::Some(fvs[fi as int]),
                            old(self).reqs@, optimizer,
                            enable_gems, enable_chants, enable_prechant, allow_tear,
                            pre_pass.spec_variant_total() as int,
                        );
                        assert(pre_pass.pass_best(
                            Option::Some(fvs[fi as int]), old(self).reqs@, optimizer,
                            enable_gems, enable_chants, enable_prechant, allow_tear,
                        ) == old(self).pass_best(
                            Option::Some(fvs[fi as int]), old(self).reqs@, optimizer,
                            enable_gems, enable_chants, enable_prechant, allow_tear,
                        ));
                    }
                }
                fi = fi + 1;
            }
        } else {
            self.run_variants(
                Option::None,
                &reqs,
                &optimizer,
                enable_gems,
                enable_chants,
                enable_prechant,
                allow_tear,
            );
        }
    }

    /// The report of the best `Distribution` found, or the empty string
    /// when no search has produced a result yet.
    pub fn result(&self) -> (r: String)
        ensures
            r@ == (match self.distribution {
                Option::None => Seq::<char>::empty(),
                Option::Some(d) => d.report_spec(),
            }),
    {
        match &self.distribution {
            Option::None => String::new(),
            Option::Some(dis) => dis.to_string(),
        }
    }

    /// The best centi-gain found, or zero when no search has produced a
    /// result yet.
    pub fn get_gain(&self) -> (g: i128)
        ensures
            g == (match self.distribution {
                Option::None => 0,
                Option::Some(d) => d.gain,
            }),
    {
        match &self.distribution {
            Option::None => 0,
            Option::Some(d) => d.get_gain(),
        }
    }
}

} // verus!
