use gemer::{Bonus, Bonuses, Color, CurStats, Gem, GemSocket, Item, ItemSlot, Rotatables, Stat};
use gemer::optimizer::BestBonusFinder;
use gemer::distribution::Distribution;
use gemer::simulator::solve_recursively;
use gemer::{Requirement, RequirementCap, RequirementWeighted};

#[test]
fn empty_socket_never_matches() {
    let socket = GemSocket::new(Color::Red);
    assert!(socket.is_empty());
    assert!(!socket.does_match());
}

#[test]
fn socket_matches_only_fitting_gem() {
    let mut socket = GemSocket::new(Color::Red);
    let yellow_gem = Gem::new(vec![Color::Yellow], Bonuses::new(vec![]), String::from("y"));
    socket.set_gem(&yellow_gem);
    assert!(!socket.does_match());
    let multi_gem = Gem::new(
        vec![Color::Yellow, Color::Red],
        Bonuses::new(vec![]),
        String::from("yr"),
    );
    socket.set_gem(&multi_gem);
    assert!(socket.does_match());
}


#[test]
fn rotation_zero_slots_single_variant() {
    let rotatable = Rotatables::new();
    let mut gen = rotatable.iter_variants();
    let first = gen.next();
    assert!(first.is_some());
    assert_eq!(first.unwrap().len(), 0);
    assert!(gen.next().is_none());
    assert!(gen.next().is_none());
}

fn ring(name: &str, slot: ItemSlot, agi: u32) -> Item {
    Item::new(
        String::from(name),
        slot,
        Bonuses::new(vec![Bonus::new(Stat::Agility, agi)]),
        vec![],
        None,
        None,
    )
}

#[test]
fn rotation_single_slot_in_registration_order() {
    let mut rotatable = Rotatables::new();
    rotatable.rotate(ring("a", ItemSlot::Ring1, 1));
    rotatable.rotate(ring("b", ItemSlot::Ring1, 2));
    rotatable.rotate(ring("c", ItemSlot::Ring1, 3));
    let mut gen = rotatable.iter_variants();
    let names: Vec<String> = std::iter::from_fn(|| {
        gen.next().map(|v| String::from(v[0].get_name()))
    })
    .collect();
    assert_eq!(names, vec!["a".to_string(), "b".to_string(), "c".to_string()]);
}

#[test]
fn rotation_two_slots_last_varies_fastest() {
    let mut rotatable = Rotatables::new();
    rotatable.rotate(ring("a1", ItemSlot::Ring1, 1));
    rotatable.rotate(ring("a2", ItemSlot::Ring1, 2));
    rotatable.rotate(ring("b1", ItemSlot::Ring2, 1));
    rotatable.rotate(ring("b2", ItemSlot::Ring2, 2));
    let mut gen = rotatable.iter_variants();
    let mut seen: Vec<(String, String)> = Vec::new();
    while let Some(v) = gen.next() {
        assert_eq!(v.len(), 2);
        seen.push((String::from(v[0].get_name()), String::from(v[1].get_name())));
    }
    assert_eq!(
        seen,
        vec![
            ("a1".to_string(), "b1".to_string()),
            ("a1".to_string(), "b2".to_string()),
            ("a2".to_string(), "b1".to_string()),
            ("a2".to_string(), "b2".to_string()),
        ]
    );
}

#[test]
fn search_never_degrades_baseline() {
    let optimizer = BestBonusFinder::new();
    let reqs = vec![
        Requirement::RequirementWeighted(RequirementWeighted::new(Stat::Agility, 191)),
        Requirement::RequirementCap(RequirementCap::new(Stat::HitRate, 50, 219)),
    ];
    let mut stats = CurStats::new();
    stats.set_stat(Stat::Agility, 100);
    let state = vec![
        Item::new(
            String::from("helm"),
            ItemSlot::Head,
            Bonuses::new(vec![]),
            vec![GemSocket::new(Color::Red), GemSocket::new(Color::Blue)],
            Some(Bonus::new(Stat::Agility, 8)),
            None,
        ),
    ];
    let baseline = Distribution::new(stats, &reqs, &state).get_gain();
    let best = solve_recursively(state, stats, &reqs, &optimizer, true, true);
    assert!(best.get_gain() >= baseline);
}

#[test]
fn tear_barred_falls_back_to_second() {
    let finder = BestBonusFinder::new();
    // Only the universal gem carries Stamina, so it ranks first here.
    let reqs = vec![Requirement::RequirementWeighted(RequirementWeighted::new(Stat::Stamina, 500))];
    let reference = CurStats::new();
    let top = finder.get_best_gem(&reference, &reqs, true);
    assert_eq!(top.get_name(), "Nightmare's Tear");
    let fallback = finder.get_best_gem(&reference, &reqs, false);
    assert_eq!(fallback.get_name(), "puissant");
}

#[test]
fn stat_addition_saturates() {
    let mut stats = CurStats::new();
    stats.set_stat(Stat::Agility, u32::MAX - 5);
    stats.add_stat(Stat::Agility, 100);
    assert_eq!(stats.get_stat_val(Stat::Agility), u32::MAX);
}

#[test]
fn cap_gain_partial_credit() {
    // Remaining headroom 17, weight 2.35: a full profile at the cap is worth
    // 17 * 2.35 = 39.95 points, and any value past the cap adds nothing.
    let cap = RequirementCap::new(Stat::APR, 17, 235);
    assert_eq!(cap.calculate_gain(10), 2350);
    assert_eq!(cap.calculate_gain(17), 3995);
    assert_eq!(cap.calculate_gain(55), 3995);
    // Incrementally: from 10 with +20 only 7 points still fit.
    assert_eq!(cap.calculate_gain_incremental(20, 10), 1645);
    assert_eq!(cap.calculate_gain_incremental(20, 18), 0);
    assert_eq!(cap.calculate_gain_incremental(5, 10), 1175);
}

#[test]
fn incremental_gain_matches_absolute_difference() {
    let cap = RequirementCap::new(Stat::HitRate, 25, 219);
    for reference in [0u32, 10, 20, 25, 30, 60] {
        for inc in [0u32, 1, 5, 25, 100] {
            let absolute_diff = cap.calculate_gain(reference + inc) - cap.calculate_gain(reference);
            assert_eq!(cap.calculate_gain_incremental(inc, reference), absolute_diff);
        }
    }
}

#[test]
fn weighted_gain_is_linear() {
    let weighted = RequirementWeighted::new(Stat::Agility, 191);
    assert_eq!(weighted.calculate_gain(7), 7 * 191);
    assert_eq!(weighted.calculate_gain(3 * 7), 3 * weighted.calculate_gain(7));
    assert_eq!(weighted.calculate_gain(0), 0);
}

#[test]
fn stats_report_renders_decimal() {
    let mut stats = CurStats::new();
    stats.set_stat(Stat::Agility, 17);
    assert_eq!(stats.to_string(), "Agility: 17\n");
    stats.set_stat(Stat::HasteRate, 20480);
    assert_eq!(stats.to_string(), "Agility: 17\nHasteRate: 20480\n");
}

#[test]
fn useful_food_filters_by_positive_gain() {
    let finder = BestBonusFinder::new();
    let reqs = vec![Requirement::RequirementWeighted(RequirementWeighted::new(Stat::CritRate, 142))];
    let foods = finder.get_useful_food(&reqs);
    assert_eq!(foods.len(), 1);
    assert_eq!(foods[0].get_name(), "crit loin");
    let no_reqs: Vec<Requirement> = vec![];
    assert_eq!(finder.get_useful_food(&no_reqs).len(), 0);
}
