use gemer::{Bonus, Bonuses, Color, CurStats, GemSocket, Item, ItemBuild, ItemSlot, Rotatables, Simulator, Stat};
use gemer::{Requirement, RequirementCap, RequirementWeighted};

fn base_build() -> ItemBuild {
    let mut my_build = ItemBuild::new();
    let item = Item::new(
        String::from("neck"),
        ItemSlot::Neck,
        Bonuses::new(vec![]),
        vec![GemSocket::new(Color::Blue)],
        Some(Bonus::new(Stat::Agility, 4)),
        None,
    );
    my_build.lock_item(item);
    let item = Item::new(
        String::from("chest"),
        ItemSlot::Chest,
        Bonuses::new(vec![]),
        vec![GemSocket::new(Color::Yellow)],
        Some(Bonus::new(Stat::Agility, 6)),
        None,
    );
    my_build.lock_item(item);
    let item = Item::new(
        String::from("feet"),
        ItemSlot::Feet,
        Bonuses::new(vec![]),
        vec![GemSocket::new(Color::Yellow), GemSocket::new(Color::Yellow)],
        Some(Bonus::new(Stat::Agility, 6)),
        None,
    );
    my_build.lock_item(item);
    my_build
}

fn base_stats() -> CurStats {
    let mut sp = CurStats::new();
    sp.set_stat(Stat::APR, 1345);
    sp.set_stat(Stat::ExpertiseRate, 106);
    sp.set_stat(Stat::HitRate, 201);
    sp
}

fn base_reqs() -> Vec<Requirement> {
    vec![
        Requirement::RequirementCap(RequirementCap::new(Stat::APR, 1400, 10000)),
        Requirement::RequirementCap(RequirementCap::new(Stat::ExpertiseRate, 132, 219)),
        Requirement::RequirementCap(RequirementCap::new(Stat::HitRate, 230, 219)),
        Requirement::RequirementWeighted(RequirementWeighted::new(Stat::HasteRate, 150)),
        Requirement::RequirementWeighted(RequirementWeighted::new(Stat::Agility, 191)),
        Requirement::RequirementWeighted(RequirementWeighted::new(Stat::CritRate, 142)),
    ]
}

#[test]
fn all_systems_go() {
    let mut rotatable = Rotatables::new();
    rotatable.rotate(Item::new(
        String::from("ring1_1"),
        ItemSlot::Ring1,
        Bonuses::new(vec![Bonus::new(Stat::Agility, 0)]),
        vec![GemSocket::new(Color::Yellow)],
        Some(Bonus::new(Stat::Agility, 6)),
        None,
    ));
    rotatable.rotate(Item::new(
        String::from("ring1_2"),
        ItemSlot::Ring1,
        Bonuses::new(vec![Bonus::new(Stat::Agility, 100)]),
        vec![GemSocket::new(Color::Red)],
        Some(Bonus::new(Stat::Agility, 60)),
        None,
    ));
    rotatable.rotate(Item::new(
        String::from("ring2_1"),
        ItemSlot::Ring2,
        Bonuses::new(vec![Bonus::new(Stat::Agility, 100)]),
        vec![GemSocket::new(Color::Yellow)],
        Some(Bonus::new(Stat::Agility, 6)),
        None,
    ));
    rotatable.rotate(Item::new(
        String::from("ring2_2"),
        ItemSlot::Ring2,
        Bonuses::new(vec![Bonus::new(Stat::Agility, 0)]),
        vec![GemSocket::new(Color::Red)],
        Some(Bonus::new(Stat::Agility, 0)),
        None,
    ));
    let mut sim = Simulator::new(base_stats(), base_reqs(), base_build(), Some(rotatable));
    sim.run(true, true, true, true, false);
    assert_eq!(641333, sim.distribution.expect("No solutions were found!").get_gain());
}

#[test]
fn rotateless() {
    let mut sim = Simulator::new(base_stats(), base_reqs(), base_build(), None);
    sim.run(true, true, true, true, false);
    assert_eq!(574626, sim.distribution.expect("No solutions were found!").get_gain());
}

#[test]
fn rotateless_and_foodless() {
    let mut sim = Simulator::new(base_stats(), base_reqs(), base_build(), None);
    sim.run(true, true, false, true, false);
    assert_eq!(566986, sim.distribution.expect("No solutions were found!").get_gain());
}

#[test]
fn only_chants() {
    let mut sim = Simulator::new(base_stats(), base_reqs(), base_build(), None);
    sim.run(false, true, false, true, false);
    assert_eq!(11460, sim.distribution.expect("No solutions were found!").get_gain());
}

#[test]
fn only_gems() {
    let mut sim = Simulator::new(base_stats(), base_reqs(), base_build(), None);
    sim.run(true, false, false, false, false);
    assert_eq!(555526, sim.distribution.expect("No solutions were found!").get_gain());
}
