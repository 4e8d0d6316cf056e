use gemer::{Bonus, Bonuses, Color, CurStats, Gem, GemSocket, Item, ItemBuild, ItemSlot, Rotatables, Simulator, Stat};
use gemer::items::{Enchantment, Food};
use gemer::{Requirement, RequirementWeighted};

#[test]
fn build_iterates_all_slots_in_order() {
    let mut build = ItemBuild::new();
    build.lock_item(Item::new(
        String::from("cloak"),
        ItemSlot::Back,
        Bonuses::new(vec![]),
        vec![],
        None,
        None,
    ));
    let mut it = build.item_iter();
    let mut slots: Vec<ItemSlot> = Vec::new();
    let mut found = 0;
    while let Some((slot, item)) = it.next() {
        slots.push(slot);
        if let Some(item) = item {
            assert_eq!(slot, ItemSlot::Back);
            assert_eq!(item.get_name(), "cloak");
            found += 1;
        }
    }
    assert_eq!(found, 1);
    assert_eq!(slots.len(), 17);
    assert_eq!(slots[0], ItemSlot::Head);
    assert_eq!(slots[16], ItemSlot::Trinket2);
    assert!(build.get_item(ItemSlot::Back).is_some());
    build.clear();
    assert!(build.get_item(ItemSlot::Back).is_none());
}

#[test]
fn rotatables_keep_registration_order() {
    let mut rotatable = Rotatables::new();
    let ring = |name: &str, slot: ItemSlot| {
        Item::new(String::from(name), slot, Bonuses::new(vec![]), vec![], None, None)
    };
    rotatable.rotate(ring("r2", ItemSlot::Ring2));
    rotatable.rotate(ring("r1", ItemSlot::Ring1));
    rotatable.rotate(ring("r2b", ItemSlot::Ring2));
    assert_eq!(rotatable.slots_in_rotation().as_slice(), &[ItemSlot::Ring2, ItemSlot::Ring1]);
    let pool = rotatable.get_from_slot(ItemSlot::Ring2);
    assert_eq!(pool.len(), 2);
    assert_eq!(pool[0].get_name(), "r2");
    assert_eq!(pool[1].get_name(), "r2b");
}

#[test]
fn stats_profile_reads_and_clears() {
    let mut stats = CurStats::new();
    assert_eq!(stats.get_stat_val(Stat::Stamina), 0);
    stats.set_stat(Stat::Strength, 3);
    stats.add_stat(Stat::Strength, 4);
    let entries = stats.iter_stats();
    assert_eq!(entries, vec![(Stat::Strength, 7)]);
    stats.clear();
    assert_eq!(stats.get_stat_val(Stat::Strength), 0);
    assert_eq!(stats.iter_stats(), vec![]);
}

#[test]
fn item_set_bonus_applies_only_explicitly() {
    let mut item = Item::new(
        String::from("helm"),
        ItemSlot::Head,
        Bonuses::new(vec![Bonus::new(Stat::Stamina, 30)]),
        vec![GemSocket::new(Color::Red)],
        Some(Bonus::new(Stat::Agility, 8)),
        None,
    );
    assert_eq!(item.get_slot(), ItemSlot::Head);
    assert_eq!(item.get_socket_bonus().as_ref().unwrap().get_val(), 8);
    let mut stats = CurStats::new();
    item.apply_socket_bonus(&mut stats);
    assert_eq!(stats.get_stat_val(Stat::Agility), 8);
    item.get_stats_bonuses().apply_bonuses(&mut stats);
    assert_eq!(stats.get_stat_val(Stat::Stamina), 30);
    assert!(!item.is_enchanted());
    let chant = Enchantment::new(
        ItemSlot::Head,
        Bonuses::new(vec![Bonus::new(Stat::HitRate, 20)]),
        String::from("glyph"),
    );
    assert_eq!(chant.get_slot(), ItemSlot::Head);
    assert_eq!(chant.get_name(), "glyph");
    item.set_enchantment(&chant);
    assert!(item.is_enchanted());
    assert_eq!(item.get_enchantment().as_ref().unwrap().get_name(), "glyph");
    item.remove_enchantment();
    assert!(!item.is_enchanted());
}

#[test]
fn gem_and_food_expose_their_parts() {
    let gem = Gem::new(
        vec![Color::Red, Color::Blue],
        Bonuses::new(vec![Bonus::new(Stat::Agility, 10)]),
        String::from("twin"),
    );
    assert_eq!(gem.get_colors().as_slice(), &[Color::Red, Color::Blue]);
    assert_eq!(gem.get_name(), "twin");
    assert_eq!(gem.get_bonuses().iter().len(), 1);
    let food = Food::new(
        String::from("stew"),
        Bonuses::new(vec![Bonus::new(Stat::Stamina, 40)]),
    );
    assert_eq!(food.get_name(), "stew");
    assert_eq!(food.get_bonuses().iter()[0].get_stat(), Stat::Stamina);
}

#[test]
fn report_names_items_and_sockets() {
    let mut build = ItemBuild::new();
    build.lock_item(Item::new(
        String::from("neck"),
        ItemSlot::Neck,
        Bonuses::new(vec![]),
        vec![GemSocket::new(Color::Yellow)],
        None,
        None,
    ));
    let mut stats = CurStats::new();
    stats.set_stat(Stat::Agility, 5);
    let reqs = vec![Requirement::RequirementWeighted(RequirementWeighted::new(Stat::HasteRate, 150))];
    let mut sim = Simulator::new(stats, reqs, build, None);
    assert_eq!(sim.result(), "");
    assert_eq!(sim.get_gain(), 0);
    sim.run(true, false, false, false, true);
    let report = sim.result();
    // The yellow socket takes the haste gem, which matches its color.
    assert_eq!(report, "HasteRate: 20\n[Neck]neck <- None:\n\tYellow <- quick (match)\n");
    assert_eq!(sim.get_gain(), 3000);
}
