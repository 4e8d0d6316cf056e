use gemer::{Bonus, Bonuses, Color, CurStats, Gem, GemSocket, Item, ItemSlot, Stat};
use gemer::{Requirement, RequirementCap, RequirementWeighted};

#[test]
fn does_bonus_apply() {
    let mut stats = CurStats::new();
    Bonus::new(Stat::Agility, 17).apply_bonus(&mut stats);
    assert_eq!(stats.get_stat_val(Stat::Agility), 17);
}

#[test]
fn does_bonuses_apply() {
    let mut stats = CurStats::new();
    Bonuses::new(vec![Bonus::new(Stat::Agility, 9), Bonus::new(Stat::Agility, 8)])
        .apply_bonuses(&mut stats);
    assert_eq!(stats.get_stat_val(Stat::Agility), 17);
}

#[test]
fn bonus_procs() {
    assert_eq!(Bonus::new_proccable(Stat::AttackPower, 400, 15, 60).get_val(), 100);
}

#[test]
fn gain_correct() {
    let reqs = vec![
        Requirement::RequirementWeighted(RequirementWeighted::new(Stat::Agility, 1000)),
        Requirement::RequirementWeighted(RequirementWeighted::new(Stat::HasteRate, 900)),
    ];
    let mut sp = CurStats::new();
    sp.set_stat(Stat::HasteRate, 10);
    sp.set_stat(Stat::Agility, 100);
    assert_eq!(sp.calculate_gain(&reqs), 109000);
}

#[test]
fn incremental_cloning() {
    let mut sp = CurStats::new();
    sp.set_stat(Stat::HasteRate, 10);
    sp.set_stat(Stat::Agility, 10);
    let mut sp2 = CurStats::new();
    sp2.set_stat(Stat::CritRate, 10);
    sp2.set_stat(Stat::Agility, 10);
    let res = sp.sum_of(&sp2);
    assert!(
        res.get_stat_val(Stat::CritRate) == 10
            && res.get_stat_val(Stat::HasteRate) == 10
            && res.get_stat_val(Stat::Agility) == 20
    );
}

#[test]
fn matching_sockets() {
    let v = vec![
        Gem::new(vec![Color::Red], Bonuses::new(vec![]), String::new()),
        Gem::new(vec![Color::Yellow, Color::Blue], Bonuses::new(vec![]), String::new()),
        Gem::new(vec![Color::Yellow], Bonuses::new(vec![]), String::new()),
    ];
    let mut item = Item::new(
        String::new(),
        ItemSlot::Feet,
        Bonuses::new(vec![]),
        vec![
            GemSocket::new(Color::Red),
            GemSocket::new(Color::Blue),
            GemSocket::new(Color::Yellow),
        ],
        None,
        None,
    );
    for ind_socket in 0..item.get_sockets().len() {
        item.get_socket_mut(ind_socket).set_gem(&v[ind_socket]);
    }
    assert!(item.sockets_match());
}


#[test]
fn caps_incrementary() {
    let mut cap = RequirementCap::new(Stat::APR, 1400, 235);
    let mut state = CurStats::new();
    state.set_stat(Stat::APR, 1383);
    cap.make_incremental(&state);
    assert_eq!(cap.get_val(), 17);
}
