use ocean::Beach;
use ocean::Color;
use ocean::Crab;
use ocean::Diet;

fn crab(name: &str, speed: u32) -> Crab {
    Crab::new(name.to_string(), speed, Color::Red, Diet::Plants)
}

#[test]
fn new_beach_is_empty() {
    let beach = Beach::new();
    assert_eq!(beach.size(), 0);
    assert!(beach.get_fastest_crab().is_none());
    assert_eq!(beach.get_clan_system().get_clan_count(), 0);
}

#[test]
fn add_crab_appends_in_order() {
    let mut beach = Beach::new();
    beach.add_crab(crab("A", 5));
    beach.add_crab(crab("B", 9));
    beach.add_crab(crab("C", 7));
    assert_eq!(beach.size(), 3);
    assert_eq!(beach.get_crab(0).name().as_str(), "A");
    assert_eq!(beach.get_crab(1).name().as_str(), "B");
    assert_eq!(beach.get_crab(2).name().as_str(), "C");
    assert_eq!(beach.get_crab(1).speed(), 9);
    let all = beach.crabs();
    assert_eq!(all.len(), 3);
    assert_eq!(all[2].name().as_str(), "C");
}

#[test]
fn fastest_crab_beats_every_other() {
    let mut beach = Beach::new();
    beach.add_crab(crab("A", 5));
    beach.add_crab(crab("B", 9));
    beach.add_crab(crab("C", 9));
    let fastest = beach.get_fastest_crab().unwrap();
    assert_eq!(fastest.speed(), 9);
    assert!(fastest.name().as_str() == "B" || fastest.name().as_str() == "C");
}

#[test]
fn find_crabs_by_name_returns_matches_in_order() {
    let mut beach = Beach::new();
    beach.add_crab(crab("A", 5));
    beach.add_crab(crab("X", 1));
    beach.add_crab(crab("B", 9));
    beach.add_crab(crab("X", 2));
    let only_a = beach.find_crabs_by_name("A");
    assert_eq!(only_a.len(), 1);
    assert_eq!(only_a[0].name().as_str(), "A");
    let xs = beach.find_crabs_by_name("X");
    assert_eq!(xs.len(), 2);
    assert_eq!(xs[0].speed(), 1);
    assert_eq!(xs[1].speed(), 2);
    assert!(beach.find_crabs_by_name("Z").is_empty());
}

#[test]
fn breed_crabs_appends_child() {
    let mut beach = Beach::new();
    beach.add_crab(Crab::new("A".to_string(), 5, Color::Red, Diet::Fish));
    beach.add_crab(Crab::new("B".to_string(), 9, Color::Blue, Diet::Plants));
    beach.breed_crabs(0, 1, "Child".to_string());
    assert_eq!(beach.size(), 3);
    let child = beach.get_crab(2);
    assert_eq!(child.name().as_str(), "Child");
    assert_eq!(child.speed(), 1);
    assert_eq!(child.color(), Color::Green);
    assert!(matches!(child.diet(), Diet::Plants | Diet::Fish | Diet::Shellfish));
}

#[test]
fn breeding_same_color_keeps_it() {
    let mut beach = Beach::new();
    beach.add_crab(Crab::new("A".to_string(), 5, Color::Blue, Diet::Fish));
    beach.add_crab(Crab::new("B".to_string(), 9, Color::Blue, Diet::Plants));
    beach.breed_crabs(0, 1, "Kid".to_string());
    assert_eq!(beach.get_crab(2).color(), Color::Blue);
}

#[test]
fn color_cross_picks_the_third_color() {
    assert_eq!(Color::cross(Color::Red, Color::Red), Color::Red);
    assert_eq!(Color::cross(Color::Green, Color::Green), Color::Green);
    assert_eq!(Color::cross(Color::Red, Color::Green), Color::Blue);
    assert_eq!(Color::cross(Color::Green, Color::Red), Color::Blue);
    assert_eq!(Color::cross(Color::Red, Color::Blue), Color::Green);
    assert_eq!(Color::cross(Color::Blue, Color::Green), Color::Red);
}

#[test]
fn random_diet_is_some_variant() {
    for _ in 0..20 {
        let d = Diet::random_diet();
        assert!(matches!(d, Diet::Plants | Diet::Fish | Diet::Shellfish));
    }
}

#[test]
fn avg_speed_of_no_names_is_zero() {
    let beach = Beach::new();
    assert_eq!(beach.get_crabs_avg_speed(&Vec::new()), 0);
}

#[test]
fn avg_speed_rounds_down() {
    let mut beach = Beach::new();
    beach.add_crab(crab("A", 5));
    beach.add_crab(crab("B", 10));
    let names = vec!["A".to_string(), "B".to_string()];
    assert_eq!(beach.get_crabs_avg_speed(&names), 7);
}

#[test]
fn avg_speed_takes_first_match_only() {
    let mut beach = Beach::new();
    beach.add_crab(crab("A", 5));
    beach.add_crab(crab("A", 9));
    let names = vec!["A".to_string()];
    assert_eq!(beach.get_crabs_avg_speed(&names), 5);
}

#[test]
fn winner_clan_is_the_faster_one() {
    let mut beach = Beach::new();
    beach.add_crab(crab("a1", 10));
    beach.add_crab(crab("b1", 20));
    beach.add_member_to_clan("a", "a1");
    beach.add_member_to_clan("b", "b1");
    let winner = beach.get_winner_clan("a", "b").unwrap();
    assert_eq!(winner, Some("b".to_string()));
}

#[test]
fn winner_clan_tie_has_no_winner() {
    let mut beach = Beach::new();
    beach.add_crab(crab("a1", 15));
    beach.add_crab(crab("b1", 10));
    beach.add_crab(crab("b2", 20));
    beach.add_member_to_clan("a", "a1");
    beach.add_member_to_clan("b", "b1");
    beach.add_member_to_clan("b", "b2");
    let winner = beach.get_winner_clan("a", "b").unwrap();
    assert_eq!(winner, None);
}

#[test]
fn winner_clan_unknown_id_is_an_error() {
    let mut beach = Beach::new();
    beach.add_crab(crab("b1", 20));
    beach.add_member_to_clan("b", "b1");
    let err = beach.get_winner_clan("a", "b").unwrap_err();
    assert_eq!(err, "No clan named a".to_string());
    let err2 = beach.get_winner_clan("b", "c").unwrap_err();
    assert_eq!(err2, "No clan named c".to_string());
}
