use ocean::Beach;
use ocean::ClanSystem;
use ocean::Color;
use ocean::Crab;
use ocean::Diet;

#[test]
fn member_count_counts_additions() {
    let mut clans = ClanSystem::new();
    assert_eq!(clans.get_clan_count(), 0);
    assert_eq!(clans.get_clan_member_count("x"), 0);
    clans.add_crab_name("x", "a".to_string());
    clans.add_crab_name("x", "b".to_string());
    clans.add_crab_name("y", "c".to_string());
    assert_eq!(clans.get_clan_count(), 2);
    assert_eq!(clans.get_clan_member_count("x"), 2);
    assert_eq!(clans.get_clan_member_count("y"), 1);
    assert_eq!(clans.get_clan_member_count("z"), 0);
}

#[test]
fn member_names_keep_insertion_order_and_duplicates() {
    let mut clans = ClanSystem::new();
    clans.add_crab_name("x", "a".to_string());
    clans.add_crab_name("x", "b".to_string());
    clans.add_crab_name("x", "a".to_string());
    let names = clans.get_clan_member_names("x");
    assert_eq!(names, vec!["a".to_string(), "b".to_string(), "a".to_string()]);
    assert!(clans.get_clan_member_names("unknown").is_empty());
}

#[test]
fn largest_clan_none_when_empty() {
    let clans = ClanSystem::new();
    assert_eq!(clans.get_largest_clan_id(), None);
}

#[test]
fn largest_clan_has_most_members() {
    let mut clans = ClanSystem::new();
    clans.add_crab_name("small", "a".to_string());
    clans.add_crab_name("big", "b".to_string());
    clans.add_crab_name("big", "c".to_string());
    clans.add_crab_name("big", "d".to_string());
    clans.add_crab_name("mid", "e".to_string());
    clans.add_crab_name("mid", "f".to_string());
    assert_eq!(clans.get_largest_clan_id(), Some("big".to_string()));
}

#[test]
fn largest_clan_tie_goes_to_the_later_one() {
    let mut clans = ClanSystem::new();
    clans.add_crab_name("x", "a".to_string());
    clans.add_crab_name("x", "b".to_string());
    clans.add_crab_name("y", "c".to_string());
    clans.add_crab_name("y", "d".to_string());
    assert_eq!(clans.get_largest_clan_id(), Some("y".to_string()));
}

#[test]
fn beach_delegates_clan_membership() {
    let mut beach = Beach::new();
    beach.add_crab(Crab::new("a1".to_string(), 3, Color::Red, Diet::Fish));
    beach.add_member_to_clan("reds", "a1");
    beach.add_member_to_clan("reds", "a1");
    let system = beach.get_clan_system();
    assert_eq!(system.get_clan_count(), 1);
    assert_eq!(system.get_clan_member_count("reds"), 2);
    assert_eq!(
        system.get_clan_member_names("reds"),
        vec!["a1".to_string(), "a1".to_string()]
    );
}
