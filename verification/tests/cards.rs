use sets::cards::{
    get_card, BulletHell, Card, CardKind, FastAndLight, GlassCannon, GravityVortex, HeavyArtillery,
    HyperShot, PlayerStats, RubberBullets, TankyGiant, ToxicSpray, Vampire, TOTAL_CARDS_COUNT,
};

fn stats(max_ammo: u32, bounces: u32) -> PlayerStats {
    PlayerStats::new(max_ammo, bounces, Vec::new())
}

#[test]
fn card_texts() {
    assert_eq!(FastAndLight.name(), "Fast & Light");
    assert_eq!(FastAndLight.desc(), "Trade durability\nfor extreme speed!");
    assert_eq!(FastAndLight.stat_lines(), &["+30% Movement Speed", "-20% Max Health"]);
    assert_eq!(TankyGiant.name(), "Tanky Giant");
    assert_eq!(TankyGiant.stat_lines().len(), 3);
    assert_eq!(HyperShot.name(), "Hyper-Shot");
    assert_eq!(HyperShot.stat_lines()[2], "-1 Max Ammo");
    assert_eq!(ToxicSpray.stat_lines()[0], "Adds Poison Trail effect");
    assert_eq!(HeavyArtillery.stat_lines(), &["+80% Bullet Damage", "+30% Bullet Size Mult", "+200 Downward Gravity", "+1.0s Reload Time"]);
    assert_eq!(GlassCannon.desc(), "Deals massive damage\nbut reduces max health.");
    assert_eq!(BulletHell.name(), "Bullet Hell");
    assert_eq!(RubberBullets.stat_lines(), &["+3 Bullet Bounces", "+30% Bounce Speed Mult"]);
    assert_eq!(Vampire.desc(), "Increases shield duration\nand reduces cooldown.");
    assert_eq!(GravityVortex.name(), "Gravity Vortex");
}

#[test]
fn get_card_numbers_every_card() {
    let names = [
        "Fast & Light", "Tanky Giant", "Hyper-Shot", "Toxic Spray", "Heavy Artillery",
        "Glass Cannon", "Bullet Hell", "Rubber Bullets", "Vampire", "Gravity Vortex",
    ];
    assert_eq!(TOTAL_CARDS_COUNT, 10);
    for i in 0..TOTAL_CARDS_COUNT {
        let c = get_card(i).unwrap();
        assert_eq!(c.index(), i);
        assert_eq!(c.name(), names[i]);
    }
    assert!(get_card(10).is_none());
    assert!(get_card(usize::MAX).is_none());
}

#[test]
fn hyper_shot_takes_one_round_but_leaves_one() {
    let mut s = stats(5, 0);
    HyperShot.apply(&mut s);
    assert_eq!(s.max_ammo, 4);
    let mut one = stats(1, 0);
    HyperShot.apply(&mut one);
    assert_eq!(one.max_ammo, 1);
    let mut zero = stats(0, 0);
    HyperShot.apply(&mut zero);
    assert_eq!(zero.max_ammo, 1);
}

#[test]
fn bullet_hell_doubles_the_magazine() {
    let mut s = stats(5, 2);
    BulletHell.apply(&mut s);
    assert_eq!(s.max_ammo, 10);
    assert_eq!(s.bounces, 2);
}

#[test]
fn rubber_bullets_add_three_bounces() {
    let mut s = stats(5, 1);
    RubberBullets.apply(&mut s);
    assert_eq!(s.bounces, 4);
    assert_eq!(s.max_ammo, 5);
}

#[test]
fn toxic_spray_adds_the_poison_cloud_once() {
    let mut s = stats(5, 0);
    ToxicSpray.apply(&mut s);
    assert_eq!(s.max_ammo, 7);
    assert_eq!(s.special_effects, vec!["PoisonCloud".to_string()]);
    ToxicSpray.apply(&mut s);
    assert_eq!(s.max_ammo, 9);
    assert_eq!(s.special_effects, vec!["PoisonCloud".to_string()]);
    let mut other = PlayerStats::new(3, 0, vec!["Spark".to_string()]);
    CardKind::ToxicSpray.apply(&mut other);
    assert_eq!(other.special_effects, vec!["Spark".to_string(), "PoisonCloud".to_string()]);
}

#[test]
fn fractional_cards_leave_whole_number_stats() {
    for k in [CardKind::FastAndLight, CardKind::TankyGiant, CardKind::HeavyArtillery, CardKind::GlassCannon, CardKind::Vampire, CardKind::GravityVortex] {
        let mut s = stats(6, 2);
        k.apply(&mut s);
        assert_eq!(s.max_ammo, 6);
        assert_eq!(s.bounces, 2);
        assert!(s.special_effects.is_empty());
        assert!(s.cards.is_empty());
    }
}

#[test]
fn reset_to_base_forgets_cards() {
    let mut s = stats(5, 0);
    s.cards.push(3);
    ToxicSpray.apply(&mut s);
    s.reset_to_base(5, 1, Vec::new());
    assert_eq!(s.max_ammo, 5);
    assert_eq!(s.bounces, 1);
    assert!(s.cards.is_empty());
    assert!(s.special_effects.is_empty());
}
