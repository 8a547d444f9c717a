use vstd::prelude::*;

verus! {

/// The part of a player's stats that cards change in whole numbers and names: magazine size,
/// bullet bounces, special bullet effects, and the cards taken so far.
pub struct PlayerStats {
    pub max_ammo: u32,
    pub bounces: u32,
    pub special_effects: Vec<String>,
    pub cards: Vec<usize>,
}

/// The mathematical value of [`PlayerStats`].
pub struct StatsView {
    pub max_ammo: u32,
    pub bounces: u32,
    pub special_effects: Seq<Seq<char>>,
    pub cards: Seq<usize>,
}

impl View for PlayerStats {
    type V = StatsView;

    open spec fn view(&self) -> StatsView {
        StatsView {
            max_ammo: self.max_ammo,
            bounces: self.bounces,
            special_effects: self.special_effects@.map_values(|e: String| e@),
            cards: self.cards@,
        }
    }
}

impl PlayerStats {
    /// Stats with the given base values and no card taken yet.
    pub fn new(max_ammo: u32, bounces: u32, special_effects: Vec<String>) -> (s: PlayerStats)
        ensures
            s@.max_ammo == max_ammo,
            s@.bounces == bounces,
            s@.special_effects == special_effects@.map_values(|e: String| e@),
            s@.cards == Seq::<usize>::empty(),
    {
        PlayerStats { max_ammo, bounces, special_effects, cards: Vec::new() }
    }

    /// Puts the stats back to the base values and forgets every card taken, as a new game does.
    pub fn reset_to_base(&mut self, max_ammo: u32, bounces: u32, special_effects: Vec<String>)
        ensures
            final(self)@.max_ammo == max_ammo,
            final(self)@.bounces == bounces,
            final(self)@.special_effects == special_effects@.map_values(|e: String| e@),
            final(self)@.cards == Seq::<usize>::empty(),
    {
        self.max_ammo = max_ammo;
        self.bounces = bounces;
        self.special_effects = special_effects;
        self.cards = Vec::new();
    }
}

/// The name of the special effect that leaves poison clouds behind bullets.
pub open spec fn poison_cloud() -> Seq<char> {
    "PoisonCloud"@
}

/// The number of cards in the game.
pub const TOTAL_CARDS_COUNT: usize = 10;

/// The cards of the game, in the order in which they are numbered.
#[derive(Clone, Copy, Debug, PartialEq, Eq, Structural)]
pub enum CardKind {
    FastAndLight,
    TankyGiant,
    HyperShot,
    ToxicSpray,
    HeavyArtillery,
    GlassCannon,
    BulletHell,
    RubberBullets,
    Vampire,
    GravityVortex,
}

/// The card with the given number.
pub open spec fn spec_card_from_index(i: int) -> CardKind {
    if i <= 0 {
        CardKind::FastAndLight
    } else if i == 1 {
        CardKind::TankyGiant
    } else if i == 2 {
        CardKind::HyperShot
    } else if i == 3 {
        CardKind::ToxicSpray
    } else if i == 4 {
        CardKind::HeavyArtillery
    } else if i == 5 {
        CardKind::GlassCannon
    } else if i == 6 {
        CardKind::BulletHell
    } else if i == 7 {
        CardKind::RubberBullets
    } else if i == 8 {
        CardKind::Vampire
    } else {
        CardKind::GravityVortex
    }
}

/// The number of a card.
pub open spec fn spec_card_index(k: CardKind) -> int {
    match k {
        CardKind::FastAndLight => 0,
        CardKind::TankyGiant => 1,
        CardKind::HyperShot => 2,
        CardKind::ToxicSpray => 3,
        CardKind::HeavyArtillery => 4,
        CardKind::GlassCannon => 5,
        CardKind::BulletHell => 6,
        CardKind::RubberBullets => 7,
        CardKind::Vampire => 8,
        CardKind::GravityVortex => 9,
    }
}

/// The title of a card.
pub open spec fn spec_card_name(k: CardKind) -> Seq<char> {
    match k {
        CardKind::FastAndLight => "Fast & Light"@,
        CardKind::TankyGiant => "Tanky Giant"@,
        CardKind::HyperShot => "Hyper-Shot"@,
        CardKind::ToxicSpray => "Toxic Spray"@,
        CardKind::HeavyArtillery => "Heavy Artillery"@,
        CardKind::GlassCannon => "Glass Cannon"@,
        CardKind::BulletHell => "Bullet Hell"@,
        CardKind::RubberBullets => "Rubber Bullets"@,
        CardKind::Vampire => "Vampire"@,
        CardKind::GravityVortex => "Gravity Vortex"@,
    }
}

/// The description of a card.
pub open spec fn spec_card_desc(k: CardKind) -> Seq<char> {
    match k {
        CardKind::FastAndLight => "Trade durability\nfor extreme speed!"@,
        CardKind::TankyGiant => "Grow massive and\nabsorb heavy hits."@,
        CardKind::HyperShot => "Fast-travel high\nvelocity bullet rounds."@,
        CardKind::ToxicSpray => "Infect opponents with\nneon poison clouds."@,
        CardKind::HeavyArtillery => "Slow, massive,\nhigh-gravity warheads."@,
        CardKind::GlassCannon => "Deals massive damage\nbut reduces max health."@,
        CardKind::BulletHell => "Fires rapid bullets\nwith reduced damage."@,
        CardKind::RubberBullets => "Bullets bounce more times\nand retain speed."@,
        CardKind::Vampire => "Increases shield duration\nand reduces cooldown."@,
        CardKind::GravityVortex => "Bullets spawn a gravity well on\nimpact that pulls players in."@,
    }
}

/// The stat lines printed on a card.
pub open spec fn spec_card_stat_lines(k: CardKind) -> Seq<Seq<char>> {
    match k {
        CardKind::FastAndLight => seq!["+30% Movement Speed"@, "-20% Max Health"@],
        CardKind::TankyGiant => seq!["+40% Max Health"@, "+30% Player Scale"@, "-15% Jump Force"@],
        CardKind::HyperShot => seq!["+35% Bullet Speed"@, "+20% Bullet Damage"@, "-1 Max Ammo"@],
        CardKind::ToxicSpray => seq!["Adds Poison Trail effect"@, "+0.15 Bullet Growth"@, "+2 Max Ammo"@],
        CardKind::HeavyArtillery => seq!["+80% Bullet Damage"@, "+30% Bullet Size Mult"@, "+200 Downward Gravity"@, "+1.0s Reload Time"@],
        CardKind::GlassCannon => seq!["+100% Bullet Damage"@, "-50% Max Health"@],
        CardKind::BulletHell => seq!["+100% Max Ammo"@, "-50% Fire Rate Cooldown"@, "-30% Bullet Damage"@],
        CardKind::RubberBullets => seq!["+3 Bullet Bounces"@, "+30% Bounce Speed Mult"@],
        CardKind::Vampire => seq!["+25% Block Duration"@, "-20% Block Cooldown"@],
        CardKind::GravityVortex => seq!["Adds Gravity Pull on Land"@, "-20% Bullet Speed"@],
    }
}

/// Whether the card can be applied to the stats without leaving the integer range.
pub open spec fn card_applicable(k: CardKind, s: StatsView) -> bool {
    match k {
        CardKind::FastAndLight => true,
        CardKind::TankyGiant => true,
        CardKind::HyperShot => true,
        CardKind::ToxicSpray => s.max_ammo <= u32::MAX - 2,
        CardKind::HeavyArtillery => true,
        CardKind::GlassCannon => true,
        CardKind::BulletHell => s.max_ammo <= u32::MAX / 2,
        CardKind::RubberBullets => s.bounces <= u32::MAX - 3,
        CardKind::Vampire => true,
        CardKind::GravityVortex => true,
    }
}

/// The stats after the card is applied: Hyper-Shot takes one round from the magazine but leaves
/// at least one, Toxic Spray adds two rounds and the poison cloud effect (once), Bullet Hell
/// doubles the magazine, Rubber Bullets adds three bounces; the other cards change only
/// fractional stats.
pub open spec fn card_applied(k: CardKind, s: StatsView) -> StatsView {
    match k {
        CardKind::FastAndLight => s,
        CardKind::TankyGiant => s,
        CardKind::HyperShot => StatsView { max_ammo: if s.max_ammo <= 1 { 1 } else { (s.max_ammo - 1) as u32 }, ..s },
        CardKind::ToxicSpray => StatsView {
            max_ammo: (s.max_ammo + 2) as u32,
            special_effects: if s.special_effects.contains(poison_cloud()) {
                s.special_effects
            } else {
                s.special_effects.push(poison_cloud())
            },
            ..s
        },
        CardKind::HeavyArtillery => s,
        CardKind::GlassCannon => s,
        CardKind::BulletHell => StatsView { max_ammo: (s.max_ammo * 2) as u32, ..s },
        CardKind::RubberBullets => StatsView { bounces: (s.bounces + 3) as u32, ..s },
        CardKind::Vampire => s,
        CardKind::GravityVortex => s,
    }
}

/// A modifier card that a defeated player can pick between rounds.
pub trait Card {
    /// The stats on which applying the card stays within the integer ranges.
    spec fn applicable(&self, s: StatsView) -> bool;

    /// The stats after the card is applied.
    spec fn applied(&self, s: StatsView) -> StatsView;

    fn name(&self) -> &'static str;

    fn desc(&self) -> &'static str;

    fn stat_lines(&self) -> &'static [&'static str];

    /// Applies the card's whole-number and effect changes to the stats.
    fn apply(&self, stats: &mut PlayerStats)
        requires
            self.applicable(old(stats)@),
        ensures
            final(stats)@ == self.applied(old(stats)@),
    ;
}

/// The "Fast & Light" card.
pub struct FastAndLight;

impl Card for FastAndLight {
    open spec fn applicable(&self, s: StatsView) -> bool {
        card_applicable(CardKind::FastAndLight, s)
    }

    open spec fn applied(&self, s: StatsView) -> StatsView {
        card_applied(CardKind::FastAndLight, s)
    }

    fn name(&self) -> (r: &'static str)
        ensures
            r@ == spec_card_name(CardKind::FastAndLight),
    {
        "Fast & Light"
    }

    fn desc(&self) -> (r: &'static str)
        ensures
            r@ == spec_card_desc(CardKind::FastAndLight),
    {
        "Trade durability\nfor extreme speed!"
    }

    fn stat_lines(&self) -> (r: &'static [&'static str])
        ensures
            r@.len() == spec_card_stat_lines(CardKind::FastAndLight).len(),
            forall|i: int| 0 <= i < r@.len() ==> r@[i]@ == spec_card_stat_lines(CardKind::FastAndLight)[i],
    {
        &["+30% Movement Speed", "-20% Max Health"]
    }

    /// This card changes no whole-number stat.
    fn apply(&self, stats: &mut PlayerStats) {
    }
}

/// The "Tanky Giant" card.
pub struct TankyGiant;

impl Card for TankyGiant {
    open spec fn applicable(&self, s: StatsView) -> bool {
        card_applicable(CardKind::TankyGiant, s)
    }

    open spec fn applied(&self, s: StatsView) -> StatsView {
        card_applied(CardKind::TankyGiant, s)
    }

    fn name(&self) -> (r: &'static str)
        ensures
            r@ == spec_card_name(CardKind::TankyGiant),
    {
        "Tanky Giant"
    }

    fn desc(&self) -> (r: &'static str)
        ensures
            r@ == spec_card_desc(CardKind::TankyGiant),
    {
        "Grow massive and\nabsorb heavy hits."
    }

    fn stat_lines(&self) -> (r: &'static [&'static str])
        ensures
            r@.len() == spec_card_stat_lines(CardKind::TankyGiant).len(),
            forall|i: int| 0 <= i < r@.len() ==> r@[i]@ == spec_card_stat_lines(CardKind::TankyGiant)[i],
    {
        &["+40% Max Health", "+30% Player Scale", "-15% Jump Force"]
    }

    /// This card changes no whole-number stat.
    fn apply(&self, stats: &mut PlayerStats) {
    }
}

/// The "Hyper-Shot" card.
pub struct HyperShot;

impl Card for HyperShot {
    open spec fn applicable(&self, s: StatsView) -> bool {
        card_applicable(CardKind::HyperShot, s)
    }

    open spec fn applied(&self, s: StatsView) -> StatsView {
        card_applied(CardKind::HyperShot, s)
    }

    fn name(&self) -> (r: &'static str)
        ensures
            r@ == spec_card_name(CardKind::HyperShot),
    {
        "Hyper-Shot"
    }

    fn desc(&self) -> (r: &'static str)
        ensures
            r@ == spec_card_desc(CardKind::HyperShot),
    {
        "Fast-travel high\nvelocity bullet rounds."
    }

    fn stat_lines(&self) -> (r: &'static [&'static str])
        ensures
            r@.len() == spec_card_stat_lines(CardKind::HyperShot).len(),
            forall|i: int| 0 <= i < r@.len() ==> r@[i]@ == spec_card_stat_lines(CardKind::HyperShot)[i],
    {
        &["+35% Bullet Speed", "+20% Bullet Damage", "-1 Max Ammo"]
    }

    fn apply(&self, stats: &mut PlayerStats) {
        stats.max_ammo = max_u32(stats.max_ammo.saturating_sub(1), 1);
    }
}

/// The "Toxic Spray" card.
pub struct ToxicSpray;

impl Card for ToxicSpray {
    open spec fn applicable(&self, s: StatsView) -> bool {
        card_applicable(CardKind::ToxicSpray, s)
    }

    open spec fn applied(&self, s: StatsView) -> StatsView {
        card_applied(CardKind::ToxicSpray, s)
    }

    fn name(&self) -> (r: &'static str)
        ensures
            r@ == spec_card_name(CardKind::ToxicSpray),
    {
        "Toxic Spray"
    }

    fn desc(&self) -> (r: &'static str)
        ensures
            r@ == spec_card_desc(CardKind::ToxicSpray),
    {
        "Infect opponents with\nneon poison clouds."
    }

    fn stat_lines(&self) -> (r: &'static [&'static str])
        ensures
            r@.len() == spec_card_stat_lines(CardKind::ToxicSpray).len(),
            forall|i: int| 0 <= i < r@.len() ==> r@[i]@ == spec_card_stat_lines(CardKind::ToxicSpray)[i],
    {
        &["Adds Poison Trail effect", "+0.15 Bullet Growth", "+2 Max Ammo"]
    }

    fn apply(&self, stats: &mut PlayerStats) {
        add_effect_once(&mut stats.special_effects);
        stats.max_ammo = stats.max_ammo + 2;
    }
}

/// The "Heavy Artillery" card.
pub struct HeavyArtillery;

impl Card for HeavyArtillery {
    open spec fn applicable(&self, s: StatsView) -> bool {
        card_applicable(CardKind::HeavyArtillery, s)
    }

    open spec fn applied(&self, s: StatsView) -> StatsView {
        card_applied(CardKind::HeavyArtillery, s)
    }

    fn name(&self) -> (r: &'static str)
        ensures
            r@ == spec_card_name(CardKind::HeavyArtillery),
    {
        "Heavy Artillery"
    }

    fn desc(&self) -> (r: &'static str)
        ensures
            r@ == spec_card_desc(CardKind::HeavyArtillery),
    {
        "Slow, massive,\nhigh-gravity warheads."
    }

    fn stat_lines(&self) -> (r: &'static [&'static str])
        ensures
            r@.len() == spec_card_stat_lines(CardKind::HeavyArtillery).len(),
            forall|i: int| 0 <= i < r@.len() ==> r@[i]@ == spec_card_stat_lines(CardKind::HeavyArtillery)[i],
    {
        &["+80% Bullet Damage", "+30% Bullet Size Mult", "+200 Downward Gravity", "+1.0s Reload Time"]
    }

    /// This card changes no whole-number stat.
    fn apply(&self, stats: &mut PlayerStats) {
    }
}

/// The "Glass Cannon" card.
pub struct GlassCannon;

impl Card for GlassCannon {
    open spec fn applicable(&self, s: StatsView) -> bool {
        card_applicable(CardKind::GlassCannon, s)
    }

    open spec fn applied(&self, s: StatsView) -> StatsView {
        card_applied(CardKind::GlassCannon, s)
    }

    fn name(&self) -> (r: &'static str)
        ensures
            r@ == spec_card_name(CardKind::GlassCannon),
    {
        "Glass Cannon"
    }

    fn desc(&self) -> (r: &'static str)
        ensures
            r@ == spec_card_desc(CardKind::GlassCannon),
    {
        "Deals massive damage\nbut reduces max health."
    }

    fn stat_lines(&self) -> (r: &'static [&'static str])
        ensures
            r@.len() == spec_card_stat_lines(CardKind::GlassCannon).len(),
            forall|i: int| 0 <= i < r@.len() ==> r@[i]@ == spec_card_stat_lines(CardKind::GlassCannon)[i],
    {
        &["+100% Bullet Damage", "-50% Max Health"]
    }

    /// This card changes no whole-number stat.
    fn apply(&self, stats: &mut PlayerStats) {
    }
}

/// The "Bullet Hell" card.
pub struct BulletHell;

impl Card for BulletHell {
    open spec fn applicable(&self, s: StatsView) -> bool {
        card_applicable(CardKind::BulletHell, s)
    }

    open spec fn applied(&self, s: StatsView) -> StatsView {
        card_applied(CardKind::BulletHell, s)
    }

    fn name(&self) -> (r: &'static str)
        ensures
            r@ == spec_card_name(CardKind::BulletHell),
    {
        "Bullet Hell"
    }

    fn desc(&self) -> (r: &'static str)
        ensures
            r@ == spec_card_desc(CardKind::BulletHell),
    {
        "Fires rapid bullets\nwith reduced damage."
    }

    fn stat_lines(&self) -> (r: &'static [&'static str])
        ensures
            r@.len() == spec_card_stat_lines(CardKind::BulletHell).len(),
            forall|i: int| 0 <= i < r@.len() ==> r@[i]@ == spec_card_stat_lines(CardKind::BulletHell)[i],
    {
        &["+100% Max Ammo", "-50% Fire Rate Cooldown", "-30% Bullet Damage"]
    }

    fn apply(&self, stats: &mut PlayerStats) {
        stats.max_ammo = stats.max_ammo * 2;
    }
}

/// The "Rubber Bullets" card.
pub struct RubberBullets;

impl Card for RubberBullets {
    open spec fn applicable(&self, s: StatsView) -> bool {
        card_applicable(CardKind::RubberBullets, s)
    }

    open spec fn applied(&self, s: StatsView) -> StatsView {
        card_applied(CardKind::RubberBullets, s)
    }

    fn name(&self) -> (r: &'static str)
        ensures
            r@ == spec_card_name(CardKind::RubberBullets),
    {
        "Rubber Bullets"
    }

    fn desc(&self) -> (r: &'static str)
        ensures
            r@ == spec_card_desc(CardKind::RubberBullets),
    {
        "Bullets bounce more times\nand retain speed."
    }

    fn stat_lines(&self) -> (r: &'static [&'static str])
        ensures
            r@.len() == spec_card_stat_lines(CardKind::RubberBullets).len(),
            forall|i: int| 0 <= i < r@.len() ==> r@[i]@ == spec_card_stat_lines(CardKind::RubberBullets)[i],
    {
        &["+3 Bullet Bounces", "+30% Bounce Speed Mult"]
    }

    fn apply(&self, stats: &mut PlayerStats) {
        stats.bounces = stats.bounces + 3;
    }
}

/// The "Vampire" card.
pub struct Vampire;

impl Card for Vampire {
    open spec fn applicable(&self, s: StatsView) -> bool {
        card_applicable(CardKind::Vampire, s)
    }

    open spec fn applied(&self, s: StatsView) -> StatsView {
        card_applied(CardKind::Vampire, s)
    }

    fn name(&self) -> (r: &'static str)
        ensures
            r@ == spec_card_name(CardKind::Vampire),
    {
        "Vampire"
    }

    fn desc(&self) -> (r: &'static str)
        ensures
            r@ == spec_card_desc(CardKind::Vampire),
    {
        "Increases shield duration\nand reduces cooldown."
    }

    fn stat_lines(&self) -> (r: &'static [&'static str])
        ensures
            r@.len() == spec_card_stat_lines(CardKind::Vampire).len(),
            forall|i: int| 0 <= i < r@.len() ==> r@[i]@ == spec_card_stat_lines(CardKind::Vampire)[i],
    {
        &["+25% Block Duration", "-20% Block Cooldown"]
    }

    /// This card changes no whole-number stat.
    fn apply(&self, stats: &mut PlayerStats) {
    }
}

/// The "Gravity Vortex" card.
pub struct GravityVortex;

impl Card for GravityVortex {
    open spec fn applicable(&self, s: StatsView) -> bool {
        card_applicable(CardKind::GravityVortex, s)
    }

    open spec fn applied(&self, s: StatsView) -> StatsView {
        card_applied(CardKind::GravityVortex, s)
    }

    fn name(&self) -> (r: &'static str)
        ensures
            r@ == spec_card_name(CardKind::GravityVortex),
    {
        "Gravity Vortex"
    }

    fn desc(&self) -> (r: &'static str)
        ensures
            r@ == spec_card_desc(CardKind::GravityVortex),
    {
        "Bullets spawn a gravity well on\nimpact that pulls players in."
    }

    fn stat_lines(&self) -> (r: &'static [&'static str])
        ensures
            r@.len() == spec_card_stat_lines(CardKind::GravityVortex).len(),
            forall|i: int| 0 <= i < r@.len() ==> r@[i]@ == spec_card_stat_lines(CardKind::GravityVortex)[i],
    {
        &["Adds Gravity Pull on Land", "-20% Bullet Speed"]
    }

    /// This card changes no whole-number stat.
    fn apply(&self, stats: &mut PlayerStats) {
    }
}

impl CardKind {
    /// The number of the card.
    pub fn index(&self) -> (i: usize)
        ensures
            i == spec_card_index(*self),
            i < TOTAL_CARDS_COUNT,
    {
        match self {
            CardKind::FastAndLight => 0,
            CardKind::TankyGiant => 1,
            CardKind::HyperShot => 2,
            CardKind::ToxicSpray => 3,
            CardKind::HeavyArtillery => 4,
            CardKind::GlassCannon => 5,
            CardKind::BulletHell => 6,
            CardKind::RubberBullets => 7,
            CardKind::Vampire => 8,
            CardKind::GravityVortex => 9,
        }
    }

    /// The title of the card.
    pub fn name(&self) -> (r: &'static str)
        ensures
            r@ == spec_card_name(*self),
    {
        match self {
            CardKind::FastAndLight => FastAndLight.name(),
            CardKind::TankyGiant => TankyGiant.name(),
            CardKind::HyperShot => HyperShot.name(),
            CardKind::ToxicSpray => ToxicSpray.name(),
            CardKind::HeavyArtillery => HeavyArtillery.name(),
            CardKind::GlassCannon => GlassCannon.name(),
            CardKind::BulletHell => BulletHell.name(),
            CardKind::RubberBullets => RubberBullets.name(),
            CardKind::Vampire => Vampire.name(),
            CardKind::GravityVortex => GravityVortex.name(),
        }
    }

    /// The description of the card.
    pub fn desc(&self) -> (r: &'static str)
        ensures
            r@ == spec_card_desc(*self),
    {
        match self {
            CardKind::FastAndLight => FastAndLight.desc(),
            CardKind::TankyGiant => TankyGiant.desc(),
            CardKind::HyperShot => HyperShot.desc(),
            CardKind::ToxicSpray => ToxicSpray.desc(),
            CardKind::HeavyArtillery => HeavyArtillery.desc(),
            CardKind::GlassCannon => GlassCannon.desc(),
            CardKind::BulletHell => BulletHell.desc(),
            CardKind::RubberBullets => RubberBullets.desc(),
            CardKind::Vampire => Vampire.desc(),
            CardKind::GravityVortex => GravityVortex.desc(),
        }
    }

    /// The stat lines of the card.
    pub fn stat_lines(&self) -> (r: &'static [&'static str])
        ensures
            r@.len() == spec_card_stat_lines(*self).len(),
            forall|i: int| 0 <= i < r@.len() ==> r@[i]@ == spec_card_stat_lines(*self)[i],
    {
        match self {
            CardKind::FastAndLight => FastAndLight.stat_lines(),
            CardKind::TankyGiant => TankyGiant.stat_lines(),
            CardKind::HyperShot => HyperShot.stat_lines(),
            CardKind::ToxicSpray => ToxicSpray.stat_lines(),
            CardKind::HeavyArtillery => HeavyArtillery.stat_lines(),
            CardKind::GlassCannon => GlassCannon.stat_lines(),
            CardKind::BulletHell => BulletHell.stat_lines(),
            CardKind::RubberBullets => RubberBullets.stat_lines(),
            CardKind::Vampire => Vampire.stat_lines(),
            CardKind::GravityVortex => GravityVortex.stat_lines(),
        }
    }

    /// Applies the card to the stats.
    pub fn apply(&self, stats: &mut PlayerStats)
        requires
            card_applicable(*self, old(stats)@),
        ensures
            final(stats)@ == card_applied(*self, old(stats)@),
    {
        match self {
            CardKind::FastAndLight => FastAndLight.apply(stats),
            CardKind::TankyGiant => TankyGiant.apply(stats),
            CardKind::HyperShot => HyperShot.apply(stats),
            CardKind::ToxicSpray => ToxicSpray.apply(stats),
            CardKind::HeavyArtillery => HeavyArtillery.apply(stats),
            CardKind::GlassCannon => GlassCannon.apply(stats),
            CardKind::BulletHell => BulletHell.apply(stats),
            CardKind::RubberBullets => RubberBullets.apply(stats),
            CardKind::Vampire => Vampire.apply(stats),
            CardKind::GravityVortex => GravityVortex.apply(stats),
        }
    }
}

/// The card with the given number, or `None` past the last card.
pub fn get_card(idx: usize) -> (c: Option<CardKind>)
    ensures
        c == (if idx < TOTAL_CARDS_COUNT { Some(spec_card_from_index(idx as int)) } else { None::<CardKind> }),
{
    match idx {
        0 => Some(CardKind::FastAndLight),
        1 => Some(CardKind::TankyGiant),
        2 => Some(CardKind::HyperShot),
        3 => Some(CardKind::ToxicSpray),
        4 => Some(CardKind::HeavyArtillery),
        5 => Some(CardKind::GlassCannon),
        6 => Some(CardKind::BulletHell),
        7 => Some(CardKind::RubberBullets),
        8 => Some(CardKind::Vampire),
        9 => Some(CardKind::GravityVortex),
        _ => None,
    }
}

/// Card numbers and cards correspond one to one: every number below the card count names a
/// card whose number it is, and every card's number is below the count.
pub proof fn lemma_card_numbering(k: CardKind, i: int)
    requires
        0 <= i < TOTAL_CARDS_COUNT,
    ensures
        spec_card_index(spec_card_from_index(i)) == i,
        spec_card_from_index(spec_card_index(k)) == k,
        0 <= spec_card_index(k) < TOTAL_CARDS_COUNT,
{
}

/// Taking Toxic Spray again adds rounds but never a second poison cloud: the effects list after
/// two picks is the list after one.
pub proof fn lemma_poison_cloud_added_once(s: StatsView)
    ensures
        card_applied(CardKind::ToxicSpray, card_applied(CardKind::ToxicSpray, s)).special_effects
            == card_applied(CardKind::ToxicSpray, s).special_effects,
        card_applied(CardKind::ToxicSpray, s).special_effects.contains(poison_cloud()),
{
    if !s.special_effects.contains(poison_cloud()) {
        let e = s.special_effects.push(poison_cloud());
        assert(e[e.len() - 1] == poison_cloud());
    }
}

/// Hyper-Shot never leaves a player without ammunition.
pub proof fn lemma_hyper_shot_keeps_a_round(s: StatsView)
    ensures
        card_applied(CardKind::HyperShot, s).max_ammo >= 1,
        s.max_ammo > 1 ==> card_applied(CardKind::HyperShot, s).max_ammo == s.max_ammo - 1,
{
}

/// Rubber Bullets adds exactly three bounces each time it is taken, however many the player
/// already has ("+3 Bullet Bounces"), and changes neither the magazine, the effects nor the card
/// list; taken twice it adds six.
pub proof fn lemma_rubber_bullets_adds_three(s: StatsView)
    requires
        s.bounces + 3 <= u32::MAX,
    ensures
        card_applicable(CardKind::RubberBullets, s),
        RubberBullets.applicable(s),
        card_applied(CardKind::RubberBullets, s).bounces == s.bounces + 3,
        RubberBullets.applied(s).bounces == s.bounces + 3,
        card_applied(CardKind::RubberBullets, s).max_ammo == s.max_ammo,
        RubberBullets.applied(s).max_ammo == s.max_ammo,
        card_applied(CardKind::RubberBullets, s).special_effects == s.special_effects,
        RubberBullets.applied(s).special_effects == s.special_effects,
        card_applied(CardKind::RubberBullets, s).cards == s.cards,
        RubberBullets.applied(s).cards == s.cards,
        s.bounces + 6 <= u32::MAX ==> RubberBullets.applied(RubberBullets.applied(s)).bounces == s.bounces + 6,
{
}

/// Bullet Hell doubles the magazine ("+100% Max Ammo") and changes nothing else that is counted.
pub proof fn lemma_bullet_hell_doubles(s: StatsView)
    requires
        s.max_ammo * 2 <= u32::MAX,
    ensures
        card_applicable(CardKind::BulletHell, s),
        BulletHell.applicable(s),
        card_applied(CardKind::BulletHell, s).max_ammo == 2 * s.max_ammo,
        BulletHell.applied(s).max_ammo == 2 * s.max_ammo,
        card_applied(CardKind::BulletHell, s).bounces == s.bounces,
        BulletHell.applied(s).bounces == s.bounces,
        card_applied(CardKind::BulletHell, s).special_effects == s.special_effects,
        BulletHell.applied(s).special_effects == s.special_effects,
        card_applied(CardKind::BulletHell, s).cards == s.cards,
        BulletHell.applied(s).cards == s.cards,
{
}

/// Toxic Spray adds two rounds ("+2 Max Ammo") and the poison trail: afterwards the effects
/// hold the poison cloud and every earlier effect, and grow by one entry exactly when the cloud
/// was not there before. Bounces and cards stay.
pub proof fn lemma_toxic_spray_adds_two_and_poison(s: StatsView)
    requires
        s.max_ammo + 2 <= u32::MAX,
    ensures
        card_applicable(CardKind::ToxicSpray, s),
        ToxicSpray.applicable(s),
        card_applied(CardKind::ToxicSpray, s).max_ammo == s.max_ammo + 2,
        ToxicSpray.applied(s).max_ammo == s.max_ammo + 2,
        card_applied(CardKind::ToxicSpray, s).bounces == s.bounces,
        ToxicSpray.applied(s).bounces == s.bounces,
        card_applied(CardKind::ToxicSpray, s).cards == s.cards,
        ToxicSpray.applied(s).cards == s.cards,
        ToxicSpray.applied(s).special_effects.contains(poison_cloud()),
        card_applied(CardKind::ToxicSpray, s).special_effects.contains(poison_cloud()),
        forall|i: int|
            0 <= i < s.special_effects.len() ==> #[trigger] ToxicSpray.applied(s).special_effects[i]
                == s.special_effects[i] && card_applied(CardKind::ToxicSpray, s).special_effects[i]
                == s.special_effects[i],
        ToxicSpray.applied(s).special_effects.len() == s.special_effects.len() + (if s.special_effects.contains(
            poison_cloud(),
        ) {
            0int
        } else {
            1int
        }),
        card_applied(CardKind::ToxicSpray, s).special_effects.len() == ToxicSpray.applied(s).special_effects.len(),
{
    if !s.special_effects.contains(poison_cloud()) {
        let e = s.special_effects.push(poison_cloud());
        assert(e[e.len() - 1] == poison_cloud());
    }
}

/// Hyper-Shot takes one round from the magazine ("-1 Max Ammo") but never goes below one, and
/// changes nothing else that is counted.
pub proof fn lemma_hyper_shot_takes_one(s: StatsView)
    ensures
        card_applicable(CardKind::HyperShot, s),
        HyperShot.applicable(s),
        s.max_ammo >= 2 ==> HyperShot.applied(s).max_ammo == s.max_ammo - 1,
        s.max_ammo >= 2 ==> card_applied(CardKind::HyperShot, s).max_ammo == s.max_ammo - 1,
        s.max_ammo < 2 ==> HyperShot.applied(s).max_ammo == 1,
        s.max_ammo < 2 ==> card_applied(CardKind::HyperShot, s).max_ammo == 1,
        HyperShot.applied(s).bounces == s.bounces,
        card_applied(CardKind::HyperShot, s).bounces == s.bounces,
        HyperShot.applied(s).special_effects == s.special_effects,
        card_applied(CardKind::HyperShot, s).special_effects == s.special_effects,
        HyperShot.applied(s).cards == s.cards,
        card_applied(CardKind::HyperShot, s).cards == s.cards,
{
}

/// The cards whose stat lines change only fractional stats (speed, health, scale, damage, size,
/// gravity, block timing, bullet speed) leave the magazine, bounces, effects and cards as they
/// were, on any stats.
pub proof fn lemma_fractional_cards_keep_counts(s: StatsView)
    ensures
        FastAndLight.applicable(s) && FastAndLight.applied(s) == s,
        TankyGiant.applicable(s) && TankyGiant.applied(s) == s,
        HeavyArtillery.applicable(s) && HeavyArtillery.applied(s) == s,
        GlassCannon.applicable(s) && GlassCannon.applied(s) == s,
        Vampire.applicable(s) && Vampire.applied(s) == s,
        GravityVortex.applicable(s) && GravityVortex.applied(s) == s,
        card_applied(CardKind::FastAndLight, s) == s,
        card_applied(CardKind::TankyGiant, s) == s,
        card_applied(CardKind::HeavyArtillery, s) == s,
        card_applied(CardKind::GlassCannon, s) == s,
        card_applied(CardKind::Vampire, s) == s,
        card_applied(CardKind::GravityVortex, s) == s,
{
}

/// The cards are numbered in this order: 0 Fast & Light, 1 Tanky Giant, 2 Hyper-Shot,
/// 3 Toxic Spray, 4 Heavy Artillery, 5 Glass Cannon, 6 Bullet Hell, 7 Rubber Bullets, 8 Vampire,
/// 9 Gravity Vortex.
pub proof fn lemma_card_table()
    ensures
        spec_card_from_index(0) == CardKind::FastAndLight,
        spec_card_from_index(1) == CardKind::TankyGiant,
        spec_card_from_index(2) == CardKind::HyperShot,
        spec_card_from_index(3) == CardKind::ToxicSpray,
        spec_card_from_index(4) == CardKind::HeavyArtillery,
        spec_card_from_index(5) == CardKind::GlassCannon,
        spec_card_from_index(6) == CardKind::BulletHell,
        spec_card_from_index(7) == CardKind::RubberBullets,
        spec_card_from_index(8) == CardKind::Vampire,
        spec_card_from_index(9) == CardKind::GravityVortex,
{
}

fn max_u32(a: u32, b: u32) -> (r: u32)
    ensures
        r == if a >= b { a } else { b },
{
    if a >= b { a } else { b }
}

/// Adds the poison cloud effect to the list unless it is already there.
fn add_effect_once(effects: &mut Vec<String>)
    ensures
        final(effects)@.map_values(|e: String| e@) == (if old(effects)@.map_values(|e: String| e@).contains(poison_cloud()) {
            old(effects)@.map_values(|e: String| e@)
        } else {
            old(effects)@.map_values(|e: String| e@).push(poison_cloud())
        }),
{
    let target: String = "PoisonCloud".to_owned();
    let ghost names = old(effects)@.map_values(|e: String| e@);
    let mut i: usize = 0;
    while i < effects.len()
        invariant
            i <= effects@.len(),
            effects@ == old(effects)@,
            target@ == poison_cloud(),
            names == old(effects)@.map_values(|e: String| e@),
            forall|j: int| 0 <= j < i ==> names[j] != poison_cloud(),
        decreases effects@.len() - i,
    {
        if effects[i] == target {
            assert(names[i as int] == poison_cloud());
            return;
        }
        i = i + 1;
    }
    assert(!names.contains(poison_cloud()));
    effects.push(target);
    assert(effects@.map_values(|e: String| e@) =~= names.push(poison_cloud()));
}

} // verus!
