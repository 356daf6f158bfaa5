//! Zones of the open world: names, enemy tiers and mixes, and the layout of
//! the world map.

use vstd::prelude::*;

verus! {

/// Kinds of enemies.
#[derive(Clone, Copy, Debug, PartialEq, Eq, Hash, Structural)]
pub enum EnemyVariant {
    Grunt,
    Ranged,
    Charger,
    Elite,
    Boss,
    Caster,
    Healer,
    Summoner,
    Assassin,
    Brute,
}

/// A named zone in the open world.
#[derive(Clone, Copy, Debug, PartialEq, Eq, Hash, Structural)]
pub enum ZoneId {
    Grasslands,
    Desert,
    Forest,
    Tundra,
    Swamp,
    /// Between-zone transition.
    Void,
}

/// Short display name of a zone.
pub open spec fn zone_display_name(z: ZoneId) -> Seq<char> {
    match z {
        ZoneId::Grasslands => "Grasslands"@,
        ZoneId::Desert => "Desert"@,
        ZoneId::Forest => "Forest"@,
        ZoneId::Tundra => "Tundra"@,
        ZoneId::Swamp => "Swamp"@,
        ZoneId::Void => "---"@,
    }
}

/// Zone label shown on loading screens.
pub open spec fn zone_label_text(z: ZoneId) -> Seq<char> {
    match z {
        ZoneId::Grasslands => "The Greatholm"@,
        ZoneId::Desert => "Scorched Reach"@,
        ZoneId::Forest => "Wealdwood"@,
        ZoneId::Tundra => "Frostguard Wastes"@,
        ZoneId::Swamp => "Mire of Sorrows"@,
        ZoneId::Void => "---"@,
    }
}

/// Lowest and highest enemy tier of a zone.
pub open spec fn tier_range(z: ZoneId) -> (u32, u32) {
    match z {
        ZoneId::Grasslands => (0, 1),
        ZoneId::Desert => (2, 3),
        ZoneId::Forest => (1, 2),
        ZoneId::Tundra => (3, 4),
        ZoneId::Swamp => (2, 3),
        ZoneId::Void => (0, 0),
    }
}

/// Enemy mix of a zone: variants with their spawn weights.
pub open spec fn composition(z: ZoneId) -> Seq<(EnemyVariant, u32)> {
    match z {
        ZoneId::Grasslands => seq![(EnemyVariant::Grunt, 10u32)],
        ZoneId::Desert => seq![(EnemyVariant::Ranged, 4u32), (EnemyVariant::Charger, 6u32)],
        ZoneId::Forest => seq![(EnemyVariant::Grunt, 7u32), (EnemyVariant::Elite, 3u32)],
        ZoneId::Tundra => seq![
            (EnemyVariant::Grunt, 2u32),
            (EnemyVariant::Ranged, 3u32),
            (EnemyVariant::Elite, 5u32),
        ],
        ZoneId::Swamp => seq![(EnemyVariant::Charger, 5u32), (EnemyVariant::Ranged, 5u32)],
        ZoneId::Void => Seq::empty(),
    }
}

impl ZoneId {
    /// Short display name (the variant's name).
    pub fn display_name(&self) -> (s: &'static str)
        ensures
            s@ == zone_display_name(*self),
    {
        match self {
            ZoneId::Grasslands => "Grasslands",
            ZoneId::Desert => "Desert",
            ZoneId::Forest => "Forest",
            ZoneId::Tundra => "Tundra",
            ZoneId::Swamp => "Swamp",
            ZoneId::Void => "---",
        }
    }

    /// Fancy zone label as shown on loading screens.
    pub fn zone_label(&self) -> (s: &'static str)
        ensures
            s@ == zone_label_text(*self),
    {
        match self {
            ZoneId::Grasslands => "The Greatholm",
            ZoneId::Desert => "Scorched Reach",
            ZoneId::Forest => "Wealdwood",
            ZoneId::Tundra => "Frostguard Wastes",
            ZoneId::Swamp => "Mire of Sorrows",
            ZoneId::Void => "---",
        }
    }

    /// Returns (min_tier, max_tier) for enemies in this zone.
    pub fn enemy_tier_range(&self) -> (r: (u32, u32))
        ensures
            r == tier_range(*self),
    {
        match self {
            ZoneId::Grasslands => (0, 1),
            ZoneId::Desert => (2, 3),
            ZoneId::Forest => (1, 2),
            ZoneId::Tundra => (3, 4),
            ZoneId::Swamp => (2, 3),
            ZoneId::Void => (0, 0),
        }
    }

    /// Returns enemy composition as (variant, weight) pairs; a higher weight
    /// makes a variant more likely to spawn.
    pub fn enemy_composition(&self) -> (v: Vec<(EnemyVariant, u32)>)
        ensures
            v@ == composition(*self),
    {
        let mut v: Vec<(EnemyVariant, u32)> = Vec::new();
        match self {
            ZoneId::Grasslands => {
                v.push((EnemyVariant::Grunt, 10));
            },
            ZoneId::Desert => {
                v.push((EnemyVariant::Ranged, 4));
                v.push((EnemyVariant::Charger, 6));
            },
            ZoneId::Forest => {
                v.push((EnemyVariant::Grunt, 7));
                v.push((EnemyVariant::Elite, 3));
            },
            ZoneId::Tundra => {
                v.push((EnemyVariant::Grunt, 2));
                v.push((EnemyVariant::Ranged, 3));
                v.push((EnemyVariant::Elite, 5));
            },
            ZoneId::Swamp => {
                v.push((EnemyVariant::Charger, 5));
                v.push((EnemyVariant::Ranged, 5));
            },
            ZoneId::Void => {},
        }
        proof {
            assert(v@ =~= composition(*self));
        }
        v
    }
}

/// Position in the world grid.
#[derive(Clone, Copy, Debug, PartialEq, Eq, Hash, Structural)]
pub struct WorldPos(pub i32, pub i32);

/// A dungeon entrance on the world map.
pub struct DungeonEntrance {
    pub name: String,
    pub dungeon_tier: u32,
    /// Number of rooms.
    pub depth: u32,
}

/// Mathematical view of a [`DungeonEntrance`].
pub struct EntranceView {
    pub name: Seq<char>,
    pub dungeon_tier: u32,
    pub depth: u32,
}

impl View for DungeonEntrance {
    type V = EntranceView;

    open spec fn view(&self) -> EntranceView {
        EntranceView { name: self.name@, dungeon_tier: self.dungeon_tier, depth: self.depth }
    }
}

impl DungeonEntrance {
    /// A field-by-field copy.
    pub fn duplicate(&self) -> (r: DungeonEntrance)
        ensures
            r@ == self@,
    {
        DungeonEntrance { name: self.name.clone(), dungeon_tier: self.dungeon_tier, depth: self.depth }
    }
}

/// The full definition of a zone on the map. The zone covers tiles
/// `offset_x .. offset_x + tile_w` by `offset_z .. offset_z + tile_h` of the
/// world grid; each tile is 2 world units.
pub struct ZoneDef {
    pub id: ZoneId,
    pub label: &'static str,
    pub tile_w: usize,
    pub tile_h: usize,
    pub offset_x: i32,
    pub offset_z: i32,
    /// Entrances with their tile coordinates inside the zone.
    pub dungeon_entrances: Vec<(i32, i32, DungeonEntrance)>,
}

/// Mathematical view of a [`ZoneDef`].
pub struct ZoneView {
    pub id: ZoneId,
    pub label: Seq<char>,
    pub tile_w: usize,
    pub tile_h: usize,
    pub offset_x: i32,
    pub offset_z: i32,
    pub dungeon_entrances: Seq<(i32, i32, EntranceView)>,
}

/// Views of a list of entrances.
pub open spec fn entrance_views(v: Seq<(i32, i32, DungeonEntrance)>) -> Seq<(i32, i32, EntranceView)> {
    v.map_values(|e: (i32, i32, DungeonEntrance)| (e.0, e.1, e.2@))
}

impl View for ZoneDef {
    type V = ZoneView;

    open spec fn view(&self) -> ZoneView {
        ZoneView {
            id: self.id,
            label: self.label@,
            tile_w: self.tile_w,
            tile_h: self.tile_h,
            offset_x: self.offset_x,
            offset_z: self.offset_z,
            dungeon_entrances: entrance_views(self.dungeon_entrances@),
        }
    }
}

/// Views of a list of zones.
pub open spec fn zone_views(v: Seq<ZoneDef>) -> Seq<ZoneView> {
    v.map_values(|z: ZoneDef| z@)
}

/// An entrance's view.
pub open spec fn entrance(x: i32, z: i32, name: Seq<char>, tier: u32, depth: u32) -> (
    i32,
    i32,
    EntranceView,
) {
    (x, z, EntranceView { name, dungeon_tier: tier, depth })
}

/// The five zones of the world map.
pub open spec fn world_zones() -> Seq<ZoneView> {
    seq![
        ZoneView {
            id: ZoneId::Grasslands,
            label: "The Greatholm"@,
            tile_w: 20,
            tile_h: 20,
            offset_x: 0,
            offset_z: 0,
            dungeon_entrances: seq![
                entrance(10, 3, "Rat King's Warren"@, 1, 5),
                entrance(18, 15, "Forgotten Catacombs"@, 2, 7),
            ],
        },
        ZoneView {
            id: ZoneId::Desert,
            label: "Scorched Reach"@,
            tile_w: 20,
            tile_h: 20,
            offset_x: 0,
            offset_z: -25i32,
            dungeon_entrances: seq![entrance(5, 5, "Tomb of the Sun King"@, 3, 9)],
        },
        ZoneView {
            id: ZoneId::Forest,
            label: "Wealdwood"@,
            tile_w: 20,
            tile_h: 20,
            offset_x: 25,
            offset_z: 0,
            dungeon_entrances: seq![entrance(3, 10, "The Hollow Tree"@, 2, 6)],
        },
        ZoneView {
            id: ZoneId::Tundra,
            label: "Frostguard Wastes"@,
            tile_w: 20,
            tile_h: 20,
            offset_x: 0,
            offset_z: 25,
            dungeon_entrances: seq![entrance(10, 10, "Crystal Depths"@, 4, 10)],
        },
        ZoneView {
            id: ZoneId::Swamp,
            label: "Mire of Sorrows"@,
            tile_w: 20,
            tile_h: 20,
            offset_x: -25i32,
            offset_z: 0,
            dungeon_entrances: seq![entrance(5, 15, "Sunken Catacombs"@, 3, 8)],
        },
    ]
}

/// A list with one entrance.
fn one_entrance(x: i32, z: i32, name: &str, tier: u32, depth: u32) -> (v: Vec<
    (i32, i32, DungeonEntrance),
>)
    ensures
        entrance_views(v@) == seq![entrance(x, z, name@, tier, depth)],
{
    let mut v = Vec::new();
    v.push((x, z, DungeonEntrance { name: name.to_owned(), dungeon_tier: tier, depth }));
    proof {
        assert(entrance_views(v@) =~= seq![entrance(x, z, name@, tier, depth)]);
    }
    v
}

/// All zone definitions, placed on a larger world grid.
pub fn all_zones() -> (zones: Vec<ZoneDef>)
    ensures
        zone_views(zones@) == world_zones(),
{
    let mut grass = one_entrance(10, 3, "Rat King's Warren", 1, 5);
    let ghost first = entrance_views(grass@);
    grass.push(
        (18, 15, DungeonEntrance { name: "Forgotten Catacombs".to_owned(), dungeon_tier: 2, depth: 7 }),
    );
    proof {
        assert(entrance_views(grass@) =~= first.push(
            entrance(18, 15, "Forgotten Catacombs"@, 2, 7),
        ));
    }
    let zones = vec![
        ZoneDef {
            id: ZoneId::Grasslands,
            label: "The Greatholm",
            tile_w: 20,
            tile_h: 20,
            offset_x: 0,
            offset_z: 0,
            dungeon_entrances: grass,
        },
        ZoneDef {
            id: ZoneId::Desert,
            label: "Scorched Reach",
            tile_w: 20,
            tile_h: 20,
            offset_x: 0,
            offset_z: -25,
            dungeon_entrances: one_entrance(5, 5, "Tomb of the Sun King", 3, 9),
        },
        ZoneDef {
            id: ZoneId::Forest,
            label: "Wealdwood",
            tile_w: 20,
            tile_h: 20,
            offset_x: 25,
            offset_z: 0,
            dungeon_entrances: one_entrance(3, 10, "The Hollow Tree", 2, 6),
        },
        ZoneDef {
            id: ZoneId::Tundra,
            label: "Frostguard Wastes",
            tile_w: 20,
            tile_h: 20,
            offset_x: 0,
            offset_z: 25,
            dungeon_entrances: one_entrance(10, 10, "Crystal Depths", 4, 10),
        },
        ZoneDef {
            id: ZoneId::Swamp,
            label: "Mire of Sorrows",
            tile_w: 20,
            tile_h: 20,
            offset_x: -25,
            offset_z: 0,
            dungeon_entrances: one_entrance(5, 15, "Sunken Catacombs", 3, 8),
        },
    ];
    proof {
        assert(zones@[0]@.dungeon_entrances =~= world_zones()[0].dungeon_entrances);
        assert(zones@[0]@ == world_zones()[0]);
        assert(zones@[1]@ == world_zones()[1]);
        assert(zones@[2]@ == world_zones()[2]);
        assert(zones@[3]@ == world_zones()[3]);
        assert(zones@[4]@ == world_zones()[4]);
        assert(zone_views(zones@) =~= world_zones());
    }
    zones
}

} // verus!
