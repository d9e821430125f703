use vstd::prelude::*;
use std::collections::HashMap;

verus! {

broadcast use vstd::std_specs::hash::group_hash_axioms;

/// Number of block kinds; block ids run from `0` to `BLOCK_COUNT - 1`.
pub const BLOCK_COUNT: u32 = 28;

/// The kinds of block that a world can hold.
#[derive(Debug, Clone, Copy, PartialEq, Eq, Hash, Structural)]
pub enum BlockKey {
    Air,
    Grass,
    Dirt,
    Stone,
    Wood,
    Leaves,
    Brick,
    Water,
    Sand,
    Gravel,
    Glass,
    LogOak,
    PlanksOak,
    Snow,
    Ice,
    OreCoal,
    OreIron,
    OreGold,
    OreDiamond,
    Sandstone,
    Clay,
    Cactus,
    Obsidian,
    Bedrock,
    SchematicBlock,
    Mud,
    Granite,
    Marble,
}

/// Static description of a block kind. `alpha_percent` is the block's
/// opacity in percent (`100` fully opaque).
#[derive(Debug, Clone, Copy)]
pub struct BlockDefinition {
    pub id: u32,
    pub key: BlockKey,
    pub name: &'static str,
    pub color: Option<u32>,
    pub solid: bool,
    pub transparent: bool,
    pub opaque: bool,
    pub alpha_percent: u8,
    pub breakable: bool,
    pub is_entity: bool,
}

/// The id of each block kind: its position in the definition table.
pub open spec fn key_id(k: BlockKey) -> u32 {
    match k {
        BlockKey::Air => 0,
        BlockKey::Grass => 1,
        BlockKey::Dirt => 2,
        BlockKey::Stone => 3,
        BlockKey::Wood => 4,
        BlockKey::Leaves => 5,
        BlockKey::Brick => 6,
        BlockKey::Water => 7,
        BlockKey::Sand => 8,
        BlockKey::Gravel => 9,
        BlockKey::Glass => 10,
        BlockKey::LogOak => 11,
        BlockKey::PlanksOak => 12,
        BlockKey::Snow => 13,
        BlockKey::Ice => 14,
        BlockKey::OreCoal => 15,
        BlockKey::OreIron => 16,
        BlockKey::OreGold => 17,
        BlockKey::OreDiamond => 18,
        BlockKey::Sandstone => 19,
        BlockKey::Clay => 20,
        BlockKey::Cactus => 21,
        BlockKey::Obsidian => 22,
        BlockKey::Bedrock => 23,
        BlockKey::SchematicBlock => 24,
        BlockKey::Mud => 25,
        BlockKey::Granite => 26,
        BlockKey::Marble => 27,
    }
}

/// The block kind with id `id` (meaningful for `id < BLOCK_COUNT`).
pub open spec fn key_at(id: int) -> BlockKey {
    if id == 0 {
        BlockKey::Air
    } else if id == 1 {
        BlockKey::Grass
    } else if id == 2 {
        BlockKey::Dirt
    } else if id == 3 {
        BlockKey::Stone
    } else if id == 4 {
        BlockKey::Wood
    } else if id == 5 {
        BlockKey::Leaves
    } else if id == 6 {
        BlockKey::Brick
    } else if id == 7 {
        BlockKey::Water
    } else if id == 8 {
        BlockKey::Sand
    } else if id == 9 {
        BlockKey::Gravel
    } else if id == 10 {
        BlockKey::Glass
    } else if id == 11 {
        BlockKey::LogOak
    } else if id == 12 {
        BlockKey::PlanksOak
    } else if id == 13 {
        BlockKey::Snow
    } else if id == 14 {
        BlockKey::Ice
    } else if id == 15 {
        BlockKey::OreCoal
    } else if id == 16 {
        BlockKey::OreIron
    } else if id == 17 {
        BlockKey::OreGold
    } else if id == 18 {
        BlockKey::OreDiamond
    } else if id == 19 {
        BlockKey::Sandstone
    } else if id == 20 {
        BlockKey::Clay
    } else if id == 21 {
        BlockKey::Cactus
    } else if id == 22 {
        BlockKey::Obsidian
    } else if id == 23 {
        BlockKey::Bedrock
    } else if id == 24 {
        BlockKey::SchematicBlock
    } else if id == 25 {
        BlockKey::Mud
    } else if id == 26 {
        BlockKey::Granite
    } else {
        BlockKey::Marble
    }
}

/// The definition of each block kind.
pub open spec fn key_def(k: BlockKey) -> BlockDefinition {
    match k {
        BlockKey::Air => BlockDefinition {
            id: 0,
            key: BlockKey::Air,
            name: "Air",
            color: None,
            solid: false,
            transparent: true,
            opaque: false,
            alpha_percent: 0,
            breakable: false,
            is_entity: false,
        },
        BlockKey::Grass => BlockDefinition {
            id: 1,
            key: BlockKey::Grass,
            name: "Grass Block",
            color: Some(0x567d46u32),
            solid: true,
            transparent: false,
            opaque: true,
            alpha_percent: 100,
            breakable: true,
            is_entity: false,
        },
        BlockKey::Dirt => BlockDefinition {
            id: 2,
            key: BlockKey::Dirt,
            name: "Dirt",
            color: Some(0x3b291du32),
            solid: true,
            transparent: false,
            opaque: true,
            alpha_percent: 100,
            breakable: true,
            is_entity: false,
        },
        BlockKey::Stone => BlockDefinition {
            id: 3,
            key: BlockKey::Stone,
            name: "Stone",
            color: Some(0x7a7a7au32),
            solid: true,
            transparent: false,
            opaque: true,
            alpha_percent: 100,
            breakable: true,
            is_entity: false,
        },
        BlockKey::Wood => BlockDefinition {
            id: 4,
            key: BlockKey::Wood,
            name: "Wood Planks",
            color: Some(0x5c4033u32),
            solid: true,
            transparent: false,
            opaque: true,
            alpha_percent: 100,
            breakable: true,
            is_entity: false,
        },
        BlockKey::Leaves => BlockDefinition {
            id: 5,
            key: BlockKey::Leaves,
            name: "Leaves",
            color: Some(0x2d5a27u32),
            solid: true,
            transparent: false,
            opaque: true,
            alpha_percent: 100,
            breakable: true,
            is_entity: false,
        },
        BlockKey::Brick => BlockDefinition {
            id: 6,
            key: BlockKey::Brick,
            name: "Bricks",
            color: Some(0x8f4836u32),
            solid: true,
            transparent: false,
            opaque: true,
            alpha_percent: 100,
            breakable: true,
            is_entity: false,
        },
        BlockKey::Water => BlockDefinition {
            id: 7,
            key: BlockKey::Water,
            name: "Water",
            color: Some(0x40a4dfu32),
            solid: false,
            transparent: true,
            opaque: false,
            alpha_percent: 60,
            breakable: false,
            is_entity: false,
        },
        BlockKey::Sand => BlockDefinition {
            id: 8,
            key: BlockKey::Sand,
            name: "Sand",
            color: Some(0xd6c28du32),
            solid: true,
            transparent: false,
            opaque: true,
            alpha_percent: 100,
            breakable: true,
            is_entity: false,
        },
        BlockKey::Gravel => BlockDefinition {
            id: 9,
            key: BlockKey::Gravel,
            name: "Gravel",
            color: Some(0x85817eu32),
            solid: true,
            transparent: false,
            opaque: true,
            alpha_percent: 100,
            breakable: true,
            is_entity: false,
        },
        BlockKey::Glass => BlockDefinition {
            id: 10,
            key: BlockKey::Glass,
            name: "Glass",
            color: Some(0xc1f2fau32),
            solid: true,
            transparent: true,
            opaque: false,
            alpha_percent: 30,
            breakable: true,
            is_entity: false,
        },
        BlockKey::LogOak => BlockDefinition {
            id: 11,
            key: BlockKey::LogOak,
            name: "Oak Log",
            color: Some(0x3b271du32),
            solid: true,
            transparent: false,
            opaque: true,
            alpha_percent: 100,
            breakable: true,
            is_entity: false,
        },
        BlockKey::PlanksOak => BlockDefinition {
            id: 12,
            key: BlockKey::PlanksOak,
            name: "Oak Planks",
            color: Some(0xa2824eu32),
            solid: true,
            transparent: false,
            opaque: true,
            alpha_percent: 100,
            breakable: true,
            is_entity: false,
        },
        BlockKey::Snow => BlockDefinition {
            id: 13,
            key: BlockKey::Snow,
            name: "Snow",
            color: Some(0xfcfcfcu32),
            solid: true,
            transparent: false,
            opaque: true,
            alpha_percent: 100,
            breakable: true,
            is_entity: false,
        },
        BlockKey::Ice => BlockDefinition {
            id: 14,
            key: BlockKey::Ice,
            name: "Ice",
            color: Some(0xaaddf2u32),
            solid: true,
            transparent: true,
            opaque: false,
            alpha_percent: 40,
            breakable: true,
            is_entity: false,
        },
        BlockKey::OreCoal => BlockDefinition {
            id: 15,
            key: BlockKey::OreCoal,
            name: "Coal Ore",
            color: Some(0x363636u32),
            solid: true,
            transparent: false,
            opaque: true,
            alpha_percent: 100,
            breakable: true,
            is_entity: false,
        },
        BlockKey::OreIron => BlockDefinition {
            id: 16,
            key: BlockKey::OreIron,
            name: "Iron Ore",
            color: Some(0x8c7c72u32),
            solid: true,
            transparent: false,
            opaque: true,
            alpha_percent: 100,
            breakable: true,
            is_entity: false,
        },
        BlockKey::OreGold => BlockDefinition {
            id: 17,
            key: BlockKey::OreGold,
            name: "Gold Ore",
            color: Some(0xe6bd34u32),
            solid: true,
            transparent: false,
            opaque: true,
            alpha_percent: 100,
            breakable: true,
            is_entity: false,
        },
        BlockKey::OreDiamond => BlockDefinition {
            id: 18,
            key: BlockKey::OreDiamond,
            name: "Diamond Ore",
            color: Some(0x4eedd8u32),
            solid: true,
            transparent: false,
            opaque: true,
            alpha_percent: 100,
            breakable: true,
            is_entity: false,
        },
        BlockKey::Sandstone => BlockDefinition {
            id: 19,
            key: BlockKey::Sandstone,
            name: "Sandstone",
            color: Some(0xd4c28fu32),
            solid: true,
            transparent: false,
            opaque: true,
            alpha_percent: 100,
            breakable: true,
            is_entity: false,
        },
        BlockKey::Clay => BlockDefinition {
            id: 20,
            key: BlockKey::Clay,
            name: "Clay",
            color: Some(0x9aa2b3u32),
            solid: true,
            transparent: false,
            opaque: true,
            alpha_percent: 100,
            breakable: true,
            is_entity: false,
        },
        BlockKey::Cactus => BlockDefinition {
            id: 21,
            key: BlockKey::Cactus,
            name: "Cactus",
            color: Some(0x2f6e24u32),
            solid: true,
            transparent: false,
            opaque: true,
            alpha_percent: 100,
            breakable: true,
            is_entity: false,
        },
        BlockKey::Obsidian => BlockDefinition {
            id: 22,
            key: BlockKey::Obsidian,
            name: "Obsidian",
            color: Some(0x14101eu32),
            solid: true,
            transparent: false,
            opaque: true,
            alpha_percent: 100,
            breakable: true,
            is_entity: false,
        },
        BlockKey::Bedrock => BlockDefinition {
            id: 23,
            key: BlockKey::Bedrock,
            name: "Bedrock",
            color: Some(0x222222u32),
            solid: true,
            transparent: false,
            opaque: true,
            alpha_percent: 100,
            breakable: false,
            is_entity: false,
        },
        BlockKey::SchematicBlock => BlockDefinition {
            id: 24,
            key: BlockKey::SchematicBlock,
            name: "Schematic Block",
            color: Some(0xaa00ffu32),
            solid: true,
            transparent: false,
            opaque: true,
            alpha_percent: 100,
            breakable: true,
            is_entity: true,
        },
        BlockKey::Mud => BlockDefinition {
            id: 25,
            key: BlockKey::Mud,
            name: "Mud",
            color: Some(0x5c4033u32),
            solid: true,
            transparent: false,
            opaque: true,
            alpha_percent: 100,
            breakable: true,
            is_entity: false,
        },
        BlockKey::Granite => BlockDefinition {
            id: 26,
            key: BlockKey::Granite,
            name: "Granite",
            color: Some(0x8b8b8bu32),
            solid: true,
            transparent: false,
            opaque: true,
            alpha_percent: 100,
            breakable: true,
            is_entity: false,
        },
        BlockKey::Marble => BlockDefinition {
            id: 27,
            key: BlockKey::Marble,
            name: "Marble",
            color: Some(0xf5f5f5u32),
            solid: true,
            transparent: false,
            opaque: true,
            alpha_percent: 100,
            breakable: true,
            is_entity: false,
        },
    }
}

/// The definition of the block with id `id`, if there is one.
pub open spec fn def_by_id(id: u32) -> Option<BlockDefinition> {
    if id < BLOCK_COUNT {
        Some(key_def(key_at(id as int)))
    } else {
        None
    }
}

/// Whether the block with id `id` is solid; unknown ids are not.
pub open spec fn solid_spec(id: u32) -> bool {
    match def_by_id(id) {
        Some(d) => d.solid,
        None => false,
    }
}

/// The definition table is consistent: each kind's definition carries the
/// kind and its id, ids and kinds correspond one to one, and the table
/// position of a definition is its id.
pub proof fn lemma_definitions_consistent(k: BlockKey, id: int)
    ensures
        key_def(k).key == k,
        key_def(k).id == key_id(k),
        key_id(k) < BLOCK_COUNT,
        key_at(key_id(k) as int) == k,
        0 <= id < BLOCK_COUNT ==> key_id(key_at(id)) == id,
{
}

/// What the table says of the block kinds as a whole: every block is solid
/// except air and water; air, water, glass and ice are transparent and
/// exactly the other blocks are opaque, drawn at full opacity; every solid
/// block but bedrock can be broken; the schematic block is the one entity
/// block; and air is the one block without a colour.
pub proof fn lemma_block_properties(id: u32)
    ensures
        solid_spec(id) <==> (id < BLOCK_COUNT && id != 0 && id != 7),
        id < BLOCK_COUNT ==> {
            let d = key_def(key_at(id as int));
            &&& d.transparent <==> (id == 0 || id == 7 || id == 10 || id == 14)
            &&& d.opaque == !d.transparent
            &&& d.opaque <==> d.alpha_percent == 100
            &&& d.breakable <==> (d.solid && id != 23)
            &&& d.is_entity <==> id == 24
            &&& d.color is None <==> id == 0
        },
{
}

/// The definition of a block kind.
pub fn definition_of(k: BlockKey) -> (d: BlockDefinition)
    ensures
        d == key_def(k),
{
    match k {
        BlockKey::Air => BlockDefinition {
            id: 0,
            key: BlockKey::Air,
            name: "Air",
            color: None,
            solid: false,
            transparent: true,
            opaque: false,
            alpha_percent: 0,
            breakable: false,
            is_entity: false,
        },
        BlockKey::Grass => BlockDefinition {
            id: 1,
            key: BlockKey::Grass,
            name: "Grass Block",
            color: Some(0x567d46u32),
            solid: true,
            transparent: false,
            opaque: true,
            alpha_percent: 100,
            breakable: true,
            is_entity: false,
        },
        BlockKey::Dirt => BlockDefinition {
            id: 2,
            key: BlockKey::Dirt,
            name: "Dirt",
            color: Some(0x3b291du32),
            solid: true,
            transparent: false,
            opaque: true,
            alpha_percent: 100,
            breakable: true,
            is_entity: false,
        },
        BlockKey::Stone => BlockDefinition {
            id: 3,
            key: BlockKey::Stone,
            name: "Stone",
            color: Some(0x7a7a7au32),
            solid: true,
            transparent: false,
            opaque: true,
            alpha_percent: 100,
            breakable: true,
            is_entity: false,
        },
        BlockKey::Wood => BlockDefinition {
            id: 4,
            key: BlockKey::Wood,
            name: "Wood Planks",
            color: Some(0x5c4033u32),
            solid: true,
            transparent: false,
            opaque: true,
            alpha_percent: 100,
            breakable: true,
            is_entity: false,
        },
        BlockKey::Leaves => BlockDefinition {
            id: 5,
            key: BlockKey::Leaves,
            name: "Leaves",
            color: Some(0x2d5a27u32),
            solid: true,
            transparent: false,
            opaque: true,
            alpha_percent: 100,
            breakable: true,
            is_entity: false,
        },
        BlockKey::Brick => BlockDefinition {
            id: 6,
            key: BlockKey::Brick,
            name: "Bricks",
            color: Some(0x8f4836u32),
            solid: true,
            transparent: false,
            opaque: true,
            alpha_percent: 100,
            breakable: true,
            is_entity: false,
        },
        BlockKey::Water => BlockDefinition {
            id: 7,
            key: BlockKey::Water,
            name: "Water",
            color: Some(0x40a4dfu32),
            solid: false,
            transparent: true,
            opaque: false,
            alpha_percent: 60,
            breakable: false,
            is_entity: false,
        },
        BlockKey::Sand => BlockDefinition {
            id: 8,
            key: BlockKey::Sand,
            name: "Sand",
            color: Some(0xd6c28du32),
            solid: true,
            transparent: false,
            opaque: true,
            alpha_percent: 100,
            breakable: true,
            is_entity: false,
        },
        BlockKey::Gravel => BlockDefinition {
            id: 9,
            key: BlockKey::Gravel,
            name: "Gravel",
            color: Some(0x85817eu32),
            solid: true,
            transparent: false,
            opaque: true,
            alpha_percent: 100,
            breakable: true,
            is_entity: false,
        },
        BlockKey::Glass => BlockDefinition {
            id: 10,
            key: BlockKey::Glass,
            name: "Glass",
            color: Some(0xc1f2fau32),
            solid: true,
            transparent: true,
            opaque: false,
            alpha_percent: 30,
            breakable: true,
            is_entity: false,
        },
        BlockKey::LogOak => BlockDefinition {
            id: 11,
            key: BlockKey::LogOak,
            name: "Oak Log",
            color: Some(0x3b271du32),
            solid: true,
            transparent: false,
            opaque: true,
            alpha_percent: 100,
            breakable: true,
            is_entity: false,
        },
        BlockKey::PlanksOak => BlockDefinition {
            id: 12,
            key: BlockKey::PlanksOak,
            name: "Oak Planks",
            color: Some(0xa2824eu32),
            solid: true,
            transparent: false,
            opaque: true,
            alpha_percent: 100,
            breakable: true,
            is_entity: false,
        },
        BlockKey::Snow => BlockDefinition {
            id: 13,
            key: BlockKey::Snow,
            name: "Snow",
            color: Some(0xfcfcfcu32),
            solid: true,
            transparent: false,
            opaque: true,
            alpha_percent: 100,
            breakable: true,
            is_entity: false,
        },
        BlockKey::Ice => BlockDefinition {
            id: 14,
            key: BlockKey::Ice,
            name: "Ice",
            color: Some(0xaaddf2u32),
            solid: true,
            transparent: true,
            opaque: false,
            alpha_percent: 40,
            breakable: true,
            is_entity: false,
        },
        BlockKey::OreCoal => BlockDefinition {
            id: 15,
            key: BlockKey::OreCoal,
            name: "Coal Ore",
            color: Some(0x363636u32),
            solid: true,
            transparent: false,
            opaque: true,
            alpha_percent: 100,
            breakable: true,
            is_entity: false,
        },
        BlockKey::OreIron => BlockDefinition {
            id: 16,
            key: BlockKey::OreIron,
            name: "Iron Ore",
            color: Some(0x8c7c72u32),
            solid: true,
            transparent: false,
            opaque: true,
            alpha_percent: 100,
            breakable: true,
            is_entity: false,
        },
        BlockKey::OreGold => BlockDefinition {
            id: 17,
            key: BlockKey::OreGold,
            name: "Gold Ore",
            color: Some(0xe6bd34u32),
            solid: true,
            transparent: false,
            opaque: true,
            alpha_percent: 100,
            breakable: true,
            is_entity: false,
        },
        BlockKey::OreDiamond => BlockDefinition {
            id: 18,
            key: BlockKey::OreDiamond,
            name: "Diamond Ore",
            color: Some(0x4eedd8u32),
            solid: true,
            transparent: false,
            opaque: true,
            alpha_percent: 100,
            breakable: true,
            is_entity: false,
        },
        BlockKey::Sandstone => BlockDefinition {
            id: 19,
            key: BlockKey::Sandstone,
            name: "Sandstone",
            color: Some(0xd4c28fu32),
            solid: true,
            transparent: false,
            opaque: true,
            alpha_percent: 100,
            breakable: true,
            is_entity: false,
        },
        BlockKey::Clay => BlockDefinition {
            id: 20,
            key: BlockKey::Clay,
            name: "Clay",
            color: Some(0x9aa2b3u32),
            solid: true,
            transparent: false,
            opaque: true,
            alpha_percent: 100,
            breakable: true,
            is_entity: false,
        },
        BlockKey::Cactus => BlockDefinition {
            id: 21,
            key: BlockKey::Cactus,
            name: "Cactus",
            color: Some(0x2f6e24u32),
            solid: true,
            transparent: false,
            opaque: true,
            alpha_percent: 100,
            breakable: true,
            is_entity: false,
        },
        BlockKey::Obsidian => BlockDefinition {
            id: 22,
            key: BlockKey::Obsidian,
            name: "Obsidian",
            color: Some(0x14101eu32),
            solid: true,
            transparent: false,
            opaque: true,
            alpha_percent: 100,
            breakable: true,
            is_entity: false,
        },
        BlockKey::Bedrock => BlockDefinition {
            id: 23,
            key: BlockKey::Bedrock,
            name: "Bedrock",
            color: Some(0x222222u32),
            solid: true,
            transparent: false,
            opaque: true,
            alpha_percent: 100,
            breakable: false,
            is_entity: false,
        },
        BlockKey::SchematicBlock => BlockDefinition {
            id: 24,
            key: BlockKey::SchematicBlock,
            name: "Schematic Block",
            color: Some(0xaa00ffu32),
            solid: true,
            transparent: false,
            opaque: true,
            alpha_percent: 100,
            breakable: true,
            is_entity: true,
        },
        BlockKey::Mud => BlockDefinition {
            id: 25,
            key: BlockKey::Mud,
            name: "Mud",
            color: Some(0x5c4033u32),
            solid: true,
            transparent: false,
            opaque: true,
            alpha_percent: 100,
            breakable: true,
            is_entity: false,
        },
        BlockKey::Granite => BlockDefinition {
            id: 26,
            key: BlockKey::Granite,
            name: "Granite",
            color: Some(0x8b8b8bu32),
            solid: true,
            transparent: false,
            opaque: true,
            alpha_percent: 100,
            breakable: true,
            is_entity: false,
        },
        BlockKey::Marble => BlockDefinition {
            id: 27,
            key: BlockKey::Marble,
            name: "Marble",
            color: Some(0xf5f5f5u32),
            solid: true,
            transparent: false,
            opaque: true,
            alpha_percent: 100,
            breakable: true,
            is_entity: false,
        },
    }
}

/// The block kind with the given id, if the id is known.
pub fn key_of_id(id: u32) -> (k: Option<BlockKey>)
    ensures
        k == (if id < BLOCK_COUNT {
            Some(key_at(id as int))
        } else {
            None
        }),
{
    match id {
        0 => Some(BlockKey::Air),
        1 => Some(BlockKey::Grass),
        2 => Some(BlockKey::Dirt),
        3 => Some(BlockKey::Stone),
        4 => Some(BlockKey::Wood),
        5 => Some(BlockKey::Leaves),
        6 => Some(BlockKey::Brick),
        7 => Some(BlockKey::Water),
        8 => Some(BlockKey::Sand),
        9 => Some(BlockKey::Gravel),
        10 => Some(BlockKey::Glass),
        11 => Some(BlockKey::LogOak),
        12 => Some(BlockKey::PlanksOak),
        13 => Some(BlockKey::Snow),
        14 => Some(BlockKey::Ice),
        15 => Some(BlockKey::OreCoal),
        16 => Some(BlockKey::OreIron),
        17 => Some(BlockKey::OreGold),
        18 => Some(BlockKey::OreDiamond),
        19 => Some(BlockKey::Sandstone),
        20 => Some(BlockKey::Clay),
        21 => Some(BlockKey::Cactus),
        22 => Some(BlockKey::Obsidian),
        23 => Some(BlockKey::Bedrock),
        24 => Some(BlockKey::SchematicBlock),
        25 => Some(BlockKey::Mud),
        26 => Some(BlockKey::Granite),
        27 => Some(BlockKey::Marble),
        _ => None,
    }
}

/// The full definition table, ordered by id.
pub fn block_definitions() -> (defs: Vec<BlockDefinition>)
    ensures
        defs@.len() == BLOCK_COUNT,
        forall|i: int| 0 <= i < BLOCK_COUNT ==> #[trigger] defs@[i] == key_def(key_at(i)),
{
    let mut defs: Vec<BlockDefinition> = Vec::new();
    let mut id: u32 = 0;
    while id < BLOCK_COUNT
        invariant
            id <= BLOCK_COUNT,
            defs@.len() == id,
            forall|i: int| 0 <= i < id ==> #[trigger] defs@[i] == key_def(key_at(i)),
        decreases BLOCK_COUNT - id,
    {
        let k = key_of_id(id).unwrap();
        defs.push(definition_of(k));
        id = id + 1;
    }
    defs
}

/// Every block kind paired with its id, ordered by id.
pub fn blocks() -> (pairs: Vec<(BlockKey, u32)>)
    ensures
        pairs@.len() == BLOCK_COUNT,
        forall|i: int| 0 <= i < BLOCK_COUNT ==> #[trigger] pairs@[i] == (key_at(i), i as u32),
        forall|k: BlockKey| #[trigger] pairs@[key_id(k) as int] == (k, key_id(k)),
{
    let defs = block_definitions();
    let mut pairs: Vec<(BlockKey, u32)> = Vec::new();
    let mut i: usize = 0;
    while i < defs.len()
        invariant
            defs@.len() == BLOCK_COUNT,
            forall|j: int| 0 <= j < BLOCK_COUNT ==> #[trigger] defs@[j] == key_def(key_at(j)),
            i <= defs@.len(),
            pairs@.len() == i,
            forall|j: int| 0 <= j < i ==> #[trigger] pairs@[j] == (key_at(j), j as u32),
        decreases defs@.len() - i,
    {
        let d = defs[i];
        pairs.push((d.key, d.id));
        i = i + 1;
    }
    assert forall|k: BlockKey| #[trigger] pairs@[key_id(k) as int] == (k, key_id(k)) by {
        lemma_definitions_consistent(k, 0);
    }
    pairs
}

/// Map from each block id to whether that block is solid.
pub fn solid_map() -> (m: HashMap<u32, bool>)
    ensures
        forall|id: u32| #[trigger] m@.contains_key(id) <==> id < BLOCK_COUNT,
        forall|id: u32| id < BLOCK_COUNT ==> #[trigger] m@[id] == key_def(key_at(id as int)).solid,
{
    let defs = block_definitions();
    let mut m: HashMap<u32, bool> = HashMap::new();
    let mut i: usize = 0;
    while i < defs.len()
        invariant
            defs@.len() == BLOCK_COUNT,
            forall|j: int| 0 <= j < BLOCK_COUNT ==> #[trigger] defs@[j] == key_def(key_at(j)),
            i <= defs@.len(),
            forall|id: u32| #[trigger] m@.contains_key(id) <==> id < i,
            forall|id: u32| id < i ==> #[trigger] m@[id] == key_def(key_at(id as int)).solid,
        decreases defs@.len() - i,
    {
        let d = defs[i];
        m.insert(d.id, d.solid);
        i = i + 1;
    }
    m
}

/// Whether the block with id `id` is solid; unknown ids are not solid.
pub fn is_solid(id: u32) -> (r: bool)
    ensures
        r == solid_spec(id),
{
    let m = solid_map();
    match m.get(&id) {
        Some(s) => *s,
        None => false,
    }
}

/// The definition of the block with id `id`, if there is one.
pub fn get_block_by_id(id: u32) -> (d: Option<BlockDefinition>)
    ensures
        d == def_by_id(id),
{
    let defs = block_definitions();
    let mut i: usize = 0;
    while i < defs.len()
        invariant
            defs@.len() == BLOCK_COUNT,
            forall|j: int| 0 <= j < BLOCK_COUNT ==> #[trigger] defs@[j] == key_def(key_at(j)),
            i <= defs@.len(),
            forall|j: int| 0 <= j < i ==> defs@[j].id != id,
        decreases defs@.len() - i,
    {
        if defs[i].id == id {
            return Some(defs[i]);
        }
        i = i + 1;
    }
    assert(id >= BLOCK_COUNT) by {
        if id < BLOCK_COUNT {
            assert(defs@[id as int].id == id);
        }
    }
    None
}

/// The definition of a block kind; every kind has one.
pub fn get_block_by_key(key: BlockKey) -> (d: Option<BlockDefinition>)
    ensures
        d == Some(key_def(key)),
{
    let defs = block_definitions();
    let mut i: usize = 0;
    proof {
        lemma_definitions_consistent(key, 0);
    }
    while i < defs.len()
        invariant
            defs@.len() == BLOCK_COUNT,
            forall|j: int| 0 <= j < BLOCK_COUNT ==> #[trigger] defs@[j] == key_def(key_at(j)),
            i <= defs@.len(),
            forall|j: int| 0 <= j < i ==> defs@[j].key != key,
            key_at(key_id(key) as int) == key,
            key_id(key) < BLOCK_COUNT,
        decreases defs@.len() - i,
    {
        if defs[i].key == key {
            return Some(defs[i]);
        }
        i = i + 1;
    }
    assert(defs@[key_id(key) as int].key == key);
    None
}

} // verus!
