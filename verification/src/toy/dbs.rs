//! Rows of the client database tables that the toy collector reads.
//!
//! Float columns are held as the bit patterns of their `f32` values.
use vstd::prelude::*;

verus! {

#[derive(Clone, Copy, Debug)]
pub struct SpellEffect {
    pub spell_id: u32,
    pub effect_aura: u32,
    pub effect: u32,
    /// can be -1
    pub trigger_spell_id: i32,
    pub implicit_target: u32,
    /// bit pattern of the `f32` base points
    pub effect_points_bits: u32,
}

#[derive(Clone, Copy, Debug)]
pub struct SpellCategories {
    pub spell_id: u32,
    pub category: u32,
}

#[derive(Clone, Copy, Debug)]
pub struct SpellVisualKitEffect {
    pub visual_kit_id: u32,
    pub effect_type: u8,
    pub effect_id: u32,
}

#[derive(Clone, Copy, Debug)]
pub struct SpellProceduralEffect {
    pub id: u32,
    pub effect_type: i8,
    /// bit patterns of the three `f32` values
    pub value_0_bits: u32,
    pub value_1_bits: u32,
    pub value_2_bits: u32,
}

#[derive(Clone, Copy, Debug)]
pub struct SpellXSpellVisual {
    pub spell_id: u32,
    pub visual_id: u32,
}

#[derive(Clone, Copy, Debug)]
pub struct SpellVisualEvent {
    pub visual_id: u32,
    pub visual_kit_id: u32,
}

#[derive(Clone, Copy, Debug)]
pub struct Item {
    pub item_id: u32,
    pub inventory_type: u32,
}

#[derive(Debug)]
pub struct ItemSparse {
    pub item_id: u32,
    pub display_text: String,
    pub bonding: i32,
}

impl Clone for ItemSparse {
    fn clone(&self) -> (res: Self)
        ensures
            res == *self,
    {
        ItemSparse { item_id: self.item_id, display_text: self.display_text.clone(), bonding: self.bonding }
    }
}

#[derive(Clone, Copy, Debug)]
pub struct ItemXItemEffect {
    pub item_id: u32,
    pub item_effect_id: u32,
}

#[derive(Clone, Copy, Debug)]
pub struct ItemEffect {
    pub id: u32,
    pub trigger_type: i32,
    /// can be -1
    pub spell_id: i32,
    pub item_id: u32,
}

#[derive(Clone, Copy, Debug)]
pub struct Toy {
    pub toy_id: u32,
    pub item_id: u32,
}

#[derive(Clone, Copy, Debug)]
pub struct ChrRace {
    /// can be -1 for races without a bit
    pub race_bit: i32,
    /// 0 for the Alliance, 1 for the Horde
    pub alliance: i32,
}

} // verus!
