//! Rows of the client database tables that the collectors read.
//!
//! Float columns are held as the bit patterns of their `f32` values
//! (`f32::to_bits`), so that rows stay plain integer data.
use vstd::prelude::*;

verus! {

#[derive(Clone, Copy, Debug)]
pub struct SpellEffect {
    pub spell_id: u32,
    pub effect_aura: u32,
    pub effect: u32,
    /// can be -1
    pub trigger_spell_id: i32,
    pub implicit_target: u32,
    pub effect_misc_value: i64,
    /// bit pattern of the `f32` base points
    pub effect_points_bits: u32,
}

#[derive(Clone, Copy, Debug)]
pub struct SpellCategories {
    pub spell_id: u32,
    pub category: u32,
}

#[derive(Clone, Copy, Debug)]
pub struct SpellVisualKitEffect {
    pub visual_kit_id: u32,
    pub effect_type: u8,
    pub effect_id: u32,
}

#[derive(Clone, Copy, Debug)]
pub struct SpellProceduralEffect {
    pub id: u32,
    pub effect_type: i8,
    /// bit patterns of the three `f32` values
    pub value_0_bits: u32,
    pub value_1_bits: u32,
    pub value_2_bits: u32,
}

#[derive(Clone, Copy, Debug)]
pub struct SpellXSpellVisual {
    pub spell_id: u32,
    pub visual_id: u32,
}

#[derive(Clone, Copy, Debug)]
pub struct SpellVisualEvent {
    pub visual_id: u32,
    pub visual_kit_id: u32,
}

#[derive(Clone, Copy, Debug)]
pub struct SpellMisc {
    pub spell_id: u32,
    pub spell_icon_file_id: i64,
}

#[derive(Clone, Copy, Debug)]
pub struct Item {
    pub item_id: u32,
    pub inventory_type: u32,
}

#[derive(Debug)]
pub struct ItemSparse {
    pub item_id: u32,
    pub display_text: String,
    pub bonding: i32,
    pub description_id: u32,
}

impl Clone for ItemSparse {
    fn clone(&self) -> (res: Self)
        ensures
            res == *self,
    {
        ItemSparse {
            item_id: self.item_id,
            display_text: self.display_text.clone(),
            bonding: self.bonding,
            description_id: self.description_id,
        }
    }
}

#[derive(Clone, Copy, Debug)]
pub struct ItemXItemEffect {
    pub item_id: u32,
    pub item_effect_id: u32,
}

#[derive(Clone, Copy, Debug)]
pub struct ItemEffect {
    pub id: u32,
    pub trigger_type: i32,
    /// can be -1
    pub spell_id: i32,
    pub item_id: u32,
}

#[derive(Clone, Copy, Debug)]
pub struct Toy {
    pub toy_id: u32,
    pub item_id: u32,
}

#[derive(Debug)]
pub struct Mount {
    pub id: u32,
    pub name: String,
    pub type_id: u32,
    pub spell_id: u32,
    pub player_condition_id: u32,
    pub source_type: i8,
}

impl Clone for Mount {
    fn clone(&self) -> (res: Self)
        ensures
            res == *self,
    {
        Mount {
            id: self.id,
            name: self.name.clone(),
            type_id: self.type_id,
            spell_id: self.spell_id,
            player_condition_id: self.player_condition_id,
            source_type: self.source_type,
        }
    }
}

#[derive(Debug)]
pub struct PlayerCondition {
    pub id: u32,
    pub description: String,
    pub race_mask: i64,
    pub class_mask: i64,
    pub skill_id: u32,
    pub quest_id: u32,
}

impl Clone for PlayerCondition {
    fn clone(&self) -> (res: Self)
        ensures
            res == *self,
    {
        PlayerCondition {
            id: self.id,
            description: self.description.clone(),
            race_mask: self.race_mask,
            class_mask: self.class_mask,
            skill_id: self.skill_id,
            quest_id: self.quest_id,
        }
    }
}

#[derive(Clone, Copy, Debug)]
pub struct MountXDisplay {
    pub creature_info_id: u32,
    pub mount_id: u32,
}

#[derive(Clone, Copy, Debug)]
pub struct CreatureDisplayInfo {
    pub id: u32,
    pub model_id: u32,
    pub texture_variant_file_id_0: i64,
    pub texture_variant_file_id_1: i64,
    pub texture_variant_file_id_2: i64,
    pub texture_variant_file_id_3: i64,
}

#[derive(Clone, Copy, Debug)]
pub struct CreatureModel {
    pub id: u32,
    pub file_id: i64,
}

#[derive(Clone, Copy, Debug)]
pub struct AchievementCategory {
    pub id: u32,
    pub parent: u32,
}

#[derive(Clone, Copy, Debug)]
pub struct Achievement {
    pub id: u32,
}

} // verus!
