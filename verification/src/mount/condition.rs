use vstd::prelude::*;

use crate::tools::text::{quoted, signed_decimal, contains_seq, i64_to_string, push_char, push_str, str_contains, string_from};

verus! {

/// The kind of restriction that a player condition puts on a mount.
#[derive(Clone, Copy, PartialEq, Eq, Structural, Debug)]
pub enum ConditionGroup {
    Class,
    Skill,
    Race,
    Covenant,
}

impl ConditionGroup {
    /// The key under which a group of conditions is exported.
    pub open spec fn spec_as_str(self) -> Seq<char> {
        match self {
            ConditionGroup::Class => "class"@,
            ConditionGroup::Skill => "skill"@,
            ConditionGroup::Race => "race"@,
            ConditionGroup::Covenant => "covenant"@,
        }
    }

    pub fn as_str(&self) -> (res: &'static str)
        ensures
            res@ == self.spec_as_str(),
    {
        match self {
            ConditionGroup::Class => "class",
            ConditionGroup::Skill => "skill",
            ConditionGroup::Race => "race",
            ConditionGroup::Covenant => "covenant",
        }
    }
}

/// One restriction: its group and the value that is exported for it.
pub struct Condition {
    pub group: ConditionGroup,
    pub value: String,
}

impl View for Condition {
    type V = (ConditionGroup, Seq<char>);

    open spec fn view(&self) -> Self::V {
        (self.group, self.value@)
    }
}

impl Clone for Condition {
    fn clone(&self) -> (res: Self)
        ensures
            res == *self,
    {
        Condition { group: self.group, value: self.value.clone() }
    }
}

/// The views of a list of conditions.
pub open spec fn conditions_view(s: Seq<Condition>) -> Seq<(ConditionGroup, Seq<char>)> {
    s.map_values(|c: Condition| c@)
}

/// The views of a list of condition groups.
pub open spec fn condition_groups_view(s: Seq<Vec<Condition>>) -> Seq<Seq<(ConditionGroup, Seq<char>)>> {
    s.map_values(|g: Vec<Condition>| conditions_view(g@))
}

/// The condition for `name` when `bit` is set in `mask`, else nothing.
pub open spec fn bit_condition(mask: i64, bit: i64, group: ConditionGroup, name: Seq<char>) -> Seq<
    (ConditionGroup, Seq<char>),
> {
    if mask & bit > 0 {
        seq![(group, quoted(name))]
    } else {
        Seq::empty()
    }
}

/// The class conditions of a class mask, in the order of the class bits.
pub open spec fn class_conditions(mask: i64) -> Seq<(ConditionGroup, Seq<char>)> {
    Seq::empty() + bit_condition(mask, 0x1, ConditionGroup::Class, "WARRIOR"@) + bit_condition(
        mask,
        0x2,
        ConditionGroup::Class,
        "PALADIN"@,
    ) + bit_condition(mask, 0x4, ConditionGroup::Class, "HUNTER"@) + bit_condition(
        mask,
        0x8,
        ConditionGroup::Class,
        "ROGUE"@,
    ) + bit_condition(mask, 0x10, ConditionGroup::Class, "PRIEST"@) + bit_condition(
        mask,
        0x20,
        ConditionGroup::Class,
        "DEATHKNIGHT"@,
    ) + bit_condition(mask, 0x40, ConditionGroup::Class, "SHAMAN"@) + bit_condition(
        mask,
        0x80,
        ConditionGroup::Class,
        "MAGE"@,
    ) + bit_condition(mask, 0x100, ConditionGroup::Class, "WARLOCK"@) + bit_condition(
        mask,
        0x200,
        ConditionGroup::Class,
        "MONK"@,
    ) + bit_condition(mask, 0x400, ConditionGroup::Class, "DRUID"@) + bit_condition(
        mask,
        0x800,
        ConditionGroup::Class,
        "DEMONHUNTER"@,
    ) + bit_condition(mask, 0x1000, ConditionGroup::Class, "EVOKER"@)
}

/// The race masks that stand for a whole faction; they restrict nothing.
pub open spec fn is_full_faction_mask(mask: i64) -> bool {
    mask == 6130900294268439629 || mask == -6184943489809468494
}

/// The race conditions of a race mask, in the order of the race bits.
pub open spec fn race_conditions(mask: i64) -> Seq<(ConditionGroup, Seq<char>)> {
    if is_full_faction_mask(mask) {
        Seq::empty()
    } else {
        Seq::empty() + bit_condition(mask, 0x4, ConditionGroup::Race, "Dwarf"@) + bit_condition(
            mask,
            0x20,
            ConditionGroup::Race,
            "Tauren"@,
        ) + bit_condition(mask, 0x200, ConditionGroup::Race, "BloodElf"@) + bit_condition(
            mask,
            0x400,
            ConditionGroup::Race,
            "Draenei"@,
        ) + bit_condition(mask, 0x800, ConditionGroup::Race, "DarkIronDwarf"@) + bit_condition(
            mask,
            0x20000000,
            ConditionGroup::Race,
            "LightforgedDraenei"@,
        ) + bit_condition(mask, 0x40000000, ConditionGroup::Race, "ZandalariTroll"@)
    }
}

/// The covenant that a failure description names, by its number.
pub open spec fn covenant_of(description: Seq<char>) -> Option<Seq<char>> {
    if contains_seq(description, "Kyrian"@) {
        Some("1"@)
    } else if contains_seq(description, "Venthyr "@) {
        Some("2"@)
    } else if contains_seq(description, "Night Fae"@) {
        Some("3"@)
    } else if contains_seq(description, "Necrolord"@) {
        Some("4"@)
    } else {
        None
    }
}

/// A group when it is not empty, else nothing.
pub open spec fn nonempty_group(g: Seq<(ConditionGroup, Seq<char>)>) -> Seq<
    Seq<(ConditionGroup, Seq<char>)>,
> {
    if g.len() > 0 {
        seq![g]
    } else {
        Seq::empty()
    }
}

/// The condition groups of a player condition: classes, races, skill, covenant.
pub open spec fn spec_parse_conditions(
    race_mask: i64,
    failure_description: Seq<char>,
    class_mask: i64,
    skill_id: i64,
) -> Seq<Seq<(ConditionGroup, Seq<char>)>> {
    nonempty_group(class_conditions(class_mask)) + nonempty_group(race_conditions(race_mask)) + (
    if skill_id != 0 {
        seq![seq![(ConditionGroup::Skill, signed_decimal(skill_id as int))]]
    } else {
        Seq::empty()
    }) + match covenant_of(failure_description) {
        Some(c) => seq![seq![(ConditionGroup::Covenant, c)]],
        None => Seq::empty(),
    }
}

/// The covenant of a failure text is the last group of a player condition's
/// restrictions: Kyrian "1", else Venthyr "2", else Night Fae "3", else
/// Necrolord "4".
pub proof fn law_covenant(race_mask: i64, description: Seq<char>, class_mask: i64, skill_id: i64)
    ensures
        ({
            let r = spec_parse_conditions(race_mask, description, class_mask, skill_id);
            &&& contains_seq(description, "Kyrian"@) ==> r.len() > 0 && r.last() == seq![
                (ConditionGroup::Covenant, "1"@),
            ]
            &&& !contains_seq(description, "Kyrian"@) && contains_seq(description, "Venthyr "@) ==> r.len() > 0
                && r.last() == seq![(ConditionGroup::Covenant, "2"@)]
            &&& !contains_seq(description, "Kyrian"@) && !contains_seq(description, "Venthyr "@)
                && contains_seq(description, "Night Fae"@) ==> r.len() > 0 && r.last() == seq![
                (ConditionGroup::Covenant, "3"@),
            ]
            &&& !contains_seq(description, "Kyrian"@) && !contains_seq(description, "Venthyr "@)
                && !contains_seq(description, "Night Fae"@) && contains_seq(description, "Necrolord"@) ==> r.len()
                > 0 && r.last() == seq![(ConditionGroup::Covenant, "4"@)]
        }),
{
    let r = spec_parse_conditions(race_mask, description, class_mask, skill_id);
    let front = nonempty_group(class_conditions(class_mask)) + nonempty_group(race_conditions(race_mask)) + (
    if skill_id != 0 {
        seq![seq![(ConditionGroup::Skill, signed_decimal(skill_id as int))]]
    } else {
        Seq::empty()
    });
    if let Some(c) = covenant_of(description) {
        assert(r == front + seq![seq![(ConditionGroup::Covenant, c)]]);
    }
}

fn quoted_condition(group: ConditionGroup, name: &str) -> (res: Condition)
    ensures
        res@ == (group, quoted(name@)),
{
    let mut value = String::new();
    push_char(&mut value, '"');
    push_str(&mut value, name);
    push_char(&mut value, '"');
    assert(value@ =~= quoted(name@));
    Condition { group, value }
}

fn add_if_set(result: &mut Vec<Condition>, mask: i64, bit: i64, group: ConditionGroup, name: &str)
    ensures
        conditions_view(final(result)@) == conditions_view(old(result)@) + bit_condition(
            mask,
            bit,
            group,
            name@,
        ),
{
    if mask & bit > 0 {
        result.push(quoted_condition(group, name));
    }
    assert(conditions_view(result@) =~= conditions_view(old(result)@) + bit_condition(
        mask,
        bit,
        group,
        name@,
    ));
}

fn check_class(mask: i64) -> (res: Vec<Condition>)
    ensures
        conditions_view(res@) == class_conditions(mask),
{
    let mut result: Vec<Condition> = Vec::new();
    assert(conditions_view(result@) =~= Seq::empty());
    add_if_set(&mut result, mask, 0x1, ConditionGroup::Class, "WARRIOR");
    add_if_set(&mut result, mask, 0x2, ConditionGroup::Class, "PALADIN");
    add_if_set(&mut result, mask, 0x4, ConditionGroup::Class, "HUNTER");
    add_if_set(&mut result, mask, 0x8, ConditionGroup::Class, "ROGUE");
    add_if_set(&mut result, mask, 0x10, ConditionGroup::Class, "PRIEST");
    add_if_set(&mut result, mask, 0x20, ConditionGroup::Class, "DEATHKNIGHT");
    add_if_set(&mut result, mask, 0x40, ConditionGroup::Class, "SHAMAN");
    add_if_set(&mut result, mask, 0x80, ConditionGroup::Class, "MAGE");
    add_if_set(&mut result, mask, 0x100, ConditionGroup::Class, "WARLOCK");
    add_if_set(&mut result, mask, 0x200, ConditionGroup::Class, "MONK");
    add_if_set(&mut result, mask, 0x400, ConditionGroup::Class, "DRUID");
    add_if_set(&mut result, mask, 0x800, ConditionGroup::Class, "DEMONHUNTER");
    add_if_set(&mut result, mask, 0x1000, ConditionGroup::Class, "EVOKER");
    result
}

fn check_race(mask: i64) -> (res: Vec<Condition>)
    ensures
        conditions_view(res@) == race_conditions(mask),
{
    let mut result: Vec<Condition> = Vec::new();
    assert(conditions_view(result@) =~= Seq::empty());
    if mask == 6130900294268439629 || mask == -6184943489809468494 {
        // skip full faction masks
        return result;
    }
    add_if_set(&mut result, mask, 0x4, ConditionGroup::Race, "Dwarf");
    add_if_set(&mut result, mask, 0x20, ConditionGroup::Race, "Tauren");
    add_if_set(&mut result, mask, 0x200, ConditionGroup::Race, "BloodElf");
    add_if_set(&mut result, mask, 0x400, ConditionGroup::Race, "Draenei");
    add_if_set(&mut result, mask, 0x800, ConditionGroup::Race, "DarkIronDwarf");
    add_if_set(&mut result, mask, 0x20000000, ConditionGroup::Race, "LightforgedDraenei");
    add_if_set(&mut result, mask, 0x40000000, ConditionGroup::Race, "ZandalariTroll");
    result
}

fn single(group: ConditionGroup, value: String) -> (res: Vec<Condition>)
    ensures
        conditions_view(res@) == seq![(group, value@)],
{
    let mut v: Vec<Condition> = Vec::new();
    v.push(Condition { group, value });
    assert(conditions_view(v@) =~= seq![(group, value@)]);
    v
}

/// Turns the masks, skill and failure text of a player condition into groups of
/// conditions: the classes, the races, the skill and the covenant, each group
/// present only when it restricts something.
pub fn parse_conditions(race_mask: i64, failure_description: &str, class_mask: i64, skill_id: i64) -> (res: Vec<Vec<Condition>>)
    ensures
        condition_groups_view(res@) == spec_parse_conditions(
            race_mask,
            failure_description@,
            class_mask,
            skill_id,
        ),
{
    let mut result: Vec<Vec<Condition>> = Vec::new();
    let ghost mut expected: Seq<Seq<(ConditionGroup, Seq<char>)>> = Seq::empty();
    assert(condition_groups_view(result@) =~= expected);

    let class_group = check_class(class_mask);
    if class_group.len() > 0 {
        result.push(class_group);
    }
    proof {
        expected = expected + nonempty_group(class_conditions(class_mask));
    }
    assert(condition_groups_view(result@) =~= expected);

    let race_group = check_race(race_mask);
    if race_group.len() > 0 {
        result.push(race_group);
    }
    proof {
        expected = expected + nonempty_group(race_conditions(race_mask));
    }
    assert(condition_groups_view(result@) =~= expected);

    if skill_id != 0 {
        result.push(single(ConditionGroup::Skill, i64_to_string(skill_id)));
    }
    proof {
        expected = expected + (if skill_id != 0 {
            seq![seq![(ConditionGroup::Skill, signed_decimal(skill_id as int))]]
        } else {
            Seq::empty()
        });
    }
    assert(condition_groups_view(result@) =~= expected);

    let covenant = if str_contains(failure_description, "Kyrian") {
        Some(string_from("1"))
    } else if str_contains(failure_description, "Venthyr ") {
        Some(string_from("2"))
    } else if str_contains(failure_description, "Night Fae") {
        Some(string_from("3"))
    } else if str_contains(failure_description, "Necrolord") {
        Some(string_from("4"))
    } else {
        None
    };
    match covenant {
        Some(c) => {
            result.push(single(ConditionGroup::Covenant, c));
        },
        None => {},
    }
    assert(condition_groups_view(result@) =~= spec_parse_conditions(
        race_mask,
        failure_description@,
        class_mask,
        skill_id,
    ));
    result
}


/// Every group of conditions that a player condition gives has a condition.
pub proof fn lemma_parse_conditions_nonempty(race_mask: i64, failure_description: Seq<char>, class_mask: i64, skill_id: i64)
    ensures
        forall|i: int|
            0 <= i < spec_parse_conditions(race_mask, failure_description, class_mask, skill_id).len()
                ==> (#[trigger] spec_parse_conditions(race_mask, failure_description, class_mask, skill_id)[i]).len()
                > 0,
{
    let a = nonempty_group(class_conditions(class_mask));
    let b = nonempty_group(race_conditions(race_mask));
    let c: Seq<Seq<(ConditionGroup, Seq<char>)>> = if skill_id != 0 {
        seq![seq![(ConditionGroup::Skill, signed_decimal(skill_id as int))]]
    } else {
        Seq::empty()
    };
    let d: Seq<Seq<(ConditionGroup, Seq<char>)>> = match covenant_of(failure_description) {
        Some(x) => seq![seq![(ConditionGroup::Covenant, x)]],
        None => Seq::empty(),
    };
    let all = spec_parse_conditions(race_mask, failure_description, class_mask, skill_id);
    assert(all == a + b + c + d);
    assert forall|i: int| 0 <= i < all.len() implies (#[trigger] all[i]).len() > 0 by {
        if i < a.len() {
            assert(all[i] == a[i]);
        } else if i < a.len() + b.len() {
            assert(all[i] == b[i - a.len()]);
        } else if i < a.len() + b.len() + c.len() {
            assert(all[i] == c[i - a.len() - b.len()]);
        } else {
            assert(all[i] == d[i - a.len() - b.len() - c.len()]);
        }
    }
}

} // verus!
