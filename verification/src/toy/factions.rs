//! Which faction a race mask and its flags belong to.
use vstd::prelude::*;

use crate::toy::dbs::ChrRace;

verus! {

#[derive(PartialEq, Eq, Structural, Clone, Copy, Debug)]
pub enum Faction {
    Alliance,
    Horde,
}

/// The race masks of the two factions.
pub struct FactionParser {
    alliance_mask: i64,
    horde_mask: i64,
}

/// The bit of race `race_bit`.
pub open spec fn race_bit_mask(race_bit: i32) -> i64 {
    1i64 << (race_bit as u32)
}

/// The mask of the races that belong to side `side` (0 Alliance, 1 Horde).
pub open spec fn side_mask(races: Seq<ChrRace>, side: i32) -> i64
    decreases races.len(),
{
    if races.len() == 0 {
        0
    } else {
        let rest = side_mask(races.drop_last(), side);
        let r = races.last();
        if r.race_bit >= 0 && r.alliance == side {
            rest | race_bit_mask(r.race_bit)
        } else {
            rest
        }
    }
}

/// Every race with a bit has one that fits an `i64`.
pub open spec fn race_bits_fit(races: Seq<ChrRace>) -> bool {
    forall|i: int| 0 <= i < races.len() ==> (#[trigger] races[i]).race_bit < 63
}

impl FactionParser {
    pub closed spec fn alliance(&self) -> i64 {
        self.alliance_mask
    }

    pub closed spec fn horde(&self) -> i64 {
        self.horde_mask
    }

    /// Collects the race masks of the Alliance and the Horde.
    pub fn new(race_db: Vec<ChrRace>) -> (res: Self)
        requires
            race_bits_fit(race_db@),
        ensures
            res.alliance() == side_mask(race_db@, 0),
            res.horde() == side_mask(race_db@, 1),
    {
        let mut alliance_mask: i64 = 0;
        let mut horde_mask: i64 = 0;
        for i in 0..race_db.len()
            invariant
                race_bits_fit(race_db@),
                alliance_mask == side_mask(race_db@.take(i as int), 0),
                horde_mask == side_mask(race_db@.take(i as int), 1),
        {
            let race = race_db[i];
            assert(race_db@.take(i + 1).drop_last() =~= race_db@.take(i as int));
            assert(race == race_db@[i as int]);
            if race.race_bit >= 0 {
                let bit_mask: i64 = 1i64 << (race.race_bit as u32);
                if race.alliance == 0 {
                    alliance_mask = alliance_mask | bit_mask;
                } else if race.alliance == 1 {
                    horde_mask = horde_mask | bit_mask;
                }
            }
        }
        assert(race_db@.take(race_db@.len() as int) =~= race_db@);
        Self { alliance_mask, horde_mask }
    }

    /// The faction of a race mask with its flags: flag bits first, then the
    /// race masks; none for a mask of all or no races.
    pub open spec fn faction_of(&self, race_mask: i64, flags: Seq<i64>) -> Option<Faction> {
        if flags[1] & 1 == 1 {
            Some(Faction::Horde)
        } else if flags[1] & 2 == 2 {
            Some(Faction::Alliance)
        } else if race_mask != -1 && race_mask != 0 {
            if race_mask & self.alliance() != 0 {
                Some(Faction::Alliance)
            } else if race_mask & self.horde() != 0 {
                Some(Faction::Horde)
            } else {
                None
            }
        } else {
            None
        }
    }

    pub fn determine_faction(&self, race_mask: i64, flags: [i64; 5]) -> (res: Option<Faction>)
        ensures
            res == self.faction_of(race_mask, flags@),
    {
        if flags[1] & 1 == 1 {
            return Some(Faction::Horde);
        }
        if flags[1] & 2 == 2 {
            return Some(Faction::Alliance);
        }
        if race_mask != -1 && race_mask != 0 {
            if race_mask & self.alliance_mask != 0 {
                return Some(Faction::Alliance);
            }
            if race_mask & self.horde_mask != 0 {
                return Some(Faction::Horde);
            }
        }
        None
    }
}

} // verus!
