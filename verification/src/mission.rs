//! Missions: a title and, stage by stage, the encounters to pick from.

use crate::random::{is_selection, sample_name, sample_names, texts};
use bevy_turborand::prelude::Rng;
use vstd::prelude::*;

verus! {

/// How many encounters a stage offers at most.
pub const ENCOUNTERS_PER_STAGE: u8 = 2;

/// The side that the player is on.
#[derive(Clone, Copy, Debug, PartialEq, Eq, Structural)]
pub enum Faction {
    Knights,
    Druids,
}

/// What an encounter is made from, by name.
#[derive(Debug)]
pub struct EncounterInitialDetails {
    pub title: Option<String>,
    pub player_faction: Faction,
    /// How many of which challenger.
    pub challengers: Vec<(usize, String)>,
    pub location: Option<String>,
}

impl EncounterInitialDetails {
    /// Whether these are the details that stand in where only a title is
    /// known: the knights against one monster on grass, under `title`.
    pub open spec fn is_titled_default(&self, title: Seq<char>) -> bool {
        &&& self.title matches Some(text)
        &&& text@ == title
        &&& self.player_faction == Faction::Knights
        &&& self.challengers@.len() == 1
        &&& self.challengers@[0].0 == 1
        &&& self.challengers@[0].1@ == "monster"@
        &&& self.location matches Some(place)
        &&& place@ == "grass"@
    }

    /// The default details under the given title.
    pub fn titled(title: String) -> (details: Self)
        ensures
            details.is_titled_default(title@),
    {
        let mut challengers: Vec<(usize, String)> = Vec::new();
        challengers.push((1, "monster".to_owned()));
        EncounterInitialDetails {
            title: Some(title),
            player_faction: Faction::Knights,
            challengers,
            location: Some("grass".to_owned()),
        }
    }
}

impl Default for EncounterInitialDetails {
    fn default() -> (details: Self)
        ensures
            details.is_titled_default("An Encounter"@),
    {
        EncounterInitialDetails::titled("An Encounter".to_owned())
    }
}

/// A mission under way.
#[derive(Debug)]
pub struct Mission {
    pub title: String,
    /// The encounters on offer, stage by stage.
    pub encounters: Vec<Vec<EncounterInitialDetails>>,
}

impl Default for Mission {
    fn default() -> (mission: Self)
        ensures
            mission.title@.len() == 0,
            mission.encounters@.len() == 0,
    {
        Mission { title: String::new(), encounters: Vec::new() }
    }
}

/// The stage of the mission that comes next.
#[derive(Clone, Copy, Debug, PartialEq, Eq, Structural)]
pub struct MissionStage(pub usize);

impl Default for MissionStage {
    fn default() -> (stage: Self)
        ensures
            stage == MissionStage(0),
    {
        MissionStage(0)
    }
}

impl MissionStage {
    /// The stage after this one.
    pub fn advance(&self) -> (next: MissionStage)
        requires
            self.0 < usize::MAX,
        ensures
            next.0 == self.0 + 1,
    {
        MissionStage(self.0 + 1)
    }
}

impl Mission {
    /// Whether every stage has been played.
    pub fn is_complete(&self, stage: &MissionStage) -> (complete: bool)
        ensures
            complete == (stage.0 >= self.encounters@.len()),
    {
        stage.0 >= self.encounters.len()
    }

    /// The encounters that the stage offers, if the mission has that stage.
    pub fn offered(&self, stage: &MissionStage) -> (offered: Option<&Vec<EncounterInitialDetails>>)
        ensures
            stage.0 >= self.encounters@.len() ==> offered is None,
            stage.0 < self.encounters@.len() ==> offered == Some(&self.encounters@[stage.0 as int]),
    {
        if stage.0 < self.encounters.len() {
            Some(&self.encounters[stage.0])
        } else {
            None
        }
    }
}

/// What missions are generated from: titles to pick one from, and for each
/// stage the names of the encounters to pick from.
#[derive(Debug)]
pub struct MissionGenerationInfo {
    pub titles: Vec<String>,
    pub encounters: Vec<Vec<String>>,
}

impl Default for MissionGenerationInfo {
    fn default() -> (info: Self)
        ensures
            info.titles@.len() == 0,
            info.encounters@.len() == 0,
    {
        MissionGenerationInfo { titles: Vec::new(), encounters: Vec::new() }
    }
}

/// The titles of the encounters, in order.
pub open spec fn encounter_titles(encounters: Seq<EncounterInitialDetails>) -> Seq<Seq<char>> {
    encounters.map_values(
        |details: EncounterInitialDetails|
            match details.title {
                Some(title) => title@,
                None => Seq::empty(),
            },
    )
}

/// Whether `offered` is a stage made from `names`: as many encounters as a
/// stage offers, or as there are names if those are fewer; each of them the
/// default under one of the names; no name taken from the same place twice.
pub open spec fn is_stage_of(offered: Seq<EncounterInitialDetails>, names: Seq<String>) -> bool {
    &&& offered.len() == if ENCOUNTERS_PER_STAGE <= names.len() {
        ENCOUNTERS_PER_STAGE as int
    } else {
        names.len() as int
    }
    &&& forall|k: int|
        0 <= k < offered.len() ==> (#[trigger] offered[k]).is_titled_default(
            encounter_titles(offered)[k],
        )
    &&& is_selection(encounter_titles(offered), texts(names))
}

/// Builds the encounters of one stage from the names picked for it.
pub fn stage_of(picked: Vec<String>) -> (offered: Vec<EncounterInitialDetails>)
    ensures
        offered@.len() == picked@.len(),
        encounter_titles(offered@) == texts(picked@),
        forall|k: int|
            0 <= k < offered@.len() ==> (#[trigger] offered@[k]).is_titled_default(picked@[k]@),
{
    let mut offered: Vec<EncounterInitialDetails> = Vec::new();
    let mut k: usize = 0;
    while k < picked.len()
        invariant
            k <= picked@.len(),
            offered@.len() == k,
            forall|j: int| 0 <= j < k ==> (#[trigger] offered@[j]).is_titled_default(picked@[j]@),
        decreases picked@.len() - k,
    {
        offered.push(EncounterInitialDetails::titled(picked[k].clone()));
        k = k + 1;
    }
    assert(encounter_titles(offered@) =~= texts(picked@));
    offered
}

impl MissionGenerationInfo {
    /// Generates a mission: one of the titles (or "Mission" where there is
    /// none), and for each stage up to two of its encounters, picked at
    /// random.
    pub fn mission(&self, rng: &mut Rng) -> (mission: Mission)
        ensures
            self.titles@.len() == 0 ==> mission.title@ == "Mission"@,
            self.titles@.len() > 0 ==> texts(self.titles@).contains(mission.title@),
            mission.encounters@.len() == self.encounters@.len(),
            forall|stage: int|
                0 <= stage < self.encounters@.len() ==> is_stage_of(
                    (#[trigger] mission.encounters@[stage])@,
                    self.encounters@[stage]@,
                ),
    {
        let title = match sample_name(rng, &self.titles) {
            Some(title) => title,
            None => "Mission".to_owned(),
        };
        let mut encounters: Vec<Vec<EncounterInitialDetails>> = Vec::new();
        let mut stage: usize = 0;
        while stage < self.encounters.len()
            invariant
                stage <= self.encounters@.len(),
                encounters@.len() == stage,
                forall|done: int|
                    0 <= done < stage ==> is_stage_of(
                        (#[trigger] encounters@[done])@,
                        self.encounters@[done]@,
                    ),
            decreases self.encounters@.len() - stage,
        {
            let picked = sample_names(rng, &self.encounters[stage], ENCOUNTERS_PER_STAGE);
            let offered = stage_of(picked);
            encounters.push(offered);
            stage = stage + 1;
        }
        Mission { title, encounters }
    }
}

} // verus!
