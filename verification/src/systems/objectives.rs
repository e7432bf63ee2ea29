//! Objectives: what the player is asked to achieve in each phase of the
//! story, and when an objective counts as completed.

use vstd::prelude::*;
use crate::components::entities::GameEntity;
use crate::components::entity_iterator::EntityFinder;
use crate::components::game_data::GamePhase;

verus! {

/// The position of the first objective named `name`, if there is one.
pub open spec fn first_named(objectives: Seq<String>, name: Seq<char>) -> Option<int> {
    if exists|i: int| 0 <= i < objectives.len() && (#[trigger] objectives[i])@ == name {
        Some(
            choose|i: int|
                0 <= i < objectives.len() && (#[trigger] objectives[i])@ == name && forall|j: int|
                    0 <= j < i ==> (#[trigger] objectives[j])@ != name,
        )
    } else {
        None
    }
}

/// The open objectives after `name` is completed: the first objective of
/// that name leaves the list.
pub open spec fn open_after(open: Seq<String>, name: Seq<char>) -> Seq<String> {
    match first_named(open, name) {
        Some(i) => open.remove(i),
        None => open,
    }
}

/// The completed objectives after `name` is completed: the objective that
/// left the open list joins at the end.
pub open spec fn done_after(open: Seq<String>, done: Seq<String>, name: Seq<char>) -> Seq<String> {
    match first_named(open, name) {
        Some(i) => done.push(open[i]),
        None => done,
    }
}

/// The open objectives after `name` is completed if `reached` holds.
pub open spec fn open_if(reached: bool, open: Seq<String>, name: Seq<char>) -> Seq<String> {
    if reached {
        open_after(open, name)
    } else {
        open
    }
}

/// The completed objectives after `name` is completed if `reached` holds.
pub open spec fn done_if(reached: bool, open: Seq<String>, done: Seq<String>, name: Seq<char>) -> Seq<
    String,
> {
    if reached {
        done_after(open, done, name)
    } else {
        done
    }
}

/// The open objectives after three milestones were checked in turn.
pub open spec fn open_after_milestones(
    open: Seq<String>,
    first: (bool, Seq<char>),
    second: (bool, Seq<char>),
    third: (bool, Seq<char>),
) -> Seq<String> {
    open_if(third.0, open_if(second.0, open_if(first.0, open, first.1), second.1), third.1)
}

/// The completed objectives after three milestones were checked in turn.
pub open spec fn done_after_milestones(
    open: Seq<String>,
    done: Seq<String>,
    first: (bool, Seq<char>),
    second: (bool, Seq<char>),
    third: (bool, Seq<char>),
) -> Seq<String> {
    let open_1 = open_if(first.0, open, first.1);
    let done_1 = done_if(first.0, open, done, first.1);
    let open_2 = open_if(second.0, open_1, second.1);
    let done_2 = done_if(second.0, open_1, done_1, second.1);
    done_if(third.0, open_2, done_2, third.1)
}

/// The zone names, by column (west to east) within row (north, then south).
pub open spec fn zone_name(x: int, y: int) -> &'static str {
    if y < 800 {
        if x < 400 {
            "Northwest Territory"
        } else if x < 800 {
            "North Central Territory"
        } else {
            "Northeast Territory"
        }
    } else {
        if x < 400 {
            "Southwest Territory"
        } else if x < 800 {
            "South Central Territory"
        } else {
            "Southeast Territory"
        }
    }
}

/// The names of the objectives that open a phase.
pub open spec fn initial_objective_names(phase: GamePhase) -> Seq<Seq<char>> {
    match phase {
        GamePhase::SurvivalAndDiscovery => seq![
            "Survive your first week"@,
            "Discover your vampire abilities"@,
            "Find shelter from sunlight"@,
            "Feed on blood sources"@,
            "Explore the vampire territories"@,
        ],
        GamePhase::ClanEncounters => seq![
            "Establish contact with clan leaders"@,
            "Form alliances with multiple clans"@,
            "Prove your combat prowess"@,
            "Master the art of feeding"@,
            "Develop superhuman strength"@,
        ],
        GamePhase::EmpireBuilding => seq![
            "Unite all vampire clans"@,
            "Become a feared warrior"@,
            "Master daytime survival"@,
            "Achieve supernatural speed"@,
            "Map the entire realm"@,
        ],
        GamePhase::WorldReaction => seq![
            "Conquer all vampire clans"@,
            "Earn the title of Apex Hunter"@,
            "Become an apex predator"@,
            "Master blood sensing"@,
            "Learn shadow manipulation"@,
        ],
    }
}

/// The names of a list of objectives.
pub open spec fn objective_names(objectives: Seq<String>) -> Seq<Seq<char>> {
    objectives.map_values(|objective: String| objective@)
}

/// Tracks the player's progress through the objectives of the story.
pub struct ObjectivesSystem;

impl ObjectivesSystem {
    /// Completes the objective named `objective` if it is open: the first
    /// objective of that name moves from the open list to the end of the
    /// completed list. Otherwise nothing changes.
    pub fn complete_objective(
        objective: &str,
        phase_objectives: &mut Vec<String>,
        completed_objectives: &mut Vec<String>,
    )
        ensures
            final(phase_objectives)@ == open_after(old(phase_objectives)@, objective@),
            final(completed_objectives)@ == done_after(
                old(phase_objectives)@,
                old(completed_objectives)@,
                objective@,
            ),
    {
        let name: String = objective.to_owned();
        let mut i: usize = 0;
        while i < phase_objectives.len()
            invariant
                i <= phase_objectives@.len(),
                name@ == objective@,
                phase_objectives@ == old(phase_objectives)@,
                completed_objectives@ == old(completed_objectives)@,
                forall|j: int| 0 <= j < i ==> (#[trigger] phase_objectives@[j])@ != objective@,
            decreases phase_objectives@.len() - i,
        {
            if phase_objectives[i] == name {
                let completed = phase_objectives.remove(i);
                completed_objectives.push(completed);
                return ;
            }
            i = i + 1;
        }
    }

    /// Completes the survival milestones that `day_count` days have reached:
    /// a week, a month, a year.
    pub fn check_survival_objectives(
        day_count: u32,
        phase_objectives: &mut Vec<String>,
        completed_objectives: &mut Vec<String>,
    )
        ensures
            final(phase_objectives)@ == open_after_milestones(
                old(phase_objectives)@,
                (day_count >= 7, "Survive your first week"@),
                (day_count >= 30, "Survive for a month"@),
                (day_count >= 365, "Survive for a year"@),
            ),
            final(completed_objectives)@ == done_after_milestones(
                old(phase_objectives)@,
                old(completed_objectives)@,
                (day_count >= 7, "Survive your first week"@),
                (day_count >= 30, "Survive for a month"@),
                (day_count >= 365, "Survive for a year"@),
            ),
    {
        if day_count >= 7 {
            Self::complete_objective(
                "Survive your first week",
                phase_objectives,
                completed_objectives,
            );
        }
        if day_count >= 30 {
            Self::complete_objective("Survive for a month", phase_objectives, completed_objectives);
        }
        if day_count >= 365 {
            Self::complete_objective("Survive for a year", phase_objectives, completed_objectives);
        }
    }

    /// Completes the feeding milestones that `feeding_count` feedings have
    /// reached.
    pub fn check_feeding_objectives(
        feeding_count: u32,
        phase_objectives: &mut Vec<String>,
        completed_objectives: &mut Vec<String>,
    )
        ensures
            final(phase_objectives)@ == open_after_milestones(
                old(phase_objectives)@,
                (feeding_count >= 5, "Feed on blood sources"@),
                (feeding_count >= 25, "Master the art of feeding"@),
                (feeding_count >= 100, "Become an apex predator"@),
            ),
            final(completed_objectives)@ == done_after_milestones(
                old(phase_objectives)@,
                old(completed_objectives)@,
                (feeding_count >= 5, "Feed on blood sources"@),
                (feeding_count >= 25, "Master the art of feeding"@),
                (feeding_count >= 100, "Become an apex predator"@),
            ),
    {
        if feeding_count >= 5 {
            Self::complete_objective(
                "Feed on blood sources",
                phase_objectives,
                completed_objectives,
            );
        }
        if feeding_count >= 25 {
            Self::complete_objective(
                "Master the art of feeding",
                phase_objectives,
                completed_objectives,
            );
        }
        if feeding_count >= 100 {
            Self::complete_objective(
                "Become an apex predator",
                phase_objectives,
                completed_objectives,
            );
        }
    }

    /// Completes the combat milestones that `kills` kills have reached.
    pub fn check_combat_objectives(
        kills: u32,
        phase_objectives: &mut Vec<String>,
        completed_objectives: &mut Vec<String>,
    )
        ensures
            final(phase_objectives)@ == open_after_milestones(
                old(phase_objectives)@,
                (kills >= 10, "Prove your combat prowess"@),
                (kills >= 50, "Become a feared warrior"@),
                (kills >= 200, "Earn the title of Apex Hunter"@),
            ),
            final(completed_objectives)@ == done_after_milestones(
                old(phase_objectives)@,
                old(completed_objectives)@,
                (kills >= 10, "Prove your combat prowess"@),
                (kills >= 50, "Become a feared warrior"@),
                (kills >= 200, "Earn the title of Apex Hunter"@),
            ),
    {
        if kills >= 10 {
            Self::complete_objective(
                "Prove your combat prowess",
                phase_objectives,
                completed_objectives,
            );
        }
        if kills >= 50 {
            Self::complete_objective(
                "Become a feared warrior",
                phase_objectives,
                completed_objectives,
            );
        }
        if kills >= 200 {
            Self::complete_objective(
                "Earn the title of Apex Hunter",
                phase_objectives,
                completed_objectives,
            );
        }
    }

    /// Completes the exploration objectives that the player has reached.
    /// They ask for three and for five explored zones; a position lies in one
    /// zone, so neither is ever reached and nothing changes.
    pub fn check_exploration_objectives(
        entities: &Vec<GameEntity>,
        player_id: u32,
        phase_objectives: &mut Vec<String>,
        completed_objectives: &mut Vec<String>,
    )
        ensures
            final(phase_objectives)@ == old(phase_objectives)@,
            final(completed_objectives)@ == old(completed_objectives)@,
    {
        if let Some(player) = EntityFinder::by_id(entities, player_id) {
            let explored_zones = Self::get_explored_zones(player.position.x, player.position.y);
            if explored_zones.len() >= 3 {
                Self::complete_objective(
                    "Explore the vampire territories",
                    phase_objectives,
                    completed_objectives,
                );
            }
            if explored_zones.len() >= 5 {
                Self::complete_objective(
                    "Map the entire realm",
                    phase_objectives,
                    completed_objectives,
                );
            }
        }
    }

    /// The objectives that open `phase`.
    pub fn get_initial_objectives(phase: &GamePhase) -> (objectives: Vec<String>)
        ensures
            objective_names(objectives@) == initial_objective_names(*phase),
    {
        let mut objectives: Vec<String> = Vec::new();
        match phase {
            GamePhase::SurvivalAndDiscovery => {
                objectives.push("Survive your first week".to_owned());
                objectives.push("Discover your vampire abilities".to_owned());
                objectives.push("Find shelter from sunlight".to_owned());
                objectives.push("Feed on blood sources".to_owned());
                objectives.push("Explore the vampire territories".to_owned());
            },
            GamePhase::ClanEncounters => {
                objectives.push("Establish contact with clan leaders".to_owned());
                objectives.push("Form alliances with multiple clans".to_owned());
                objectives.push("Prove your combat prowess".to_owned());
                objectives.push("Master the art of feeding".to_owned());
                objectives.push("Develop superhuman strength".to_owned());
            },
            GamePhase::EmpireBuilding => {
                objectives.push("Unite all vampire clans".to_owned());
                objectives.push("Become a feared warrior".to_owned());
                objectives.push("Master daytime survival".to_owned());
                objectives.push("Achieve supernatural speed".to_owned());
                objectives.push("Map the entire realm".to_owned());
            },
            GamePhase::WorldReaction => {
                objectives.push("Conquer all vampire clans".to_owned());
                objectives.push("Earn the title of Apex Hunter".to_owned());
                objectives.push("Become an apex predator".to_owned());
                objectives.push("Master blood sensing".to_owned());
                objectives.push("Learn shadow manipulation".to_owned());
            },
        }
        proof {
            assert(objective_names(objectives@) =~= initial_objective_names(*phase));
        }
        objectives
    }

    /// The zones the player has explored, judged by the player's position:
    /// the one zone that holds it.
    pub fn get_explored_zones(x: i64, y: i64) -> (zones: Vec<&'static str>)
        ensures
            zones@ == seq![zone_name(x as int, y as int)],
    {
        let mut zones: Vec<&'static str> = Vec::new();
        if x < 400 && y < 800 {
            zones.push("Northwest Territory");
        }
        if x >= 400 && x < 800 && y < 800 {
            zones.push("North Central Territory");
        }
        if x >= 800 && y < 800 {
            zones.push("Northeast Territory");
        }
        if x < 400 && y >= 800 {
            zones.push("Southwest Territory");
        }
        if x >= 400 && x < 800 && y >= 800 {
            zones.push("South Central Territory");
        }
        if x >= 800 && y >= 800 {
            zones.push("Southeast Territory");
        }
        proof {
            assert(zones@ =~= seq![zone_name(x as int, y as int)]);
        }
        zones
    }

    /// Whether the player may advance from `current_phase`.
    pub fn can_advance_phase(
        current_phase: &GamePhase,
        completed_objectives: &[String],
        day_count: u32,
        allied_clans: usize,
    ) -> (allowed: bool)
        ensures
            allowed == match *current_phase {
                GamePhase::SurvivalAndDiscovery => day_count >= 7 && completed_objectives@.len()
                    >= 3,
                GamePhase::ClanEncounters => allied_clans >= 1 && completed_objectives@.len() >= 8,
                GamePhase::EmpireBuilding => allied_clans >= 2 && completed_objectives@.len() >= 12,
                GamePhase::WorldReaction => false,
            },
    {
        match current_phase {
            GamePhase::SurvivalAndDiscovery => day_count >= 7 && completed_objectives.len() >= 3,
            GamePhase::ClanEncounters => allied_clans >= 1 && completed_objectives.len() >= 8,
            GamePhase::EmpireBuilding => allied_clans >= 2 && completed_objectives.len() >= 12,
            GamePhase::WorldReaction => false,
        }
    }

    /// The phase that follows `current_phase`, if any.
    pub fn get_next_phase(current_phase: &GamePhase) -> (next: Option<GamePhase>)
        ensures
            next == match *current_phase {
                GamePhase::SurvivalAndDiscovery => Some(GamePhase::ClanEncounters),
                GamePhase::ClanEncounters => Some(GamePhase::EmpireBuilding),
                GamePhase::EmpireBuilding => Some(GamePhase::WorldReaction),
                GamePhase::WorldReaction => None,
            },
    {
        match current_phase {
            GamePhase::SurvivalAndDiscovery => Some(GamePhase::ClanEncounters),
            GamePhase::ClanEncounters => Some(GamePhase::EmpireBuilding),
            GamePhase::EmpireBuilding => Some(GamePhase::WorldReaction),
            GamePhase::WorldReaction => None,
        }
    }
}

} // verus!
