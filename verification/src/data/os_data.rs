//! The stored shapes of submitted observation reports, as the report
//! store files them.

use vstd::prelude::*;

verus! {

/// How a robot ended the match, as filed in stored reports.
#[derive(Debug, Clone, Copy, PartialEq, Eq, Structural)]
pub enum Endgame {
    ClimbAndTrap,
    Climb,
    Park,
    Nothing,
}

/// What kind of drivebase a robot runs on, as filed in stored reports.
#[derive(Debug, Clone, PartialEq, Eq)]
pub enum Drivebase {
    Differential,
    Mecanum,
    Swerve,
    Other(String),
}

/// A stored pit observation report.
#[derive(Debug, Clone, PartialEq, Eq)]
pub struct TeamPitReport {
    pub team_number: u32,
    pub team_member: String,
    pub speaker: bool,
    pub amp: bool,
    pub posible_endgame: Endgame,
    pub drivebase: Drivebase,
    pub can_move_auto: bool,
    pub expected_notes_auto: bool,
}

} // verus!
