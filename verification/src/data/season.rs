//! Season-specific tracked values: the per-match and per-pit observation
//! records for the current game, and their averaging.

use vstd::prelude::*;

verus! {

/// How a robot ended the match.
#[derive(Debug, Clone, Copy, PartialEq, Eq, Structural)]
pub enum Endgame {
    ClimbAndTrap,
    Climb,
    Park,
    Nothing,
}

impl Endgame {
    /// The ordinal score of an endgame outcome, from 0 (nothing) to 3
    /// (climb and trap); used to average outcomes over several matches.
    pub open spec fn spec_rank(self) -> int {
        match self {
            Endgame::ClimbAndTrap => 3,
            Endgame::Climb => 2,
            Endgame::Park => 1,
            Endgame::Nothing => 0,
        }
    }

    /// The ordinal score of an endgame outcome.
    pub fn rank(&self) -> (r: u32)
        ensures
            r == self.spec_rank(),
    {
        match self {
            Endgame::ClimbAndTrap => 3,
            Endgame::Climb => 2,
            Endgame::Park => 1,
            Endgame::Nothing => 0,
        }
    }

    /// The endgame outcome with the given ordinal score; scores above 3
    /// mean the best outcome.
    pub open spec fn spec_from_rank(r: int) -> Endgame {
        if r >= 3 {
            Endgame::ClimbAndTrap
        } else if r == 2 {
            Endgame::Climb
        } else if r == 1 {
            Endgame::Park
        } else {
            Endgame::Nothing
        }
    }

    /// The endgame outcome with the given ordinal score.
    pub fn from_rank(r: u32) -> (e: Endgame)
        ensures
            e == Endgame::spec_from_rank(r as int),
    {
        if r >= 3 {
            Endgame::ClimbAndTrap
        } else if r == 2 {
            Endgame::Climb
        } else if r == 1 {
            Endgame::Park
        } else {
            Endgame::Nothing
        }
    }
}

/// What kind of drivebase a robot runs on.
#[derive(Debug, Clone, PartialEq, Eq)]
pub enum Drivebase {
    Differential,
    Mecanum,
    Swerve,
    Other(String),
}

/// The tracked values of one match observation.
#[derive(Debug, Clone, Copy, PartialEq, Eq, Structural)]
pub struct MatchData2024 {
    pub notes_speaker_auto: u32,
    pub notes_speaker_teleop: u32,
    pub notes_amp_teleop: u32,
    pub endgame: Endgame,
}

/// The sum of the speaker notes scored in autonomous over the records.
pub open spec fn sum_speaker_auto(s: Seq<MatchData2024>) -> int
    decreases s.len(),
{
    if s.len() == 0 {
        0
    } else {
        sum_speaker_auto(s.drop_last()) + s.last().notes_speaker_auto
    }
}

/// The sum of the speaker notes scored in teleop over the records.
pub open spec fn sum_speaker_teleop(s: Seq<MatchData2024>) -> int
    decreases s.len(),
{
    if s.len() == 0 {
        0
    } else {
        sum_speaker_teleop(s.drop_last()) + s.last().notes_speaker_teleop
    }
}

/// The sum of the amp notes scored in teleop over the records.
pub open spec fn sum_amp_teleop(s: Seq<MatchData2024>) -> int
    decreases s.len(),
{
    if s.len() == 0 {
        0
    } else {
        sum_amp_teleop(s.drop_last()) + s.last().notes_amp_teleop
    }
}

/// The sum of the endgame ordinal scores over the records.
pub open spec fn sum_endgame_rank(s: Seq<MatchData2024>) -> int
    decreases s.len(),
{
    if s.len() == 0 {
        0
    } else {
        sum_endgame_rank(s.drop_last()) + s.last().endgame.spec_rank()
    }
}

/// Each of the four sums is bounded by the number of records times the
/// largest value one record can contribute.
pub proof fn lemma_sums_bounded(s: Seq<MatchData2024>)
    ensures
        0 <= sum_speaker_auto(s) <= s.len() * 0xFFFF_FFFF,
        0 <= sum_speaker_teleop(s) <= s.len() * 0xFFFF_FFFF,
        0 <= sum_amp_teleop(s) <= s.len() * 0xFFFF_FFFF,
        0 <= sum_endgame_rank(s) <= s.len() * 3,
    decreases s.len(),
{
    if s.len() > 0 {
        lemma_sums_bounded(s.drop_last());
        assert((s.len() - 1) * 0xFFFF_FFFF + 0xFFFF_FFFF == s.len() * 0xFFFF_FFFF) by (nonlinear_arith);
        assert((s.len() - 1) * 3 + 3 == s.len() * 3) by (nonlinear_arith);
    }
}

impl MatchData2024 {
    /// The field-wise average of a non-empty collection of records: each
    /// counter is the floor of the mean of that counter, and the endgame
    /// is the outcome whose ordinal score is the floor of the mean score.
    pub fn avg(data: Vec<MatchData2024>) -> (r: MatchData2024)
        requires
            data@.len() > 0,
            data@.len() <= 0xFFFF_FFFF,
        ensures
            r.notes_speaker_auto == sum_speaker_auto(data@) / data@.len() as int,
            r.notes_speaker_teleop == sum_speaker_teleop(data@) / data@.len() as int,
            r.notes_amp_teleop == sum_amp_teleop(data@) / data@.len() as int,
            r.endgame == Endgame::spec_from_rank(sum_endgame_rank(data@) / data@.len() as int),
    {
        let n = data.len();
        let mut i: usize = 0;
        let mut sa: u64 = 0;
        let mut st: u64 = 0;
        let mut at: u64 = 0;
        let mut er: u64 = 0;
        while i < n
            invariant
                i <= n,
                n == data@.len(),
                n <= 0xFFFF_FFFF,
                sa == sum_speaker_auto(data@.take(i as int)),
                st == sum_speaker_teleop(data@.take(i as int)),
                at == sum_amp_teleop(data@.take(i as int)),
                er == sum_endgame_rank(data@.take(i as int)),
                sa <= i as int * 0xFFFF_FFFF,
                st <= i as int * 0xFFFF_FFFF,
                at <= i as int * 0xFFFF_FFFF,
                er <= i as int * 3,
            decreases n - i,
        {
            let d = data[i];
            proof {
                assert(data@.take(i + 1).drop_last() =~= data@.take(i as int));
                assert(data@.take(i + 1).last() == data@[i as int]);
            }
            sa = sa + (d.notes_speaker_auto as u64);
            st = st + (d.notes_speaker_teleop as u64);
            at = at + (d.notes_amp_teleop as u64);
            er = er + (d.endgame.rank() as u64);
            i = i + 1;
        }
        proof {
            assert(data@.take(n as int) =~= data@);
            assert(sa / (n as u64) <= 0xFFFF_FFFF) by (nonlinear_arith)
                requires
                    n >= 1,
                    sa <= n as int * 0xFFFF_FFFF,
            ;
            assert(st / (n as u64) <= 0xFFFF_FFFF) by (nonlinear_arith)
                requires
                    n >= 1,
                    st <= n as int * 0xFFFF_FFFF,
            ;
            assert(at / (n as u64) <= 0xFFFF_FFFF) by (nonlinear_arith)
                requires
                    n >= 1,
                    at <= n as int * 0xFFFF_FFFF,
            ;
            assert(er / (n as u64) <= 3) by (nonlinear_arith)
                requires
                    n >= 1,
                    er <= n as int * 3,
            ;
        }
        MatchData2024 {
            notes_speaker_auto: (sa / (n as u64)) as u32,
            notes_speaker_teleop: (st / (n as u64)) as u32,
            notes_amp_teleop: (at / (n as u64)) as u32,
            endgame: Endgame::from_rank((er / (n as u64)) as u32),
        }
    }
}

/// The tracked values of one pit observation.
#[derive(Debug, Clone, PartialEq, Eq)]
pub struct PitData2024 {
    pub speaker: bool,
    pub amp: bool,
    pub posible_endgame: Endgame,
    pub drivebase: Drivebase,
    pub can_move_auto: bool,
    pub expected_notes_auto: bool,
}

} // verus!
