//! The schedule feed's match records: the raw wire shape, and the verified
//! conversion into the library's match data.

use vstd::prelude::*;
use vstd::string::StrSliceExecFns;
use vstd::string::StringExecFns;

use crate::data::Allience;
use crate::data::Complevel;
use crate::data::MatchNumber;
use crate::numerals::digit_seq;
use crate::numerals::digits_val;
use crate::numerals::is_digit_char;
use crate::numerals::lemma_digit_seq_prefix_le;

verus! {

broadcast use vstd::array::group_array_axioms;

/// The point categories the feed reports for one alliance in one match.
#[allow(non_snake_case)]
#[derive(Debug, Clone, Copy, PartialEq, Eq, Structural)]
pub struct TbaScoreBreakdown {
    pub autoPoints: u32,
    pub teleopPoints: u32,
    pub adjustPoints: u32,
    pub foulPoints: u32,
}

/// One match of an event's schedule, in the library's terms.  An
/// `actual_time` of zero means the feed has recorded no actual start yet;
/// the times are seconds of the Unix epoch.
#[derive(Debug, Clone, Copy, PartialEq, Eq)]
pub struct TbaMatchData {
    pub match_number: MatchNumber,
    pub winning_allience: Option<Allience>,
    pub red_allience: [u32; 3],
    pub blue_allience: [u32; 3],
    pub red_score: u32,
    pub blue_score: u32,
    pub red_score_breakdown: TbaScoreBreakdown,
    pub blue_score_breakdown: TbaScoreBreakdown,
    pub time: u64,
    pub actual_time: u64,
    pub predicted_time: u64,
}

/// One alliance of a raw feed record: its score and its team keys, each
/// key a team number wrapped in letters.
#[derive(Debug, Clone, PartialEq, Eq)]
pub struct TbaSerdeAllience {
    pub score: u32,
    pub team_keys: Vec<String>,
}

/// The two alliances of a raw feed record.
#[derive(Debug, Clone, PartialEq, Eq)]
pub struct TbaSerdeAlliences {
    pub red: TbaSerdeAllience,
    pub blue: TbaSerdeAllience,
}

/// The two score breakdowns of a raw feed record.
#[derive(Debug, Clone, Copy, PartialEq, Eq, Structural)]
pub struct TbaSerdeScoreBreakdowns {
    pub red: TbaScoreBreakdown,
    pub blue: TbaScoreBreakdown,
}

/// A raw match record as the schedule feed serves it.
#[derive(Debug, Clone, PartialEq, Eq)]
pub struct TbaSerdeMatchBreakDown {
    pub match_number: u32,
    pub comp_level: String,
    pub alliances: TbaSerdeAlliences,
    pub winning_alliance: String,
    pub score_breakdown: TbaSerdeScoreBreakdowns,
    pub time: u64,
    pub actual_time: u64,
    pub predicted_time: u64,
}

/// Why a raw feed record cannot be converted.
#[derive(Debug, Clone, Copy, PartialEq, Eq, Structural)]
pub enum TbaConversionError {
    /// The record's level-of-play code is none of the four known ones.
    UnknownCompLevel,
    /// A team key of the record holds no usable team number.
    BadTeamKey,
}

/// The team number embedded in a team key: the ASCII digits of the key
/// read as one decimal number.  A key without digits, or whose digits
/// exceed the number range, has no team number.
pub open spec fn spec_team_num(s: Seq<char>) -> Option<u32> {
    if digit_seq(s).len() == 0 {
        None
    } else if digits_val(digit_seq(s)) > 0xFFFF_FFFF {
        None
    } else {
        Some(digits_val(digit_seq(s)) as u32)
    }
}

/// Reads the team number out of a team key such as the feed's
/// letter-prefixed team identifiers.
pub fn team_num_from_key(key: &String) -> (r: Option<u32>)
    ensures
        r == spec_team_num(key@),
{
    let st = key.as_str();
    let len = st.unicode_len();
    let mut i: usize = 0;
    let mut val: u64 = 0;
    let mut saw: bool = false;
    while i < len
        invariant
            i <= len,
            len == key@.len(),
            st@ == key@,
            val == digits_val(digit_seq(key@.take(i as int))),
            saw <==> digit_seq(key@.take(i as int)).len() > 0,
            val <= 0xFFFF_FFFF,
        decreases len - i,
    {
        let c = st.get_char(i);
        proof {
            assert(key@.take(i + 1).drop_last() =~= key@.take(i as int));
            assert(key@.take(i + 1).last() == key@[i as int]);
        }
        let cv = c as u32;
        if 48 <= cv && cv <= 57 {
            let d = (cv - 48) as u64;
            proof {
                assert(digit_seq(key@.take(i + 1)) == digit_seq(key@.take(i as int)).push(c));
                assert(digit_seq(key@.take(i + 1)).drop_last() =~= digit_seq(
                    key@.take(i as int),
                ));
            }
            val = val * 10 + d;
            saw = true;
            if val > 0xFFFF_FFFF {
                proof {
                    lemma_digit_seq_prefix_le(key@, i + 1);
                }
                return None;
            }
        } else {
            proof {
                assert(digit_seq(key@.take(i + 1)) == digit_seq(key@.take(i as int)));
            }
        }
        i = i + 1;
    }
    proof {
        assert(key@.take(len as int) =~= key@);
    }
    if saw {
        Some(val as u32)
    } else {
        None
    }
}

impl TbaSerdeAllience {
    /// Whether each of the up-to-three team keys the conversion reads
    /// holds a team number.
    pub open spec fn spec_keys_ok(self) -> bool {
        forall|t: int|
            0 <= t < 3 && t < self.team_keys@.len() ==> spec_team_num(
                #[trigger] self.team_keys@[t]@,
            ) is Some
    }

    /// The three team numbers of this alliance, a missing key reading as
    /// team zero.
    pub open spec fn spec_team_nums(self) -> Seq<u32> {
        Seq::new(
            3,
            |t: int|
                if t < self.team_keys@.len() && spec_team_num(self.team_keys@[t]@) is Some {
                    spec_team_num(self.team_keys@[t]@).unwrap()
                } else {
                    0u32
                },
        )
    }

    /// Whether each of the up-to-three team keys the conversion reads
    /// holds a team number.
    pub fn keys_ok(&self) -> (b: bool)
        ensures
            b == self.spec_keys_ok(),
    {
        let n = self.team_keys.len();
        let k0 = if n > 0 {
            team_num_from_key(&self.team_keys[0]).is_some()
        } else {
            true
        };
        let k1 = if n > 1 {
            team_num_from_key(&self.team_keys[1]).is_some()
        } else {
            true
        };
        let k2 = if n > 2 {
            team_num_from_key(&self.team_keys[2]).is_some()
        } else {
            true
        };
        k0 && k1 && k2
    }

    /// The three team numbers of this alliance, read out of the team keys;
    /// an alliance listed with fewer than three keys reads as team zero in
    /// the remaining places.
    pub fn get_team_nums(&self) -> (r: [u32; 3])
        requires
            self.spec_keys_ok(),
        ensures
            r@ == self.spec_team_nums(),
    {
        let n = self.team_keys.len();
        let mut numbers: [u32; 3] = [0; 3];
        if n > 0 {
            numbers[0] = team_num_from_key(&self.team_keys[0]).unwrap();
        }
        if n > 1 {
            numbers[1] = team_num_from_key(&self.team_keys[1]).unwrap();
        }
        if n > 2 {
            numbers[2] = team_num_from_key(&self.team_keys[2]).unwrap();
        }
        proof {
            assert(numbers@ =~= self.spec_team_nums());
        }
        numbers
    }
}

/// The level of play a feed level code names: `p`, `qm`, `sf` or `f`.
pub open spec fn spec_complevel_from_code(s: Seq<char>) -> Option<Complevel> {
    if s == "p"@ {
        Some(Complevel::Practice)
    } else if s == "qm"@ {
        Some(Complevel::Qualifier)
    } else if s == "sf"@ {
        Some(Complevel::Semifinal)
    } else if s == "f"@ {
        Some(Complevel::Final)
    } else {
        None
    }
}

/// Reads a feed level code.
pub fn complevel_from_code(code: &String) -> (r: Option<Complevel>)
    ensures
        r == spec_complevel_from_code(code@),
{
    proof {
        reveal_strlit("p");
        reveal_strlit("qm");
        reveal_strlit("sf");
        reveal_strlit("f");
    }
    let p = String::from_str("p");
    let qm = String::from_str("qm");
    let sf = String::from_str("sf");
    let f = String::from_str("f");
    if *code == p {
        Some(Complevel::Practice)
    } else if *code == qm {
        Some(Complevel::Qualifier)
    } else if *code == sf {
        Some(Complevel::Semifinal)
    } else if *code == f {
        Some(Complevel::Final)
    } else {
        None
    }
}

/// The alliance a feed winner code names: `red` or `blue`; any other text,
/// including the empty text of an undecided match, names none.
pub open spec fn spec_allience_from_code(s: Seq<char>) -> Option<Allience> {
    if s == "red"@ {
        Some(Allience::RED)
    } else if s == "blue"@ {
        Some(Allience::BLUE)
    } else {
        None
    }
}

/// Reads a feed winner code.
pub fn allience_from_code(code: &String) -> (r: Option<Allience>)
    ensures
        r == spec_allience_from_code(code@),
{
    proof {
        reveal_strlit("red");
        reveal_strlit("blue");
    }
    let red = String::from_str("red");
    let blue = String::from_str("blue");
    if *code == red {
        Some(Allience::RED)
    } else if *code == blue {
        Some(Allience::BLUE)
    } else {
        None
    }
}

impl TbaSerdeMatchBreakDown {
    /// Whether this raw record converts cleanly: a known level code and
    /// readable team keys on both sides.
    pub open spec fn spec_ok(self) -> bool {
        &&& spec_complevel_from_code(self.comp_level@) is Some
        &&& self.alliances.red.spec_keys_ok()
        &&& self.alliances.blue.spec_keys_ok()
    }

    /// The error a record that does not convert reports: an unknown level
    /// code takes precedence over a bad team key.
    pub open spec fn spec_error(self) -> TbaConversionError {
        if spec_complevel_from_code(self.comp_level@) is None {
            TbaConversionError::UnknownCompLevel
        } else {
            TbaConversionError::BadTeamKey
        }
    }

    /// How the fields of a converted record are determined by the raw one.
    pub open spec fn spec_data_matches(self, m: TbaMatchData) -> bool {
        &&& m.match_number.number == self.match_number
        &&& Some(m.match_number.level) == spec_complevel_from_code(self.comp_level@)
        &&& m.winning_allience == spec_allience_from_code(self.winning_alliance@)
        &&& m.red_allience@ == self.alliances.red.spec_team_nums()
        &&& m.blue_allience@ == self.alliances.blue.spec_team_nums()
        &&& m.red_score == self.alliances.red.score
        &&& m.blue_score == self.alliances.blue.score
        &&& m.red_score_breakdown == self.score_breakdown.red
        &&& m.blue_score_breakdown == self.score_breakdown.blue
        &&& m.time == self.time
        &&& m.actual_time == self.actual_time
        &&& m.predicted_time == self.predicted_time
    }

    /// Converts one raw feed record into the library's match data.
    pub fn to_match_data(&self) -> (r: Result<TbaMatchData, TbaConversionError>)
        ensures
            r is Ok <==> self.spec_ok(),
            r matches Ok(m) ==> self.spec_data_matches(m),
            r matches Err(e) ==> e == self.spec_error(),
    {
        let lv = match complevel_from_code(&self.comp_level) {
            Some(lv) => lv,
            None => {
                return Err(TbaConversionError::UnknownCompLevel);
            },
        };
        if !self.alliances.red.keys_ok() || !self.alliances.blue.keys_ok() {
            return Err(TbaConversionError::BadTeamKey);
        }
        Ok(
            TbaMatchData {
                match_number: MatchNumber { number: self.match_number, level: lv },
                winning_allience: allience_from_code(&self.winning_alliance),
                red_allience: self.alliances.red.get_team_nums(),
                blue_allience: self.alliances.blue.get_team_nums(),
                red_score: self.alliances.red.score,
                blue_score: self.alliances.blue.score,
                red_score_breakdown: self.score_breakdown.red,
                blue_score_breakdown: self.score_breakdown.blue,
                time: self.time,
                actual_time: self.actual_time,
                predicted_time: self.predicted_time,
            },
        )
    }
}

/// Converts a whole raw schedule, stopping at the first record that does
/// not convert, as its error.
pub fn convert_match_list(raw: &Vec<TbaSerdeMatchBreakDown>) -> (r: Result<
    Vec<TbaMatchData>,
    TbaConversionError,
>)
    ensures
        r is Ok <==> (forall|i: int| 0 <= i < raw@.len() ==> (#[trigger] raw@[i]).spec_ok()),
        r matches Ok(v) ==> v@.len() == raw@.len() && (forall|i: int|
            0 <= i < raw@.len() ==> (#[trigger] raw@[i]).spec_data_matches(v@[i])),
        r matches Err(e) ==> (exists|i: int|
            0 <= i < raw@.len() && !(#[trigger] raw@[i]).spec_ok() && e == raw@[i].spec_error()),
{
    let n = raw.len();
    let mut out: Vec<TbaMatchData> = Vec::new();
    let mut i: usize = 0;
    while i < n
        invariant
            i <= n,
            n == raw@.len(),
            out@.len() == i,
            forall|j: int| 0 <= j < i ==> (#[trigger] raw@[j]).spec_ok(),
            forall|j: int| 0 <= j < i ==> (#[trigger] raw@[j]).spec_data_matches(out@[j]),
        decreases n - i,
    {
        match raw[i].to_match_data() {
            Ok(m) => {
                out.push(m);
            },
            Err(e) => {
                return Err(e);
            },
        }
        i = i + 1;
    }
    Ok(out)
}

} // verus!
