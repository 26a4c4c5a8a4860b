//! Match keys, feed-record conversion, averaging, and authorization.

use openscout::data::openscout::auth_satisfies;
use openscout::data::openscout::Auth;
use openscout::data::openscout::AuthLevel;
use openscout::data::season::Endgame;
use openscout::data::season::MatchData2024;
use openscout::data::theblueallience::allience_from_code;
use openscout::data::theblueallience::complevel_from_code;
use openscout::data::theblueallience::convert_match_list;
use openscout::data::theblueallience::team_num_from_key;
use openscout::data::theblueallience::TbaConversionError;
use openscout::data::theblueallience::TbaScoreBreakdown;
use openscout::data::theblueallience::TbaSerdeAllience;
use openscout::data::theblueallience::TbaSerdeAlliences;
use openscout::data::theblueallience::TbaSerdeMatchBreakDown;
use openscout::data::theblueallience::TbaSerdeScoreBreakdowns;
use openscout::data::Allience;
use openscout::data::Complevel;
use openscout::data::DataManager;
use openscout::data::MatchNumber;

#[test]
fn tba_string_per_level() {
    let qm = MatchNumber { number: 12, level: Complevel::Qualifier };
    assert_eq!(qm.get_tba_string().unwrap(), "qm12");
    let sf = MatchNumber { number: 3, level: Complevel::Semifinal };
    assert_eq!(sf.get_tba_string().unwrap(), "sf3m1");
    let f = MatchNumber { number: 2, level: Complevel::Final };
    assert_eq!(f.get_tba_string().unwrap(), "f1m2");
    let p = MatchNumber { number: 1, level: Complevel::Practice };
    assert!(p.get_tba_string().is_err());
}

#[test]
fn tba_string_multi_digit() {
    let qm = MatchNumber { number: 105, level: Complevel::Qualifier };
    assert_eq!(qm.get_tba_string().unwrap(), "qm105");
    let zero = MatchNumber { number: 0, level: Complevel::Qualifier };
    assert_eq!(zero.get_tba_string().unwrap(), "qm0");
}

#[test]
fn team_numbers_are_read_from_keys() {
    assert_eq!(team_num_from_key(&"frc254".to_string()), Some(254));
    assert_eq!(team_num_from_key(&"frc0".to_string()), Some(0));
    assert_eq!(team_num_from_key(&"9999".to_string()), Some(9999));
    assert_eq!(team_num_from_key(&"frc12a4".to_string()), Some(124));
    assert_eq!(team_num_from_key(&"frc".to_string()), None);
    assert_eq!(team_num_from_key(&"".to_string()), None);
    assert_eq!(team_num_from_key(&"frc4294967295".to_string()), Some(4294967295));
    assert_eq!(team_num_from_key(&"frc4294967296".to_string()), None);
}

#[test]
fn level_codes_are_recognised() {
    assert_eq!(complevel_from_code(&"p".to_string()), Some(Complevel::Practice));
    assert_eq!(complevel_from_code(&"qm".to_string()), Some(Complevel::Qualifier));
    assert_eq!(complevel_from_code(&"sf".to_string()), Some(Complevel::Semifinal));
    assert_eq!(complevel_from_code(&"f".to_string()), Some(Complevel::Final));
    assert_eq!(complevel_from_code(&"qf".to_string()), None);
    assert_eq!(complevel_from_code(&"".to_string()), None);
}

#[test]
fn winner_codes_are_recognised() {
    assert_eq!(allience_from_code(&"red".to_string()), Some(Allience::RED));
    assert_eq!(allience_from_code(&"blue".to_string()), Some(Allience::BLUE));
    assert_eq!(allience_from_code(&"".to_string()), None);
    assert_eq!(allience_from_code(&"tie".to_string()), None);
}

fn breakdown(auto: u32) -> TbaScoreBreakdown {
    TbaScoreBreakdown { autoPoints: auto, teleopPoints: 7, adjustPoints: 0, foulPoints: 2 }
}

fn raw_record(number: u32, level: &str, winner: &str) -> TbaSerdeMatchBreakDown {
    TbaSerdeMatchBreakDown {
        match_number: number,
        comp_level: level.to_string(),
        alliances: TbaSerdeAlliences {
            red: TbaSerdeAllience {
                score: 30,
                team_keys: vec!["frc1".to_string(), "frc2".to_string(), "frc3".to_string()],
            },
            blue: TbaSerdeAllience {
                score: 25,
                team_keys: vec!["frc4".to_string(), "frc5".to_string(), "frc6".to_string()],
            },
        },
        winning_alliance: winner.to_string(),
        score_breakdown: TbaSerdeScoreBreakdowns { red: breakdown(10), blue: breakdown(8) },
        time: 100,
        actual_time: 90,
        predicted_time: 95,
    }
}

#[test]
fn raw_record_converts_field_by_field() {
    let raw = raw_record(14, "qm", "red");
    let m = raw.to_match_data().unwrap();
    assert_eq!(m.match_number, MatchNumber { number: 14, level: Complevel::Qualifier });
    assert_eq!(m.winning_allience, Some(Allience::RED));
    assert_eq!(m.red_allience, [1, 2, 3]);
    assert_eq!(m.blue_allience, [4, 5, 6]);
    assert_eq!(m.red_score, 30);
    assert_eq!(m.blue_score, 25);
    assert_eq!(m.red_score_breakdown, breakdown(10));
    assert_eq!(m.blue_score_breakdown, breakdown(8));
    assert_eq!(m.time, 100);
    assert_eq!(m.actual_time, 90);
    assert_eq!(m.predicted_time, 95);
}

#[test]
fn short_alliances_read_as_team_zero() {
    let mut raw = raw_record(1, "f", "");
    raw.alliances.blue.team_keys = vec!["frc77".to_string()];
    let m = raw.to_match_data().unwrap();
    assert_eq!(m.match_number.level, Complevel::Final);
    assert_eq!(m.winning_allience, None);
    assert_eq!(m.blue_allience, [77, 0, 0]);
}

#[test]
fn unknown_level_code_fails_conversion() {
    let raw = raw_record(1, "qf", "red");
    assert_eq!(raw.to_match_data(), Err(TbaConversionError::UnknownCompLevel));
}

#[test]
fn unreadable_team_key_fails_conversion() {
    let mut raw = raw_record(1, "qm", "red");
    raw.alliances.red.team_keys[1] = "frc".to_string();
    assert_eq!(raw.to_match_data(), Err(TbaConversionError::BadTeamKey));
}

#[test]
fn list_conversion_stops_at_first_bad_record() {
    let good = raw_record(1, "qm", "red");
    let bad = raw_record(2, "nope", "blue");
    let out = convert_match_list(&vec![good.clone(), good.clone()]).unwrap();
    assert_eq!(out.len(), 2);
    assert_eq!(out[1].match_number.number, 1);
    let err = convert_match_list(&vec![good, bad]);
    assert_eq!(err.unwrap_err(), TbaConversionError::UnknownCompLevel);
}

#[test]
fn avg_takes_floor_means_per_field() {
    let a = MatchData2024 {
        notes_speaker_auto: 3,
        notes_speaker_teleop: 10,
        notes_amp_teleop: 1,
        endgame: Endgame::ClimbAndTrap,
    };
    let b = MatchData2024 {
        notes_speaker_auto: 4,
        notes_speaker_teleop: 5,
        notes_amp_teleop: 0,
        endgame: Endgame::Park,
    };
    let avg = MatchData2024::avg(vec![a, b]);
    assert_eq!(avg.notes_speaker_auto, 3);
    assert_eq!(avg.notes_speaker_teleop, 7);
    assert_eq!(avg.notes_amp_teleop, 0);
    assert_eq!(avg.endgame, Endgame::Climb);
}

#[test]
fn avg_of_one_record_is_that_record() {
    let a = MatchData2024 {
        notes_speaker_auto: 9,
        notes_speaker_teleop: 2,
        notes_amp_teleop: 5,
        endgame: Endgame::Nothing,
    };
    let avg = MatchData2024::avg(vec![a]);
    assert_eq!(avg, a);
}

#[test]
fn endgame_rank_round_trip() {
    for e in [Endgame::ClimbAndTrap, Endgame::Climb, Endgame::Park, Endgame::Nothing] {
        assert_eq!(Endgame::from_rank(e.rank()), e);
    }
}

#[test]
fn auth_requires_matching_key_and_rank() {
    let stored = Auth { _id: 847, key: "SECRET-REDACTED".to_string(), auth: AuthLevel::TEAM };
    assert!(auth_satisfies(&stored, &"SECRET-REDACTED".to_string(), AuthLevel::TEAM));
    assert!(!auth_satisfies(&stored, &"wrong".to_string(), AuthLevel::TEAM));
    // A TEAM credential passes an ADMIN requirement under the rank order,
    // while an ADMIN credential ranks below a TEAM requirement.
    assert!(auth_satisfies(&stored, &"SECRET-REDACTED".to_string(), AuthLevel::ADMIN));
    let admin = Auth { _id: 1, key: "k".to_string(), auth: AuthLevel::ADMIN };
    assert!(!auth_satisfies(&admin, &"k".to_string(), AuthLevel::TEAM));
    assert_eq!(AuthLevel::ADMIN.index(), 0);
    assert_eq!(AuthLevel::TEAM.index(), 1);
}

#[test]
fn event_key_check_guards_writes() {
    let dm = DataManager::new(vec!["2024aaa".to_string(), "2024bbb".to_string()], true, true);
    assert!(dm.check_event_key(&"2024aaa".to_string()).is_ok());
    assert!(dm.check_event_key(&"2024zzz".to_string()).is_err());
    let unchecked = DataManager::new(vec!["2024aaa".to_string()], true, false);
    assert!(unchecked.check_event_key(&"2024zzz".to_string()).is_ok());
}

#[test]
fn auth_check_honours_the_flag() {
    let dm = DataManager::new(Vec::new(), false, true);
    let stored = Auth { _id: 1, key: "k".to_string(), auth: AuthLevel::TEAM };
    assert!(dm.check_auth(&stored, &"anything".to_string(), AuthLevel::ADMIN));
    let dm2 = DataManager::new(Vec::new(), true, true);
    assert!(!dm2.check_auth(&stored, &"anything".to_string(), AuthLevel::ADMIN));
    assert!(dm2.check_auth(&stored, &"k".to_string(), AuthLevel::ADMIN));
}
