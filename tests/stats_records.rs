use baskelian_toolbox::errors::ValidationError;
use baskelian_toolbox::file::stats::{PositionGrades, SkillRange, Stats, StatsEntry, Team};

const JORDAN: &str = "Jordan 2 10-20-30-40-50 198 90 10-20 30-40 50 60-70 80-90 15-25 35-45 55-65 1 2 1500 3 4 5 5,6,7 3";

fn chars(s: &str) -> Vec<char> {
    s.chars().collect()
}

#[test]
fn stats_line_fields() {
    let data = format!("{}\n", JORDAN).into_bytes();
    let stats = Stats::from_data(&data);
    assert_eq!(stats.entries.len(), 1);
    let e = &stats.entries[0];
    assert_eq!(e.name, "Jordan");
    assert_eq!(e.team, Team::Roosters);
    assert_eq!(
        e.grades,
        PositionGrades {
            point_guard: 10,
            shooting_guard: 20,
            small_forward: 30,
            power_forward: 40,
            center: 50
        }
    );
    assert_eq!(e.height, 198);
    assert_eq!(e.weight, 90);
    assert_eq!(e.shoot, SkillRange { initial_value: 20, max_value: 10 });
    assert_eq!(e.dribble, SkillRange { initial_value: 50, max_value: 50 });
    assert_eq!(e.stamina, SkillRange { initial_value: 65, max_value: 55 });
    assert_eq!(e.unknown_1, 1);
    assert_eq!(e.unknown_2, 2);
    assert_eq!(e.price, 1500);
    assert_eq!(e.unknown_3, 3);
    assert_eq!(e.unknown_4, 4);
    assert_eq!(e.unknown_5, 5);
    assert_eq!(e.unknown_6, vec![5, 6, 7]);
    assert_eq!(e.unknown_6_len, 3);
}

#[test]
fn stats_entry_from_bytes() {
    let e = StatsEntry::from_data(&JORDAN.as_bytes().to_vec()).unwrap();
    assert_eq!(e.name, "Jordan");
    assert_eq!(e.unknown_6, vec![5, 6, 7]);
}

#[test]
fn malformed_skill_range_drops_one_record() {
    let bad = JORDAN.replace(" 30-40 50 ", " 30-40-45 50 ");
    let data = format!("{JORDAN}\n{JORDAN}\n{bad}\n{JORDAN}\n").into_bytes();
    let stats = Stats::from_data(&data);
    assert_eq!(stats.entries.len(), 3);
    let data = format!("{JORDAN}\n{bad}\n{JORDAN}").into_bytes();
    assert_eq!(Stats::from_data(&data).entries.len(), 2);
}

#[test]
fn record_after_last_newline_is_read() {
    let data = format!("{JORDAN}\n{}", JORDAN.replace("Jordan", "Pippen")).into_bytes();
    let stats = Stats::from_data(&data);
    assert_eq!(stats.entries.len(), 2);
    assert_eq!(stats.entries[1].name, "Pippen");
}

#[test]
fn empty_stats_payload() {
    assert_eq!(Stats::from_data(&[]).entries.len(), 0);
    assert_eq!(Stats::from_data(b"\n\n").entries.len(), 0);
}

#[test]
fn latin1_name_bytes() {
    let mut data = JORDAN.as_bytes().to_vec();
    data[0] = 0xC9;
    let e = StatsEntry::from_data(&data).unwrap();
    assert_eq!(e.name, "\u{c9}ordan");
}

#[test]
fn skill_range_errors() {
    assert!(matches!(
        SkillRange::from_chars(&chars("1-2-3")),
        Err(ValidationError::IncorrectFormat(f)) if f == "skill range"
    ));
    assert!(matches!(SkillRange::from_chars(&chars("1-x")), Err(ValidationError::ParseFailure)));
    assert!(matches!(SkillRange::from_chars(&chars("")), Err(ValidationError::ParseFailure)));
    assert!(matches!(SkillRange::from_chars(&chars("256")), Err(ValidationError::ParseFailure)));
    assert_eq!(
        SkillRange::from_chars(&chars("7")).unwrap(),
        SkillRange { initial_value: 7, max_value: 7 }
    );
    assert_eq!(
        SkillRange::from_chars(&chars("+3-9")).unwrap(),
        SkillRange { initial_value: 9, max_value: 3 }
    );
}

#[test]
fn position_grades_errors() {
    assert!(matches!(
        PositionGrades::from_chars(&chars("1-2-3-4")),
        Err(ValidationError::IncorrectFormat(f)) if f == "position grades"
    ));
    assert!(matches!(
        PositionGrades::from_chars(&chars("1-2-3-4-x")),
        Err(ValidationError::ParseFailure)
    ));
}

#[test]
fn team_ids() {
    assert_eq!(Team::from_id(0).unwrap(), Team::Gerbils);
    assert_eq!(Team::from_id(12).unwrap(), Team::FreeAgent);
    assert_eq!(Team::from_id(13).unwrap(), Team::Shadow);
    assert!(matches!(
        Team::from_id(14),
        Err(ValidationError::OutOfRange(f, 14)) if f == "team"
    ));
}

#[test]
fn entry_errors_in_field_order() {
    let out_of_range = JORDAN.replace("Jordan 2 ", "Jordan 20 ");
    assert!(matches!(
        StatsEntry::from_chars(&chars(&out_of_range)),
        Err(ValidationError::OutOfRange(f, 20)) if f == "team"
    ));
    let grades = JORDAN.replace("10-20-30-40-50", "10-20");
    assert!(matches!(
        StatsEntry::from_chars(&chars(&grades)),
        Err(ValidationError::IncorrectFormat(f)) if f == "position grades"
    ));
    let height = JORDAN.replace(" 198 ", " tall ");
    assert!(matches!(StatsEntry::from_chars(&chars(&height)), Err(ValidationError::ParseFailure)));
    let short = "Jordan 2 10-20-30-40-50 198";
    assert!(matches!(StatsEntry::from_chars(&chars(short)), Err(ValidationError::ParseFailure)));
    let list = JORDAN.replace("5,6,7", "5,,7");
    assert!(matches!(StatsEntry::from_chars(&chars(&list)), Err(ValidationError::ParseFailure)));
}

#[test]
fn skill_range_and_grades_from_str() {
    assert_eq!(
        "42".parse::<SkillRange>().unwrap(),
        SkillRange { initial_value: 42, max_value: 42 }
    );
    assert_eq!(
        "10-20".parse::<SkillRange>().unwrap(),
        SkillRange { initial_value: 20, max_value: 10 }
    );
    assert!(matches!(
        "1-2-3".parse::<SkillRange>(),
        Err(ValidationError::IncorrectFormat(f)) if f == "skill range"
    ));
    assert!(matches!("".parse::<SkillRange>(), Err(ValidationError::ParseFailure)));
    assert_eq!(
        "1-2-3-4-5".parse::<PositionGrades>().unwrap(),
        PositionGrades {
            point_guard: 1,
            shooting_guard: 2,
            small_forward: 3,
            power_forward: 4,
            center: 5
        }
    );
    assert!(matches!(
        "1-2-3-4-5-6".parse::<PositionGrades>(),
        Err(ValidationError::IncorrectFormat(f)) if f == "position grades"
    ));
}
