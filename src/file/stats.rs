//! The player statistics format: one record per line, fields separated by
//! single spaces.

use vstd::prelude::*;

use crate::errors::{ValidationError, ValidationErrorView};
use crate::text::{
    char_rows, chars_of, latin1, latin1_chars, parse_u16, parse_u32, parse_u8, parse_u8_list, read_u16,
    read_u32, read_u8, read_u8_list, split_chars, split_seq, string_from_chars, u16_or_zero,
    u32_or_zero, u8_or_zero,
};

verus! {

/// A decoded statistics payload: the records that decoded, in file order.
#[derive(Debug)]
pub struct Stats {
    pub entries: Vec<StatsEntry>,
}

/// One player's record.
#[derive(Debug)]
pub struct StatsEntry {
    pub name: String,
    pub team: Team,
    pub grades: PositionGrades,
    pub height: u16,
    pub weight: u16,
    pub shoot: SkillRange,
    pub pass: SkillRange,
    pub dribble: SkillRange,
    pub power: SkillRange,
    pub speed: SkillRange,
    pub quickness: SkillRange,
    pub jump: SkillRange,
    pub stamina: SkillRange,
    pub unknown_1: u8,
    pub unknown_2: u8,
    pub price: u32,
    pub unknown_3: u8,
    pub unknown_4: u8,
    pub unknown_5: u8,
    /// Numbers of unknown purpose, written with commas between them.
    pub unknown_6: Vec<u8>,
    /// The count of `unknown_6` as the record states it.
    pub unknown_6_len: u8,
}

/// The mathematical value of a `StatsEntry`.
pub struct StatsEntryView {
    pub name: Seq<char>,
    pub team: Team,
    pub grades: PositionGrades,
    pub height: u16,
    pub weight: u16,
    pub shoot: SkillRange,
    pub pass: SkillRange,
    pub dribble: SkillRange,
    pub power: SkillRange,
    pub speed: SkillRange,
    pub quickness: SkillRange,
    pub jump: SkillRange,
    pub stamina: SkillRange,
    pub unknown_1: u8,
    pub unknown_2: u8,
    pub price: u32,
    pub unknown_3: u8,
    pub unknown_4: u8,
    pub unknown_5: u8,
    pub unknown_6: Seq<u8>,
    pub unknown_6_len: u8,
}

impl View for StatsEntry {
    type V = StatsEntryView;

    open spec fn view(&self) -> StatsEntryView {
        StatsEntryView {
            name: self.name@,
            team: self.team,
            grades: self.grades,
            height: self.height,
            weight: self.weight,
            shoot: self.shoot,
            pass: self.pass,
            dribble: self.dribble,
            power: self.power,
            speed: self.speed,
            quickness: self.quickness,
            jump: self.jump,
            stamina: self.stamina,
            unknown_1: self.unknown_1,
            unknown_2: self.unknown_2,
            price: self.price,
            unknown_3: self.unknown_3,
            unknown_4: self.unknown_4,
            unknown_5: self.unknown_5,
            unknown_6: self.unknown_6@,
            unknown_6_len: self.unknown_6_len,
        }
    }
}

impl View for Stats {
    type V = Seq<StatsEntryView>;

    open spec fn view(&self) -> Seq<StatsEntryView> {
        self.entries@.map_values(|e: StatsEntry| e@)
    }
}

/// A skill's range, written `a-b` (or `a` alone, for both).
#[derive(Clone, Copy, Debug, PartialEq, Eq, Structural, Default)]
pub struct SkillRange {
    pub initial_value: u8,
    pub max_value: u8,
}

/// A player's grade at each of the five positions, written `a-b-c-d-e`.
#[derive(Clone, Copy, Debug, PartialEq, Eq, Structural, Default)]
pub struct PositionGrades {
    pub point_guard: u8,
    pub shooting_guard: u8,
    pub small_forward: u8,
    pub power_forward: u8,
    pub center: u8,
}

/// The teams, by their numeric id.
#[derive(Clone, Copy, Debug, PartialEq, Eq, Structural, Default)]
pub enum Team {
    Gerbils,
    Dwolf,
    Roosters,
    Puppies,
    Durock,
    Lambs,
    Trotters,
    Linx,
    Apes,
    Boas,
    CattlesMutilates,
    BSKTiamats,
    #[default]
    FreeAgent,
    Shadow,
}

/// The team with id `id`, if there is one.
pub open spec fn team_of_id(id: u8) -> Option<Team> {
    match id {
        0 => Some(Team::Gerbils),
        1 => Some(Team::Dwolf),
        2 => Some(Team::Roosters),
        3 => Some(Team::Puppies),
        4 => Some(Team::Durock),
        5 => Some(Team::Lambs),
        6 => Some(Team::Trotters),
        7 => Some(Team::Linx),
        8 => Some(Team::Apes),
        9 => Some(Team::Boas),
        10 => Some(Team::CattlesMutilates),
        11 => Some(Team::BSKTiamats),
        12 => Some(Team::FreeAgent),
        13 => Some(Team::Shadow),
        _ => None,
    }
}

impl Team {
    /// The team with id `id`; an id past the last team is out of range.
    pub fn from_id(id: u8) -> (r: Result<Self, ValidationError>)
        ensures
            match team_of_id(id) {
                Some(t) => r == Ok::<Team, ValidationError>(t),
                None => r matches Err(e) && e@ == ValidationErrorView::OutOfRange("team"@, id),
            },
    {
        match id {
            0 => Ok(Team::Gerbils),
            1 => Ok(Team::Dwolf),
            2 => Ok(Team::Roosters),
            3 => Ok(Team::Puppies),
            4 => Ok(Team::Durock),
            5 => Ok(Team::Lambs),
            6 => Ok(Team::Trotters),
            7 => Ok(Team::Linx),
            8 => Ok(Team::Apes),
            9 => Ok(Team::Boas),
            10 => Ok(Team::CattlesMutilates),
            11 => Ok(Team::BSKTiamats),
            12 => Ok(Team::FreeAgent),
            13 => Ok(Team::Shadow),
            _ => Err(ValidationError::OutOfRange(String::from_str("team"), id)),
        }
    }
}

/// A skill range: one or two decimal bytes with `-` between them. The first
/// is the maximum, the last the initial value.
pub open spec fn skill_range_of(s: Seq<char>) -> Result<SkillRange, ValidationErrorView> {
    match parse_u8_list(s, '-') {
        None => Err(ValidationErrorView::ParseFailure),
        Some(l) => if l.len() > 2 || l.len() == 0 {
            Err(ValidationErrorView::IncorrectFormat("skill range"@))
        } else {
            Ok(SkillRange { initial_value: l[l.len() - 1], max_value: l[0] })
        },
    }
}

/// Position grades: exactly five decimal bytes with `-` between them.
pub open spec fn grades_of(s: Seq<char>) -> Result<PositionGrades, ValidationErrorView> {
    match parse_u8_list(s, '-') {
        None => Err(ValidationErrorView::ParseFailure),
        Some(l) => if l.len() != 5 {
            Err(ValidationErrorView::IncorrectFormat("position grades"@))
        } else {
            Ok(
                PositionGrades {
                    point_guard: l[0],
                    shooting_guard: l[1],
                    small_forward: l[2],
                    power_forward: l[3],
                    center: l[4],
                },
            )
        },
    }
}

/// The first of the eight skill fields from index `k` on that does not
/// decode, as its error.
pub open spec fn skill_error_from(f: Seq<Seq<char>>, k: int) -> Option<ValidationErrorView>
    decreases 13 - k,
{
    if k >= 13 {
        None
    } else {
        match skill_range_of(f[k]) {
            Err(e) => Some(e),
            Ok(_) => skill_error_from(f, k + 1),
        }
    }
}

pub open spec fn skill_or_zero(s: Seq<char>) -> SkillRange {
    match skill_range_of(s) {
        Ok(v) => v,
        Err(_) => SkillRange { initial_value: 0, max_value: 0 },
    }
}

/// The number of space-separated fields that a record must have.
pub const STATS_FIELDS: usize = 21;

/// The first error of a record's fields, taken in field order: name, team,
/// position grades, height, weight, the eight skills, two bytes, price, three
/// bytes, the comma list second to last, and its count at index 20.
pub open spec fn stats_fields_error(f: Seq<Seq<char>>) -> Option<ValidationErrorView> {
    if f.len() < STATS_FIELDS {
        Some(ValidationErrorView::ParseFailure)
    } else if parse_u8(f[1]) is None {
        Some(ValidationErrorView::ParseFailure)
    } else if team_of_id(u8_or_zero(f[1])) is None {
        Some(ValidationErrorView::OutOfRange("team"@, u8_or_zero(f[1])))
    } else if grades_of(f[2]) is Err {
        match grades_of(f[2]) {
            Err(e) => Some(e),
            Ok(_) => None,
        }
    } else if parse_u16(f[3]) is None || parse_u16(f[4]) is None {
        Some(ValidationErrorView::ParseFailure)
    } else if skill_error_from(f, 5) is Some {
        skill_error_from(f, 5)
    } else if parse_u8(f[13]) is None || parse_u8(f[14]) is None || parse_u32(f[15]) is None
        || parse_u8(f[16]) is None || parse_u8(f[17]) is None || parse_u8(f[18]) is None
        || parse_u8_list(f[f.len() - 2], ',') is None || parse_u8(f[20]) is None {
        Some(ValidationErrorView::ParseFailure)
    } else {
        None
    }
}

/// The record that fields `f` hold, where `stats_fields_error(f)` is `None`.
pub open spec fn stats_fields_value(f: Seq<Seq<char>>) -> StatsEntryView {
    StatsEntryView {
        name: f[0],
        team: match team_of_id(u8_or_zero(f[1])) {
            Some(t) => t,
            None => Team::FreeAgent,
        },
        grades: match grades_of(f[2]) {
            Ok(g) => g,
            Err(_) => PositionGrades {
                point_guard: 0,
                shooting_guard: 0,
                small_forward: 0,
                power_forward: 0,
                center: 0,
            },
        },
        height: u16_or_zero(f[3]),
        weight: u16_or_zero(f[4]),
        shoot: skill_or_zero(f[5]),
        pass: skill_or_zero(f[6]),
        dribble: skill_or_zero(f[7]),
        power: skill_or_zero(f[8]),
        speed: skill_or_zero(f[9]),
        quickness: skill_or_zero(f[10]),
        jump: skill_or_zero(f[11]),
        stamina: skill_or_zero(f[12]),
        unknown_1: u8_or_zero(f[13]),
        unknown_2: u8_or_zero(f[14]),
        price: u32_or_zero(f[15]),
        unknown_3: u8_or_zero(f[16]),
        unknown_4: u8_or_zero(f[17]),
        unknown_5: u8_or_zero(f[18]),
        unknown_6: match parse_u8_list(f[f.len() - 2], ',') {
            Some(l) => l,
            None => Seq::empty(),
        },
        unknown_6_len: u8_or_zero(f[20]),
    }
}

/// A record, from its characters.
pub open spec fn parse_stats_entry(rec: Seq<char>) -> Result<StatsEntryView, ValidationErrorView> {
    let f = split_seq(rec, ' ');
    match stats_fields_error(f) {
        Some(e) => Err(e),
        None => Ok(stats_fields_value(f)),
    }
}

/// The records of a payload: its bytes as characters, split at every
/// newline, the piece after the last newline included.
pub open spec fn stats_records(data: Seq<u8>) -> Seq<Seq<char>> {
    split_seq(latin1(data), '\n')
}

/// The records among `recs` that decode, decoded, in order.
pub open spec fn decoded_entries(recs: Seq<Seq<char>>) -> Seq<StatsEntryView>
    decreases recs.len(),
{
    if recs.len() == 0 {
        Seq::empty()
    } else {
        let prev = decoded_entries(recs.drop_last());
        match parse_stats_entry(recs.last()) {
            Ok(e) => prev.push(e),
            Err(_) => prev,
        }
    }
}

/// A statistics payload: every record that decodes, in order; the others are
/// dropped.
pub open spec fn parse_stats(data: Seq<u8>) -> Seq<StatsEntryView> {
    decoded_entries(stats_records(data))
}

proof fn lemma_decoded_count_one_bad(recs: Seq<Seq<char>>, k: int)
    requires
        0 <= k,
        k < recs.len() ==> parse_stats_entry(recs[k]) is Err,
        forall|i: int|
            0 <= i < recs.len() && i != k ==> (#[trigger] parse_stats_entry(recs[i])) is Ok,
    ensures
        decoded_entries(recs).len() == recs.len() - (if k < recs.len() {
            1int
        } else {
            0int
        }),
    decreases recs.len(),
{
    if recs.len() > 0 {
        let prev = recs.drop_last();
        assert forall|i: int| 0 <= i < prev.len() && i != k implies (#[trigger] parse_stats_entry(
            prev[i],
        )) is Ok by {
            assert(prev[i] == recs[i]);
        }
        if k < prev.len() {
            assert(prev[k] == recs[k]);
        }
        lemma_decoded_count_one_bad(prev, k);
        assert(recs.last() == recs[recs.len() - 1]);
    }
}

/// When exactly one record of a statistics payload fails to decode, the
/// decoded payload holds one entry fewer than the payload has records.
pub proof fn lemma_one_malformed_record_dropped(data: Seq<u8>, k: int)
    requires
        0 <= k < stats_records(data).len(),
        parse_stats_entry(stats_records(data)[k]) is Err,
        forall|i: int|
            0 <= i < stats_records(data).len() && i != k ==> (#[trigger] parse_stats_entry(
                stats_records(data)[i],
            )) is Ok,
    ensures
        parse_stats(data).len() == stats_records(data).len() - 1,
{
    lemma_decoded_count_one_bad(stats_records(data), k);
}

/// A payload ending in a newline whose lines all decode but one holds one
/// entry fewer than it has lines (the lines being the records before the
/// final newline).
pub proof fn lemma_one_malformed_line_dropped(data: Seq<u8>, k: int)
    requires
        data.len() > 0,
        data.last() == 0x0A,
        0 <= k < stats_records(data).len() - 1,
        parse_stats_entry(stats_records(data)[k]) is Err,
        forall|i: int|
            0 <= i < stats_records(data).len() - 1 && i != k ==> (#[trigger] parse_stats_entry(
                stats_records(data)[i],
            )) is Ok,
    ensures
        parse_stats(data).len() == (stats_records(data).len() - 1) - 1,
{
    let t = latin1(data);
    let recs = stats_records(data);
    assert(t.last() == '\n');
    assert(recs == split_seq(t.drop_last(), '\n').push(Seq::empty()));
    assert(recs.last() == Seq::<char>::empty());
    assert(split_seq(Seq::<char>::empty(), ' ').len() == 1);
    assert(parse_stats_entry(recs.last()) is Err);
    let lines = recs.drop_last();
    assert forall|i: int| 0 <= i < lines.len() && i != k implies (#[trigger] parse_stats_entry(
        lines[i],
    )) is Ok by {
        assert(lines[i] == recs[i]);
    }
    assert(lines[k] == recs[k]);
    lemma_decoded_count_one_bad(lines, k);
}

impl Stats {
    /// Decodes a statistics payload, skipping the records that do not decode.
    pub fn from_data(data: &[u8]) -> (r: Self)
        ensures
            r@ == parse_stats(data@),
    {
        let chars = latin1_chars(data);
        let records = split_chars(chars.as_slice(), '\n');
        let ghost recs = char_rows(records@);
        let mut entries: Vec<StatsEntry> = Vec::new();
        let mut i: usize = 0;
        while i < records.len()
            invariant
                i <= records.len(),
                recs == char_rows(records@),
                recs == stats_records(data@),
                entries@.map_values(|e: StatsEntry| e@) == decoded_entries(
                    recs.subrange(0, i as int),
                ),
            decreases records.len() - i,
        {
            let ghost before = entries@.map_values(|e: StatsEntry| e@);
            proof {
                let t = recs.subrange(0, i as int + 1);
                assert(t.drop_last() == recs.subrange(0, i as int));
                assert(t.last() == records@[i as int]@);
            }
            match StatsEntry::from_chars(records[i].as_slice()) {
                Ok(entry) => {
                    let ghost v = entry@;
                    entries.push(entry);
                    assert(entries@.map_values(|e: StatsEntry| e@) =~= before.push(v));
                },
                Err(_) => {},
            }
            i += 1;
        }
        assert(recs.subrange(0, recs.len() as int) == recs);
        Stats { entries }
    }
}

impl SkillRange {
    /// Reads a skill range.
    pub fn from_chars(s: &[char]) -> (r: Result<Self, ValidationError>)
        ensures
            match skill_range_of(s@) {
                Ok(v) => r == Ok::<SkillRange, ValidationError>(v),
                Err(e) => r matches Err(x) && x@ == e,
            },
    {
        match read_u8_list(s, '-') {
            None => Err(ValidationError::ParseFailure),
            Some(range) => {
                if range.len() > 2 || range.len() == 0 {
                    Err(ValidationError::IncorrectFormat(String::from_str("skill range")))
                } else {
                    Ok(SkillRange { initial_value: range[range.len() - 1], max_value: range[0] })
                }
            },
        }
    }
}

impl core::str::FromStr for SkillRange {
    type Err = ValidationError;

    /// Reads a skill range.
    fn from_str(s: &str) -> (r: Result<Self, ValidationError>)
        ensures
            match skill_range_of(s@) {
                Ok(v) => r == Ok::<SkillRange, ValidationError>(v),
                Err(e) => r matches Err(x) && x@ == e,
            },
    {
        let chars = chars_of(s);
        SkillRange::from_chars(chars.as_slice())
    }
}

impl core::str::FromStr for PositionGrades {
    type Err = ValidationError;

    /// Reads the five position grades.
    fn from_str(s: &str) -> (r: Result<Self, ValidationError>)
        ensures
            match grades_of(s@) {
                Ok(v) => r == Ok::<PositionGrades, ValidationError>(v),
                Err(e) => r matches Err(x) && x@ == e,
            },
    {
        let chars = chars_of(s);
        PositionGrades::from_chars(chars.as_slice())
    }
}

impl PositionGrades {
    /// Reads the five position grades.
    pub fn from_chars(s: &[char]) -> (r: Result<Self, ValidationError>)
        ensures
            match grades_of(s@) {
                Ok(v) => r == Ok::<PositionGrades, ValidationError>(v),
                Err(e) => r matches Err(x) && x@ == e,
            },
    {
        match read_u8_list(s, '-') {
            None => Err(ValidationError::ParseFailure),
            Some(grades) => {
                if grades.len() != 5 {
                    Err(ValidationError::IncorrectFormat(String::from_str("position grades")))
                } else {
                    Ok(
                        PositionGrades {
                            point_guard: grades[0],
                            shooting_guard: grades[1],
                            small_forward: grades[2],
                            power_forward: grades[3],
                            center: grades[4],
                        },
                    )
                }
            },
        }
    }
}

impl StatsEntry {
    /// Decodes one record from its bytes, each byte one character.
    pub fn from_data(data: &Vec<u8>) -> (r: Result<Self, ValidationError>)
        ensures
            match parse_stats_entry(latin1(data@)) {
                Ok(v) => r matches Ok(e) && e@ == v,
                Err(v) => r matches Err(e) && e@ == v,
            },
    {
        let chars = latin1_chars(data.as_slice());
        Self::from_chars(chars.as_slice())
    }

    /// Decodes one record from its characters.
    pub fn from_chars(rec: &[char]) -> (r: Result<Self, ValidationError>)
        ensures
            match parse_stats_entry(rec@) {
                Ok(v) => r matches Ok(e) && e@ == v,
                Err(v) => r matches Err(e) && e@ == v,
            },
    {
        let f = split_chars(rec, ' ');
        let ghost fs = char_rows(f@);
        assert(fs == split_seq(rec@, ' '));
        if f.len() < STATS_FIELDS {
            return Err(ValidationError::ParseFailure);
        }
        assert(forall|k: int| 0 <= k < f.len() ==> fs[k] == (#[trigger] f@[k])@);
        let team_id = match read_u8(f[1].as_slice()) {
            Some(v) => v,
            None => {
                return Err(ValidationError::ParseFailure);
            },
        };
        let team = match Team::from_id(team_id) {
            Ok(t) => t,
            Err(e) => {
                return Err(e);
            },
        };
        let grades = match PositionGrades::from_chars(f[2].as_slice()) {
            Ok(g) => g,
            Err(e) => {
                return Err(e);
            },
        };
        let height = match read_u16(f[3].as_slice()) {
            Some(v) => v,
            None => {
                return Err(ValidationError::ParseFailure);
            },
        };
        let weight = match read_u16(f[4].as_slice()) {
            Some(v) => v,
            None => {
                return Err(ValidationError::ParseFailure);
            },
        };
        let mut skills: Vec<SkillRange> = Vec::new();
        let mut k: usize = 5;
        while k < 13
            invariant
                5 <= k <= 13,
                f.len() >= STATS_FIELDS,
                fs == char_rows(f@),
                fs == split_seq(rec@, ' '),
                parse_u8(fs[1]) is Some,
                team_of_id(u8_or_zero(fs[1])) is Some,
                grades_of(fs[2]) is Ok,
                parse_u16(fs[3]) is Some,
                parse_u16(fs[4]) is Some,
                skills.len() == k - 5,
                forall|j: int| 0 <= j < skills.len() ==> skills@[j] == skill_or_zero(fs[j + 5]),
                skill_error_from(fs, 5) == skill_error_from(fs, k as int),
            decreases 13 - k,
        {
            assert(fs[k as int] == f@[k as int]@);
            match SkillRange::from_chars(f[k].as_slice()) {
                Ok(v) => {
                    skills.push(v);
                },
                Err(e) => {
                    return Err(e);
                },
            }
            k += 1;
        }
        let unknown_1 = match read_u8(f[13].as_slice()) {
            Some(v) => v,
            None => {
                return Err(ValidationError::ParseFailure);
            },
        };
        let unknown_2 = match read_u8(f[14].as_slice()) {
            Some(v) => v,
            None => {
                return Err(ValidationError::ParseFailure);
            },
        };
        let price = match read_u32(f[15].as_slice()) {
            Some(v) => v,
            None => {
                return Err(ValidationError::ParseFailure);
            },
        };
        let unknown_3 = match read_u8(f[16].as_slice()) {
            Some(v) => v,
            None => {
                return Err(ValidationError::ParseFailure);
            },
        };
        let unknown_4 = match read_u8(f[17].as_slice()) {
            Some(v) => v,
            None => {
                return Err(ValidationError::ParseFailure);
            },
        };
        let unknown_5 = match read_u8(f[18].as_slice()) {
            Some(v) => v,
            None => {
                return Err(ValidationError::ParseFailure);
            },
        };
        let unknown_6 = match read_u8_list(f[f.len() - 2].as_slice(), ',') {
            Some(v) => v,
            None => {
                return Err(ValidationError::ParseFailure);
            },
        };
        let unknown_6_len = match read_u8(f[20].as_slice()) {
            Some(v) => v,
            None => {
                return Err(ValidationError::ParseFailure);
            },
        };
        let name = string_from_chars(f[0].as_slice());
        let entry = StatsEntry {
            name,
            team,
            grades,
            height,
            weight,
            shoot: skills[0],
            pass: skills[1],
            dribble: skills[2],
            power: skills[3],
            speed: skills[4],
            quickness: skills[5],
            jump: skills[6],
            stamina: skills[7],
            unknown_1,
            unknown_2,
            price,
            unknown_3,
            unknown_4,
            unknown_5,
            unknown_6,
            unknown_6_len,
        };
        assert(entry@ == stats_fields_value(fs));
        Ok(entry)
    }
}

} // verus!
