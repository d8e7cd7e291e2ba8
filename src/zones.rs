//! Windows time-zone names and their fixed offsets from UTC. Daylight
//! saving time is not taken into account.
use vstd::prelude::*;
use crate::strings::{push_text, text_eq};

verus! {

/// Each zone's display name and its offset east of UTC, in seconds.
pub open spec fn zone_table() -> Seq<(Seq<char>, int)> {
    seq![
        ("Dateline Standard Time"@, -43200int),
        ("UTC-11"@, -39600int),
        ("Aleutian Standard Time"@, -36000int),
        ("Hawaiian Standard Time"@, -36000int),
        ("Marquesas Standard Time"@, -34200int),
        ("Alaskan Standard Time"@, -32400int),
        ("UTC-09"@, -32400int),
        ("Pacific Standard Time (Mexico)"@, -28800int),
        ("UTC-08"@, -28800int),
        ("Pacific Standard Time"@, -28800int),
        ("US Mountain Standard Time"@, -25200int),
        ("Mountain Standard Time (Mexico)"@, -25200int),
        ("Mountain Standard Time"@, -25200int),
        ("Central America Standard Time"@, -21600int),
        ("Central Standard Time"@, -21600int),
        ("Easter Island Standard Time"@, -21600int),
        ("Central Standard Time (Mexico)"@, -21600int),
        ("Canada Central Standard Time"@, -21600int),
        ("SA Pacific Standard Time"@, -18000int),
        ("Eastern Standard Time (Mexico)"@, -18000int),
        ("Eastern Standard Time"@, -18000int),
        ("Haiti Standard Time"@, -18000int),
        ("Cuba Standard Time"@, -18000int),
        ("US Eastern Standard Time"@, -18000int),
        ("Turks And Caicos Standard Time"@, -18000int),
        ("Paraguay Standard Time"@, -14400int),
        ("Atlantic Standard Time"@, -14400int),
        ("Venezuela Standard Time"@, -14400int),
        ("Central Brazilian Standard Time"@, -14400int),
        ("SA Western Standard Time"@, -14400int),
        ("Pacific SA Standard Time"@, -14400int),
        ("Newfoundland Standard Time"@, -12600int),
        ("Tocantins Standard Time"@, -10800int),
        ("E. South America Standard Time"@, -10800int),
        ("SA Eastern Standard Time"@, -10800int),
        ("Argentina Standard Time"@, -10800int),
        ("Greenland Standard Time"@, -10800int),
        ("Montevideo Standard Time"@, -10800int),
        ("Magallanes Standard Time"@, -10800int),
        ("Saint Pierre Standard Time"@, -10800int),
        ("Bahia Standard Time"@, -10800int),
        ("UTC-02"@, -7200int),
        ("Mid-Atlantic Standard Time"@, -7200int),
        ("Azores Standard Time"@, -3600int),
        ("Cape Verde Standard Time"@, -3600int),
        ("UTC"@, 0int),
        ("GMT Standard Time"@, 0int),
        ("Greenwich Standard Time"@, 0int),
        ("Sao Tome Standard Time"@, 0int),
        ("Morocco Standard Time"@, 0int),
        ("W. Europe Standard Time"@, 3600int),
        ("Central Europe Standard Time"@, 3600int),
        ("Romance Standard Time"@, 3600int),
        ("Central European Standard Time"@, 3600int),
        ("W. Central Africa Standard Time"@, 3600int),
        ("Jordan Standard Time"@, 7200int),
        ("GTB Standard Time"@, 7200int),
        ("Middle East Standard Time"@, 7200int),
        ("Egypt Standard Time"@, 7200int),
        ("E. Europe Standard Time"@, 7200int),
        ("Syria Standard Time"@, 7200int),
        ("West Bank Standard Time"@, 7200int),
        ("South Africa Standard Time"@, 7200int),
        ("FLE Standard Time"@, 7200int),
        ("Israel Standard Time"@, 7200int),
        ("Kaliningrad Standard Time"@, 7200int),
        ("Sudan Standard Time"@, 7200int),
        ("Libya Standard Time"@, 7200int),
        ("Namibia Standard Time"@, 7200int),
        ("Arabic Standard Time"@, 10800int),
        ("Turkey Standard Time"@, 10800int),
        ("Arab Standard Time"@, 10800int),
        ("Belarus Standard Time"@, 10800int),
        ("Russian Standard Time"@, 10800int),
        ("E. Africa Standard Time"@, 10800int),
        ("Iran Standard Time"@, 12600int),
        ("Arabian Standard Time"@, 14400int),
        ("Astrakhan Standard Time"@, 14400int),
        ("Azerbaijan Standard Time"@, 14400int),
        ("Russia Time Zone 3"@, 14400int),
        ("Mauritius Standard Time"@, 14400int),
        ("Saratov Standard Time"@, 14400int),
        ("Georgian Standard Time"@, 14400int),
        ("Volgograd Standard Time"@, 14400int),
        ("Caucasus Standard Time"@, 14400int),
        ("Afghanistan Standard Time"@, 16200int),
        ("West Asia Standard Time"@, 18000int),
        ("Ekaterinburg Standard Time"@, 18000int),
        ("Pakistan Standard Time"@, 18000int),
        ("Qyzylorda Standard Time"@, 18000int),
        ("India Standard Time"@, 19800int),
        ("Sri Lanka Standard Time"@, 19800int),
        ("Nepal Standard Time"@, 20700int),
        ("Central Asia Standard Time"@, 21600int),
        ("Bangladesh Standard Time"@, 21600int),
        ("Omsk Standard Time"@, 21600int),
        ("Myanmar Standard Time"@, 23400int),
        ("SE Asia Standard Time"@, 25200int),
        ("Altai Standard Time"@, 25200int),
        ("W. Mongolia Standard Time"@, 25200int),
        ("North Asia Standard Time"@, 25200int),
        ("N. Central Asia Standard Time"@, 25200int),
        ("Tomsk Standard Time"@, 25200int),
        ("China Standard Time"@, 28800int),
        ("North Asia East Standard Time"@, 28800int),
        ("Singapore Standard Time"@, 28800int),
        ("W. Australia Standard Time"@, 28800int),
        ("Taipei Standard Time"@, 28800int),
        ("Ulaanbaatar Standard Time"@, 28800int),
        ("Aus Central W. Standard Time"@, 31500int),
        ("Transbaikal Standard Time"@, 32400int),
        ("Tokyo Standard Time"@, 32400int),
        ("North Korea Standard Time"@, 32400int),
        ("Korea Standard Time"@, 32400int),
        ("Yakutsk Standard Time"@, 32400int),
        ("Cen. Australia Standard Time"@, 34200int),
        ("AUS Central Standard Time"@, 34200int),
        ("E. Australia Standard Time"@, 36000int),
        ("AUS Eastern Standard Time"@, 36000int),
        ("West Pacific Standard Time"@, 36000int),
        ("Tasmania Standard Time"@, 36000int),
        ("Vladivostok Standard Time"@, 36000int),
        ("Lord Howe Standard Time"@, 37800int),
        ("Bougainville Standard Time"@, 39600int),
        ("Russia Time Zone 10"@, 39600int),
        ("Magadan Standard Time"@, 39600int),
        ("Norfolk Standard Time"@, 39600int),
        ("Sakhalin Standard Time"@, 39600int),
        ("Central Pacific Standard Time"@, 39600int),
        ("Russia Time Zone 11"@, 43200int),
        ("New Zealand Standard Time"@, 43200int),
        ("UTC+12"@, 43200int),
        ("Fiji Standard Time"@, 43200int),
        ("Kamchatka Standard Time"@, 43200int),
        ("Chatham Islands Standard Time"@, 45900int),
        ("UTC+13"@, 46800int),
        ("Tonga Standard Time"@, 46800int),
        ("Samoa Standard Time"@, 46800int),
        ("Line Islands Standard Time"@, 50400int),
    ]
}

/// The offset of the first zone in `t` named `name`.
pub open spec fn offset_in(t: Seq<(Seq<char>, int)>, name: Seq<char>) -> Option<int>
    decreases t.len(),
{
    if t.len() == 0 {
        None
    } else if t[0].0 == name {
        Some(t[0].1)
    } else {
        offset_in(t.drop_first(), name)
    }
}

/// The offset of the zone named `name`, if the table holds it.
pub open spec fn zone_offset(name: Seq<char>) -> Option<int> {
    offset_in(zone_table(), name)
}

/// The message for a zone name that the table lacks.
pub open spec fn unknown_zone_message(name: Seq<char>) -> Seq<char> {
    "Unable to find a time zone named '"@ + name + "'"@
}

fn zones() -> (r: Vec<(&'static str, i32)>)
    ensures
        r@.len() == zone_table().len(),
        forall|i: int| 0 <= i < r@.len() ==> (#[trigger] r@[i]).0@ == zone_table()[i].0 && r@[i].1 as int == zone_table()[i].1,
{
    let r = vec![
        ("Dateline Standard Time", -43200i32),
        ("UTC-11", -39600i32),
        ("Aleutian Standard Time", -36000i32),
        ("Hawaiian Standard Time", -36000i32),
        ("Marquesas Standard Time", -34200i32),
        ("Alaskan Standard Time", -32400i32),
        ("UTC-09", -32400i32),
        ("Pacific Standard Time (Mexico)", -28800i32),
        ("UTC-08", -28800i32),
        ("Pacific Standard Time", -28800i32),
        ("US Mountain Standard Time", -25200i32),
        ("Mountain Standard Time (Mexico)", -25200i32),
        ("Mountain Standard Time", -25200i32),
        ("Central America Standard Time", -21600i32),
        ("Central Standard Time", -21600i32),
        ("Easter Island Standard Time", -21600i32),
        ("Central Standard Time (Mexico)", -21600i32),
        ("Canada Central Standard Time", -21600i32),
        ("SA Pacific Standard Time", -18000i32),
        ("Eastern Standard Time (Mexico)", -18000i32),
        ("Eastern Standard Time", -18000i32),
        ("Haiti Standard Time", -18000i32),
        ("Cuba Standard Time", -18000i32),
        ("US Eastern Standard Time", -18000i32),
        ("Turks And Caicos Standard Time", -18000i32),
        ("Paraguay Standard Time", -14400i32),
        ("Atlantic Standard Time", -14400i32),
        ("Venezuela Standard Time", -14400i32),
        ("Central Brazilian Standard Time", -14400i32),
        ("SA Western Standard Time", -14400i32),
        ("Pacific SA Standard Time", -14400i32),
        ("Newfoundland Standard Time", -12600i32),
        ("Tocantins Standard Time", -10800i32),
        ("E. South America Standard Time", -10800i32),
        ("SA Eastern Standard Time", -10800i32),
        ("Argentina Standard Time", -10800i32),
        ("Greenland Standard Time", -10800i32),
        ("Montevideo Standard Time", -10800i32),
        ("Magallanes Standard Time", -10800i32),
        ("Saint Pierre Standard Time", -10800i32),
        ("Bahia Standard Time", -10800i32),
        ("UTC-02", -7200i32),
        ("Mid-Atlantic Standard Time", -7200i32),
        ("Azores Standard Time", -3600i32),
        ("Cape Verde Standard Time", -3600i32),
        ("UTC", 0i32),
        ("GMT Standard Time", 0i32),
        ("Greenwich Standard Time", 0i32),
        ("Sao Tome Standard Time", 0i32),
        ("Morocco Standard Time", 0i32),
        ("W. Europe Standard Time", 3600i32),
        ("Central Europe Standard Time", 3600i32),
        ("Romance Standard Time", 3600i32),
        ("Central European Standard Time", 3600i32),
        ("W. Central Africa Standard Time", 3600i32),
        ("Jordan Standard Time", 7200i32),
        ("GTB Standard Time", 7200i32),
        ("Middle East Standard Time", 7200i32),
        ("Egypt Standard Time", 7200i32),
        ("E. Europe Standard Time", 7200i32),
        ("Syria Standard Time", 7200i32),
        ("West Bank Standard Time", 7200i32),
        ("South Africa Standard Time", 7200i32),
        ("FLE Standard Time", 7200i32),
        ("Israel Standard Time", 7200i32),
        ("Kaliningrad Standard Time", 7200i32),
        ("Sudan Standard Time", 7200i32),
        ("Libya Standard Time", 7200i32),
        ("Namibia Standard Time", 7200i32),
        ("Arabic Standard Time", 10800i32),
        ("Turkey Standard Time", 10800i32),
        ("Arab Standard Time", 10800i32),
        ("Belarus Standard Time", 10800i32),
        ("Russian Standard Time", 10800i32),
        ("E. Africa Standard Time", 10800i32),
        ("Iran Standard Time", 12600i32),
        ("Arabian Standard Time", 14400i32),
        ("Astrakhan Standard Time", 14400i32),
        ("Azerbaijan Standard Time", 14400i32),
        ("Russia Time Zone 3", 14400i32),
        ("Mauritius Standard Time", 14400i32),
        ("Saratov Standard Time", 14400i32),
        ("Georgian Standard Time", 14400i32),
        ("Volgograd Standard Time", 14400i32),
        ("Caucasus Standard Time", 14400i32),
        ("Afghanistan Standard Time", 16200i32),
        ("West Asia Standard Time", 18000i32),
        ("Ekaterinburg Standard Time", 18000i32),
        ("Pakistan Standard Time", 18000i32),
        ("Qyzylorda Standard Time", 18000i32),
        ("India Standard Time", 19800i32),
        ("Sri Lanka Standard Time", 19800i32),
        ("Nepal Standard Time", 20700i32),
        ("Central Asia Standard Time", 21600i32),
        ("Bangladesh Standard Time", 21600i32),
        ("Omsk Standard Time", 21600i32),
        ("Myanmar Standard Time", 23400i32),
        ("SE Asia Standard Time", 25200i32),
        ("Altai Standard Time", 25200i32),
        ("W. Mongolia Standard Time", 25200i32),
        ("North Asia Standard Time", 25200i32),
        ("N. Central Asia Standard Time", 25200i32),
        ("Tomsk Standard Time", 25200i32),
        ("China Standard Time", 28800i32),
        ("North Asia East Standard Time", 28800i32),
        ("Singapore Standard Time", 28800i32),
        ("W. Australia Standard Time", 28800i32),
        ("Taipei Standard Time", 28800i32),
        ("Ulaanbaatar Standard Time", 28800i32),
        ("Aus Central W. Standard Time", 31500i32),
        ("Transbaikal Standard Time", 32400i32),
        ("Tokyo Standard Time", 32400i32),
        ("North Korea Standard Time", 32400i32),
        ("Korea Standard Time", 32400i32),
        ("Yakutsk Standard Time", 32400i32),
        ("Cen. Australia Standard Time", 34200i32),
        ("AUS Central Standard Time", 34200i32),
        ("E. Australia Standard Time", 36000i32),
        ("AUS Eastern Standard Time", 36000i32),
        ("West Pacific Standard Time", 36000i32),
        ("Tasmania Standard Time", 36000i32),
        ("Vladivostok Standard Time", 36000i32),
        ("Lord Howe Standard Time", 37800i32),
        ("Bougainville Standard Time", 39600i32),
        ("Russia Time Zone 10", 39600i32),
        ("Magadan Standard Time", 39600i32),
        ("Norfolk Standard Time", 39600i32),
        ("Sakhalin Standard Time", 39600i32),
        ("Central Pacific Standard Time", 39600i32),
        ("Russia Time Zone 11", 43200i32),
        ("New Zealand Standard Time", 43200i32),
        ("UTC+12", 43200i32),
        ("Fiji Standard Time", 43200i32),
        ("Kamchatka Standard Time", 43200i32),
        ("Chatham Islands Standard Time", 45900i32),
        ("UTC+13", 46800i32),
        ("Tonga Standard Time", 46800i32),
        ("Samoa Standard Time", 46800i32),
        ("Line Islands Standard Time", 50400i32),
    ];
    r
}

/// The offset east of UTC, in seconds, of the Windows time zone named
/// `time_zone_name` (an exact, case-sensitive match).
pub fn get_utc_offset(time_zone_name: &str) -> (r: Result<i32, String>)
    ensures
        match zone_offset(time_zone_name@) {
            Some(o) => r == Ok::<i32, String>(o as i32),
            None => r matches Err(m) && m@ == unknown_zone_message(time_zone_name@),
        },
{
    let table = zones();
    assert(zone_table().subrange(0, zone_table().len() as int) =~= zone_table());
    let mut i: usize = 0;
    while i < table.len()
        invariant
            i <= table@.len(),
            table@.len() == zone_table().len(),
            forall|j: int| 0 <= j < table@.len() ==> (#[trigger] table@[j]).0@ == zone_table()[j].0 && table@[j].1 as int == zone_table()[j].1,
            zone_offset(time_zone_name@) == offset_in(zone_table().subrange(i as int, zone_table().len() as int), time_zone_name@),
        decreases table@.len() - i,
    {
        let ghost rest = zone_table().subrange(i as int, zone_table().len() as int);
        assert(rest.drop_first() =~= zone_table().subrange(i + 1, zone_table().len() as int));
        let (name, offset) = table[i];
        if text_eq(name, time_zone_name) {
            return Ok(offset);
        }
        i = i + 1;
    }
    let mut m = String::new();
    push_text(&mut m, "Unable to find a time zone named '");
    push_text(&mut m, time_zone_name);
    push_text(&mut m, "'");
    Err(m)
}

} // verus!
