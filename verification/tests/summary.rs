use evtc::buff::BuffSnapshot;
use evtc::event::raw::CombatEventV1;
use evtc::event::raw::Evtc;
use evtc::event::Event;
use evtc::event::SourceEvent;
use evtc::metadata::Metadata;
use evtc::statistics::ActivationEntry;
use evtc::summary::group_agents_by_species;
use evtc::summary::summarize;
use evtc::summary::AgentStatistics;
use evtc::summary::PlayerSummary;
use evtc::summary::Report;
use evtc::timeseries::Entry;
use evtc::timeseries::Series;
use evtc::timeseries::TimeEntry;
use evtc::timeseries::TimeSeries;
use evtc::AgentId;
use evtc::Boss;
use evtc::SpeciesId;

fn record(time: u64, src: u64, dst: u64) -> CombatEventV1 {
    CombatEventV1 {
        time,
        src_agent: src,
        dst_agent: dst,
        value: 0,
        buff_dmg: 0,
        overstack: 0,
        skill_id: 0,
        src_instid: 0,
        dst_instid: 0,
        src_master_instid: 0,
        iff: 0,
        buff: 0,
        result: 0,
        is_activation: 0,
        is_buffremove: 0,
        is_src_ninety: 0,
        is_dst_fifty: 0,
        is_src_moving: 0,
        is_statechange: 0,
        is_flanking: 0,
        is_shields: 0,
        is_offcycle: 0,
    }
}

fn state(time: u64, src: u64, instid: u16, code: u8, dst: u64) -> CombatEventV1 {
    let mut e = record(time, src, dst);
    e.src_instid = instid;
    e.is_statechange = code;
    e
}

fn hit(time: u64, src: u64, instid: u16, master: u16, dst: u64, skill: u16, value: i32) -> CombatEventV1 {
    let mut e = record(time, src, dst);
    e.src_instid = instid;
    e.src_master_instid = master;
    e.skill_id = skill;
    e.value = value;
    e
}

fn buff(time: u64, src: u64, dst: u64, skill: u16, duration: i32, removal: u8) -> CombatEventV1 {
    let mut e = record(time, src, dst);
    e.buff = 1;
    e.skill_id = skill;
    e.value = duration;
    e.is_buffremove = removal;
    e
}

fn cast(time: u64, src: u64, skill: u16, code: u8, value: i32) -> CombatEventV1 {
    let mut e = record(time, src, 0);
    e.src_instid = 7;
    e.skill_id = skill;
    e.is_activation = code;
    e.value = value;
    e
}

fn event_bytes(e: &CombatEventV1) -> Vec<u8> {
    let mut v = Vec::new();
    v.extend_from_slice(&e.time.to_le_bytes());
    v.extend_from_slice(&e.src_agent.to_le_bytes());
    v.extend_from_slice(&e.dst_agent.to_le_bytes());
    v.extend_from_slice(&e.value.to_le_bytes());
    v.extend_from_slice(&e.buff_dmg.to_le_bytes());
    v.extend_from_slice(&e.overstack.to_le_bytes());
    v.extend_from_slice(&e.skill_id.to_le_bytes());
    v.extend_from_slice(&e.src_instid.to_le_bytes());
    v.extend_from_slice(&e.dst_instid.to_le_bytes());
    v.extend_from_slice(&e.src_master_instid.to_le_bytes());
    v.extend_from_slice(&[0; 9]);
    v.extend_from_slice(&[
        e.iff,
        e.buff,
        e.result,
        e.is_activation,
        e.is_buffremove,
        e.is_src_ninety,
        e.is_dst_fifty,
        e.is_src_moving,
        e.is_statechange,
        e.is_flanking,
        e.is_shields,
        e.is_offcycle,
        0,
    ]);
    v
}

fn agent_bytes(id: u64, profession: u32, is_elite: u32, names: &[u8]) -> Vec<u8> {
    let mut v = Vec::new();
    v.extend_from_slice(&id.to_le_bytes());
    v.extend_from_slice(&profession.to_le_bytes());
    v.extend_from_slice(&is_elite.to_le_bytes());
    v.extend_from_slice(&[0; 12]);
    let mut name = [0u8; 68];
    name[..names.len()].copy_from_slice(names);
    v.extend_from_slice(&name);
    v
}

fn events() -> Vec<CombatEventV1> {
    let mut heal = state(3100, 100, 7, 8, 9950);
    heal.src_instid = 7;
    let mut log_start = record(0, 0x637261, 0);
    log_start.is_statechange = 9;
    log_start.value = 1_000_000;
    let mut log_end = record(0, 0x637261, 0);
    log_end.is_statechange = 10;
    log_end.value = 1_000_009;
    vec![
        log_start,
        state(500, 100, 7, 1, 1),
        hit(600, 100, 7, 0, 999, 1, 1111),
        state(1000, 500, 50, 6, 0),
        buff(1000, 100, 100, 1187, 4000, 0),
        buff(1000, 100, 100, 740, 9000, 0),
        cast(1100, 100, 30, 1, 400),
        hit(1200, 100, 7, 0, 500, 30, 250),
        cast(1500, 100, 30, 5, 0),
        hit(1600, 300, 31, 7, 500, 44, 40),
        hit(1700, 301, 32, 7, 500, 44, 60),
        hit(2100, 100, 7, 0, 999, 31, 70),
        hit(2200, 500, 50, 0, 100, 77, 333),
        state(2300, 100, 7, 11, 4),
        state(2300, 100, 7, 11, 4),
        heal,
        buff(3200, 100, 500, 740, 0, 1),
        state(4000, 100, 7, 5, 0),
        state(5000, 500, 50, 4, 0),
        hit(5500, 100, 7, 0, 500, 1, 5),
        log_end,
    ]
}

fn log_bytes() -> Vec<u8> {
    let mut v = Vec::new();
    v.extend_from_slice(b"EVTC20180710");
    v.push(0);
    v.extend_from_slice(&0x3c4eu16.to_le_bytes());
    v.push(0);
    v.extend_from_slice(&4u32.to_le_bytes());
    v.extend(agent_bytes(100, 7, 0, b"Player\0:acct.1\0 1\0"));
    v.extend(agent_bytes(500, 0x3c4e, 0xFFFF_FFFF, b"Vale Guardian\0\0\0"));
    v.extend(agent_bytes(300, 0x1234, 0xFFFF_FFFF, b"Clone\0\0\0"));
    v.extend(agent_bytes(301, 0x1234, 0xFFFF_FFFF, b"Clone\0\0\0"));
    v.extend_from_slice(&0u32.to_le_bytes());
    for e in events() {
        v.extend(event_bytes(&e));
    }
    v.extend_from_slice(&[1, 2, 3]);
    v
}

fn digest(r: &Report) -> String {
    let mut s = format!("{:?}", r.encounter);
    for p in &r.players {
        s += &format!("{:?}{:?}{:?}", p.player().id(), p.hit_stats(), p.boss_hit_stats());
        s += &format!("{:?}{:?}", p.activation_log().entries(), p.series());
        s += &format!("{:?}", p.buffs().snapshots());
        s += &format!("{:?}{:?}", p.incoming_damage().total(), p.incoming_damage().abilities().entries());
        for a in p.agent_stats() {
            s += &format!("{:?}{:?}", a.first().id(), a.totals().total());
            s += &format!("{:?}", a.totals().abilities().entries());
        }
    }
    for b in &r.enemies {
        s += &format!("{:?}{:?}", b.agent.id(), b.series.entries());
    }
    s
}

#[test]
fn summary_of_an_encounter() {
    let bytes = log_bytes();
    let evtc = Evtc::decode(&bytes).unwrap();
    assert_eq!(evtc.events, events());
    let meta = Metadata::new(&evtc);
    let r = summarize(&meta, "log.evtc".to_string());
    assert_eq!(r.encounter.log_start, 1_000_000);
    assert_eq!(r.encounter.log_end, 1_000_009);
    assert_eq!((r.encounter.series_start, r.encounter.series_end), (1000, 5000));
    assert_eq!(r.encounter.boss, Boss::ValeGuardian);
    assert_eq!(r.encounter.log_name, "log.evtc");
    assert!(r.encounter.success);
    assert_eq!(r.buffs.0.len(), 14);
    assert_eq!(r.skills.skills.len(), 0);
    assert_eq!(r.players.len(), 1);
    assert_eq!(r.enemies.len(), 1);

    let p = &r.players[0];
    assert_eq!(p.player().id(), AgentId(100));
    // the hits before and after the boss was there do not count
    assert_eq!(p.hit_stats().power.hits, 4);
    assert_eq!(p.hit_stats().power.total_damage, 250 + 40 + 60 + 70);
    assert_eq!(p.hit_stats().condi.hits, 0);
    assert_eq!(p.boss_hit_stats().power.hits, 3);
    assert_eq!(p.boss_hit_stats().power.total_damage, 350);
    assert_eq!(p.boss_hit_stats().power.min_damage.get(), 40);
    assert_eq!(p.boss_hit_stats().power.max_damage, 250);
    assert_eq!(p.incoming_damage().total().hits, 1);
    assert_eq!(p.incoming_damage().total().total_damage, 333);
    assert_eq!(p.incoming_damage().abilities().get(77).map(|h| h.hits), Some(1));

    let stats = p.agent_stats();
    assert_eq!(stats.len(), 2);
    assert_eq!(stats[0].first().id(), AgentId(100));
    assert!(stats[0].covers(AgentId(100)));
    assert!(!stats[0].covers(AgentId(300)));
    assert_eq!(stats[0].totals().total().total_damage, 250);
    assert_eq!(stats[1].first().id(), AgentId(300));
    assert!(stats[1].covers(AgentId(301)));
    assert_eq!(stats[1].totals().total().total_damage, 100);
    assert_eq!(stats[1].totals().abilities().get(44).map(|h| h.hits), Some(2));

    assert_eq!(
        p.activation_log().entries(),
        &[
            ActivationEntry { time: 1100, skill: 30, quickness: false, canceled: false, duration: 0 },
            ActivationEntry {
                time: 2300,
                skill: 65534,
                quickness: false,
                canceled: false,
                duration: 0
            },
        ]
    );

    assert_eq!(
        p.buffs().snapshots(),
        vec![
            (1187, BuffSnapshot { stacks: 1, sum: 1000, uptime: 4000, overstack: 0, stripped: 0 }),
            (740, BuffSnapshot { stacks: 0, sum: 0, uptime: 2200, overstack: 0, stripped: 6800 }),
        ]
    );

    let series = p.series();
    let seconds: Vec<u64> = series.iter().map(|e| e.time).collect();
    assert_eq!(seconds, vec![1, 2, 3, 4]);
    assert_eq!(series[0].buffs, Some(vec![]));
    assert_eq!(series[0].damage, 350);
    assert_eq!(series[0].boss_dmg, 350);
    assert_eq!(series[1].damage, 70);
    assert_eq!(series[1].boss_dmg, 0);
    assert!(series[1].weapon_swap);
    assert_eq!(
        series[1].buffs,
        Some(vec![
            (1187, BuffSnapshot { stacks: 1, sum: 2900, uptime: 4000, overstack: 0, stripped: 0 }),
            (740, BuffSnapshot { stacks: 1, sum: 7900, uptime: 9000, overstack: 0, stripped: 0 }),
        ])
    );
    assert_eq!(series[2].health, Some(9950));
    assert!(series[3].downed);
    assert!(!series[3].dead);

    let boss = &r.enemies[0];
    assert_eq!(boss.agent.id(), AgentId(500));
    assert_eq!(
        boss.series.entries(),
        &[
            TimeEntry {
                time: 2,
                health: None,
                damage: 333,
                boss_dmg: 0,
                downed: false,
                revived: false,
                dead: false,
                weapon_swap: false,
            },
            TimeEntry {
                time: 5,
                health: None,
                damage: 0,
                boss_dmg: 0,
                downed: false,
                revived: false,
                dead: true,
                weapon_swap: false,
            },
        ]
    );
}

#[test]
fn the_same_bytes_give_the_same_summary() {
    let bytes = log_bytes();
    let first = {
        let evtc = Evtc::decode(&bytes).unwrap();
        let meta = Metadata::new(&evtc);
        digest(&summarize(&meta, "a".to_string()))
    };
    let copy = bytes.clone();
    let second = {
        let evtc = Evtc::decode(&copy).unwrap();
        let meta = Metadata::new(&evtc);
        digest(&summarize(&meta, "a".to_string()))
    };
    assert_eq!(first, second);
    assert!(first.len() > 500);
}

#[test]
fn no_statistics_outside_the_window() {
    let bytes = log_bytes();
    let evtc = Evtc::decode(&bytes).unwrap();
    let meta = Metadata::new(&evtc);
    let (start, end) = meta.encounter_window();
    let r = summarize(&meta, String::new());
    for p in &r.players {
        for e in p.series() {
            assert!(start / 1000 <= e.time && e.time <= end / 1000);
        }
        for a in p.activation_log().entries() {
            assert!(start <= a.time && a.time <= end);
        }
    }
    for b in &r.enemies {
        for e in b.series.entries() {
            assert!(start / 1000 <= e.time && e.time <= end / 1000);
        }
    }
}

#[test]
fn players_step_by_step() {
    let bytes = log_bytes();
    let evtc = Evtc::decode(&bytes).unwrap();
    let meta = Metadata::new(&evtc);
    let player = &meta.agents()[0];
    let mut p = PlayerSummary::new(&meta, player);
    let bosses = [AgentId(500)];
    let own: SourceEvent = hit(7000, 100, 7, 0, 500, 3, 20).into_source().unwrap();
    let taken: SourceEvent = hit(7000, 500, 50, 0, 100, 4, 9).into_source().unwrap();
    let other: SourceEvent = hit(8000, 100, 7, 0, 501, 3, 1).into_source().unwrap();
    p.add_event(own, &bosses);
    p.add_event(taken, &bosses);
    p.add_event(other, &bosses);
    assert!(p.series().len() == 1);
    assert_eq!(p.series()[0].time, 7);
    assert_eq!(p.series()[0].damage, 20);
    assert_eq!(p.series()[0].boss_dmg, 20);
    assert_eq!(p.hit_stats().power.hits, 2);
    assert_eq!(p.boss_hit_stats().power.hits, 1);
    assert_eq!(p.incoming_damage().total().total_damage, 9);
    let p = p.parse(&bosses, &[]);
    let seconds: Vec<u64> = p.series().iter().map(|e| e.time).collect();
    assert_eq!(seconds, vec![7, 8]);
    assert_eq!(p.series()[1].damage, 1);
    assert_eq!(p.series()[1].boss_dmg, 0);
}

#[test]
fn minions_are_grouped_by_species() {
    let bytes = log_bytes();
    let evtc = Evtc::decode(&bytes).unwrap();
    let meta = Metadata::new(&evtc);
    let all: Vec<&evtc::metadata::Agent> = meta.agents().iter().collect();
    let groups = group_agents_by_species(&all);
    assert_eq!(groups.len(), 2);
    assert_eq!(groups.key_at(0), 0x3c4e);
    assert_eq!(groups.key_at(1), 0x1234);
    let clones: Vec<AgentId> = groups.value_at(1).iter().map(|a| a.id()).collect();
    assert_eq!(clones, vec![AgentId(300), AgentId(301)]);
    assert_eq!(groups.position(SpeciesId(0x1234).0 as u64), Some(1));
    let stats = AgentStatistics::new(groups.value_at(1));
    assert_eq!(stats.first().id(), AgentId(300));
    assert!(stats.covers(AgentId(301)));
    assert_eq!(stats.totals().total().hits, 0);
}

#[test]
fn series_open_and_close() {
    let evtc = Evtc::decode(&log_bytes()).unwrap();
    let meta = Metadata::new(&evtc);
    let mut s: Series<TimeEntry> = Series::new(&meta);
    assert_eq!(s.open_time(), None);
    s.current(3).damage = 5;
    s.current(3).downed = true;
    assert_eq!(s.open_time(), Some(3));
    assert!(s.entries().is_empty());
    s.current(4).damage = 1;
    assert_eq!(s.entries().len(), 1);
    assert_eq!(s.entries()[0].damage, 5);
    assert!(s.entries()[0].downed);
    s.finalize();
    s.finalize();
    assert_eq!(s.open_time(), None);
    let times: Vec<u64> = s.entries().iter().map(|e| e.time()).collect();
    assert_eq!(times, vec![3, 4]);
    assert_eq!(<TimeEntry as Entry>::new(9), TimeEntry::with_time(9));
}

#[test]
fn time_series_keeps_seconds_with_data() {
    let evtc = Evtc::decode(&log_bytes()).unwrap();
    let meta = Metadata::new(&evtc);
    let source = |e: CombatEventV1| e.into_source().unwrap();
    let mut s = TimeSeries::new(&meta);
    s.parse(&[], &meta);
    assert!(s.entries().is_empty());
    let events = [
        source(hit(1000, 100, 7, 0, 500, 1, 10)),
        source(hit(1999, 100, 7, 0, 888, 1, 5)),
        source(state(2000, 100, 7, 2, 0)),
        source(state(3000, 100, 7, 3, 0)),
        source(state(3001, 300, 31, 4, 0)),
        source(hit(9000, 100, 7, 0, 500, 1, 0)),
    ];
    let mut minion_dies = events[4].raw();
    minion_dies.src_master_instid = 7;
    let mut events = events.to_vec();
    events.push(source(minion_dies));
    s.parse(&events, &meta);
    let entry = |time, damage, boss_dmg| TimeEntry {
        time,
        health: None,
        damage,
        boss_dmg,
        downed: false,
        revived: false,
        dead: false,
        weapon_swap: false,
    };
    let mut third = entry(3, 0, 0);
    third.revived = true;
    third.dead = true;
    assert_eq!(s.entries(), &[entry(1, 15, 10), third]);
    assert!(!entry(1, 0, 0).has_data());
    assert!(!entry(1, -5, 0).has_data());
    assert!(entry(1, 1, 0).has_data());
    let of_boss = TimeSeries::parse_agent(&meta, &meta.agents()[1]);
    assert_eq!(of_boss.entries().len(), 2);
}
