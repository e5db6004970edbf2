use evtc::event::raw::CombatEventV1;
use evtc::event::DamageEvent;
use evtc::event::Event;
use evtc::event::SourceEvent;
use evtc::statistics::add_clamped;
use evtc::statistics::count;
use evtc::statistics::feed;
use evtc::statistics::Abilities;
use evtc::statistics::ActivationEntry;
use evtc::statistics::ActivationLog;
use evtc::statistics::Hits;
use evtc::statistics::MinDamage;
use evtc::statistics::Sink;
use evtc::summary::AbilityAndTotal;
use evtc::summary::PowerCondiHits;

fn record(time: u64) -> CombatEventV1 {
    CombatEventV1 {
        time,
        src_agent: 10,
        dst_agent: 20,
        value: 0,
        buff_dmg: 0,
        overstack: 0,
        skill_id: 0,
        src_instid: 1,
        dst_instid: 2,
        src_master_instid: 0,
        iff: 0,
        buff: 0,
        result: 0,
        is_activation: 0,
        is_buffremove: 0,
        is_src_ninety: 0,
        is_dst_fifty: 0,
        is_src_moving: 0,
        is_statechange: 0,
        is_flanking: 0,
        is_shields: 0,
        is_offcycle: 0,
    }
}

fn hit(skill: u16, value: i32, result: u8) -> DamageEvent {
    let mut e = record(0);
    e.skill_id = skill;
    e.value = value;
    e.result = result;
    e.into_damage().unwrap()
}

fn tick(skill: u16, buff_dmg: i32) -> DamageEvent {
    let mut e = record(0);
    e.skill_id = skill;
    e.buff = 1;
    e.buff_dmg = buff_dmg;
    e.into_damage().unwrap()
}

fn cast(time: u64, skill: u16, code: u8, value: i32) -> SourceEvent {
    let mut e = record(time);
    e.skill_id = skill;
    e.is_activation = code;
    e.value = value;
    e.into_source().unwrap()
}

fn swap(time: u64, master: u16) -> SourceEvent {
    let mut e = record(time);
    e.is_statechange = 11;
    e.src_master_instid = master;
    e.into_source().unwrap()
}

#[test]
fn clamped_sums() {
    assert_eq!(add_clamped(1, 2), 3);
    assert_eq!(add_clamped(-5, 2), -3);
    assert_eq!(add_clamped(i64::MAX, 1), i64::MAX);
    assert_eq!(add_clamped(i64::MAX - 1, 1), i64::MAX);
    assert_eq!(add_clamped(i64::MIN, -1), i64::MIN);
    assert_eq!(add_clamped(i64::MIN, i64::MAX), -1);
    assert_eq!(add_clamped(i64::MAX, i64::MIN), -1);
    assert_eq!(count(0, true), 1);
    assert_eq!(count(7, false), 7);
    assert_eq!(count(u32::MAX, true), u32::MAX);
}

#[test]
fn smallest_damage() {
    let mut m = MinDamage::default();
    assert_eq!(m.get(), 0);
    m.add(50);
    m.add(70);
    assert_eq!(m.get(), 50);
    m.add(-3);
    assert_eq!(m.0, -3);
}

#[test]
fn hits_are_counted() {
    let mut h = Hits::default();
    assert_eq!(h.min_damage.get(), 0);
    let mut crit = record(0);
    crit.value = 300;
    crit.result = 1;
    crit.is_flanking = 1;
    crit.is_src_moving = 1;
    crit.is_src_ninety = 1;
    h.add_event(crit.into_damage().unwrap());
    h.add_event(hit(1, 100, 0));
    h.add_event(hit(1, 50, 2));
    h.add_event(hit(1, 900, 3));
    h.add_event(hit(1, 900, 4));
    h.add_event(hit(1, 900, 5));
    h.add_event(hit(1, 900, 6));
    h.add_event(hit(1, 900, 7));
    h.add_event(hit(1, 0, 0));
    assert_eq!(
        h,
        Hits {
            total_damage: 450,
            wasted_damage: 0,
            hits: 9,
            criticals: 1,
            flanking: 1,
            scholar: 1,
            glancing: 1,
            moving: 1,
            interrupted: 1,
            blocked: 1,
            evaded: 1,
            missed: 1,
            absorbed: 1,
            min_damage: MinDamage(50),
            max_damage: 300,
        }
    );
}

#[test]
fn feeding_a_sink() {
    let events = [hit(1, 10, 0), hit(2, 20, 0), hit(1, 5, 1)];
    let mut h = Hits::default();
    feed(&mut h, &events);
    assert_eq!(h.hits, 3);
    assert_eq!(h.total_damage, 35);
    assert_eq!(h.min_damage.get(), 5);
    assert_eq!(h.max_damage, 20);
    assert_eq!(h.criticals, 1);
    let mut one = Hits::default();
    for e in events {
        one.add_event(e);
    }
    assert_eq!(one, h);
}

#[test]
fn power_and_condition_damage_are_kept_apart() {
    let mut h = PowerCondiHits::default();
    h.add_event(hit(1, 10, 0));
    h.add_event(tick(2, 7));
    h.add_event(tick(2, -9));
    assert_eq!(h.power.hits, 1);
    assert_eq!(h.power.total_damage, 10);
    assert_eq!(h.condi.hits, 2);
    assert_eq!(h.condi.total_damage, 7);
    assert_eq!(h.condi.min_damage.get(), 7);
}

#[test]
fn abilities_by_skill() {
    let mut a = Abilities::new();
    assert_eq!(a.len(), 0);
    assert_eq!(a.get(5), None);
    a.add_event(hit(5, 10, 0));
    a.add_event(hit(9, 20, 1));
    a.add_event(hit(5, 30, 0));
    assert_eq!(a.len(), 2);
    assert_eq!(a.get(5).map(|h| (h.hits, h.total_damage)), Some((2, 40)));
    assert_eq!(a.get(9).map(|h| (h.hits, h.criticals)), Some((1, 1)));
    assert_eq!(a.get(6), None);
    let skills: Vec<u16> = a.entries().iter().map(|e| e.0).collect();
    assert_eq!(skills, vec![5, 9]);
    let mut t = AbilityAndTotal::new();
    t.add_event(hit(5, 10, 0));
    t.add_event(hit(9, 20, 1));
    assert_eq!(t.total().hits, 2);
    assert_eq!(t.total().total_damage, 30);
    assert_eq!(t.abilities().len(), 2);
    assert_eq!(t.abilities().get(9).map(|h| h.total_damage), Some(20));
}

#[test]
fn casts_are_paired_with_their_end() {
    let mut log = ActivationLog::new();
    log.add_event(cast(100, 5, 1, 750));
    assert!(log.entries().is_empty());
    log.add_event(cast(900, 5, 5, 0));
    log.add_event(cast(1000, 6, 2, 500));
    log.add_event(cast(1200, 6, 4, 200));
    log.add_event(cast(2000, 7, 1, 500));
    log.add_event(cast(2300, 7, 3, 300));
    assert_eq!(
        log.entries(),
        &[
            ActivationEntry { time: 100, skill: 5, quickness: false, canceled: false, duration: 0 },
            ActivationEntry {
                time: 1000,
                skill: 6,
                quickness: true,
                canceled: true,
                duration: 200
            },
            ActivationEntry {
                time: 2000,
                skill: 7,
                quickness: false,
                canceled: false,
                duration: 300
            },
        ]
    );
}

#[test]
fn unmatched_ends_are_dropped() {
    let mut log = ActivationLog::default();
    log.add_event(cast(10, 5, 5, 0));
    assert!(log.entries().is_empty());
    log.add_event(cast(100, 5, 1, 750));
    // the end of another skill leaves the start waiting
    log.add_event(cast(200, 6, 5, 0));
    assert!(log.entries().is_empty());
    // a later start takes the place of the one that waits
    log.add_event(cast(300, 8, 2, 10));
    log.add_event(cast(400, 5, 5, 0));
    assert!(log.entries().is_empty());
    log.add_event(cast(500, 8, 5, 0));
    log.add_event(cast(600, 8, 5, 0));
    assert_eq!(
        log.entries(),
        &[ActivationEntry { time: 300, skill: 8, quickness: true, canceled: false, duration: 0 }]
    );
}

#[test]
fn weapon_swaps_are_noted_once() {
    let mut log = ActivationLog::new();
    let entry = |time| ActivationEntry {
        time,
        skill: 65534,
        quickness: false,
        canceled: false,
        duration: 0,
    };
    log.add_event(swap(100, 0));
    log.add_event(swap(100, 0));
    log.add_event(swap(100, 9));
    log.add_event(swap(101, 9));
    log.add_event(swap(200, 0));
    assert_eq!(log.entries(), &[entry(100), entry(200)]);
    log.add_event(cast(200, 1, 1, 5));
    log.add_event(cast(200, 1, 5, 0));
    log.add_event(swap(200, 0));
    assert_eq!(log.entries().len(), 4);
    assert_eq!(log.entries()[3], entry(200));
    let mut first = ActivationLog::new();
    first.add_event(swap(0, 0));
    assert_eq!(first.entries(), &[entry(0)]);
}
