use evtc::event::classified::AgentEvent;
use evtc::event::classified::Buff as BuffData;
use evtc::event::classified::Event as ClassifiedEvent;
use evtc::event::classified::EventType;
use evtc::event::classified::IntoEvent;
use evtc::event::classified::TargetEvent as TargetData;
use evtc::event::raw::CombatActivation;
use evtc::event::raw::CombatBuffRemove;
use evtc::event::raw::CombatEventV1;
use evtc::event::raw::CombatStateChange;
use evtc::event::raw::HitResult;
use evtc::event::raw::Language;
use evtc::event::raw::IFF;
use evtc::event::Activation;
use evtc::event::Buff;
use evtc::event::CastType;
use evtc::event::Damage;
use evtc::event::Event;
use evtc::event::EventKind;
use evtc::event::HitType;
use evtc::event::Meta;
use evtc::event::MetaEventData;
use evtc::event::Source;
use evtc::event::StateChange;
use evtc::event::Target;
use evtc::AgentId;
use evtc::InstanceId;

fn record() -> CombatEventV1 {
    CombatEventV1 {
        time: 1000,
        src_agent: 10,
        dst_agent: 20,
        value: 0,
        buff_dmg: 0,
        overstack: 0,
        skill_id: 0,
        src_instid: 1,
        dst_instid: 2,
        src_master_instid: 0,
        iff: 0,
        buff: 0,
        result: 0,
        is_activation: 0,
        is_buffremove: 0,
        is_src_ninety: 0,
        is_dst_fifty: 0,
        is_src_moving: 0,
        is_statechange: 0,
        is_flanking: 0,
        is_shields: 0,
        is_offcycle: 0,
    }
}

fn projections(e: CombatEventV1) -> [bool; 6] {
    let buff = e.into_buff();
    [
        e.into_meta().is_some(),
        e.into_source().is_some() && e.into_damage().is_none() && e.into_activation().is_none()
            && buff.is_none(),
        e.into_damage().is_some(),
        e.into_activation().is_some(),
        buff.as_ref().map(|b| !b.is_remove()).unwrap_or(false),
        buff.as_ref().map(|b| b.is_remove()).unwrap_or(false),
    ]
}

fn kind_index(k: EventKind) -> usize {
    match k {
        EventKind::Meta => 0,
        EventKind::Source => 1,
        EventKind::Damage => 2,
        EventKind::Activation => 3,
        EventKind::BuffApplication => 4,
        EventKind::BuffRemoval => 5,
    }
}

#[test]
fn every_record_is_of_exactly_one_kind() {
    let mut seen = [0usize; 6];
    for statechange in [0u8, 1, 4, 9, 10, 14, 15, 16, 21, 22, 200] {
        for activation in [0u8, 1, 5, 6, 255] {
            for buffremove in [0u8, 1, 2, 3, 4] {
                for buff in [0u8, 1] {
                    for buff_dmg in [0i32, 7, -7] {
                        for result in [0u8, 3, 9, 10] {
                            let mut e = record();
                            e.is_statechange = statechange;
                            e.is_activation = activation;
                            e.is_buffremove = buffremove;
                            e.buff = buff;
                            e.buff_dmg = buff_dmg;
                            e.result = result;
                            let p = projections(e);
                            let count = p.iter().filter(|&&b| b).count();
                            assert_eq!(count, 1, "{:?}", e);
                            assert!(p[kind_index(e.kind())], "{:?}", e);
                            assert_eq!(e.is_meta(), p[0]);
                            seen[kind_index(e.kind())] += 1;
                        }
                    }
                }
            }
        }
    }
    assert!(seen.iter().all(|&n| n > 0));
}

#[test]
fn kinds_by_the_decision_table() {
    let mut e = record();
    assert_eq!(e.kind(), EventKind::Damage);
    for code in [9u8, 10, 14, 15, 16] {
        e.is_statechange = code;
        e.is_activation = 1;
        assert_eq!(e.kind(), EventKind::Meta);
    }
    e.is_statechange = 1;
    e.is_activation = 1;
    assert_eq!(e.kind(), EventKind::Activation);
    e.is_activation = 0;
    assert_eq!(e.kind(), EventKind::Source);
    e.is_statechange = 0;
    e.buff = 1;
    assert_eq!(e.kind(), EventKind::BuffApplication);
    e.is_buffremove = 2;
    assert_eq!(e.kind(), EventKind::BuffRemoval);
    e.buff_dmg = 5;
    assert_eq!(e.kind(), EventKind::Source);
    e.is_buffremove = 0;
    assert_eq!(e.kind(), EventKind::Damage);
    e.buff = 0;
    e.result = 10;
    assert_eq!(e.kind(), EventKind::Source);
    e.buff = 1;
    assert_eq!(e.kind(), EventKind::Damage);
}

#[test]
fn zero_damage_hits_do_no_damage() {
    let expected = [
        (0u8, HitType::Normal, 500),
        (1, HitType::Crit, 500),
        (2, HitType::Glance, 500),
        (3, HitType::Block, 0),
        (4, HitType::Evade, 0),
        (5, HitType::Interrupt, 0),
        (6, HitType::Absorb, 0),
        (7, HitType::Blind, 0),
        (8, HitType::KillingBlow, 500),
        (9, HitType::DowningBlow, 500),
    ];
    for (result, hit, damage) in expected {
        let mut e = record();
        e.result = result;
        e.value = 500;
        let d = e.into_damage().unwrap();
        assert_eq!(d.hit_type(), hit);
        assert_eq!(d.hit_type().is_zero(), damage == 0);
        assert_eq!(d.damage(), damage);
        assert_eq!(d.breaks_zero_damage(), damage == 0);
        e.value = 0;
        assert!(!e.into_damage().unwrap().breaks_zero_damage());
    }
}

#[test]
fn condition_damage_is_floored() {
    let mut e = record();
    e.buff = 1;
    e.buff_dmg = -40;
    e.value = 900;
    e.result = 3;
    let d = e.into_damage().unwrap();
    assert_eq!(d.hit_type(), HitType::Condi);
    assert_eq!(d.damage(), 0);
    assert!(!d.breaks_zero_damage());
    e.buff_dmg = 41;
    assert_eq!(e.into_damage().unwrap().damage(), 41);
    e.buff = 0;
    e.result = 0;
    e.value = -3;
    assert_eq!(e.into_damage().unwrap().damage(), -3);
}

#[test]
fn damage_accessors() {
    let mut e = record();
    e.skill_id = 321;
    e.value = 12;
    e.is_flanking = 1;
    e.is_src_ninety = 2;
    let d = e.into_damage().unwrap();
    assert_eq!(d.skill(), 321);
    assert!(d.flanking());
    assert!(!d.moving());
    assert!(d.over90());
    assert_eq!(d.agent(), AgentId(10));
    assert_eq!(d.instance(), InstanceId(1));
    assert_eq!(d.target_agent(), AgentId(20));
    assert_eq!(d.target_instance(), InstanceId(2));
    assert_eq!(d.master_instance(), None);
    assert_eq!(d.state_change(), None);
    assert_eq!(d.time(), 1000);
    assert_eq!(d.raw(), e);
}

#[test]
fn state_changes() {
    let mut e = record();
    e.dst_agent = 0x4000_0000_3F80_0000;
    e.value = -1;
    let expected = [
        (1u8, Some(StateChange::EnterCombat(e.dst_agent))),
        (2, Some(StateChange::ExitCombat)),
        (3, Some(StateChange::ChangeUp)),
        (4, Some(StateChange::ChangeDead)),
        (5, Some(StateChange::ChangeDown)),
        (6, Some(StateChange::Spawn)),
        (7, Some(StateChange::Despawn)),
        (8, Some(StateChange::HealthUpdate(e.dst_agent))),
        (11, Some(StateChange::WeaponSwap)),
        (12, Some(StateChange::MaxHealthUpdate(e.dst_agent))),
        (13, Some(StateChange::PointOfView)),
        (17, Some(StateChange::Reward(e.dst_agent, 0xFFFF_FFFF))),
        (18, Some(StateChange::BuffInitial)),
        (19, Some(StateChange::Position { x: 0x3F80_0000, y: 0x4000_0000, z: 0xFFFF_FFFF })),
        (20, Some(StateChange::Velocity { x: 0x3F80_0000, y: 0x4000_0000, z: 0xFFFF_FFFF })),
        (21, Some(StateChange::Facing { x: 0x3F80_0000, y: 0x4000_0000 })),
        (0, None),
        (22, None),
        (255, None),
    ];
    for (code, change) in expected {
        e.is_statechange = code;
        let s = e.into_source().unwrap();
        assert_eq!(s.state_change(), change, "code {}", code);
        assert_eq!(e.state_change(), change);
    }
    assert_eq!(f32::from_bits(0x3F80_0000), 1.0);
    assert_eq!(f32::from_bits(0x4000_0000), 2.0);
}

#[test]
fn meta_records() {
    let mut e = record();
    e.src_agent = 3;
    e.value = -2;
    e.buff_dmg = 77;
    e.is_statechange = 14;
    assert_eq!(e.into_meta().unwrap().into_enum(), MetaEventData::Language(Language::German));
    e.is_statechange = 15;
    assert_eq!(e.into_meta().unwrap().into_enum(), MetaEventData::Gw2Build(3));
    e.is_statechange = 16;
    assert_eq!(e.into_meta().unwrap().into_enum(), MetaEventData::ShardId(3));
    e.is_statechange = 9;
    assert_eq!(
        e.into_meta().unwrap().into_enum(),
        MetaEventData::LogStart { server: 0xFFFF_FFFE, local: 77, arcdps_id: 3 }
    );
    e.is_statechange = 10;
    assert_eq!(
        e.into_meta().unwrap().into_enum(),
        MetaEventData::LogEnd { server: 0xFFFF_FFFE, local: 77, arcdps_id: 3 }
    );
    assert!(e.into_source().is_none());
    assert!(e.from_agent(AgentId(3)).is_none());
    assert!(e.targeting_agent(AgentId(20)).is_none());
    assert_eq!(e.to_meta_event(), Some(e.meta()));
    assert!(e.is_meta_event());
    assert_eq!(e.to_event(), None);
}

#[test]
fn activations() {
    let mut e = record();
    e.skill_id = 5;
    e.value = 750;
    let expected = [
        (1u8, CastType::Normal(750), 750),
        (2, CastType::Quickness(750), 750),
        (3, CastType::CancelFire(750), 750),
        (4, CastType::Cancel(750), 750),
        (5, CastType::Reset, 0),
    ];
    for (code, cast, duration) in expected {
        e.is_activation = code;
        let a = e.into_activation().unwrap();
        assert_eq!(a.cast(), cast);
        assert_eq!(a.cast().duration(), duration);
        assert_eq!(a.skill(), 5);
        assert!(e.into_damage().is_none());
        assert!(e.targeting_agent(AgentId(20)).is_none());
    }
    e.is_activation = 6;
    assert!(e.into_activation().is_none());
    assert_eq!(e.kind(), EventKind::Source);
}

#[test]
fn buffs() {
    let mut e = record();
    e.buff = 1;
    e.value = 4000;
    e.overstack = 15;
    e.skill_id = 740;
    let b = e.into_buff().unwrap();
    assert_eq!(b.skill(), 740);
    assert_eq!(b.duration(), 4000);
    assert_eq!(b.overstack(), 15);
    assert_eq!(b.removal(), CombatBuffRemove::NoRemoval);
    assert!(!b.is_remove());
    assert_eq!(b.target_agent(), AgentId(20));
    assert_eq!(b.agent(), AgentId(10));
    for (code, removal) in
        [(1u8, CombatBuffRemove::All), (2, CombatBuffRemove::Single), (3, CombatBuffRemove::Manual)]
    {
        e.is_buffremove = code;
        let b = e.into_buff().unwrap();
        assert_eq!(b.removal(), removal);
        assert!(b.is_remove());
    }
    e.is_buffremove = 4;
    assert!(e.into_buff().is_none());
    e.is_buffremove = 0;
    e.value = -1;
    assert_eq!(e.into_buff().unwrap().duration(), u32::MAX);
}

#[test]
fn source_filters() {
    let mut e = record();
    assert!(e.from_agent(AgentId(10)).is_some());
    assert!(e.from_agent(AgentId(11)).is_none());
    assert!(e.from_gadgets(InstanceId(0)).is_none());
    assert!(e.from_agent_or_gadgets(AgentId(11), InstanceId(0)).is_none());
    assert!(e.from_agent_or_gadgets(AgentId(10), InstanceId(9)).is_some());
    e.src_master_instid = 9;
    assert_eq!(e.src_master_instid(), Some(InstanceId(9)));
    assert!(e.from_gadgets(InstanceId(9)).is_some());
    assert!(e.from_gadgets(InstanceId(8)).is_none());
    assert!(e.from_agent_or_gadgets(AgentId(11), InstanceId(9)).is_some());
    assert!(e.from_any_of(&[AgentId(1), AgentId(10)]).is_some());
    assert!(e.from_any_of(&[AgentId(1), AgentId(2)]).is_none());
    assert!(e.from_any_of(&[]).is_none());
    let s = e.into_source().unwrap();
    assert!(s.from_agent(AgentId(10)).is_some());
    assert_eq!(s.master_instance(), Some(InstanceId(9)));
}

#[test]
fn target_filters() {
    let mut e = record();
    assert!(e.targeting_agent(AgentId(20)).is_some());
    assert!(e.targeting_agent(AgentId(10)).is_none());
    assert!(e.targeting_any_of(&[AgentId(5), AgentId(20)]).is_some());
    assert!(e.targeting_any_of(&[AgentId(5)]).is_none());
    let t = e.targeting_agent(AgentId(20)).unwrap();
    assert_eq!(t.target_agent(), AgentId(20));
    assert_eq!(t.target_instance(), InstanceId(2));
    assert!(t.into_damage().is_some());
    e.is_statechange = 8;
    e.dst_agent = 20;
    assert!(e.targeting_agent(AgentId(20)).is_none());
    assert!(e.into_source().unwrap().targeting_agent(AgentId(20)).is_none());
}

#[test]
fn wire_codes_round_trip() {
    for code in 0..=255u8 {
        assert_eq!(IFF::from_u8(code).map(|v| v.code()), if code <= 2 { Some(code) } else { None });
        assert_eq!(
            HitResult::from_u8(code).map(|v| v.code()),
            if code <= 9 { Some(code) } else { None }
        );
        assert_eq!(
            CombatActivation::from_u8(code).map(|v| v.code()),
            if code <= 5 { Some(code) } else { None }
        );
        assert_eq!(
            CombatStateChange::from_u8(code).map(|v| v.code()),
            if code <= 21 { Some(code) } else { None }
        );
        assert_eq!(
            CombatBuffRemove::from_u8(code).map(|v| v.code()),
            if code <= 3 { Some(code) } else { None }
        );
    }
    assert_eq!(CombatStateChange::from_u8(11), Some(CombatStateChange::WeapSwap));
    assert_eq!(CombatStateChange::LogEnd.code(), 10);
    assert_eq!(HitResult::DowningBlow.code(), 9);
    assert_eq!(CombatActivation::from_u8(0), Some(CombatActivation::NoActivation));
}

fn agent_event(e: &CombatEventV1) -> AgentEvent {
    match e.classify().event {
        EventType::Agent { agent, instance, master_instance, event } => {
            assert_eq!(agent, e.src_agent());
            assert_eq!(instance, e.src_instid());
            assert_eq!(master_instance, e.src_master_instid());
            event
        },
        EventType::Meta(_) => panic!("log-level data"),
    }
}

#[test]
fn tagged_values() {
    let mut e = record();
    e.value = 12;
    e.skill_id = 9;
    e.is_src_moving = 1;
    let v = e.to_event().unwrap();
    assert_eq!(v, e.classify());
    assert_eq!(v.time, 1000);
    let damage = AgentEvent::WithTarget {
        agent: AgentId(20),
        instance: InstanceId(2),
        event: TargetData::Damage {
            skill: 9,
            damage: 12,
            flanking: false,
            moving: true,
            src_over90: false,
            hit_type: HitType::Normal,
        },
    };
    assert_eq!(
        v.event,
        EventType::Agent {
            agent: AgentId(10),
            instance: InstanceId(1),
            master_instance: None,
            event: damage,
        }
    );
    assert_eq!(e.match_activation(), damage);
    assert_eq!(e.agent_event(), damage);
    e.buff = 1;
    e.overstack = 3;
    e.src_master_instid = 4;
    assert_eq!(
        agent_event(&e),
        AgentEvent::WithTarget {
            agent: AgentId(20),
            instance: InstanceId(2),
            event: TargetData::Buff(9, BuffData::Application { duration: 12, overstack: 3 }),
        }
    );
    for (code, buff) in
        [(1u8, BuffData::RemoveAll), (2, BuffData::RemoveSingle), (3, BuffData::RemoveManual)]
    {
        e.is_buffremove = code;
        assert_eq!(
            agent_event(&e),
            AgentEvent::WithTarget {
                agent: AgentId(20),
                instance: InstanceId(2),
                event: TargetData::Buff(9, buff),
            }
        );
    }
    e.is_buffremove = 0;
    e.is_activation = 2;
    assert_eq!(agent_event(&e), AgentEvent::Activation { skill: 9, cast: CastType::Quickness(12) });
    e.is_activation = 0;
    e.is_statechange = 5;
    assert_eq!(agent_event(&e), AgentEvent::State(StateChange::ChangeDown));
    e.is_statechange = 77;
    assert_eq!(agent_event(&e), AgentEvent::Unclassified);
    assert_eq!(e.match_activation(), AgentEvent::Unclassified);
    assert!(!e.is_meta_event());
    assert_eq!(e.to_meta_event(), None);
    assert_eq!(e.kind(), EventKind::Source);
    e.is_statechange = 15;
    e.src_agent = 90210;
    assert_eq!(
        e.classify(),
        ClassifiedEvent { time: 1000, event: EventType::Meta(MetaEventData::Gw2Build(90210)) }
    );
    assert_eq!(e.to_event(), None);
}
