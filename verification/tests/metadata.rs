use evtc::event::raw::Agent as RawAgent;
use evtc::event::raw::CombatEventV1;
use evtc::event::raw::Evtc;
use evtc::event::raw::Header;
use evtc::event::raw::Language;
use evtc::event::raw::Skill;
use evtc::event::Event;
use evtc::iterator::agent_ids;
use evtc::iterator::EventIteratorExt;
use evtc::metadata::boss_profession;
use evtc::metadata::AgentMetadata;
use evtc::metadata::Metadata;
use evtc::metadata::Resolver;
use evtc::AgentId;
use evtc::Boss;
use evtc::InstanceId;
use evtc::Profession;
use evtc::SpeciesId;

fn record(time: u64, src: u64, instid: u16) -> CombatEventV1 {
    CombatEventV1 {
        time,
        src_agent: src,
        dst_agent: 0,
        value: 0,
        buff_dmg: 0,
        overstack: 0,
        skill_id: 0,
        src_instid: instid,
        dst_instid: 0,
        src_master_instid: 0,
        iff: 0,
        buff: 0,
        result: 0,
        is_activation: 0,
        is_buffremove: 0,
        is_src_ninety: 0,
        is_dst_fifty: 0,
        is_src_moving: 0,
        is_statechange: 0,
        is_flanking: 0,
        is_shields: 0,
        is_offcycle: 0,
    }
}

fn state(time: u64, src: u64, instid: u16, code: u8) -> CombatEventV1 {
    let mut e = record(time, src, instid);
    e.is_statechange = code;
    e
}

fn minion(time: u64, src: u64, instid: u16, master: u16) -> CombatEventV1 {
    let mut e = record(time, src, instid);
    e.src_master_instid = master;
    e
}

fn meta_record(code: u8, src: u64, value: i32) -> CombatEventV1 {
    let mut e = record(0, src, 0);
    e.is_statechange = code;
    e.value = value;
    e
}

fn agent(id: u64, is_elite: u32, profession: u32) -> RawAgent {
    let mut name = [0u8; 68];
    name[..3].copy_from_slice(b"ab\0");
    RawAgent {
        id: AgentId(id),
        profession,
        is_elite,
        toughness: 0,
        concentration: 0,
        healing: 0,
        condition_dmg: 0,
        name,
    }
}

fn npc(id: u64, species: u16) -> RawAgent {
    agent(id, 0xFFFF_FFFF, species as u32)
}

fn gadget(id: u64, species: u16) -> RawAgent {
    agent(id, 0xFFFF_FFFF, 0xFFFF_0000 | species as u32)
}

fn log(boss: u16, agents: Vec<RawAgent>, events: Vec<CombatEventV1>) -> Evtc {
    Evtc {
        header: Header {
            version: *b"EVTC20180710",
            boss_id: SpeciesId(boss),
            position: 0,
            agents: agents.len() as u32,
        },
        agents,
        skills: vec![Skill { id: 0, name: [0; 64] }, Skill { id: 7, name: [0; 64] }],
        events,
    }
}

fn observe(r: &mut Resolver, e: CombatEventV1) {
    r.observe(&e.into_source().unwrap());
}

#[test]
fn first_record_sets_both_times() {
    let mut r = Resolver::new();
    assert_eq!(r.len(), 0);
    assert_eq!(r.metadata(AgentId(1)), AgentMetadata::default());
    observe(&mut r, record(500, 1, 11));
    assert_eq!(
        r.metadata(AgentId(1)),
        AgentMetadata {
            instid: InstanceId(11),
            first_aware: 500,
            last_aware: 500,
            master_instid: InstanceId(0),
            master_agent: AgentId(0),
            died: None,
            is_pov: false,
        }
    );
    observe(&mut r, record(900, 1, 12));
    let m = r.metadata(AgentId(1));
    assert_eq!(m.first_aware, 500);
    assert_eq!(m.last_aware, 900);
    assert_eq!(m.instid, InstanceId(11));
    assert_eq!(r.len(), 1);
}

#[test]
fn unseen_agents_have_the_default() {
    let m = AgentMetadata::default();
    assert_eq!(m.first_aware, 0);
    assert_eq!(m.last_aware, u64::MAX);
    assert_eq!(m.instid, InstanceId::empty());
    assert_eq!(m.died, None);
    assert!(!m.is_pov);
}

#[test]
fn instance_follows_spawns() {
    for code in [1u8, 6, 12] {
        let mut r = Resolver::new();
        observe(&mut r, record(1, 1, 11));
        observe(&mut r, state(2, 1, 22, code));
        assert_eq!(r.metadata(AgentId(1)).instid, InstanceId(22), "code {}", code);
    }
    for code in [13u8, 4, 7] {
        let mut r = Resolver::new();
        observe(&mut r, state(2, 1, 22, code));
        assert_eq!(r.metadata(AgentId(1)).instid, InstanceId(0), "code {}", code);
        observe(&mut r, state(3, 1, 23, 3));
        assert_eq!(r.metadata(AgentId(1)).instid, InstanceId(23));
        observe(&mut r, state(4, 1, 24, 3));
        assert_eq!(r.metadata(AgentId(1)).instid, InstanceId(23));
    }
}

#[test]
fn point_of_view_and_death() {
    let mut r = Resolver::new();
    observe(&mut r, state(1, 1, 11, 13));
    assert!(r.metadata(AgentId(1)).is_pov);
    assert_eq!(r.metadata(AgentId(1)).died, None);
    observe(&mut r, state(40, 1, 11, 4));
    assert_eq!(r.metadata(AgentId(1)).died, Some(40));
    observe(&mut r, state(50, 1, 11, 5));
    assert_eq!(r.metadata(AgentId(1)).died, Some(40));
    observe(&mut r, state(60, 1, 11, 7));
    assert_eq!(r.metadata(AgentId(1)).died, Some(60));
    assert!(r.metadata(AgentId(1)).is_pov);
}

#[test]
fn phase_skills_count_as_death() {
    for (skill, removal, died) in
        [(762u16, 0u8, Some(9)), (34113, 0, Some(9)), (763, 0, None), (762, 1, None)]
    {
        let mut r = Resolver::new();
        let mut e = record(9, 1, 11);
        e.buff = 1;
        e.skill_id = skill;
        e.is_buffremove = removal;
        observe(&mut r, e);
        assert_eq!(r.metadata(AgentId(1)).died, died, "skill {}", skill);
    }
    // damage of the same skill is no signal
    let mut r = Resolver::new();
    let mut e = record(9, 1, 11);
    e.skill_id = 762;
    observe(&mut r, e);
    assert_eq!(r.metadata(AgentId(1)).died, None);
}

#[test]
fn minions_resolve_to_the_holder_of_the_instance() {
    let mut r = Resolver::new();
    observe(&mut r, state(1, 100, 7, 1));
    observe(&mut r, state(1, 200, 8, 1));
    observe(&mut r, minion(2, 300, 40, 8));
    let m = r.metadata(AgentId(300));
    assert_eq!(m.master_instid, InstanceId(8));
    assert_eq!(m.master_agent, AgentId(200));
    assert_eq!(r.find_instance(InstanceId(7)), Some(AgentId(100)));
    assert_eq!(r.find_instance(InstanceId(8)), Some(AgentId(200)));
    assert_eq!(r.find_instance(InstanceId(40)), Some(AgentId(300)));
    assert_eq!(r.find_instance(InstanceId(9)), None);
    // the owner gets another instance; later records follow it
    observe(&mut r, state(3, 100, 8, 6));
    observe(&mut r, state(3, 200, 9, 6));
    observe(&mut r, minion(4, 300, 40, 8));
    assert_eq!(r.metadata(AgentId(300)).master_agent, AgentId(100));
}

#[test]
fn unresolved_master_stays_unresolved() {
    let mut r = Resolver::new();
    observe(&mut r, minion(2, 300, 40, 8));
    let m = r.metadata(AgentId(300));
    assert_eq!(m.master_instid, InstanceId(8));
    assert_eq!(m.master_agent, AgentId(0));
    observe(&mut r, state(3, 200, 8, 1));
    assert_eq!(r.metadata(AgentId(300)).master_agent, AgentId(0));
    observe(&mut r, minion(4, 300, 40, 8));
    assert_eq!(r.metadata(AgentId(300)).master_agent, AgentId(200));
    // a record whose master is not known keeps the one that was found
    observe(&mut r, minion(5, 300, 40, 99));
    let m = r.metadata(AgentId(300));
    assert_eq!(m.master_instid, InstanceId(99));
    assert_eq!(m.master_agent, AgentId(200));
}

#[test]
fn among_agents_that_are_no_players_the_first_seen_wins() {
    let mut r = Resolver::new();
    observe(&mut r, state(1, 100, 8, 1));
    observe(&mut r, state(1, 200, 8, 1));
    observe(&mut r, minion(2, 300, 40, 8));
    assert_eq!(r.metadata(AgentId(300)).master_agent, AgentId(100));
    assert_eq!(r.find_instance(InstanceId(8)), Some(AgentId(100)));
    assert_eq!(r.len(), 3);
}

#[test]
fn a_player_that_holds_the_instance_wins() {
    let mut r = Resolver::with_players(vec![AgentId(200), AgentId(400)]);
    observe(&mut r, state(1, 100, 8, 1));
    observe(&mut r, state(1, 200, 8, 1));
    observe(&mut r, state(1, 400, 9, 1));
    observe(&mut r, minion(2, 300, 40, 8));
    assert_eq!(r.metadata(AgentId(300)).master_agent, AgentId(200));
    assert_eq!(r.find_instance(InstanceId(8)), Some(AgentId(200)));
    assert_eq!(r.find_instance(InstanceId(9)), Some(AgentId(400)));
    // the second player takes the same instance id: the player seen first wins
    observe(&mut r, state(3, 400, 8, 6));
    observe(&mut r, minion(4, 300, 40, 8));
    assert_eq!(r.metadata(AgentId(300)).master_agent, AgentId(200));
    // no player holds this one: the agent that holds it is found
    observe(&mut r, state(5, 100, 77, 6));
    assert_eq!(r.find_instance(InstanceId(77)), Some(AgentId(100)));
    assert_eq!(r.find_instance(InstanceId(78)), None);
}

#[test]
fn the_player_of_the_agent_table_is_the_master() {
    // an NPC that is gone is still known under the instance id of the player
    let e = log(
        1,
        vec![npc(600, 0x1111), agent(100, 0, 2), gadget(300, 0x2222)],
        vec![state(10, 600, 7, 6), state(20, 100, 7, 1), minion(30, 300, 30, 7)],
    );
    let m = Metadata::new(&e);
    assert_eq!(m.agents()[2].master_agent(), AgentId(100));
    let minions: Vec<AgentId> =
        m.agents_for_master(&m.agents()[1]).iter().map(|a| a.id()).collect();
    assert_eq!(minions, vec![AgentId(300)]);
    assert!(m.agents_for_master(&m.agents()[0]).is_empty());
}

#[test]
fn log_level_records() {
    let events = vec![
        meta_record(9, 0x637261, 1_500_000_000),
        meta_record(14, 2, 0),
        meta_record(15, 88_000, 0),
        meta_record(16, 42, 0),
        meta_record(10, 0x637261, -1),
    ];
    let e = log(1, vec![], events);
    let m = Metadata::new(&e);
    assert_eq!(m.log_start_time(), 1_500_000_000);
    assert_eq!(m.log_end_time(), u32::MAX);
    assert_eq!(m.language(), Language::French);
    assert_eq!(m.game_build(), 88_000);
    assert_eq!(m.server_shard(), 42);
    let none = log(1, vec![], vec![]);
    let m = Metadata::new(&none);
    assert_eq!(m.log_start_time(), u32::MAX);
    assert_eq!(m.log_end_time(), 0);
    assert_eq!(m.log_start(), u64::MAX);
    assert_eq!(m.log_end(), 0);
    assert_eq!(m.series_capacity(), 0);
    assert_eq!(m.language(), Language::English);
    assert_eq!(m.game_build(), 0);
    assert_eq!(m.server_shard(), 0);
    assert_eq!(m.encounter_window(), (u64::MAX, 0));
    assert!(m.encounter_events().is_empty());
    assert!(m.success());
}

fn encounter() -> Evtc {
    log(
        0x3c4e,
        vec![
            agent(100, 0, 2),
            npc(500, 0x3c4e),
            npc(501, 0x3c4e),
            npc(600, 0x1111),
            gadget(300, 0x2222),
            agent(900, 0, 7),
        ],
        vec![
            state(10, 100, 7, 1),
            state(10, 100, 7, 13),
            meta_record(9, 1, 5),
            state(20, 600, 60, 6),
            state(30, 500, 50, 6),
            minion(35, 300, 30, 7),
            state(50, 501, 51, 6),
            record(60, 100, 7),
            state(70, 500, 50, 4),
            state(80, 600, 60, 3),
            state(90, 501, 51, 3),
            record(95, 100, 7),
        ],
    )
}

#[test]
fn agents_are_joined_with_their_metadata() {
    let e = encounter();
    let m = Metadata::new(&e);
    let agents = m.agents();
    assert_eq!(agents.len(), 6);
    assert_eq!(agents[0].id(), AgentId(100));
    assert_eq!(agents[0].instance_id(), InstanceId(7));
    assert_eq!(agents[0].first_aware(), 10);
    assert_eq!(agents[0].last_aware(), 95);
    assert!(agents[0].is_pov());
    assert!(!agents[0].did_die());
    assert_eq!(agents[0].profession(), Profession::Warrior);
    assert_eq!(agents[0].name(), Ok("ab"));
    assert_eq!(agents[0].account_name(), Ok(""));
    assert_eq!(agents[1].died(), Some(70));
    assert!(agents[1].did_die());
    assert_eq!(agents[4].master_agent(), AgentId(100));
    assert_eq!(agents[4].first_aware(), 35);
    // no record speaks of the last agent
    assert_eq!(agents[5].meta, AgentMetadata::default());
    assert_eq!(agents[5].last_aware(), u64::MAX);
    let minions: Vec<AgentId> = m.agents_for_master(&agents[0]).iter().map(|a| a.id()).collect();
    assert_eq!(minions, vec![AgentId(300)]);
    assert!(m.agents_for_master(&agents[1]).is_empty());
}

#[test]
fn window_spans_all_bosses() {
    let e = encounter();
    let m = Metadata::new(&e);
    let bosses = m.bosses();
    let ids: Vec<AgentId> = bosses.iter().map(|a| a.id()).collect();
    assert_eq!(ids, vec![AgentId(500), AgentId(501)]);
    assert_eq!(m.boss_ids(), ids);
    assert_eq!(agent_ids(&bosses), ids);
    assert_eq!(m.boss(), Boss::ValeGuardian);
    let (start, end) = m.encounter_window();
    assert_eq!((start, end), (30, 90));
    assert_eq!(m.log_start(), 30);
    assert_eq!(m.log_end(), 90);
    assert_eq!(m.series_capacity(), 0);
    for b in &bosses {
        assert!(m.log_start() <= b.first_aware());
        assert!(m.log_end() >= b.last_aware());
    }
    let times: Vec<u64> = m.encounter_events().iter().map(|e| e.time).collect();
    assert_eq!(times, vec![30, 35, 50, 60, 70, 80, 90]);
    assert!(!m.success());
}

#[test]
fn success_needs_every_boss_dead() {
    let mut e = encounter();
    e.events.push(state(99, 501, 51, 7));
    let m = Metadata::new(&e);
    assert!(m.success());
    assert_eq!(m.encounter_window(), (30, 99));
}

#[test]
fn extra_boss_species() {
    let xera = SpeciesId(16246);
    let deimos = SpeciesId(17154);
    assert!(boss_profession(xera, Profession::NonPlayableCharacter(xera)));
    assert!(boss_profession(xera, Profession::NonPlayableCharacter(SpeciesId(16286))));
    assert!(!boss_profession(xera, Profession::Gadget(SpeciesId(16286))));
    assert!(!boss_profession(deimos, Profession::NonPlayableCharacter(SpeciesId(16286))));
    assert!(boss_profession(deimos, Profession::Gadget(SpeciesId(8467))));
    assert!(boss_profession(deimos, Profession::Gadget(SpeciesId(8471))));
    assert!(!boss_profession(deimos, Profession::Gadget(SpeciesId(8468))));
    assert!(!boss_profession(xera, Profession::Gadget(SpeciesId(8467))));
    assert!(!boss_profession(xera, Profession::Guardian));
    assert!(!boss_profession(SpeciesId(0), Profession::Unknown));
    let e =
        log(17154, vec![gadget(1, 8467), npc(2, 17154), gadget(3, 8470), gadget(4, 8471)], vec![]);
    let m = Metadata::new(&e);
    let ids: Vec<AgentId> = m.bosses().iter().map(|a| a.id()).collect();
    assert_eq!(ids, vec![AgentId(1), AgentId(2), AgentId(4)]);
    assert_eq!(m.boss(), Boss::Deimos);
}

#[test]
fn bosses_by_species() {
    let known = [
        (0x3c4e, Boss::ValeGuardian),
        (0x3c45, Boss::Gorseval),
        (0x3c0f, Boss::Sabetha),
        (0x3efb, Boss::Slothasor),
        (0x3ef3, Boss::Matthias),
        (0x3f6b, Boss::KeepConstruct),
        (0x3f76, Boss::Xera),
        (0x432a, Boss::Cairn),
        (0x4314, Boss::MursaatOverseer),
        (0x4324, Boss::Samarog),
        (0x4302, Boss::Deimos),
        (0x4d37, Boss::SoullessHorror),
        (0x4bfa, Boss::Dhuum),
        (0x3f9e, Boss::Unknown),
        (0, Boss::Unknown),
    ];
    for (species, boss) in known {
        assert_eq!(Boss::from_species_id(SpeciesId::new(species)), boss);
    }
}

#[test]
fn skills_of_a_log() {
    let e = encounter();
    let m = Metadata::new(&e);
    let ids: Vec<u32> = m.skills().iter().map(|k| k.id()).collect();
    assert_eq!(ids, vec![0, 7, 1066, 1175, 65001, 65534]);
    let listed: Vec<u32> = m.skill_list().entries().iter().map(|k| k.id()).collect();
    assert_eq!(listed, vec![7]);
}

#[test]
fn walks_pick_in_order() {
    let e = encounter();
    let m = Metadata::new(&e);
    let player = m.agents()[0];
    let boss = m.agents()[1];
    let events = e.events.as_slice();
    let times = |v: Vec<evtc::event::SourceEvent>| v.iter().map(|e| e.time()).collect::<Vec<u64>>();
    assert_eq!(times(events.from_agent(&player).collect()), vec![10, 10, 60, 95]);
    assert_eq!(times(events.from_agent_or_gadgets(&player).collect()), vec![10, 10, 35, 60, 95]);
    assert_eq!(times(events.related_to(&boss).collect()), vec![30, 70]);
    let ids = [AgentId(600), AgentId(501)];
    assert_eq!(times(events.from_any_of(&ids).collect()), vec![20, 50, 80, 90]);
    let mut walk = events.from_agent(&boss);
    assert_eq!(walk.next().map(|e| e.time()), Some(30));
    assert_eq!(walk.next().map(|e| e.time()), Some(70));
    assert!(walk.next().is_none());
    assert!(walk.next().is_none());
    let mut hit = record(61, 100, 7);
    hit.dst_agent = 500;
    let more = vec![record(1, 2, 3), hit, state(62, 100, 7, 8)];
    let aimed: Vec<u64> = more.as_slice().targeting(&boss).collect().iter().map(|e| e.time()).collect();
    assert_eq!(aimed, vec![61]);
    let any: Vec<u64> = more
        .as_slice()
        .targeting_any_of(&[AgentId(0), AgentId(500)])
        .collect()
        .iter()
        .map(|e| e.time())
        .collect();
    assert_eq!(any, vec![1, 61]);
    assert_eq!(times(more.as_slice().related_to(&boss).collect()), vec![61]);
}

#[test]
fn a_boss_of_which_no_record_speaks_bounds_the_window() {
    let e = log(0x3c4e, vec![npc(500, 0x3c4e)], vec![record(5000, 1, 1), record(9000, 1, 1)]);
    let m = Metadata::new(&e);
    let boss = m.bosses()[0];
    assert_eq!((boss.first_aware(), boss.last_aware()), (0, u64::MAX));
    assert_eq!(m.log_start(), 0);
    assert_eq!(m.log_end(), u64::MAX);
    assert!(m.log_start() <= boss.first_aware());
    assert!(m.log_end() >= boss.last_aware());
    // room for no more entries than there are records
    assert_eq!(m.series_capacity(), 2);
    assert_eq!(m.log_start_time(), u32::MAX);
    assert_eq!(m.log_end_time(), 0);
}

#[test]
fn room_for_one_entry_for_each_second() {
    let mut events = vec![state(1000, 500, 50, 6)];
    for i in 0..20 {
        events.push(record(1000 + i * 500, 500, 50));
    }
    let e = log(0x3c4e, vec![npc(500, 0x3c4e)], events);
    let m = Metadata::new(&e);
    assert_eq!((m.log_start(), m.log_end()), (1000, 10_500));
    assert_eq!(m.series_capacity(), 9);
}
