use evtc::event::classified::IntoEvent;
use evtc::event::raw::Agent as RawAgent;
use evtc::event::raw::CombatEventV1;
use evtc::metadata::Agent;
use evtc::metadata::AgentMetadata;
use evtc::AgentId;
use evtc::InstanceId;
use evtc::Profession;
use evtc::SpeciesId;

#[test]
fn empty_ids() {
    assert_eq!(AgentId::empty(), AgentId(0));
    assert_eq!(AgentId::default(), AgentId::new(0));
    assert_eq!(AgentId::new(u64::MAX).0, u64::MAX);
    assert_eq!(InstanceId::empty(), InstanceId(0));
    assert_eq!(InstanceId::default(), InstanceId::new(0));
    assert_eq!(InstanceId::new(513).0, 513);
    assert_eq!(SpeciesId::empty(), SpeciesId(0));
    assert_eq!(SpeciesId::default(), SpeciesId::new(0));
    assert_eq!(SpeciesId::new(0x3c4e).0, 0x3c4e);
}

#[test]
fn core_professions() {
    let pairs = [
        (Profession::Dragonhunter, Profession::Guardian),
        (Profession::Firebrand, Profession::Guardian),
        (Profession::Berserker, Profession::Warrior),
        (Profession::Spellbreaker, Profession::Warrior),
        (Profession::Herald, Profession::Revenant),
        (Profession::Renegade, Profession::Revenant),
        (Profession::Scrapper, Profession::Engineer),
        (Profession::Holosmith, Profession::Engineer),
        (Profession::Druid, Profession::Ranger),
        (Profession::Soulbeast, Profession::Ranger),
        (Profession::Daredevil, Profession::Thief),
        (Profession::Deadeye, Profession::Thief),
        (Profession::Tempest, Profession::Elementalist),
        (Profession::Weaver, Profession::Elementalist),
        (Profession::Chronomancer, Profession::Mesmer),
        (Profession::Mirage, Profession::Mesmer),
        (Profession::Reaper, Profession::Necromancer),
        (Profession::Scourge, Profession::Necromancer),
    ];
    for (elite, core) in pairs {
        assert_eq!(elite.core_profession(), core);
        assert_eq!(core.core_profession(), core);
        assert!(elite.is_player_character());
        assert_eq!(elite.species_id(), None);
    }
    let npc = Profession::NonPlayableCharacter(SpeciesId(5));
    assert_eq!(npc.core_profession(), npc);
    assert_eq!(Profession::Gadget(SpeciesId(6)).core_profession(), Profession::Gadget(SpeciesId(6)));
    assert_eq!(Profession::Unknown.core_profession(), Profession::Unknown);
}

fn agent(id: u64, instance: u16) -> Agent {
    Agent {
        inner: RawAgent {
            id: AgentId(id),
            profession: 1,
            is_elite: 0,
            toughness: 0,
            concentration: 0,
            healing: 0,
            condition_dmg: 0,
            name: [0; 68],
        },
        meta: AgentMetadata {
            instid: InstanceId(instance),
            first_aware: 1,
            last_aware: 2,
            master_instid: InstanceId(0),
            master_agent: AgentId(0),
            died: None,
            is_pov: false,
        },
    }
}

#[test]
fn tagged_values_know_their_agent() {
    let player = agent(10, 7);
    let mut e = CombatEventV1 {
        time: 1,
        src_agent: 10,
        dst_agent: 0,
        value: 0,
        buff_dmg: 0,
        overstack: 0,
        skill_id: 0,
        src_instid: 7,
        dst_instid: 0,
        src_master_instid: 0,
        iff: 0,
        buff: 0,
        result: 0,
        is_activation: 0,
        is_buffremove: 0,
        is_src_ninety: 0,
        is_dst_fifty: 0,
        is_src_moving: 0,
        is_statechange: 0,
        is_flanking: 0,
        is_shields: 0,
        is_offcycle: 0,
    };
    assert!(e.classify().from_agent_and_gadgets(&player));
    assert!(e.to_event().unwrap().event.from_agent_and_gadgets(&player));
    e.src_agent = 11;
    assert!(!e.classify().from_agent_and_gadgets(&player));
    e.src_master_instid = 7;
    assert!(e.classify().from_agent_and_gadgets(&player));
    e.src_master_instid = 8;
    assert!(!e.classify().from_agent_and_gadgets(&player));
    e.src_agent = 10;
    e.is_statechange = 9;
    assert!(!e.classify().from_agent_and_gadgets(&player));
    assert_eq!(player.id(), AgentId(10));
    assert_eq!(player.instance_id(), InstanceId(7));
    assert_eq!(player.profession(), Profession::Guardian);
    assert_eq!(player.master_agent(), AgentId(0));
    assert_eq!(player.name(), Ok(""));
}
