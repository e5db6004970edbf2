use evtc::buff::table::create_simulator;
use evtc::buff::table::meta_list;
use evtc::buff::table::meta_map;
use evtc::buff::table::stack_kind;
use evtc::buff::table::AnySimulator;
use evtc::buff::table::BuffMap;
use evtc::buff::table::StackKind;
use evtc::buff::BoxedSimulator;
use evtc::buff::BuffSnapshot;
use evtc::buff::Duration;
use evtc::buff::Intensity;
use evtc::buff::Queue;
use evtc::buff::Replace;
use evtc::buff::Simulator;
use evtc::buff::Stack;
use evtc::buff::StackMeta;
use evtc::buff::StackType;
use evtc::event::raw::CombatEventV1;
use evtc::event::BuffEvent;
use evtc::event::Event;
use evtc::AgentId;

fn buff_record(time: u64, src: u64, dst: u64, skill: u16, duration: i32, removal: u8) -> BuffEvent {
    CombatEventV1 {
        time,
        src_agent: src,
        dst_agent: dst,
        value: duration,
        buff_dmg: 0,
        overstack: 0,
        skill_id: skill,
        src_instid: 0,
        dst_instid: 0,
        src_master_instid: 0,
        iff: 0,
        buff: 1,
        result: 0,
        is_activation: 0,
        is_buffremove: removal,
        is_src_ninety: 0,
        is_dst_fifty: 0,
        is_src_moving: 0,
        is_statechange: 0,
        is_flanking: 0,
        is_shields: 0,
        is_offcycle: 0,
    }
    .into_buff()
    .unwrap()
}

#[test]
fn stack1() {
    let mut a = Duration(Queue, [3, 2, 0, 0, 0]);

    assert_eq!(a.stacks(), 2);
    assert_eq!(a.sum(), 5);

    a.push(4);

    // The currently active stack is not modified
    assert_eq!(a.1, [3, 4, 2, 0, 0]);
    assert_eq!(a.stacks(), 3);
    assert_eq!(a.sum(), 9);

    a.update(2);

    // Active stack is decreased
    assert_eq!(a.1, [1, 4, 2, 0, 0]);
    assert_eq!(a.stacks(), 3);
    assert_eq!(a.sum(), 7);

    a.update(4);

    assert_eq!(a.1, [1, 2, 0, 0, 0]);
    assert_eq!(a.stacks(), 2);
    assert_eq!(a.sum(), 3);
}

#[test]
fn disciplines() {
    assert!(Queue::can_replace(0, 0, 5));
    assert!(Queue::can_replace(0, 0, 0));
    assert!(!Queue::can_replace(0, 3, 5));
    assert!(Queue::can_replace(1, 3, 5));
    assert!(!Queue::can_replace(1, 5, 5));
    assert!(!Queue::can_replace(4, 6, 5));
    assert!(Replace::can_replace(0, 3, 5));
    assert!(Replace::can_replace(7, 0, 1));
    assert!(!Replace::can_replace(0, 5, 5));
    assert!(!Replace::can_replace(0, 0, 0));
}

#[test]
fn queue_push_reports_overstack() {
    let mut a = Duration(Queue, [9, 8, 7, 6, 5]);
    // 6 displaces 5, which finds no slot
    assert_eq!(a.push(6), 5);
    assert_eq!(a.1, [9, 8, 7, 6, 6]);
    // nothing is smaller than 4 behind the head
    assert_eq!(a.push(4), 4);
    assert_eq!(a.1, [9, 8, 7, 6, 6]);
    // 20 displaces 8, which displaces 7, and so on; the head stays
    assert_eq!(a.push(20), 6);
    assert_eq!(a.1, [9, 20, 8, 7, 6]);
    assert_eq!(a.push(0), 0);
    assert_eq!(a.1, [9, 20, 8, 7, 6]);
    let mut b = Duration(Queue, [0u32; 5]);
    assert_eq!(b.push(3), 0);
    assert_eq!(b.push(9), 0);
    assert_eq!(b.1, [3, 9, 0, 0, 0]);
    assert_eq!(b.stacks(), 2);
}

#[test]
fn replace_push_keeps_the_largest() {
    let mut a = Duration(Replace, [0u32; 1]);
    assert_eq!(a.push(60), 0);
    assert_eq!(a.push(30), 30);
    assert_eq!(a.1, [60]);
    assert_eq!(a.push(90), 60);
    assert_eq!(a.1, [90]);
    let mut b = Intensity(Replace, [5, 1, 9]);
    assert_eq!(b.push(4), 1);
    assert_eq!(b.1, [5, 4, 9]);
    assert_eq!(b.push(10), 4);
    assert_eq!(b.1, [10, 5, 9]);
}

#[test]
fn duration_update_uses_up_the_head_first() {
    let mut a = Duration(Queue, [5, 3, 2, 0, 0]);
    a.update(5);
    assert_eq!(a.1, [3, 2, 0, 0, 0]);
    a.update(4);
    assert_eq!(a.1, [1, 0, 0, 0, 0]);
    a.update(100);
    assert_eq!(a.1, [0, 0, 0, 0, 0]);
    assert_eq!(a.stacks(), 0);
    assert_eq!(a.sum(), 0);
    a.update(7);
    assert_eq!(a.1, [0, 0, 0, 0, 0]);
    // stacks move to the head in the order in which they stand
    let mut b = Duration(Queue, [1, 2, 9, 4, 0]);
    b.update(1);
    assert_eq!(b.1, [2, 9, 4, 0, 0]);
    b.update(0);
    assert_eq!(b.1, [2, 9, 4, 0, 0]);
    // an empty head stops the decay
    let mut c = Duration(Queue, [0, 2, 0, 0, 0]);
    c.update(1);
    assert_eq!(c.1, [0, 2, 0, 0, 0]);
    assert_eq!(c.stacks(), 0);
    assert_eq!(c.sum(), 2);
    let mut none: Duration<Queue, [u32; 0]> = Duration(Queue, []);
    none.update(3);
    assert_eq!(none.push(3), 3);
    assert_eq!(none.stacks(), 0);
    assert_eq!(none.sum(), 0);
}

#[test]
fn intensity_update_decays_every_stack() {
    let mut a = Intensity(Queue, [5, 2, 7, 0]);
    assert_eq!(a.stacks(), 3);
    assert_eq!(a.sum(), 14);
    a.update(3);
    assert_eq!(a.1, [2, 0, 4, 0]);
    assert_eq!(a.stacks(), 2);
    assert_eq!(a.sum(), 6);
    assert_eq!(a.push(1), 0);
    assert_eq!(a.1, [2, 1, 4, 0]);
    a.update(u32::MAX);
    assert_eq!(a.1, [0, 0, 0, 0]);
    a.clear();
    assert_eq!(a.1, [0, 0, 0, 0]);
}

#[test]
fn sums_stop_at_the_largest_value() {
    let a = Intensity(Replace, [u32::MAX, 1, 0]);
    assert_eq!(a.sum(), u32::MAX);
    let b = Duration(Queue, [u32::MAX - 1, 1]);
    assert_eq!(b.sum(), u32::MAX);
    let mut c = Duration(Queue, [7, 7]);
    c.clear();
    assert_eq!(c.1, [0, 0]);
}

#[test]
fn defaults_and_metadata() {
    let a: Duration<Queue, [u32; 5]> = Default::default();
    assert_eq!(a.1, [0; 5]);
    let b: Intensity<Replace, [u32; 25]> = Default::default();
    assert_eq!(b.1, [0; 25]);
    let c: Duration<Replace, [u32; 1]> = Default::default();
    assert_eq!(c.1, [0]);
    let d: Intensity<Queue, [u32; 25]> = Default::default();
    assert_eq!(d.stacks(), 0);
    assert_eq!(<Duration<Queue, [u32; 5]> as Stack>::stack_meta(), StackMeta::Duration);
    assert_eq!(
        <Intensity<Replace, [u32; 25]> as Stack>::stack_meta(),
        StackMeta::Intensity { max: 25 }
    );
    assert_eq!(
        <Intensity<Replace, [u32; 1500]> as Stack>::stack_meta(),
        StackMeta::Intensity { max: 1500 }
    );
}

#[test]
fn uptime_and_overstack_add_up_to_what_was_applied() {
    let agent = AgentId(1);
    let mut sim: Simulator<Duration<Queue, [u32; 5]>> = Simulator::new(agent, Default::default());
    let durations = [8000, 3000, 3000, 3000, 3000, 6000, 500, 20000, 1];
    let mut requested = 0u32;
    let mut time = 0;
    for d in durations {
        time += 700;
        sim.update(time);
        sim.add_event(buff_record(time, 9, 1, 1187, d, 0));
        requested += d as u32;
        assert_eq!(sim.uptime() + sim.overstack(), requested);
        assert_eq!(sim.stripped(), 0);
    }
    assert_eq!(sim.overstack(), 3000 + 500 + 3000 + 1);
    assert_eq!(sim.uptime(), requested - 6501);
}

#[test]
fn quickness_from_the_field() {
    // A well of 8s and four shatters of 3s; a signet of 6s then adds 3s only
    let mut sim: Simulator<Duration<Queue, [u32; 5]>> =
        Simulator::new(AgentId(1), Default::default());
    for d in [8000, 3000, 3000, 3000, 3000] {
        sim.add_event(buff_record(0, 1, 1, 1187, d, 0));
    }
    assert_eq!(sim.sum(), 20000);
    assert_eq!(sim.stacks(), 5);
    sim.update(7000);
    assert_eq!(sim.sum(), 13000);
    sim.add_event(buff_record(7000, 1, 1, 1187, 6000, 0));
    assert_eq!(sim.sum(), 16000);
    assert_eq!(sim.overstack(), 3000);
    assert_eq!(sim.uptime(), 23000);
}

#[test]
fn removal_strips_what_the_stack_holds() {
    let mut sim: Simulator<Intensity<Replace, [u32; 25]>> =
        Simulator::new(AgentId(1), Default::default());
    sim.add_event(buff_record(0, 2, 1, 740, 5000, 0));
    sim.add_event(buff_record(0, 2, 1, 740, 7000, 0));
    // aimed at someone else
    sim.add_event(buff_record(0, 2, 3, 740, 9000, 0));
    assert_eq!(sim.uptime(), 12000);
    sim.update(1000);
    assert_eq!(sim.sum(), 10000);
    // a removal from someone else
    sim.add_event(buff_record(1000, 3, 1, 740, 0, 1));
    assert_eq!(sim.sum(), 10000);
    for removal in [1u8, 2, 3] {
        let mut s = sim.clone();
        s.add_event(buff_record(1000, 1, 2, 740, 0, removal));
        assert_eq!(s.sum(), 0);
        assert_eq!(s.stacks(), 0);
        assert_eq!(s.stripped(), 10000);
        assert_eq!(s.uptime(), 2000);
        assert_eq!(s.overstack(), 0);
        s.finalize(60000);
        assert_eq!(s.uptime(), 2000);
        assert_eq!(s.uptime() + s.stripped() + s.overstack(), 12000);
    }
}

#[test]
fn removal_of_more_than_the_uptime_leaves_none() {
    let mut sim = Simulator::new(AgentId(1), Duration(Queue, [3, 2, 0, 0, 0]));
    assert_eq!(sim.uptime(), 0);
    sim.add_event(buff_record(0, 1, 1, 1187, 0, 1));
    assert_eq!(sim.uptime(), 0);
    assert_eq!(sim.stripped(), 5);
    assert_eq!(sim.sum(), 0);
}

#[test]
fn finalize_takes_back_what_is_left() {
    let mut sim: Simulator<Duration<Queue, [u32; 5]>> =
        Simulator::new(AgentId(1), Default::default());
    sim.update(1000);
    sim.add_event(buff_record(1000, 1, 1, 1187, 5000, 0));
    sim.add_event(buff_record(1000, 1, 1, 1187, 2000, 0));
    sim.finalize(4000);
    assert_eq!(sim.sum(), 4000);
    assert_eq!(sim.uptime(), 3000);
    assert_eq!(sim.overstack(), 0);
    assert_eq!(sim.stripped(), 0);
    let mut late: Simulator<Duration<Queue, [u32; 5]>> =
        Simulator::new(AgentId(1), Default::default());
    late.add_event(buff_record(0, 1, 1, 1187, 5000, 0));
    late.finalize(9000);
    assert_eq!(late.uptime(), 5000);
    assert_eq!(late.sum(), 0);
}

#[test]
fn time_does_not_run_backwards() {
    let mut sim: Simulator<Duration<Queue, [u32; 5]>> =
        Simulator::new(AgentId(1), Default::default());
    sim.update(5000);
    sim.add_event(buff_record(5000, 1, 1, 1187, 3000, 0));
    sim.update(4000);
    assert_eq!(sim.sum(), 3000);
    sim.update(4500);
    assert_eq!(sim.sum(), 2500);
}

#[test]
fn long_spans_of_time_are_exact() {
    let mut sim = Simulator::new(AgentId(1), Duration(Queue, [u32::MAX, u32::MAX, 5, 0, 0]));
    sim.update(u32::MAX as u64 + 10);
    assert_eq!(sim.stacks(), 2);
    assert_eq!(sim.sum(), u32::MAX - 5);
    sim.update(2 * (u32::MAX as u64) + 2);
    assert_eq!(sim.stacks(), 1);
    assert_eq!(sim.sum(), 3);
    sim.update(u64::MAX);
    assert_eq!(sim.sum(), 0);
}

#[test]
fn counters_stop_at_the_largest_value() {
    let mut sim: Simulator<Intensity<Replace, [u32; 25]>> =
        Simulator::new(AgentId(1), Default::default());
    sim.add_event(buff_record(0, 1, 1, 740, -1, 0));
    sim.add_event(buff_record(0, 1, 1, 740, -1, 0));
    assert_eq!(sim.uptime(), u32::MAX);
    assert_eq!(sim.sum(), u32::MAX);
    sim.add_event(buff_record(0, 1, 1, 740, 0, 1));
    assert_eq!(sim.stripped(), u32::MAX);
    assert_eq!(sim.uptime(), 0);
}

#[test]
fn table_of_buffs() {
    for id in [743u16, 30328, 725, 717, 1187, 718, 26980, 873, 719, 726] {
        assert_eq!(stack_kind(id), Some(StackKind::QueuedDuration));
    }
    assert_eq!(stack_kind(740), Some(StackKind::ReplacedIntensity));
    assert_eq!(stack_kind(1122), Some(StackKind::QueuedIntensity));
    assert_eq!(stack_kind(14417), Some(StackKind::SingleDuration));
    assert_eq!(stack_kind(14449), Some(StackKind::SingleDuration));
    assert_eq!(stack_kind(0), None);
    assert_eq!(stack_kind(741), None);
    assert_eq!(StackKind::QueuedDuration.stack_meta(), StackMeta::Duration);
    assert_eq!(StackKind::SingleDuration.stack_meta(), StackMeta::Duration);
    assert_eq!(StackKind::QueuedIntensity.stack_meta(), StackMeta::Intensity { max: 25 });
    let list = meta_list();
    assert_eq!(list.len(), 14);
    for m in &list {
        assert_eq!(Some(m.stack), stack_kind(m.skill_id).map(|k| k.stack_meta()));
    }
    let names: Vec<&str> = list.iter().map(|m| m.name).collect();
    assert_eq!(names[0], "Aegis");
    assert_eq!(names[3], "Might");
    assert_eq!(names[13], "Banner of Discipline");
    assert_eq!(list[5].skill_id, 1187);
    assert_eq!(meta_map().0.len(), 14);
}

#[test]
fn simulators_by_skill() {
    assert!(matches!(create_simulator(AgentId(1), 1187), AnySimulator::QueuedDuration(_)));
    assert!(matches!(create_simulator(AgentId(1), 740), AnySimulator::ReplacedIntensity(_)));
    assert!(matches!(create_simulator(AgentId(1), 1122), AnySimulator::QueuedIntensity(_)));
    assert!(matches!(create_simulator(AgentId(1), 14417), AnySimulator::SingleDuration(_)));
    assert!(matches!(create_simulator(AgentId(1), 5), AnySimulator::Untracked));
    let zero = BuffSnapshot { stacks: 0, sum: 0, uptime: 0, overstack: 0, stripped: 0 };
    let mut unknown = create_simulator(AgentId(1), 5);
    unknown.update(10);
    unknown.add_event(buff_record(10, 1, 1, 5, 1000, 0));
    unknown.finalize(20);
    assert_eq!(unknown.snapshot(), zero);
    let mut might = create_simulator(AgentId(1), 740);
    assert_eq!(might.snapshot(), zero);
    might.add_event(buff_record(0, 1, 1, 740, 1000, 0));
    might.add_event(buff_record(0, 1, 1, 740, 3000, 0));
    might.update(500);
    assert_eq!(
        might.snapshot(),
        BuffSnapshot { stacks: 2, sum: 3000, uptime: 4000, overstack: 0, stripped: 0 }
    );
}

#[test]
fn untracked_simulator_reports_nothing() {
    let mut unit = ();
    BoxedSimulator::<BuffEvent>::update(&mut unit, 5);
    BoxedSimulator::<BuffEvent>::add_event(&mut unit, buff_record(5, 1, 1, 740, 100, 0));
    BoxedSimulator::<BuffEvent>::finalize(&mut unit, 9);
    assert_eq!(BoxedSimulator::<BuffEvent>::stacks(&unit), 0);
    assert_eq!(BoxedSimulator::<BuffEvent>::sum(&unit), 0);
    assert_eq!(BoxedSimulator::<BuffEvent>::uptime(&unit), 0);
    assert_eq!(BoxedSimulator::<BuffEvent>::overstack(&unit), 0);
    assert_eq!(BoxedSimulator::<BuffEvent>::stripped(&unit), 0);
    let mut sim: Simulator<Duration<Replace, [u32; 1]>> =
        Simulator::new(AgentId(1), Default::default());
    BoxedSimulator::<BuffEvent>::add_event(&mut sim, buff_record(0, 1, 1, 14417, 100, 0));
    BoxedSimulator::<BuffEvent>::add_event(&mut sim, buff_record(0, 1, 1, 14417, 40, 0));
    BoxedSimulator::<BuffEvent>::update(&mut sim, 10);
    assert_eq!(BoxedSimulator::<BuffEvent>::stacks(&sim), 1);
    assert_eq!(BoxedSimulator::<BuffEvent>::sum(&sim), 90);
    assert_eq!(BoxedSimulator::<BuffEvent>::uptime(&sim), 100);
    assert_eq!(BoxedSimulator::<BuffEvent>::overstack(&sim), 40);
    BoxedSimulator::<BuffEvent>::finalize(&mut sim, 20);
    assert_eq!(BoxedSimulator::<BuffEvent>::uptime(&sim), 20);
    assert_eq!(BoxedSimulator::<BuffEvent>::stripped(&sim), 0);
}

#[test]
fn buffs_of_one_agent() {
    let mut map = BuffMap::new(AgentId(1));
    assert_eq!(map.len(), 0);
    assert!(map.snapshots().is_empty());
    map.add_event(buff_record(0, 1, 1, 1187, 4000, 0));
    map.add_event(buff_record(0, 1, 1, 740, 10000, 0));
    map.add_event(buff_record(0, 1, 1, 4242, 10000, 0));
    map.add_event(buff_record(0, 1, 2, 725, 10000, 0));
    map.add_event(buff_record(0, 1, 1, 1187, 2000, 0));
    assert_eq!(map.len(), 4);
    map.update(1000);
    assert_eq!(
        map.snapshots(),
        vec![
            (1187, BuffSnapshot { stacks: 2, sum: 5000, uptime: 6000, overstack: 0, stripped: 0 }),
            (740, BuffSnapshot { stacks: 1, sum: 9000, uptime: 10000, overstack: 0, stripped: 0 }),
        ]
    );
    map.add_event(buff_record(1000, 1, 7, 740, 0, 1));
    map.finalize(3000);
    assert_eq!(
        map.snapshots(),
        vec![
            (1187, BuffSnapshot { stacks: 2, sum: 3000, uptime: 3000, overstack: 0, stripped: 0 }),
            (740, BuffSnapshot { stacks: 0, sum: 0, uptime: 1000, overstack: 0, stripped: 9000 }),
        ]
    );
    assert_eq!(map.len(), 4);
    assert_eq!(buff_record(1, 2, 3, 4, 5, 0).raw().skill_id, 4);
}

#[test]
fn a_buff_seen_late_starts_at_the_time_reached() {
    let mut map = BuffMap::new(AgentId(1));
    map.update(5_000_000);
    map.add_event(buff_record(5_000_000, 1, 1, 1187, 4000, 0));
    map.update(5_000_100);
    assert_eq!(
        map.snapshots(),
        vec![(1187, BuffSnapshot { stacks: 1, sum: 3900, uptime: 4000, overstack: 0, stripped: 0 })]
    );
}
