use std::collections::hash_map::DefaultHasher;
use std::collections::VecDeque;
use std::hash::{Hash, Hasher};

use worker_registry::name::Name;
use worker_registry::registry::Registry;
use worker_registry::request::{Change, Request};
use worker_registry::worker::{Action, Event, Phase, Worker};

fn standard_fanout(text: &str) -> u64 {
    let mut hasher = DefaultHasher::new();
    text.to_string().hash(&mut hasher);
    hasher.finish() % 3
}

/// Carries out what a worker asked for: requests go to the registry, and
/// children are handed back to be started.
fn perform(actions: Vec<Action>, handle: u64, registry: &mut Registry<u64>, lines: &mut Vec<String>) -> Vec<Name> {
    let mut spawned = Vec::new();
    for action in actions {
        match action {
            Action::Register { name } => {
                lines.push(registry.deliver(Request::Register { name, handle }).line());
            }
            Action::Unregister { name } => {
                lines.push(registry.deliver(Request::Unregister { name }).line());
            }
            Action::Spawn { name } => spawned.push(name),
            Action::ArmTimer { .. } | Action::Halt => {}
        }
    }
    spawned
}

#[test]
fn worker_a_from_start_to_children() {
    let mut registry: Registry<u64> = Registry::new();
    let mut worker = Worker::new(Name::from_str("A"));

    let actions = worker.handle(Event::Started);
    assert_eq!(actions[0], Action::Register { name: Name::from_str("A") });
    assert_eq!(actions[1], Action::ArmTimer { millis: 100 });
    let notice = registry.deliver(Request::Register { name: Name::from_str("A"), handle: 0 });
    assert_eq!(notice.change, Change::Registered);
    assert_eq!(notice.name, Name::from_str("A"));
    assert_eq!(notice.size, 1);
    assert_eq!(notice.line(), "registering A in the phone book, up to 1");

    assert_eq!(worker.handle(Event::Signal), vec![Action::Halt]);

    let actions = worker.handle(Event::Halted);
    assert_eq!(worker.phase(), Phase::Stopped);
    assert_eq!(actions[0], Action::Unregister { name: Name::from_str("A") });
    let notice = registry.deliver(Request::Unregister { name: Name::from_str("A") });
    assert_eq!(notice.change, Change::Removed);
    assert_eq!(notice.name, Name::from_str("A"));
    assert_eq!(notice.size, 0);
    assert_eq!(notice.line(), "removing A in the phone book, down to 0");

    let k = standard_fanout("A");
    assert_eq!(actions.len() as u64, 1 + k);
    let mut size = 0;
    for i in 0..k {
        let child = Name::from_str(&format!("A.{}", i));
        assert_eq!(actions[1 + i as usize], Action::Spawn { name: child.clone() });
        let mut kid = Worker::new(child.clone());
        let first = kid.handle(Event::Started);
        assert_eq!(first[0], Action::Register { name: child.clone() });
        let notice = registry.deliver(Request::Register { name: child.clone(), handle: 1 + i });
        size += 1;
        assert_eq!(notice.size, size);
        assert!(registry.contains(&child));
    }
    assert_eq!(registry.len() as u64, k);
    assert!(!registry.contains(&Name::from_str("A")));
}

#[test]
fn registry_follows_the_live_workers() {
    let mut registry: Registry<u64> = Registry::new();
    let mut lines: Vec<String> = Vec::new();
    let mut next_handle: u64 = 0;
    let mut waiting: VecDeque<(Worker, u64)> = VecDeque::new();
    for i in 0..10u64 {
        waiting.push_back((Worker::new(Name::from_index(i)), next_handle));
        next_handle += 1;
    }
    let mut running: VecDeque<(Worker, u64)> = VecDeque::new();
    let mut started = 0;
    let mut stopped = 0;
    let mut generations = 0;
    while generations < 6 && !waiting.is_empty() {
        while let Some((mut worker, handle)) = waiting.pop_front() {
            let actions = worker.handle(Event::Started);
            assert!(perform(actions, handle, &mut registry, &mut lines).is_empty());
            started += 1;
            assert!(registry.contains(worker.name()));
            assert_eq!(registry.get(worker.name()), Some(&handle));
            running.push_back((worker, handle));
        }
        assert_eq!(registry.len(), running.len());
        let mut live = running.len();
        while let Some((mut worker, handle)) = running.pop_front() {
            assert_eq!(worker.handle(Event::Signal), vec![Action::Halt]);
            let actions = worker.handle(Event::Halted);
            let kids = perform(actions, handle, &mut registry, &mut lines);
            stopped += 1;
            live -= 1;
            assert_eq!(registry.len(), live);
            assert!(!registry.contains(worker.name()));
            assert_eq!(kids.len() as u64, standard_fanout(worker.name().as_str()));
            for (i, kid) in kids.into_iter().enumerate() {
                assert_eq!(kid.as_str(), format!("{}.{}", worker.name().as_str(), i));
                waiting.push_back((Worker::new(kid), next_handle));
                next_handle += 1;
            }
            assert_eq!(worker.phase(), Phase::Stopped);
            assert!(worker.handle(Event::Signal).is_empty());
        }
        generations += 1;
    }
    assert_eq!(registry.len(), 0);
    assert_eq!(started, stopped);
    assert_eq!(lines.len(), 2 * started);
    assert_eq!(lines[0], "registering 0 in the phone book, up to 1");
    assert_eq!(lines[9], "registering 9 in the phone book, up to 10");
    assert_eq!(lines[10], "removing 0 in the phone book, down to 9");
}

#[test]
fn a_stale_signal_is_dropped() {
    let mut registry: Registry<u64> = Registry::new();
    let mut lines: Vec<String> = Vec::new();
    let mut worker = Worker::new(Name::from_str("A"));
    perform(worker.handle(Event::Started), 0, &mut registry, &mut lines);
    perform(worker.handle(Event::Signal), 0, &mut registry, &mut lines);
    perform(worker.handle(Event::Halted), 0, &mut registry, &mut lines);
    assert_eq!(lines.len(), 2);
    let late = worker.handle(Event::Signal);
    assert!(late.is_empty());
    assert!(perform(late, 0, &mut registry, &mut lines).is_empty());
    assert_eq!(lines.len(), 2);
    assert_eq!(registry.len(), 0);
}
