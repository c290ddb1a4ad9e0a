use zeromcp::{ActorState, Handled, ServiceActor, ServiceMessage};

fn add(name: &str, c: u32) -> ServiceMessage<u32> {
    ServiceMessage::AddService { name: name.to_string(), service: c }
}

fn cancel(name: &str) -> ServiceMessage<u32> {
    ServiceMessage::CancelService { name: name.to_string() }
}

#[test]
fn cancel_of_unknown_service_is_not_found() {
    let actor = ServiceActor;
    let mut state: ActorState<u32> = actor.pre_start();
    assert_eq!(actor.handle(&mut state, cancel("ghost.local.")), Handled::NotFound);
    assert!(!state.contains(&"ghost.local.".to_string()));
}

#[test]
fn one_connection_per_service_across_events() {
    let actor = ServiceActor;
    let mut state: ActorState<u32> = actor.pre_start();
    let id = "foo._demo._tcp.local.";
    assert_eq!(actor.handle(&mut state, add(id, 1)), Handled::Added);
    assert_eq!(actor.handle(&mut state, add(id, 2)), Handled::Rejected(2));
    assert_eq!(state.lookup(&id.to_string()), Some(&1));
    assert_eq!(actor.handle(&mut state, cancel(id)), Handled::Cancelled(1));
    assert_eq!(actor.handle(&mut state, cancel(id)), Handled::NotFound);
    assert_eq!(actor.handle(&mut state, add(id, 3)), Handled::Added);
    assert_eq!(state.lookup(&id.to_string()), Some(&3));
}

#[test]
fn services_are_independent() {
    let mut state: ActorState<u32> = ActorState::new();
    assert_eq!(state.add_service("a".to_string(), 1), None);
    assert_eq!(state.add_service("b".to_string(), 2), None);
    assert_eq!(state.cancel_service(&"a".to_string()), Some(1));
    assert_eq!(state.lookup(&"b".to_string()), Some(&2));
    assert_eq!(state.lookup(&"a".to_string()), None);
    assert!(state.contains(&"b".to_string()));
}
