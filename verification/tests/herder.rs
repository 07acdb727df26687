use caligula::herder::{
    ActionGroupId, FallbackHerder, FallbackStep, LocalHerder, RemoteHerder,
    SpawnActionGroupError, SpawnActionGroupRequest, SpawnActionGroupResponse,
    StopActionGroupError, StopActionGroupRequest, StopActionGroupResponse,
};

type Fallback = FallbackHerder<LocalHerder, RemoteHerder>;

#[test]
fn fallback_keeps_its_herders() {
    let h = FallbackHerder::new(1u8, 2u8);
    assert_eq!(*h.first(), 1);
    assert_eq!(*h.second(), 2);
    let _ = Fallback::new(LocalHerder::new(), RemoteHerder::new());
}

#[test]
fn fallback_spawn_answers_success_of_first() {
    let step = Fallback::spawn_step(Ok(SpawnActionGroupResponse {}));
    assert_eq!(step, FallbackStep::Answer(Ok(SpawnActionGroupResponse {})));
}

#[test]
fn fallback_spawn_asks_second_on_permission_denied() {
    let step = Fallback::spawn_step(Err(SpawnActionGroupError::PermissionDenied));
    assert_eq!(step, FallbackStep::AskSecond);
}

#[test]
fn fallback_stop_answers_success_of_first() {
    let step = Fallback::stop_step(Ok(StopActionGroupResponse {}));
    assert_eq!(step, FallbackStep::Answer(Ok(StopActionGroupResponse {})));
}

#[test]
fn fallback_stop_asks_second_on_unknown_group() {
    let step = Fallback::stop_step(Err(StopActionGroupError::UnknownActionGroup(ActionGroupId(7))));
    assert_eq!(step, FallbackStep::AskSecond);
}

#[test]
fn requests_carry_their_group() {
    let spawn = SpawnActionGroupRequest { ag: ActionGroupId(3) };
    let stop = StopActionGroupRequest { ag: ActionGroupId(3) };
    assert_eq!(spawn.ag, stop.ag);
    assert!(ActionGroupId(1) < ActionGroupId(2));
}
