//! Data exchanged with herders, the processes that run action groups, and the
//! decisions of a herder that falls back to a second one.

use vstd::prelude::*;

verus! {

/// Identifies an action group.
#[derive(PartialEq, Eq, Structural, PartialOrd, Ord, Clone, Copy, Hash, Debug)]
pub struct ActionGroupId(pub u64);

#[derive(PartialEq, Eq, Structural, Clone, Copy, Debug)]
pub struct SpawnActionGroupRequest {
    pub ag: ActionGroupId,
}

#[derive(PartialEq, Eq, Structural, Clone, Copy, Debug)]
pub struct SpawnActionGroupResponse {}

#[derive(PartialEq, Eq, Structural, Clone, Copy, Debug)]
pub enum SpawnActionGroupError {
    PermissionDenied,
}

#[derive(PartialEq, Eq, Structural, Clone, Copy, Debug)]
pub struct StopActionGroupRequest {
    pub ag: ActionGroupId,
}

#[derive(PartialEq, Eq, Structural, Clone, Copy, Debug)]
pub struct StopActionGroupResponse {}

#[derive(PartialEq, Eq, Structural, Clone, Copy, Debug)]
pub enum StopActionGroupError {
    UnknownActionGroup(ActionGroupId),
}

/// A herder that runs action groups on threads of this local process.
pub struct LocalHerder {}

impl LocalHerder {
    pub fn new() -> (h: LocalHerder) {
        LocalHerder {}
    }
}

/// A herder that runs action groups in another process.
pub struct RemoteHerder {}

impl RemoteHerder {
    pub fn new() -> (h: RemoteHerder) {
        RemoteHerder {}
    }
}

/// What a [`FallbackHerder`] does once its first herder has answered.
#[derive(PartialEq, Eq, Structural, Clone, Copy, Debug)]
pub enum FallbackStep<R> {
    /// Hand this answer to the caller.
    Answer(R),
    /// Ask the second herder and hand its answer to the caller.
    AskSecond,
}

/// A herder that tries to spawn with the first one, then delegates to the second
/// one if permissions are lacking.
pub struct FallbackHerder<H1, H2> {
    first: H1,
    second: H2,
}

impl<H1, H2> FallbackHerder<H1, H2> {
    /// The herder asked first.
    pub closed spec fn first_of(self) -> H1 {
        self.first
    }

    /// The herder asked when the first one declines.
    pub closed spec fn second_of(self) -> H2 {
        self.second
    }

    pub fn new(first: H1, second: H2) -> (h: FallbackHerder<H1, H2>)
        ensures
            h.first_of() == first,
            h.second_of() == second,
    {
        FallbackHerder { first, second }
    }

    pub fn first(&self) -> (h: &H1)
        ensures
            *h == self.first_of(),
    {
        &self.first
    }

    pub fn second(&self) -> (h: &H2)
        ensures
            *h == self.second_of(),
    {
        &self.second
    }

    /// After the first herder answered a spawn request: a success is final, a
    /// permission failure sends the request on to the second herder.
    pub fn spawn_step(
        first_answer: Result<SpawnActionGroupResponse, SpawnActionGroupError>,
    ) -> (step: FallbackStep<Result<SpawnActionGroupResponse, SpawnActionGroupError>>)
        ensures
            first_answer is Ok ==> step == FallbackStep::Answer(first_answer),
            first_answer matches Err(SpawnActionGroupError::PermissionDenied) ==> step
                == FallbackStep::<Result<SpawnActionGroupResponse, SpawnActionGroupError>>::AskSecond,
    {
        match first_answer {
            Ok(r) => FallbackStep::Answer(Ok(r)),
            Err(SpawnActionGroupError::PermissionDenied) => FallbackStep::AskSecond,
        }
    }

    /// After the first herder answered a stop request: a success is final, an
    /// unknown action group sends the request on to the second herder.
    pub fn stop_step(
        first_answer: Result<StopActionGroupResponse, StopActionGroupError>,
    ) -> (step: FallbackStep<Result<StopActionGroupResponse, StopActionGroupError>>)
        ensures
            first_answer is Ok ==> step == FallbackStep::Answer(first_answer),
            first_answer matches Err(StopActionGroupError::UnknownActionGroup(_)) ==> step
                == FallbackStep::<Result<StopActionGroupResponse, StopActionGroupError>>::AskSecond,
    {
        match first_answer {
            Ok(r) => FallbackStep::Answer(Ok(r)),
            Err(StopActionGroupError::UnknownActionGroup(_)) => FallbackStep::AskSecond,
        }
    }
}

/// The answer a fallback herder gives for the answers of its two herders, the
/// second being asked only when the step after the first says so.
pub open spec fn fallback_answer<R>(step: FallbackStep<R>, second_answer: R) -> R {
    match step {
        FallbackStep::Answer(r) => r,
        FallbackStep::AskSecond => second_answer,
    }
}

/// A spawn succeeds through the fallback herder exactly when one of its herders
/// succeeds, and the first herder's success wins; when both decline, the caller
/// gets the second herder's refusal.
pub proof fn lemma_fallback_spawn(
    first: Result<SpawnActionGroupResponse, SpawnActionGroupError>,
    second: Result<SpawnActionGroupResponse, SpawnActionGroupError>,
    step: FallbackStep<Result<SpawnActionGroupResponse, SpawnActionGroupError>>,
)
    requires
        first is Ok ==> step == FallbackStep::Answer(first),
        first matches Err(SpawnActionGroupError::PermissionDenied) ==> step
            == FallbackStep::<Result<SpawnActionGroupResponse, SpawnActionGroupError>>::AskSecond,
    ensures
        fallback_answer(step, second) is Ok <==> (first is Ok || second is Ok),
        first is Ok ==> fallback_answer(step, second) == first,
        first is Err ==> fallback_answer(step, second) == second,
{
}

/// A stop succeeds through the fallback herder exactly when one of its herders
/// knows the action group, and the first herder's answer wins when it succeeds.
pub proof fn lemma_fallback_stop(
    first: Result<StopActionGroupResponse, StopActionGroupError>,
    second: Result<StopActionGroupResponse, StopActionGroupError>,
    step: FallbackStep<Result<StopActionGroupResponse, StopActionGroupError>>,
)
    requires
        first is Ok ==> step == FallbackStep::Answer(first),
        first matches Err(StopActionGroupError::UnknownActionGroup(_)) ==> step
            == FallbackStep::<Result<StopActionGroupResponse, StopActionGroupError>>::AskSecond,
    ensures
        fallback_answer(step, second) is Ok <==> (first is Ok || second is Ok),
        first is Ok ==> fallback_answer(step, second) == first,
        first is Err ==> fallback_answer(step, second) == second,
{
}

} // verus!
