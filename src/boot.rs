//! The boot sequence as a state machine: from reset, through MMU activation and driver
//! bring-up, to the run loop. Each step takes the outcome of the previous action and names
//! the next action; the caller performs it and reports back.

use vstd::prelude::*;
use crate::driver::{DriverDescriptor, DriverManager};
use crate::memory::MappingError;

verus! {

/// Where the boot core stands.
#[derive(Clone, Copy, Debug, PartialEq, Eq, Structural)]
pub enum BootState {
    /// Fresh out of reset.
    Reset,
    /// On the boot core, before the MMU is on.
    EarlyInit,
    /// MMU on; the driver at this index is being initialized.
    InitializingDriver(usize),
    /// MMU on and every driver initialized; post-init hooks are running.
    DriversInitialized,
    /// In the steady-state loop.
    Running,
    /// A secondary core, waiting for good.
    Parked,
    /// Stopped on a fatal error.
    Halted,
}

/// The outcome of the action last asked for.
#[derive(Debug)]
pub enum BootEvent {
    /// The core came out of reset; only the boot core proceeds.
    CoreStarted { is_boot_core: bool },
    /// MMU activation finished.
    MmuActivated(Result<(), MappingError>),
    /// The driver asked for finished its `init`, with its reason on failure.
    DriverInitialized(Result<(), String>),
    /// Every post-init hook ran.
    PostInitDone,
}

/// A fatal boot error.
#[derive(Debug)]
pub enum BootError {
    /// The translation tables could not be built or installed.
    Mapping(MappingError),
    /// A driver's `init` failed.
    DriverInit { index: usize, compatible: &'static str, reason: String },
    /// An event arrived that the current state does not expect.
    OutOfSequence,
}

/// What the caller must do next.
#[derive(Debug)]
pub enum BootAction {
    /// Wait forever: this is not the boot core.
    Park,
    /// Build the translation tables and turn the MMU on.
    ActivateMmu,
    /// Call `init` on the driver at this index.
    InitDriver(usize),
    /// Run the post-init hooks in registration order.
    RunPostInitHooks,
    /// Enter the steady-state loop.
    EnterRunLoop,
    /// Report the error and stop.
    Halt(BootError),
}

/// The MMU has been turned on in this state.
pub open spec fn mmu_enabled(s: BootState) -> bool {
    s is InitializingDriver || s is DriversInitialized || s is Running
}

/// The first step with the MMU on: initialize the first driver, or run the hooks when there
/// is none.
pub open spec fn first_driver_step(n: nat) -> (BootState, BootAction) {
    if n > 0 {
        (BootState::InitializingDriver(0), BootAction::InitDriver(0))
    } else {
        (BootState::DriversInitialized, BootAction::RunPostInitHooks)
    }
}

/// The next state and action of the boot sequence with drivers `ds`.
pub open spec fn boot_next<D, P>(ds: Seq<DriverDescriptor<D, P>>, s: BootState, e: BootEvent) -> (
    BootState,
    BootAction,
) {
    match s {
        BootState::Reset => match e {
            BootEvent::CoreStarted { is_boot_core } => if is_boot_core {
                (BootState::EarlyInit, BootAction::ActivateMmu)
            } else {
                (BootState::Parked, BootAction::Park)
            },
            _ => (BootState::Halted, BootAction::Halt(BootError::OutOfSequence)),
        },
        BootState::EarlyInit => match e {
            BootEvent::MmuActivated(Ok(())) => first_driver_step(ds.len()),
            BootEvent::MmuActivated(Err(m)) => (
                BootState::Halted,
                BootAction::Halt(BootError::Mapping(m)),
            ),
            _ => (BootState::Halted, BootAction::Halt(BootError::OutOfSequence)),
        },
        BootState::InitializingDriver(i) => match e {
            BootEvent::DriverInitialized(Ok(())) => if i + 1 < ds.len() {
                (BootState::InitializingDriver((i + 1) as usize), BootAction::InitDriver((i + 1) as usize))
            } else {
                (BootState::DriversInitialized, BootAction::RunPostInitHooks)
            },
            BootEvent::DriverInitialized(Err(reason)) => if i < ds.len() {
                (
                    BootState::Halted,
                    BootAction::Halt(
                        BootError::DriverInit { index: i, compatible: ds[i as int].compatible, reason },
                    ),
                )
            } else {
                (BootState::Halted, BootAction::Halt(BootError::OutOfSequence))
            },
            _ => (BootState::Halted, BootAction::Halt(BootError::OutOfSequence)),
        },
        BootState::DriversInitialized => match e {
            BootEvent::PostInitDone => (BootState::Running, BootAction::EnterRunLoop),
            _ => (BootState::Halted, BootAction::Halt(BootError::OutOfSequence)),
        },
        BootState::Parked => (BootState::Parked, BootAction::Park),
        _ => (BootState::Halted, BootAction::Halt(BootError::OutOfSequence)),
    }
}

/// Takes the outcome `event` of the last action in state `state` and gives the next state
/// and the action to perform.
pub fn boot_step<D, P>(drivers: &DriverManager<D, P>, state: BootState, event: BootEvent) -> (r: (
    BootState,
    BootAction,
))
    ensures
        r == boot_next(drivers.drivers(), state, event),
{
    let n = drivers.len();
    match state {
        BootState::Reset => match event {
            BootEvent::CoreStarted { is_boot_core } => if is_boot_core {
                (BootState::EarlyInit, BootAction::ActivateMmu)
            } else {
                (BootState::Parked, BootAction::Park)
            },
            _ => (BootState::Halted, BootAction::Halt(BootError::OutOfSequence)),
        },
        BootState::EarlyInit => match event {
            BootEvent::MmuActivated(Ok(())) => if n > 0 {
                (BootState::InitializingDriver(0), BootAction::InitDriver(0))
            } else {
                (BootState::DriversInitialized, BootAction::RunPostInitHooks)
            },
            BootEvent::MmuActivated(Err(m)) => (
                BootState::Halted,
                BootAction::Halt(BootError::Mapping(m)),
            ),
            _ => (BootState::Halted, BootAction::Halt(BootError::OutOfSequence)),
        },
        BootState::InitializingDriver(i) => match event {
            BootEvent::DriverInitialized(Ok(())) => if i < n && i + 1 < n {
                (BootState::InitializingDriver(i + 1), BootAction::InitDriver(i + 1))
            } else {
                (BootState::DriversInitialized, BootAction::RunPostInitHooks)
            },
            BootEvent::DriverInitialized(Err(reason)) => if i < n {
                (
                    BootState::Halted,
                    BootAction::Halt(
                        BootError::DriverInit { index: i, compatible: drivers.compatible(i), reason },
                    ),
                )
            } else {
                (BootState::Halted, BootAction::Halt(BootError::OutOfSequence))
            },
            _ => (BootState::Halted, BootAction::Halt(BootError::OutOfSequence)),
        },
        BootState::DriversInitialized => match event {
            BootEvent::PostInitDone => (BootState::Running, BootAction::EnterRunLoop),
            _ => (BootState::Halted, BootAction::Halt(BootError::OutOfSequence)),
        },
        BootState::Parked => (BootState::Parked, BootAction::Park),
        _ => (BootState::Halted, BootAction::Halt(BootError::OutOfSequence)),
    }
}

/// The state reached from reset after the events `events`, in order.
pub open spec fn run<D, P>(ds: Seq<DriverDescriptor<D, P>>, events: Seq<BootEvent>) -> BootState
    decreases events.len(),
{
    if events.len() == 0 {
        BootState::Reset
    } else {
        boot_next(ds, run(ds, events.drop_last()), events.last()).0
    }
}

/// The action asked for at step `k` of a run with events `events`.
pub open spec fn action_at<D, P>(
    ds: Seq<DriverDescriptor<D, P>>,
    events: Seq<BootEvent>,
    k: int,
) -> BootAction {
    boot_next(ds, run(ds, events.take(k)), events[k]).1
}

/// At step `j` the MMU was reported active while the sequence waited for it.
pub open spec fn mmu_activated_at<D, P>(
    ds: Seq<DriverDescriptor<D, P>>,
    events: Seq<BootEvent>,
    j: int,
) -> bool {
    &&& run(ds, events.take(j)) is EarlyInit
    &&& events[j] matches BootEvent::MmuActivated(Ok(_))
}

proof fn lemma_run_step<D, P>(ds: Seq<DriverDescriptor<D, P>>, events: Seq<BootEvent>, k: int)
    requires
        0 <= k < events.len(),
    ensures
        run(ds, events.take(k + 1)) == boot_next(ds, run(ds, events.take(k)), events[k]).0,
{
    assert(events.take(k + 1).drop_last() =~= events.take(k));
}

/// No state with the MMU on, the run loop included, is reached from reset without a step
/// at which MMU activation was reported successful while the sequence waited for it.
pub proof fn lemma_mmu_enabled_has_cause<D, P>(ds: Seq<DriverDescriptor<D, P>>, events: Seq<BootEvent>)
    requires
        mmu_enabled(run(ds, events)),
    ensures
        exists|j: int| 0 <= j < events.len() && mmu_activated_at(ds, events, j),
    decreases events.len(),
{
    let n = events.len() as int;
    let prefix = events.drop_last();
    assert(prefix =~= events.take(n - 1));
    if mmu_enabled(run(ds, prefix)) {
        lemma_mmu_enabled_has_cause(ds, prefix);
        let j = choose|j: int| 0 <= j < prefix.len() && mmu_activated_at(ds, prefix, j);
        assert(prefix.take(j) =~= events.take(j));
        assert(mmu_activated_at(ds, events, j));
    } else {
        assert(mmu_activated_at(ds, events, n - 1));
    }
}

/// No driver is asked to initialize before the MMU has been reported active: in every run
/// from reset, a step that asks for a driver's `init` is preceded by, or is, the step at
/// which MMU activation succeeded.
pub proof fn lemma_no_driver_init_before_mmu<D, P>(
    ds: Seq<DriverDescriptor<D, P>>,
    events: Seq<BootEvent>,
    k: int,
)
    requires
        0 <= k < events.len(),
        action_at(ds, events, k) is InitDriver,
    ensures
        exists|j: int| 0 <= j <= k && mmu_activated_at(ds, events, j),
{
    lemma_run_step(ds, events, k);
    let upto = events.take(k + 1);
    assert(mmu_enabled(run(ds, upto)));
    lemma_mmu_enabled_has_cause(ds, upto);
    let j = choose|j: int| 0 <= j < upto.len() && mmu_activated_at(ds, upto, j);
    assert(upto.take(j) =~= events.take(j));
    assert(mmu_activated_at(ds, events, j));
}

/// A failed driver `init` ends driver bring-up: once a step has halted on a driver's
/// failure, no later step asks for any driver's `init`.
pub proof fn lemma_driver_failure_stops_init<D, P>(
    ds: Seq<DriverDescriptor<D, P>>,
    events: Seq<BootEvent>,
    k: int,
    m: int,
)
    requires
        0 <= k < m < events.len(),
        action_at(ds, events, k) matches BootAction::Halt(BootError::DriverInit { .. }),
    ensures
        run(ds, events.take(m)) is Halted,
        !(action_at(ds, events, m) is InitDriver),
    decreases m - k,
{
    if m == k + 1 {
        lemma_run_step(ds, events, k);
    } else {
        lemma_driver_failure_stops_init(ds, events, k, m - 1);
        lemma_run_step(ds, events, m - 1);
    }
}

} // verus!
