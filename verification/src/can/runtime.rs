//! Health of the CAN controller and recovery from bus faults.

use vstd::prelude::*;

use crate::constants::CAN_CONSECUTIVE_ERROR_THRESHOLD;

verus! {

/// Error state of the CAN controller.
#[derive(Clone, Copy, Debug, PartialEq, Eq, Structural)]
pub enum CanHealth {
    Active,
    Passive,
    BusOff,
}

/// Error counter value from which a node is error passive.
pub const ERROR_PASSIVE_LIMIT: u8 = 128;

/// The error state that the error counters stand for.
pub fn classify_can_health(tec: u8, rec: u8, bus_off: bool) -> (health: CanHealth)
    ensures
        health is BusOff <==> bus_off,
        health is Passive <==> !bus_off && (tec >= ERROR_PASSIVE_LIMIT || rec
            >= ERROR_PASSIVE_LIMIT),
{
    if bus_off {
        CanHealth::BusOff
    } else if tec >= ERROR_PASSIVE_LIMIT || rec >= ERROR_PASSIVE_LIMIT {
        CanHealth::Passive
    } else {
        CanHealth::Active
    }
}

/// What is known of the bus from its traffic.
#[derive(Clone, Copy, Debug, PartialEq, Eq, Structural)]
pub enum CanRuntimeState {
    AwaitingTraffic,
    Normal,
    BusRecovering,
    TxStateUnknown,
}

/// Something that happened on the bus.
#[derive(Clone, Copy, Debug, PartialEq, Eq, Structural)]
pub enum CanRuntimeEvent {
    TransmitSucceeded,
    ReceiveSucceeded,
    BusOff,
    TimedOutUnknownState,
}

/// Why a transmission failed.
#[derive(Clone, Copy, Debug, PartialEq, Eq, Structural)]
pub enum CanTxError {
    BusOff,
    /// No outcome in time: the frame may or may not have gone out.
    TimedOutUnknownState,
    Other,
}

/// The state after an event. A transmission proves the bus; a reception proves it unless the
/// outcome of a transmission is still open.
pub open spec fn next_runtime_state(
    state: CanRuntimeState,
    event: CanRuntimeEvent,
) -> CanRuntimeState {
    match event {
        CanRuntimeEvent::TransmitSucceeded => CanRuntimeState::Normal,
        CanRuntimeEvent::ReceiveSucceeded => if state is TxStateUnknown {
            state
        } else {
            CanRuntimeState::Normal
        },
        CanRuntimeEvent::BusOff => CanRuntimeState::BusRecovering,
        CanRuntimeEvent::TimedOutUnknownState => CanRuntimeState::TxStateUnknown,
    }
}

/// Whether an event calls for a restart of the controller: the first fault does, further faults
/// during the recovery do not.
pub open spec fn restart_required(state: CanRuntimeState, event: CanRuntimeEvent) -> bool {
    (state is AwaitingTraffic || state is Normal) && (event is BusOff || event
        is TimedOutUnknownState)
}

/// The next state, and whether the controller is to be restarted.
pub fn transition_runtime(state: CanRuntimeState, event: CanRuntimeEvent) -> (next: (
    CanRuntimeState,
    bool,
))
    ensures
        next.0 == next_runtime_state(state, event),
        next.1 == restart_required(state, event),
{
    match (state, event) {
        (
            CanRuntimeState::AwaitingTraffic,
            CanRuntimeEvent::TransmitSucceeded | CanRuntimeEvent::ReceiveSucceeded,
        ) => (CanRuntimeState::Normal, false),
        (CanRuntimeState::AwaitingTraffic, CanRuntimeEvent::BusOff) => {
            (CanRuntimeState::BusRecovering, true)
        },
        (CanRuntimeState::AwaitingTraffic, CanRuntimeEvent::TimedOutUnknownState) => {
            (CanRuntimeState::TxStateUnknown, true)
        },
        (CanRuntimeState::Normal, CanRuntimeEvent::BusOff) => {
            (CanRuntimeState::BusRecovering, true)
        },
        (CanRuntimeState::Normal, CanRuntimeEvent::TimedOutUnknownState) => {
            (CanRuntimeState::TxStateUnknown, true)
        },
        (CanRuntimeState::TxStateUnknown, CanRuntimeEvent::BusOff) => {
            (CanRuntimeState::BusRecovering, false)
        },
        (CanRuntimeState::BusRecovering, CanRuntimeEvent::TimedOutUnknownState) => {
            (CanRuntimeState::TxStateUnknown, false)
        },
        (
            CanRuntimeState::BusRecovering | CanRuntimeState::TxStateUnknown,
            CanRuntimeEvent::TransmitSucceeded,
        ) => (CanRuntimeState::Normal, false),
        (CanRuntimeState::BusRecovering, CanRuntimeEvent::ReceiveSucceeded) => {
            (CanRuntimeState::Normal, false)
        },
        (state, _) => (state, false),
    }
}

/// Whether the bus counts as faulty.
pub open spec fn spec_is_can_error(
    state: CanRuntimeState,
    health: CanHealth,
    consecutive_tx_errors: u8,
    consecutive_rx_errors: u8,
) -> bool {
    !(state is Normal && health is Active && consecutive_tx_errors
        < CAN_CONSECUTIVE_ERROR_THRESHOLD && consecutive_rx_errors
        < CAN_CONSECUTIVE_ERROR_THRESHOLD)
}

/// The error state to publish.
pub fn publish_error_state(
    state: CanRuntimeState,
    health: CanHealth,
    consecutive_tx_errors: u8,
    consecutive_rx_errors: u8,
) -> (error: bool)
    ensures
        error == spec_is_can_error(state, health, consecutive_tx_errors, consecutive_rx_errors),
{
    state != CanRuntimeState::Normal || health != CanHealth::Active || consecutive_tx_errors
        >= CAN_CONSECUTIVE_ERROR_THRESHOLD || consecutive_rx_errors
        >= CAN_CONSECUTIVE_ERROR_THRESHOLD
}

/// State of the CAN task. The counters of consecutive errors stop at their largest value, the
/// totals wrap around.
#[derive(Clone, Copy, Debug, PartialEq, Eq, Structural)]
pub struct CanRuntime {
    pub state: CanRuntimeState,
    pub consecutive_tx_errors: u8,
    pub consecutive_rx_errors: u8,
    pub tx_error_count: u32,
    pub rx_error_count: u32,
}

impl CanRuntime {
    pub open spec fn initial() -> CanRuntime {
        CanRuntime {
            state: CanRuntimeState::AwaitingTraffic,
            consecutive_tx_errors: 0,
            consecutive_rx_errors: 0,
            tx_error_count: 0,
            rx_error_count: 0,
        }
    }

    /// The runtime after an event, with the other fields untouched.
    pub open spec fn with_event(self, event: CanRuntimeEvent) -> CanRuntime {
        CanRuntime { state: next_runtime_state(self.state, event), ..self }
    }

    /// The event that a failed transmission amounts to.
    pub open spec fn event_of_error(error: CanTxError) -> Option<CanRuntimeEvent> {
        match error {
            CanTxError::BusOff => Some(CanRuntimeEvent::BusOff),
            CanTxError::TimedOutUnknownState => Some(CanRuntimeEvent::TimedOutUnknownState),
            CanTxError::Other => None,
        }
    }

    /// The runtime after a transmission.
    pub open spec fn after_transmit(self, result: Result<(), CanTxError>) -> CanRuntime {
        match result {
            Ok(_) => CanRuntime { consecutive_tx_errors: 0, ..self }.with_event(
                CanRuntimeEvent::TransmitSucceeded,
            ),
            Err(error) => {
                let counted = CanRuntime {
                    tx_error_count: self.tx_error_count.wrapping_add(1),
                    consecutive_tx_errors: self.consecutive_tx_errors.saturating_add(1),
                    ..self
                };
                match CanRuntime::event_of_error(error) {
                    Some(event) => counted.with_event(event),
                    None => counted,
                }
            },
        }
    }

    /// The runtime after a failed reception.
    pub open spec fn after_receive_error(self, bus_off: bool) -> CanRuntime {
        let counted = CanRuntime {
            rx_error_count: self.rx_error_count.wrapping_add(1),
            consecutive_rx_errors: self.consecutive_rx_errors.saturating_add(1),
            ..self
        };
        if bus_off {
            counted.with_event(CanRuntimeEvent::BusOff)
        } else {
            counted
        }
    }

    pub fn new() -> (runtime: Self)
        ensures
            runtime == CanRuntime::initial(),
    {
        CanRuntime {
            state: CanRuntimeState::AwaitingTraffic,
            consecutive_tx_errors: 0,
            consecutive_rx_errors: 0,
            tx_error_count: 0,
            rx_error_count: 0,
        }
    }

    /// Takes note of a bus event and says whether the controller is to be restarted.
    fn enter_recovering(&mut self, event: CanRuntimeEvent) -> (restart: bool)
        ensures
            *final(self) == old(self).with_event(event),
            restart == restart_required(old(self).state, event),
    {
        let (next, restart) = transition_runtime(self.state, event);
        self.state = next;
        restart
    }

    /// Takes note of a transmission and says whether the controller is to be restarted.
    pub fn transmitted(&mut self, result: Result<(), CanTxError>) -> (restart: bool)
        ensures
            *final(self) == old(self).after_transmit(result),
            restart == match result {
                Ok(_) => false,
                Err(error) => CanRuntime::event_of_error(error) matches Some(event)
                    && restart_required(old(self).state, event),
            },
    {
        match result {
            Ok(()) => {
                self.consecutive_tx_errors = 0;
                self.state = transition_runtime(self.state, CanRuntimeEvent::TransmitSucceeded).0;
                false
            },
            Err(error) => {
                self.tx_error_count = self.tx_error_count.wrapping_add(1);
                self.consecutive_tx_errors = self.consecutive_tx_errors.saturating_add(1);
                match error {
                    CanTxError::BusOff => self.enter_recovering(CanRuntimeEvent::BusOff),
                    CanTxError::TimedOutUnknownState => {
                        self.enter_recovering(CanRuntimeEvent::TimedOutUnknownState)
                    },
                    CanTxError::Other => false,
                }
            },
        }
    }

    /// Takes note of a received frame.
    pub fn received(&mut self)
        ensures
            *final(self) == (CanRuntime { consecutive_rx_errors: 0, ..*old(self) }).with_event(
                CanRuntimeEvent::ReceiveSucceeded,
            ),
    {
        self.consecutive_rx_errors = 0;
        self.state = transition_runtime(self.state, CanRuntimeEvent::ReceiveSucceeded).0;
    }

    /// Counts a received frame that is not part of the protocol.
    pub fn frame_rejected(&mut self)
        ensures
            *final(self) == (CanRuntime {
                rx_error_count: old(self).rx_error_count.wrapping_add(1),
                ..*old(self)
            }),
    {
        self.rx_error_count = self.rx_error_count.wrapping_add(1);
    }

    /// Takes note of a failed reception and says whether the controller is to be restarted.
    pub fn receive_failed(&mut self, bus_off: bool) -> (restart: bool)
        ensures
            *final(self) == old(self).after_receive_error(bus_off),
            restart == (bus_off && restart_required(old(self).state, CanRuntimeEvent::BusOff)),
    {
        self.rx_error_count = self.rx_error_count.wrapping_add(1);
        self.consecutive_rx_errors = self.consecutive_rx_errors.saturating_add(1);
        if bus_off {
            self.enter_recovering(CanRuntimeEvent::BusOff)
        } else {
            false
        }
    }

    /// Takes note of the controller's health and says whether it is to be restarted.
    pub fn health_checked(&mut self, health: CanHealth) -> (restart: bool)
        ensures
            health is BusOff ==> *final(self) == old(self).with_event(CanRuntimeEvent::BusOff),
            !(health is BusOff) ==> *final(self) == *old(self),
            restart == (health is BusOff && restart_required(
                old(self).state,
                CanRuntimeEvent::BusOff,
            )),
    {
        if health == CanHealth::BusOff {
            self.enter_recovering(CanRuntimeEvent::BusOff)
        } else {
            false
        }
    }

    /// Whether the bus counts as faulty.
    pub fn is_error(&self, health: CanHealth) -> (error: bool)
        ensures
            error == spec_is_can_error(
                self.state,
                health,
                self.consecutive_tx_errors,
                self.consecutive_rx_errors,
            ),
    {
        publish_error_state(
            self.state,
            health,
            self.consecutive_tx_errors,
            self.consecutive_rx_errors,
        )
    }
}

/// The state after a series of events.
pub open spec fn runtime_state_after(
    state: CanRuntimeState,
    events: Seq<CanRuntimeEvent>,
) -> CanRuntimeState
    decreases events.len(),
{
    if events.len() == 0 {
        state
    } else {
        next_runtime_state(runtime_state_after(state, events.drop_last()), events.last())
    }
}

/// Law: a lasting fault restarts the controller once. After the fault that did, no further fault
/// does until a frame has gone out or come in.
pub proof fn law_a_lasting_fault_restarts_once(
    state: CanRuntimeState,
    first: CanRuntimeEvent,
    faults: Seq<CanRuntimeEvent>,
    last: CanRuntimeEvent,
)
    requires
        restart_required(state, first),
        forall|i: int|
            0 <= i < faults.len() ==> (#[trigger] faults[i]) is BusOff || faults[i]
                is TimedOutUnknownState,
    ensures
        !restart_required(
            runtime_state_after(next_runtime_state(state, first), faults),
            last,
        ),
    decreases faults.len(),
{
    if faults.len() > 0 {
        law_a_lasting_fault_restarts_once(state, first, faults.drop_last(), last);
        assert(faults.last() == faults[faults.len() - 1]);
    }
}

/// Law: a frame that went out proves the bus, and one that came in does too, unless it is open
/// whether an earlier frame went out.
pub proof fn law_traffic_ends_the_recovery(state: CanRuntimeState)
    ensures
        next_runtime_state(state, CanRuntimeEvent::TransmitSucceeded) is Normal,
        next_runtime_state(state, CanRuntimeEvent::ReceiveSucceeded) is Normal <==> !(state
            is TxStateUnknown),
{
}

/// Law: the bus counts as faulty until there has been traffic, and again from a fault on.
pub proof fn law_no_traffic_is_an_error(health: CanHealth, event: CanRuntimeEvent)
    requires
        event is BusOff || event is TimedOutUnknownState,
    ensures
        spec_is_can_error(CanRuntime::initial().state, health, 0, 0),
        forall|state: CanRuntimeState|
            #![auto]
            spec_is_can_error(next_runtime_state(state, event), health, 0, 0),
{
}

/// Law: what an event leads to from each state, and when it restarts the controller: a fault
/// does so from ordinary operation, and nothing else does.
pub proof fn law_faults_and_traffic(state: CanRuntimeState, event: CanRuntimeEvent)
    ensures
        event is BusOff ==> next_runtime_state(state, event) is BusRecovering,
        event is TimedOutUnknownState ==> next_runtime_state(state, event) is TxStateUnknown,
        event is TransmitSucceeded ==> next_runtime_state(state, event) is Normal,
        event is ReceiveSucceeded && !(state is TxStateUnknown) ==> next_runtime_state(
            state,
            event,
        ) is Normal,
        event is ReceiveSucceeded && state is TxStateUnknown ==> next_runtime_state(state, event)
            is TxStateUnknown,
        restart_required(state, event) ==> event is BusOff || event is TimedOutUnknownState,
        event is BusOff || event is TimedOutUnknownState ==> (restart_required(state, event)
            <==> state is AwaitingTraffic || state is Normal),
{
}

/// The runtime after a series of failed transmissions.
pub open spec fn after_failed_transmissions(
    runtime: CanRuntime,
    errors: Seq<CanTxError>,
) -> CanRuntime
    decreases errors.len(),
{
    if errors.len() == 0 {
        runtime
    } else {
        after_failed_transmissions(runtime, errors.drop_last()).after_transmit(
            Err(errors.last()),
        )
    }
}

/// The runtime after a series of failed receptions, each with or without the bus being off.
pub open spec fn after_failed_receptions(runtime: CanRuntime, bus_off: Seq<bool>) -> CanRuntime
    decreases bus_off.len(),
{
    if bus_off.len() == 0 {
        runtime
    } else {
        after_failed_receptions(runtime, bus_off.drop_last()).after_receive_error(bus_off.last())
    }
}

/// Law: failed transmissions are counted in a row, up to 255, and in total; after three of them the
/// bus counts as faulty; a transmission that works ends the row and proves the bus. None of this
/// touches the counts of receptions.
pub proof fn law_failed_transmissions_are_counted(
    runtime: CanRuntime,
    errors: Seq<CanTxError>,
    health: CanHealth,
)
    requires
        runtime.consecutive_tx_errors == 0,
        runtime.tx_error_count + errors.len() <= u32::MAX,
    ensures
        ({
            let after = after_failed_transmissions(runtime, errors);
            let proved = after.after_transmit(Ok(()));
            &&& after.consecutive_tx_errors == (if errors.len() < 255 {
                errors.len() as int
            } else {
                255
            })
            &&& after.tx_error_count == runtime.tx_error_count + errors.len()
            &&& after.consecutive_rx_errors == runtime.consecutive_rx_errors
            &&& after.rx_error_count == runtime.rx_error_count
            &&& errors.len() >= 3 ==> spec_is_can_error(
                after.state,
                health,
                after.consecutive_tx_errors,
                after.consecutive_rx_errors,
            )
            &&& proved == (CanRuntime {
                state: CanRuntimeState::Normal,
                consecutive_tx_errors: 0,
                ..after
            })
        }),
    decreases errors.len(),
{
    if errors.len() > 0 {
        law_failed_transmissions_are_counted(runtime, errors.drop_last(), health);
    }
}

/// Law: the same of failed receptions.
pub proof fn law_failed_receptions_are_counted(
    runtime: CanRuntime,
    bus_off: Seq<bool>,
    health: CanHealth,
)
    requires
        runtime.consecutive_rx_errors == 0,
        runtime.rx_error_count + bus_off.len() <= u32::MAX,
    ensures
        ({
            let after = after_failed_receptions(runtime, bus_off);
            &&& after.consecutive_rx_errors == (if bus_off.len() < 255 {
                bus_off.len() as int
            } else {
                255
            })
            &&& after.rx_error_count == runtime.rx_error_count + bus_off.len()
            &&& after.consecutive_tx_errors == runtime.consecutive_tx_errors
            &&& after.tx_error_count == runtime.tx_error_count
            &&& bus_off.len() >= 3 ==> spec_is_can_error(
                after.state,
                health,
                after.consecutive_tx_errors,
                after.consecutive_rx_errors,
            )
        }),
    decreases bus_off.len(),
{
    if bus_off.len() > 0 {
        law_failed_receptions_are_counted(runtime, bus_off.drop_last(), health);
    }
}

/// Law: how a failed transmission or reception changes the state: the bus being off does, and an
/// unknown outcome does; another error does not.
pub proof fn law_errors_change_the_state_only_by_their_kind(runtime: CanRuntime)
    ensures
        runtime.after_transmit(Err(CanTxError::BusOff)).state is BusRecovering,
        runtime.after_transmit(Err(CanTxError::TimedOutUnknownState)).state is TxStateUnknown,
        runtime.after_transmit(Err(CanTxError::Other)).state == runtime.state,
        runtime.after_receive_error(true).state is BusRecovering,
        runtime.after_receive_error(false).state == runtime.state,
        CanRuntime::event_of_error(CanTxError::BusOff) == Some(CanRuntimeEvent::BusOff),
        CanRuntime::event_of_error(CanTxError::TimedOutUnknownState) == Some(
            CanRuntimeEvent::TimedOutUnknownState,
        ),
        CanRuntime::event_of_error(CanTxError::Other) is None,
{
}

/// Law: the bus counts as sound exactly in normal operation of an error active controller with
/// fewer than three errors in a row in either direction.
pub proof fn law_when_the_bus_is_sound(
    state: CanRuntimeState,
    health: CanHealth,
    tx_errors: u8,
    rx_errors: u8,
)
    ensures
        !spec_is_can_error(state, health, tx_errors, rx_errors) <==> state is Normal && health
            is Active && tx_errors <= 2 && rx_errors <= 2,
        CanRuntime::initial() == (CanRuntime {
            state: CanRuntimeState::AwaitingTraffic,
            consecutive_tx_errors: 0,
            consecutive_rx_errors: 0,
            tx_error_count: 0,
            rx_error_count: 0,
        }),
{
}

/// Law: an event on the bus changes the state and no counter.
pub proof fn law_events_leave_the_counters_alone(runtime: CanRuntime, event: CanRuntimeEvent)
    ensures
        runtime.with_event(event) == (CanRuntime {
            state: next_runtime_state(runtime.state, event),
            ..runtime
        }),
{
}

} // verus!
