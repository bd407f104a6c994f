//! Ground commands and the life cycle of the request that is tracked until it settles.

use vstd::prelude::*;

verus! {

/// `s`: start the sequence.
pub const BYTE_START_SEQUENCE: u8 = 0x73;

/// `q`: stop the sequence.
pub const BYTE_STOP_SEQUENCE: u8 = 0x71;

/// `z`: parachute emergency stop.
pub const BYTE_EMERGENCY_STOP_PARA: u8 = 0x7a;

/// `l`: start logging.
pub const BYTE_START_LOGGING: u8 = 0x6c;

/// `m`: stop logging.
pub const BYTE_STOP_LOGGING: u8 = 0x6d;

/// `E`: stop the fin control.
pub const BYTE_STOP_FIN_CONTROL: u8 = 0x45;

/// `o`: open the parachute.
pub const BYTE_OPEN_PARA: u8 = 0x6f;

/// `c`: close the parachute.
pub const BYTE_CLOSE_PARA: u8 = 0x63;

/// `g`: switch the GNSS receiver on.
pub const BYTE_GNSS_ON: u8 = 0x67;

/// `h`: switch the GNSS receiver off.
pub const BYTE_GNSS_OFF: u8 = 0x68;

/// A command from the ground station.
#[derive(Clone, Copy, Debug, PartialEq, Eq, Structural)]
pub enum GroundCommand {
    StartSequence,
    StopSequence,
    EmergencyStopPara,
    StartLogging,
    StopLogging,
    StopFinControl,
    OpenPara,
    ClosePara,
    GnssOn,
    GnssOff,
}

impl GroundCommand {
    /// The byte that stands for the command on the air and on the CAN bus.
    pub open spec fn wire_byte(self) -> u8 {
        match self {
            GroundCommand::StartSequence => BYTE_START_SEQUENCE,
            GroundCommand::StopSequence => BYTE_STOP_SEQUENCE,
            GroundCommand::EmergencyStopPara => BYTE_EMERGENCY_STOP_PARA,
            GroundCommand::StartLogging => BYTE_START_LOGGING,
            GroundCommand::StopLogging => BYTE_STOP_LOGGING,
            GroundCommand::StopFinControl => BYTE_STOP_FIN_CONTROL,
            GroundCommand::OpenPara => BYTE_OPEN_PARA,
            GroundCommand::ClosePara => BYTE_CLOSE_PARA,
            GroundCommand::GnssOn => BYTE_GNSS_ON,
            GroundCommand::GnssOff => BYTE_GNSS_OFF,
        }
    }

    /// The command that `byte` stands for, if it stands for one.
    pub open spec fn spec_decode_legacy(byte: u8) -> Option<GroundCommand> {
        if byte == BYTE_START_SEQUENCE {
            Some(GroundCommand::StartSequence)
        } else if byte == BYTE_STOP_SEQUENCE {
            Some(GroundCommand::StopSequence)
        } else if byte == BYTE_EMERGENCY_STOP_PARA {
            Some(GroundCommand::EmergencyStopPara)
        } else if byte == BYTE_START_LOGGING {
            Some(GroundCommand::StartLogging)
        } else if byte == BYTE_STOP_LOGGING {
            Some(GroundCommand::StopLogging)
        } else if byte == BYTE_STOP_FIN_CONTROL {
            Some(GroundCommand::StopFinControl)
        } else if byte == BYTE_OPEN_PARA {
            Some(GroundCommand::OpenPara)
        } else if byte == BYTE_CLOSE_PARA {
            Some(GroundCommand::ClosePara)
        } else if byte == BYTE_GNSS_ON {
            Some(GroundCommand::GnssOn)
        } else if byte == BYTE_GNSS_OFF {
            Some(GroundCommand::GnssOff)
        } else {
            None
        }
    }

    /// Commands whose request is tracked after transmission.
    pub open spec fn spec_is_confirmed_by_controller_status(self) -> bool {
        self is StartSequence || self is StopSequence || self is EmergencyStopPara
    }

    pub open spec fn spec_category(self) -> CommandCategory {
        match self {
            GroundCommand::StartSequence => CommandCategory::Sequence,
            GroundCommand::StopSequence => CommandCategory::Sequence,
            GroundCommand::StartLogging => CommandCategory::Logging,
            GroundCommand::StopLogging => CommandCategory::Logging,
            GroundCommand::OpenPara => CommandCategory::ParachutePosition,
            GroundCommand::ClosePara => CommandCategory::ParachutePosition,
            _ => CommandCategory::Other,
        }
    }

    pub open spec fn spec_is_safety_critical(self) -> bool {
        self is EmergencyStopPara
    }

    pub open spec fn spec_priority(self) -> CommandPriority {
        if self.spec_is_safety_critical() {
            CommandPriority::SafetyCritical
        } else {
            CommandPriority::Normal
        }
    }

    /// What accepting the command switches on this board, whatever becomes of the CAN request.
    pub open spec fn spec_acceptance_effects(self) -> CommandAcceptanceEffects {
        CommandAcceptanceEffects {
            logging_requested: if self is StartSequence || self is StartLogging {
                Some(true)
            } else if self is StopLogging {
                Some(false)
            } else {
                None
            },
            gnss_turn_on: self is StartSequence,
        }
    }

    /// Reads the command byte of an uplink frame.
    pub fn decode_legacy(byte: u8) -> (command: Option<Self>)
        ensures
            command == GroundCommand::spec_decode_legacy(byte),
    {
        if byte == BYTE_START_SEQUENCE {
            Some(GroundCommand::StartSequence)
        } else if byte == BYTE_STOP_SEQUENCE {
            Some(GroundCommand::StopSequence)
        } else if byte == BYTE_EMERGENCY_STOP_PARA {
            Some(GroundCommand::EmergencyStopPara)
        } else if byte == BYTE_START_LOGGING {
            Some(GroundCommand::StartLogging)
        } else if byte == BYTE_STOP_LOGGING {
            Some(GroundCommand::StopLogging)
        } else if byte == BYTE_STOP_FIN_CONTROL {
            Some(GroundCommand::StopFinControl)
        } else if byte == BYTE_OPEN_PARA {
            Some(GroundCommand::OpenPara)
        } else if byte == BYTE_CLOSE_PARA {
            Some(GroundCommand::ClosePara)
        } else if byte == BYTE_GNSS_ON {
            Some(GroundCommand::GnssOn)
        } else if byte == BYTE_GNSS_OFF {
            Some(GroundCommand::GnssOff)
        } else {
            None
        }
    }

    pub fn is_confirmed_by_controller_status(self) -> (tracked_command: bool)
        ensures
            tracked_command == self.spec_is_confirmed_by_controller_status(),
    {
        matches!(
            self,
            GroundCommand::StartSequence
                | GroundCommand::StopSequence
                | GroundCommand::EmergencyStopPara
        )
    }

    pub fn is_safety_critical(self) -> (critical: bool)
        ensures
            critical == self.spec_is_safety_critical(),
    {
        matches!(self, GroundCommand::EmergencyStopPara)
    }

    /// Commands of one category, other than `Other`, replace one another.
    pub fn category(self) -> (category: CommandCategory)
        ensures
            category == self.spec_category(),
    {
        match self {
            GroundCommand::StartSequence | GroundCommand::StopSequence => CommandCategory::Sequence,
            GroundCommand::StartLogging | GroundCommand::StopLogging => CommandCategory::Logging,
            GroundCommand::OpenPara | GroundCommand::ClosePara => {
                CommandCategory::ParachutePosition
            },
            _ => CommandCategory::Other,
        }
    }

    pub fn priority(self) -> (priority: CommandPriority)
        ensures
            priority == self.spec_priority(),
    {
        if self.is_safety_critical() {
            CommandPriority::SafetyCritical
        } else {
            CommandPriority::Normal
        }
    }

    pub fn acceptance_effects(self) -> (effects: CommandAcceptanceEffects)
        ensures
            effects == self.spec_acceptance_effects(),
    {
        match self {
            GroundCommand::StartSequence => CommandAcceptanceEffects {
                logging_requested: Some(true),
                gnss_turn_on: true,
            },
            GroundCommand::StartLogging => CommandAcceptanceEffects {
                logging_requested: Some(true),
                gnss_turn_on: false,
            },
            GroundCommand::StopLogging => CommandAcceptanceEffects {
                logging_requested: Some(false),
                gnss_turn_on: false,
            },
            _ => CommandAcceptanceEffects { logging_requested: None, gnss_turn_on: false },
        }
    }
}

/// Why a tracked request ended without confirmation. A timeout means that the outcome could not
/// be observed, not that the controller refused.
#[derive(Clone, Copy, Debug, PartialEq, Eq, Structural)]
pub enum CommandFailure {
    TransmitFailed,
    ConfirmationTimedOut,
    Superseded,
}

#[derive(Clone, Copy, Debug, PartialEq, Eq, Structural)]
pub struct CommandFailureRecord {
    pub token: u32,
    pub command: GroundCommand,
    pub reason: CommandFailure,
}

/// The request that is being tracked.
#[derive(Clone, Copy, Debug, PartialEq, Eq, Structural)]
pub enum CommandRequestState {
    Idle,
    Queued { token: u32, command: GroundCommand },
    AwaitingConfirmation { token: u32, command: GroundCommand, transmitted_at_ms: u64 },
    Completed { token: u32, command: GroundCommand },
    AlreadySatisfied { token: u32, command: GroundCommand },
    Failed { token: u32, command: GroundCommand, reason: CommandFailure },
}

impl CommandRequestState {
    /// Token and command of the request, if there is one.
    pub open spec fn request(self) -> Option<(u32, GroundCommand)> {
        match self {
            CommandRequestState::Idle => None,
            CommandRequestState::Queued { token, command } => Some((token, command)),
            CommandRequestState::AwaitingConfirmation { token, command, .. } => Some(
                (token, command),
            ),
            CommandRequestState::Completed { token, command } => Some((token, command)),
            CommandRequestState::AlreadySatisfied { token, command } => Some((token, command)),
            CommandRequestState::Failed { token, command, .. } => Some((token, command)),
        }
    }

    pub open spec fn spec_is_in_flight(self) -> bool {
        self is Queued || self is AwaitingConfirmation
    }

    pub open spec fn spec_in_flight_command(self) -> Option<GroundCommand> {
        match self {
            CommandRequestState::Queued { command, .. } => Some(command),
            CommandRequestState::AwaitingConfirmation { command, .. } => Some(command),
            _ => None,
        }
    }

    /// The state once the frame of request `sent` is on the bus.
    pub open spec fn spec_mark_transmitted(self, sent: u32, now_ms: u64) -> Self {
        match self {
            CommandRequestState::Queued { token, command } => if token == sent {
                CommandRequestState::AwaitingConfirmation {
                    token,
                    command,
                    transmitted_at_ms: now_ms,
                }
            } else {
                self
            },
            _ => self,
        }
    }

    /// The state once the frame of request `lost` could not be sent.
    pub open spec fn spec_mark_transmit_failed(self, lost: u32) -> Self {
        match self {
            CommandRequestState::Queued { token, command } => if token == lost {
                CommandRequestState::Failed {
                    token,
                    command,
                    reason: CommandFailure::TransmitFailed,
                }
            } else {
                self
            },
            _ => self,
        }
    }

    /// The state once a controller status with these flags is taken as the confirmation: a
    /// request that was sent completes if the flags match its command.
    pub open spec fn spec_confirm(self, sequence_active: bool, liftoff_detected: bool) -> Self {
        match self {
            CommandRequestState::AwaitingConfirmation { token, command, .. } => {
                if spec_flags_match(command, sequence_active, liftoff_detected) {
                    CommandRequestState::Completed { token, command }
                } else {
                    self
                }
            },
            _ => self,
        }
    }

    /// The state after a received controller status, which confirms only what it proves.
    pub open spec fn spec_observe_status(
        self,
        sequence_active: bool,
        liftoff_detected: bool,
    ) -> Self {
        match self.spec_in_flight_command() {
            Some(command) => if spec_command_completed(command, sequence_active, liftoff_detected) {
                self.spec_confirm(sequence_active, liftoff_detected)
            } else {
                self
            },
            None => self,
        }
    }

    /// The state at time `now_ms`.
    pub open spec fn spec_expire(self, now_ms: u64, timeout_ms: u64) -> Self {
        match self {
            CommandRequestState::AwaitingConfirmation { token, command, transmitted_at_ms } => {
                if elapsed_ms(now_ms, transmitted_at_ms) >= timeout_ms {
                    CommandRequestState::Failed {
                        token,
                        command,
                        reason: CommandFailure::ConfirmationTimedOut,
                    }
                } else {
                    self
                }
            },
            _ => self,
        }
    }

    /// The state when a newer request takes the place of this one.
    pub open spec fn spec_supersede(self) -> Self {
        match self {
            CommandRequestState::Queued { token, command } => CommandRequestState::Failed {
                token,
                command,
                reason: CommandFailure::Superseded,
            },
            CommandRequestState::AwaitingConfirmation { token, command, .. } => {
                CommandRequestState::Failed { token, command, reason: CommandFailure::Superseded }
            },
            _ => self,
        }
    }

    pub open spec fn spec_failure(self) -> Option<CommandFailureRecord> {
        match self {
            CommandRequestState::Failed { token, command, reason } => Some(
                CommandFailureRecord { token, command, reason },
            ),
            _ => None,
        }
    }

    pub fn queue(token: u32, command: GroundCommand) -> (state: Self)
        ensures
            state == (CommandRequestState::Queued { token, command }),
    {
        CommandRequestState::Queued { token, command }
    }

    pub fn already_satisfied(token: u32, command: GroundCommand) -> (state: Self)
        ensures
            state == (CommandRequestState::AlreadySatisfied { token, command }),
    {
        CommandRequestState::AlreadySatisfied { token, command }
    }

    pub fn is_in_flight(self) -> (in_flight: bool)
        ensures
            in_flight == self.spec_is_in_flight(),
    {
        matches!(
            self,
            CommandRequestState::Queued { .. } | CommandRequestState::AwaitingConfirmation { .. }
        )
    }

    pub fn in_flight_command(self) -> (command: Option<GroundCommand>)
        ensures
            command == self.spec_in_flight_command(),
    {
        match self {
            CommandRequestState::Queued { command, .. }
            | CommandRequestState::AwaitingConfirmation { command, .. } => Some(command),
            _ => None,
        }
    }

    pub fn mark_transmitted(self, token: u32, now_ms: u64) -> (next: Self)
        ensures
            next == self.spec_mark_transmitted(token, now_ms),
    {
        match self {
            CommandRequestState::Queued { token: current, command } if current == token => {
                CommandRequestState::AwaitingConfirmation {
                    token,
                    command,
                    transmitted_at_ms: now_ms,
                }
            },
            state => state,
        }
    }

    pub fn mark_transmit_failed(self, token: u32) -> (next: Self)
        ensures
            next == self.spec_mark_transmit_failed(token),
    {
        match self {
            CommandRequestState::Queued { token: current, command } if current == token => {
                CommandRequestState::Failed {
                    token,
                    command,
                    reason: CommandFailure::TransmitFailed,
                }
            },
            state => state,
        }
    }

    /// Takes a controller status with these flags as the confirmation of the request. Whether
    /// matching flags prove anything is another question: see `observe_status`.
    pub fn confirm(self, sequence_active: bool, liftoff_detected: bool) -> (next: Self)
        ensures
            next == self.spec_confirm(sequence_active, liftoff_detected),
    {
        match self {
            CommandRequestState::AwaitingConfirmation { token, command, .. } => {
                if flags_match(command, sequence_active, liftoff_detected) {
                    CommandRequestState::Completed { token, command }
                } else {
                    self
                }
            },
            state => state,
        }
    }

    /// Takes note of a received controller status. It confirms the request only if it proves
    /// that the command was carried out, which is never so for an emergency stop.
    pub fn observe_status(self, sequence_active: bool, liftoff_detected: bool) -> (next: Self)
        ensures
            next == self.spec_observe_status(sequence_active, liftoff_detected),
    {
        match self.in_flight_command() {
            Some(command) if command_completed(command, sequence_active, liftoff_detected) => {
                self.confirm(sequence_active, liftoff_detected)
            },
            _ => self,
        }
    }

    pub fn expire(self, now_ms: u64, timeout_ms: u64) -> (next: Self)
        ensures
            next == self.spec_expire(now_ms, timeout_ms),
    {
        match self {
            CommandRequestState::AwaitingConfirmation { token, command, transmitted_at_ms } => {
                if now_ms.saturating_sub(transmitted_at_ms) >= timeout_ms {
                    CommandRequestState::Failed {
                        token,
                        command,
                        reason: CommandFailure::ConfirmationTimedOut,
                    }
                } else {
                    self
                }
            },
            state => state,
        }
    }

    pub fn supersede(self) -> (next: Self)
        ensures
            next == self.spec_supersede(),
    {
        match self {
            CommandRequestState::Queued { token, command }
            | CommandRequestState::AwaitingConfirmation { token, command, .. } => {
                CommandRequestState::Failed { token, command, reason: CommandFailure::Superseded }
            },
            state => state,
        }
    }

    pub fn failure(self) -> (record: Option<CommandFailureRecord>)
        ensures
            record == self.spec_failure(),
    {
        match self {
            CommandRequestState::Failed { token, command, reason } => Some(
                CommandFailureRecord { token, command, reason },
            ),
            _ => None,
        }
    }
}

/// Time since `earlier_ms`, zero if the clock has gone back.
pub open spec fn elapsed_ms(now_ms: u64, earlier_ms: u64) -> int {
    if now_ms >= earlier_ms {
        now_ms - earlier_ms
    } else {
        0
    }
}

/// Whether the flags of a controller status are those that the command leads to.
pub open spec fn spec_flags_match(
    command: GroundCommand,
    sequence_active: bool,
    liftoff_detected: bool,
) -> bool {
    match command {
        GroundCommand::StartSequence => sequence_active,
        GroundCommand::StopSequence => !sequence_active,
        GroundCommand::EmergencyStopPara => !liftoff_detected,
        _ => false,
    }
}

fn flags_match(command: GroundCommand, sequence_active: bool, liftoff_detected: bool) -> (matching:
    bool)
    ensures
        matching == spec_flags_match(command, sequence_active, liftoff_detected),
{
    match command {
        GroundCommand::StartSequence => sequence_active,
        GroundCommand::StopSequence => !sequence_active,
        GroundCommand::EmergencyStopPara => !liftoff_detected,
        _ => false,
    }
}

/// Whether a controller status proves that the command was carried out.
///
/// The status has no bit for an acknowledged emergency stop. A clear liftoff bit is no proof
/// either, since it is clear before launch too.
pub open spec fn spec_command_completed(
    command: GroundCommand,
    sequence_active: bool,
    liftoff_detected: bool,
) -> bool {
    match command {
        GroundCommand::StartSequence => sequence_active,
        GroundCommand::StopSequence => !sequence_active,
        _ => false,
    }
}

pub fn command_completed(
    command: GroundCommand,
    sequence_active: bool,
    liftoff_detected: bool,
) -> (completed: bool)
    ensures
        completed == spec_command_completed(command, sequence_active, liftoff_detected),
{
    match command {
        GroundCommand::StartSequence => sequence_active,
        GroundCommand::StopSequence => !sequence_active,
        GroundCommand::EmergencyStopPara
        | GroundCommand::StartLogging
        | GroundCommand::StopLogging
        | GroundCommand::StopFinControl
        | GroundCommand::OpenPara
        | GroundCommand::ClosePara
        | GroundCommand::GnssOn
        | GroundCommand::GnssOff => false,
    }
}

/// Whether the controller is already where the command would bring it.
pub open spec fn spec_command_already_satisfied(
    command: GroundCommand,
    sequence_active: bool,
) -> bool {
    match command {
        GroundCommand::StartSequence => sequence_active,
        GroundCommand::StopSequence => !sequence_active,
        _ => false,
    }
}

pub fn command_already_satisfied(command: GroundCommand, sequence_active: bool) -> (satisfied: bool)
    ensures
        satisfied == spec_command_already_satisfied(command, sequence_active),
{
    match command {
        GroundCommand::StartSequence => sequence_active,
        GroundCommand::StopSequence => !sequence_active,
        _ => false,
    }
}

#[derive(Clone, Copy, Debug, PartialEq, Eq, Structural)]
pub enum CommandCategory {
    Sequence,
    Logging,
    ParachutePosition,
    Other,
}

#[derive(Clone, Copy, Debug, PartialEq, Eq, Ord, Structural)]
pub enum CommandPriority {
    Normal,
    SafetyCritical,
}

impl CommandPriority {
    /// The place in the order of priorities, counted from the lowest.
    pub open spec fn rank(self) -> int {
        match self {
            CommandPriority::Normal => 0,
            CommandPriority::SafetyCritical => 1,
        }
    }
}

impl vstd::std_specs::cmp::PartialOrdSpecImpl for CommandPriority {
    open spec fn obeys_partial_cmp_spec() -> bool {
        true
    }

    open spec fn partial_cmp_spec(&self, other: &Self) -> Option<core::cmp::Ordering> {
        if self.rank() < other.rank() {
            Some(core::cmp::Ordering::Less)
        } else if self.rank() == other.rank() {
            Some(core::cmp::Ordering::Equal)
        } else {
            Some(core::cmp::Ordering::Greater)
        }
    }
}

impl PartialOrd for CommandPriority {
    fn partial_cmp(&self, other: &Self) -> (order: Option<core::cmp::Ordering>) {
        match (*self, *other) {
            (CommandPriority::Normal, CommandPriority::SafetyCritical) => Some(
                core::cmp::Ordering::Less,
            ),
            (CommandPriority::SafetyCritical, CommandPriority::Normal) => Some(
                core::cmp::Ordering::Greater,
            ),
            _ => Some(core::cmp::Ordering::Equal),
        }
    }
}

#[derive(Clone, Copy, Debug, PartialEq, Eq, Structural)]
pub struct CommandAcceptanceEffects {
    pub logging_requested: Option<bool>,
    pub gnss_turn_on: bool,
}

/// Whether a queued request is the latest of its category. Categories that do not replace one
/// another have no latest request: each of theirs is current.
pub open spec fn spec_queued_request_is_current(
    command: GroundCommand,
    generation: u32,
    latest_sequence: u32,
    latest_logging: u32,
    latest_parachute_position: u32,
) -> bool {
    match command.spec_category() {
        CommandCategory::Sequence => generation == latest_sequence,
        CommandCategory::Logging => generation == latest_logging,
        CommandCategory::ParachutePosition => generation == latest_parachute_position,
        CommandCategory::Other => true,
    }
}

pub fn queued_request_is_current(
    command: GroundCommand,
    generation: u32,
    latest_sequence: u32,
    latest_logging: u32,
    latest_parachute_position: u32,
) -> (current: bool)
    ensures
        current == spec_queued_request_is_current(
            command,
            generation,
            latest_sequence,
            latest_logging,
            latest_parachute_position,
        ),
{
    match command.category() {
        CommandCategory::Sequence => generation == latest_sequence,
        CommandCategory::Logging => generation == latest_logging,
        CommandCategory::ParachutePosition => generation == latest_parachute_position,
        CommandCategory::Other => true,
    }
}

/// A safety critical request gives way only to another one.
pub open spec fn spec_may_supersede(existing: GroundCommand, incoming: GroundCommand) -> bool {
    existing is EmergencyStopPara ==> incoming is EmergencyStopPara
}

pub fn may_supersede(existing: GroundCommand, incoming: GroundCommand) -> (allowed: bool)
    ensures
        allowed == spec_may_supersede(existing, incoming),
{
    !matches!(
        (existing.priority(), incoming.priority()),
        (CommandPriority::SafetyCritical, CommandPriority::Normal)
    )
}

/// Something that can happen to a tracked request.
pub enum RequestEvent {
    Transmitted { token: u32, now_ms: u64 },
    TransmitFailed { token: u32 },
    StatusReceived { sequence_active: bool, liftoff_detected: bool },
    ClockChecked { now_ms: u64, timeout_ms: u64 },
    Superseded,
}

/// The state after one event.
pub open spec fn after_event(
    state: CommandRequestState,
    event: RequestEvent,
) -> CommandRequestState {
    match event {
        RequestEvent::Transmitted { token, now_ms } => state.spec_mark_transmitted(token, now_ms),
        RequestEvent::TransmitFailed { token } => state.spec_mark_transmit_failed(token),
        RequestEvent::StatusReceived { sequence_active, liftoff_detected } => {
            state.spec_observe_status(sequence_active, liftoff_detected)
        },
        RequestEvent::ClockChecked { now_ms, timeout_ms } => state.spec_expire(now_ms, timeout_ms),
        RequestEvent::Superseded => state.spec_supersede(),
    }
}

/// The state after a sequence of events.
pub open spec fn after_events(
    state: CommandRequestState,
    events: Seq<RequestEvent>,
) -> CommandRequestState
    decreases events.len(),
{
    if events.len() == 0 {
        state
    } else {
        after_event(after_events(state, events.drop_last()), events.last())
    }
}

/// Law: decoding undoes encoding, and an accepted byte is the byte of the accepted command.
pub proof fn law_command_bytes_are_unambiguous(command: GroundCommand, byte: u8)
    ensures
        GroundCommand::spec_decode_legacy(command.wire_byte()) == Some(command),
        GroundCommand::spec_decode_legacy(byte) == Some(command) ==> byte == command.wire_byte(),
{
}

/// Law: a request is in flight exactly when it has an in-flight command.
pub proof fn law_in_flight_has_a_command(state: CommandRequestState)
    ensures
        state.spec_is_in_flight() <==> state.spec_in_flight_command() is Some,
        state.spec_is_in_flight() ==> state.request() is Some,
{
}

/// Law: whatever happens to a request, it keeps its token and its command.
pub proof fn law_events_keep_the_request(state: CommandRequestState, events: Seq<RequestEvent>)
    ensures
        after_events(state, events).request() == state.request(),
    decreases events.len(),
{
    if events.len() > 0 {
        law_events_keep_the_request(state, events.drop_last());
    }
}

/// Law: a request that has settled stays as it is.
pub proof fn law_settled_requests_stay_settled(
    state: CommandRequestState,
    events: Seq<RequestEvent>,
)
    requires
        !state.spec_is_in_flight(),
    ensures
        after_events(state, events) == state,
    decreases events.len(),
{
    if events.len() > 0 {
        law_settled_requests_stay_settled(state, events.drop_last());
    }
}

/// Law: an emergency stop is never reported as completed, since no status bit can prove it.
pub proof fn law_emergency_stop_is_never_completed(token: u32, events: Seq<RequestEvent>)
    ensures
        !(after_events(
            CommandRequestState::Queued { token, command: GroundCommand::EmergencyStopPara },
            events,
        ) is Completed),
    decreases events.len(),
{
    let start = CommandRequestState::Queued { token, command: GroundCommand::EmergencyStopPara };
    if events.len() > 0 {
        law_emergency_stop_is_never_completed(token, events.drop_last());
        law_events_keep_the_request(start, events.drop_last());
    }
}

/// Law: a request completes only when a status received after its transmission shows what the
/// command asked for. Neither the request nor its transmission is enough.
pub proof fn law_completion_needs_transmission_and_status(
    token: u32,
    command: GroundCommand,
    events: Seq<RequestEvent>,
)
    requires
        after_events(CommandRequestState::Queued { token, command }, events) is Completed,
    ensures
        exists|sent: int, shown: int|
            0 <= sent < shown < events.len() && transmission_of(#[trigger] events[sent], token)
                && proof_of(#[trigger] events[shown], command),
    decreases events.len(),
{
    let start = CommandRequestState::Queued { token, command };
    let before = after_events(start, events.drop_last());
    law_events_keep_the_request(start, events.drop_last());
    if before is Completed {
        law_completion_needs_transmission_and_status(token, command, events.drop_last());
        let (sent, shown) = choose|sent: int, shown: int|
            0 <= sent < shown < events.drop_last().len() && transmission_of(
                #[trigger] events.drop_last()[sent],
                token,
            ) && proof_of(#[trigger] events.drop_last()[shown], command);
        assert(transmission_of(events[sent], token) && proof_of(events[shown], command));
    } else {
        lemma_awaiting_was_transmitted(token, command, events.drop_last());
        let sent = choose|sent: int|
            0 <= sent < events.drop_last().len() && transmission_of(
                #[trigger] events.drop_last()[sent],
                token,
            );
        let shown = events.len() - 1;
        assert(transmission_of(events[sent], token) && proof_of(events[shown], command));
    }
}

/// The event is the transmission of request `token`.
pub open spec fn transmission_of(event: RequestEvent, token: u32) -> bool {
    event matches RequestEvent::Transmitted { token: sent, .. } && sent == token
}

/// The event is a status that proves `command`.
pub open spec fn proof_of(event: RequestEvent, command: GroundCommand) -> bool {
    event matches RequestEvent::StatusReceived { sequence_active, liftoff_detected }
        && spec_command_completed(command, sequence_active, liftoff_detected)
}

proof fn lemma_awaiting_was_transmitted(
    token: u32,
    command: GroundCommand,
    events: Seq<RequestEvent>,
)
    requires
        after_events(
            CommandRequestState::Queued { token, command },
            events,
        ) is AwaitingConfirmation,
    ensures
        exists|sent: int|
            0 <= sent < events.len() && transmission_of(#[trigger] events[sent], token),
    decreases events.len(),
{
    let start = CommandRequestState::Queued { token, command };
    let before = after_events(start, events.drop_last());
    law_events_keep_the_request(start, events.drop_last());
    if before is AwaitingConfirmation {
        lemma_awaiting_was_transmitted(token, command, events.drop_last());
        let sent = choose|sent: int|
            0 <= sent < events.drop_last().len() && transmission_of(
                #[trigger] events.drop_last()[sent],
                token,
            );
        assert(transmission_of(events[sent], token));
    } else {
        assert(transmission_of(events[events.len() - 1], token));
    }
}

/// Law: superseding a request in flight records a failure for exactly that request.
pub proof fn law_superseding_records_the_old_request(state: CommandRequestState)
    requires
        state.spec_is_in_flight(),
    ensures
        state.spec_supersede().spec_failure() matches Some(record) && Some(
            (record.token, record.command),
        ) == state.request() && record.reason is Superseded,
        !state.spec_supersede().spec_is_in_flight(),
{
}

/// Law: no normal command takes the place of a safety critical one.
pub proof fn law_safety_critical_requests_are_protected(
    existing: GroundCommand,
    incoming: GroundCommand,
)
    ensures
        spec_may_supersede(existing, incoming) <==> !(existing.spec_priority() is SafetyCritical
            && incoming.spec_priority() is Normal),
{
}

/// Law: the emergency stop, and it alone, is safety critical, and it ranks above every other
/// command.
pub proof fn law_emergency_stop_ranks_highest(command: GroundCommand, other: GroundCommand)
    ensures
        command.spec_priority() is SafetyCritical <==> command is EmergencyStopPara,
        command.spec_priority() is SafetyCritical <==> command.spec_is_safety_critical(),
        vstd::std_specs::cmp::PartialOrdSpec::partial_cmp_spec(
            &CommandPriority::SafetyCritical,
            &CommandPriority::Normal,
        ) == Some(core::cmp::Ordering::Greater),
        command is EmergencyStopPara && !(other is EmergencyStopPara)
            ==> vstd::std_specs::cmp::PartialOrdSpec::partial_cmp_spec(
            &command.spec_priority(),
            &other.spec_priority(),
        ) == Some(core::cmp::Ordering::Greater),
{
}

/// Law: the bytes of the ten commands; every other byte stands for none.
pub proof fn law_command_letters(byte: u8)
    ensures
        GroundCommand::spec_decode_legacy(byte) == Some(GroundCommand::StartSequence) <==> byte
            == 0x73,
        GroundCommand::spec_decode_legacy(byte) == Some(GroundCommand::StopSequence) <==> byte
            == 0x71,
        GroundCommand::spec_decode_legacy(byte) == Some(GroundCommand::EmergencyStopPara) <==> byte
            == 0x7a,
        GroundCommand::spec_decode_legacy(byte) == Some(GroundCommand::StartLogging) <==> byte
            == 0x6c,
        GroundCommand::spec_decode_legacy(byte) == Some(GroundCommand::StopLogging) <==> byte
            == 0x6d,
        GroundCommand::spec_decode_legacy(byte) == Some(GroundCommand::StopFinControl) <==> byte
            == 0x45,
        GroundCommand::spec_decode_legacy(byte) == Some(GroundCommand::OpenPara) <==> byte == 0x6f,
        GroundCommand::spec_decode_legacy(byte) == Some(GroundCommand::ClosePara) <==> byte == 0x63,
        GroundCommand::spec_decode_legacy(byte) == Some(GroundCommand::GnssOn) <==> byte == 0x67,
        GroundCommand::spec_decode_legacy(byte) == Some(GroundCommand::GnssOff) <==> byte == 0x68,
{
}

/// Law: start and stop of the sequence replace one another, start and stop of the log do, and
/// opening and closing the parachute do; no other commands replace anything.
pub proof fn law_what_replaces_what(a: GroundCommand, b: GroundCommand)
    ensures
        a.spec_category() == b.spec_category() && !(a.spec_category() is Other) <==> ((a
            is StartSequence || a is StopSequence) && (b is StartSequence || b is StopSequence))
            || ((a is StartLogging || a is StopLogging) && (b is StartLogging || b is StopLogging))
            || ((a is OpenPara || a is ClosePara) && (b is OpenPara || b is ClosePara)),
        a.spec_category() is Sequence <==> a is StartSequence || a is StopSequence,
        a.spec_category() is Logging <==> a is StartLogging || a is StopLogging,
        a.spec_category() is ParachutePosition <==> a is OpenPara || a is ClosePara,
{
}

/// Law: a queued request is compared with the latest generation of its own category, and a
/// request of no category is always current.
pub proof fn law_currency_goes_by_category(
    command: GroundCommand,
    generation: u32,
    sequence: u32,
    logging: u32,
    position: u32,
)
    ensures
        ({
            let current = spec_queued_request_is_current(
                command,
                generation,
                sequence,
                logging,
                position,
            );
            &&& command is StartSequence || command is StopSequence ==> current == (generation
                == sequence)
            &&& command is StartLogging || command is StopLogging ==> current == (generation
                == logging)
            &&& command is OpenPara || command is ClosePara ==> current == (generation == position)
            &&& command is EmergencyStopPara || command is StopFinControl || command is GnssOn
                || command is GnssOff ==> current
        }),
{
}

/// Law: what accepting a command does on this board at once.
pub proof fn law_acceptance_effects(command: GroundCommand)
    ensures
        command.spec_acceptance_effects().logging_requested == Some(true) <==> command
            is StartSequence || command is StartLogging,
        command.spec_acceptance_effects().logging_requested == Some(false) <==> command
            is StopLogging,
        command.spec_acceptance_effects().gnss_turn_on <==> command is StartSequence,
        command.spec_is_confirmed_by_controller_status() <==> command is StartSequence || command
            is StopSequence || command is EmergencyStopPara,
{
}

/// Law: only its own transmission moves a queued request on, and it then waits from the time of
/// the transmission; only its own failed transmission fails it. No other state takes notice.
pub proof fn law_transmission_concerns_the_queued_request(
    state: CommandRequestState,
    token: u32,
    command: GroundCommand,
    reported: u32,
    now_ms: u64,
)
    ensures
        state == (CommandRequestState::Queued { token, command }) && reported == token ==> {
            &&& state.spec_mark_transmitted(reported, now_ms) == (
            CommandRequestState::AwaitingConfirmation { token, command, transmitted_at_ms: now_ms })
            &&& state.spec_mark_transmit_failed(reported) == (CommandRequestState::Failed {
                token,
                command,
                reason: CommandFailure::TransmitFailed,
            })
        },
        !(state is Queued) || (state == (CommandRequestState::Queued { token, command })
            && reported != token) ==> {
            &&& state.spec_mark_transmitted(reported, now_ms) == state
            &&& state.spec_mark_transmit_failed(reported) == state
        },
{
}

/// Law: a request that was sent is given up exactly when the timeout has passed since its
/// transmission; no other state expires.
pub proof fn law_confirmation_is_awaited_for_the_timeout(
    state: CommandRequestState,
    token: u32,
    command: GroundCommand,
    sent_ms: u64,
    now_ms: u64,
    timeout_ms: u64,
)
    requires
        timeout_ms > 0,
    ensures
        state == (CommandRequestState::AwaitingConfirmation {
            token,
            command,
            transmitted_at_ms: sent_ms,
        }) ==> state.spec_expire(now_ms, timeout_ms) == (if now_ms >= sent_ms + timeout_ms {
            CommandRequestState::Failed {
                token,
                command,
                reason: CommandFailure::ConfirmationTimedOut,
            }
        } else {
            state
        }),
        !(state is AwaitingConfirmation) ==> state.spec_expire(now_ms, timeout_ms) == state,
{
}

/// Law: a failure is told of a failed request and of no other, with its token, command and reason.
pub proof fn law_failures_are_told_as_they_are(
    state: CommandRequestState,
    record: CommandFailureRecord,
)
    ensures
        state.spec_failure() == Some(record) <==> state == (CommandRequestState::Failed {
            token: record.token,
            command: record.command,
            reason: record.reason,
        }),
        state.spec_failure() is Some <==> state is Failed,
        state is Queued || state is AwaitingConfirmation ==> state.spec_supersede() is Failed,
        !(state is Queued || state is AwaitingConfirmation) ==> state.spec_supersede() == state,
{
}

/// Law: a status completes a sent start when the sequence is active, and a sent stop when it is
/// not, under the same token. Any other request, and any other status, stays as it is.
pub proof fn law_a_fitting_status_completes_the_request(
    state: CommandRequestState,
    token: u32,
    command: GroundCommand,
    sent_ms: u64,
    sequence_active: bool,
    liftoff_detected: bool,
)
    ensures
        ({
            let next = state.spec_observe_status(sequence_active, liftoff_detected);
            let sent = state == (CommandRequestState::AwaitingConfirmation {
                token,
                command,
                transmitted_at_ms: sent_ms,
            });
            let fits = (command is StartSequence && sequence_active) || (command is StopSequence
                && !sequence_active);
            &&& sent && fits ==> next == (CommandRequestState::Completed { token, command })
            &&& sent && !fits ==> next == state
            &&& !(state is AwaitingConfirmation) ==> next == state
        }),
{
}

/// Law: taken as a confirmation, flags complete a sent request when they are what its command leads
/// to: an active sequence for a start, an inactive one for a stop, no liftoff for an emergency
/// stop. Everything else stays as it is.
pub proof fn law_matching_flags_confirm(
    state: CommandRequestState,
    token: u32,
    command: GroundCommand,
    sent_ms: u64,
    sequence_active: bool,
    liftoff_detected: bool,
)
    ensures
        ({
            let next = state.spec_confirm(sequence_active, liftoff_detected);
            let sent = state == (CommandRequestState::AwaitingConfirmation {
                token,
                command,
                transmitted_at_ms: sent_ms,
            });
            let fits = (command is StartSequence && sequence_active) || (command is StopSequence
                && !sequence_active) || (command is EmergencyStopPara && !liftoff_detected);
            &&& sent && fits ==> next == (CommandRequestState::Completed { token, command })
            &&& sent && !fits ==> next == state
            &&& !(state is AwaitingConfirmation) ==> next == state
        }),
{
}

/// Law: a status proves a start by an active sequence, a stop by an inactive one, and nothing
/// else; by the same bit such a command has nothing to do.
pub proof fn law_what_a_status_proves(
    command: GroundCommand,
    sequence_active: bool,
    liftoff_detected: bool,
)
    ensures
        spec_command_completed(command, sequence_active, liftoff_detected) <==> (command
            is StartSequence && sequence_active) || (command is StopSequence && !sequence_active),
        spec_command_already_satisfied(command, sequence_active) <==> (command is StartSequence
            && sequence_active) || (command is StopSequence && !sequence_active),
        spec_command_completed(GroundCommand::StartSequence, sequence_active, liftoff_detected)
            != spec_command_completed(
            GroundCommand::StopSequence,
            sequence_active,
            liftoff_detected,
        ),
{
}

/// Law: the life of a sequence command that works: queued, sent, not yet given up before the
/// timeout, and completed by the first status that shows its goal.
pub proof fn law_life_of_a_sequence_command(
    token: u32,
    start: bool,
    sent_ms: u64,
    checked_ms: u64,
    timeout_ms: u64,
    liftoff_before: bool,
    liftoff_after: bool,
)
    requires
        checked_ms < sent_ms + timeout_ms,
        timeout_ms > 0,
    ensures
        ({
            let command = if start {
                GroundCommand::StartSequence
            } else {
                GroundCommand::StopSequence
            };
            let sent = (CommandRequestState::Queued { token, command }).spec_mark_transmitted(
                token,
                sent_ms,
            );
            let waiting = sent.spec_observe_status(!start, liftoff_before).spec_expire(
                checked_ms,
                timeout_ms,
            );
            &&& waiting == sent
            &&& waiting.spec_observe_status(start, liftoff_after) == (
            CommandRequestState::Completed { token, command })
        }),
{
}

} // verus!
