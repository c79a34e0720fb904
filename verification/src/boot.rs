//! The boot sequence as a state machine.
//!
//! The sequence alternates work on the outside world with decisions. The
//! decisions are here: [`step`] takes the state and the result of the last
//! action and gives the next state and the next action. The driver performs
//! each action and hands its result back, until the action is to exit.
//!
//! ```text
//! Start -> ModeSelected -> [TransportReady -> KeyAcquired -> KeyDecoded
//!     -> ConfigBuilt] -> MountInvoked -> Success | Fatal
//! ```
//!
//! The bracketed part is skipped in an agent boot. No edge leads back.

use crate::acquire::{trim_line_endings, trim_spec, TransportMount, TransportMountView};
use crate::codec::{decode_key, decode_spec, KeyMaterial, KEY_LEN};
use crate::config::{config_spec, LayeredRootfsConfig, RootfsConfigView};
use crate::error::{BootError, FAILURE_STATUS, SUCCESS_STATUS};
use crate::invoke::{mount_outcome, outcome_spec, MountRequest, MountRequestView};
use crate::mode::{boot_mode_spec, select_boot_mode, BootMode};
use crate::settings::{BootSettings, BootSettingsView};
use vstd::prelude::*;
use vstd::utf8::encode_utf8;

verus! {

/// Where a boot stands.
pub enum BootState {
    /// Nothing is known yet; the agent flag is being read.
    Start,
    /// The mode is chosen. In a standard boot the transport mount is under
    /// way.
    ModeSelected(BootMode),
    /// The transport mount is done with; the key file is being read.
    TransportReady,
    /// The key text is here, without the line endings at its end.
    KeyAcquired(String),
    /// The key text has decoded to a key.
    KeyDecoded(KeyMaterial),
    /// The configuration record is built.
    ConfigBuilt(KeyMaterial, LayeredRootfsConfig),
    /// The privileged mount has been issued; its status is awaited.
    MountInvoked,
    /// The root filesystem is mounted.
    Success,
    /// The boot has failed; there is no usable root filesystem.
    Fatal(BootError),
}

/// What a [`BootState`] holds.
pub enum BootStateView {
    Start,
    ModeSelected(BootMode),
    TransportReady,
    KeyAcquired(Seq<u8>),
    KeyDecoded(Seq<u8>),
    ConfigBuilt(Seq<u8>, RootfsConfigView),
    MountInvoked,
    Success,
    Fatal(BootError),
}

/// What the driver found when it performed an action.
pub enum BootEvent {
    /// The value of the agent flag; `None` if it is not set.
    FlagRead(Option<String>),
    /// Whether the transport mount succeeded.
    TransportMounted(bool),
    /// The content of the key file; `None` if it could not be read.
    KeyFileRead(Option<String>),
    /// Nothing: the last action asked for no outside work.
    Proceed,
    /// The status that the privileged mount returned, and the platform's
    /// last error right after the call.
    MountReturned { status: i64, os_error: i32 },
}

/// What a [`BootEvent`] holds, each text as its UTF-8 bytes.
pub enum BootEventView {
    FlagRead(Option<Seq<u8>>),
    TransportMounted(bool),
    KeyFileRead(Option<Seq<u8>>),
    Proceed,
    MountReturned { status: i64, os_error: i32 },
}

/// What the driver has to do next.
pub enum BootAction {
    /// Read the environment variable of this name.
    ReadFlag(String),
    /// Create the mount point if it is absent and make the transport mount.
    MountTransport(TransportMount),
    /// Read the file of this name as text.
    ReadKeyFile(String),
    /// Nothing; hand back [`BootEvent::Proceed`].
    Proceed,
    /// Issue the privileged mount, once.
    InvokeMount(MountRequest),
    /// End the process with this status.
    Exit(i32),
}

/// What a [`BootAction`] holds.
pub enum BootActionView {
    ReadFlag(Seq<char>),
    MountTransport(TransportMountView),
    ReadKeyFile(Seq<char>),
    Proceed,
    InvokeMount(MountRequestView),
    Exit(i32),
}

impl View for BootState {
    type V = BootStateView;

    open spec fn view(&self) -> BootStateView {
        match *self {
            BootState::Start => BootStateView::Start,
            BootState::ModeSelected(mode) => BootStateView::ModeSelected(mode),
            BootState::TransportReady => BootStateView::TransportReady,
            BootState::KeyAcquired(text) => BootStateView::KeyAcquired(encode_utf8(text@)),
            BootState::KeyDecoded(key) => BootStateView::KeyDecoded(key@),
            BootState::ConfigBuilt(key, config) => BootStateView::ConfigBuilt(key@, config@),
            BootState::MountInvoked => BootStateView::MountInvoked,
            BootState::Success => BootStateView::Success,
            BootState::Fatal(error) => BootStateView::Fatal(error),
        }
    }
}

impl View for BootAction {
    type V = BootActionView;

    open spec fn view(&self) -> BootActionView {
        match *self {
            BootAction::ReadFlag(name) => BootActionView::ReadFlag(name@),
            BootAction::MountTransport(transport) => BootActionView::MountTransport(transport@),
            BootAction::ReadKeyFile(path) => BootActionView::ReadKeyFile(path@),
            BootAction::Proceed => BootActionView::Proceed,
            BootAction::InvokeMount(request) => BootActionView::InvokeMount(request@),
            BootAction::Exit(status) => BootActionView::Exit(status),
        }
    }
}

/// The UTF-8 bytes of an optional text.
pub open spec fn text_bytes(text: Option<String>) -> Option<Seq<u8>> {
    match text {
        Some(text) => Some(encode_utf8(text@)),
        None => None,
    }
}

impl View for BootEvent {
    type V = BootEventView;

    open spec fn view(&self) -> BootEventView {
        match *self {
            BootEvent::FlagRead(flag) => BootEventView::FlagRead(text_bytes(flag)),
            BootEvent::TransportMounted(mounted) => BootEventView::TransportMounted(mounted),
            BootEvent::KeyFileRead(content) => BootEventView::KeyFileRead(text_bytes(content)),
            BootEvent::Proceed => BootEventView::Proceed,
            BootEvent::MountReturned { status, os_error } => BootEventView::MountReturned {
                status,
                os_error,
            },
        }
    }
}

/// The end of a failed boot.
pub open spec fn fatal_spec(error: BootError) -> (BootStateView, BootActionView) {
    (BootStateView::Fatal(error), BootActionView::Exit(FAILURE_STATUS))
}

/// The boot can go no further from this state.
pub open spec fn is_terminal(state: BootStateView) -> bool {
    state is Success || state is Fatal
}

/// The greatest number of steps that a boot can still take from a state.
pub open spec fn steps_left(state: BootStateView) -> nat {
    match state {
        BootStateView::Start => 7,
        BootStateView::ModeSelected(_) => 6,
        BootStateView::TransportReady => 5,
        BootStateView::KeyAcquired(_) => 4,
        BootStateView::KeyDecoded(_) => 3,
        BootStateView::ConfigBuilt(_, _) => 2,
        BootStateView::MountInvoked => 1,
        BootStateView::Success => 0,
        BootStateView::Fatal(_) => 0,
    }
}

/// The transition of the boot sequence: the state and the action that
/// follow a state and the result of its action.
///
/// A result that does not answer the action of the state ends the boot
/// with [`BootError::UnexpectedEvent`]. A boot that has ended stays as it
/// is and asks again for the exit.
pub open spec fn step_spec(
    settings: BootSettingsView,
    state: BootStateView,
    event: BootEventView,
) -> (BootStateView, BootActionView) {
    match state {
        BootStateView::Start => match event {
            BootEventView::FlagRead(flag) => {
                let mode = boot_mode_spec(flag);
                (
                    BootStateView::ModeSelected(mode),
                    match mode {
                        BootMode::AgentBoot => BootActionView::Proceed,
                        BootMode::StandardBoot => BootActionView::MountTransport(
                            settings.transport,
                        ),
                    },
                )
            },
            _ => fatal_spec(BootError::UnexpectedEvent),
        },
        BootStateView::ModeSelected(BootMode::AgentBoot) => match event {
            BootEventView::Proceed => (
                BootStateView::MountInvoked,
                BootActionView::InvokeMount(MountRequestView::Bare),
            ),
            _ => fatal_spec(BootError::UnexpectedEvent),
        },
        BootStateView::ModeSelected(BootMode::StandardBoot) => match event {
            BootEventView::TransportMounted(mounted) => if mounted
                || !settings.transport_failure_fatal {
                (BootStateView::TransportReady, BootActionView::ReadKeyFile(settings.key_file))
            } else {
                fatal_spec(BootError::KeyUnavailable)
            },
            _ => fatal_spec(BootError::UnexpectedEvent),
        },
        BootStateView::TransportReady => match event {
            BootEventView::KeyFileRead(Some(content)) => (
                BootStateView::KeyAcquired(trim_spec(content)),
                BootActionView::Proceed,
            ),
            BootEventView::KeyFileRead(None) => fatal_spec(BootError::KeyUnavailable),
            _ => fatal_spec(BootError::UnexpectedEvent),
        },
        BootStateView::KeyAcquired(text) => match event {
            BootEventView::Proceed => match decode_spec(text, KEY_LEN as nat) {
                Some(key) => (BootStateView::KeyDecoded(key), BootActionView::Proceed),
                None => fatal_spec(BootError::MalformedKey),
            },
            _ => fatal_spec(BootError::UnexpectedEvent),
        },
        BootStateView::KeyDecoded(key) => match event {
            BootEventView::Proceed => match config_spec(settings.layout) {
                Ok(config) => (BootStateView::ConfigBuilt(key, config), BootActionView::Proceed),
                Err(error) => fatal_spec(error),
            },
            _ => fatal_spec(BootError::UnexpectedEvent),
        },
        BootStateView::ConfigBuilt(key, config) => match event {
            BootEventView::Proceed => (
                BootStateView::MountInvoked,
                BootActionView::InvokeMount(MountRequestView::Layered { key, config }),
            ),
            _ => fatal_spec(BootError::UnexpectedEvent),
        },
        BootStateView::MountInvoked => match event {
            BootEventView::MountReturned { status, os_error } => match outcome_spec(
                status,
                os_error,
            ) {
                Ok(_) => (BootStateView::Success, BootActionView::Exit(SUCCESS_STATUS)),
                Err(error) => fatal_spec(error),
            },
            _ => fatal_spec(BootError::UnexpectedEvent),
        },
        BootStateView::Success => (BootStateView::Success, BootActionView::Exit(SUCCESS_STATUS)),
        BootStateView::Fatal(error) => fatal_spec(error),
    }
}

fn fatal(error: BootError) -> (end: (BootState, BootAction))
    ensures
        (end.0@, end.1@) == fatal_spec(error),
{
    (BootState::Fatal(error), BootAction::Exit(FAILURE_STATUS))
}

/// Begins a boot: the state is [`BootState::Start`] and the first action
/// is to read the agent flag.
pub fn start(settings: &BootSettings) -> (first: (BootState, BootAction))
    ensures
        first.0@ == BootStateView::Start,
        first.1@ == BootActionView::ReadFlag(settings.agent_flag@),
{
    (BootState::Start, BootAction::ReadFlag(settings.agent_flag.clone()))
}

/// Takes one step of the boot sequence.
///
/// The step is the one that [`step_spec`] describes. It brings a boot that
/// has not ended nearer to its end and leaves one that has ended as it is;
/// it asks for the exit exactly when the boot has ended, and for the
/// privileged mount exactly when it enters `MountInvoked`. A negative
/// status of the mount ends the boot with the platform's error.
pub fn step(settings: &BootSettings, state: BootState, event: BootEvent) -> (next: (
    BootState,
    BootAction,
))
    ensures
        (next.0@, next.1@) == step_spec(settings@, state@, event@),
        !is_terminal(state@) ==> steps_left(next.0@) < steps_left(state@),
        is_terminal(state@) ==> next.0@ == state@,
        next.1@ is Exit <==> is_terminal(next.0@),
        next.1@ is InvokeMount <==> next.0@ is MountInvoked,
        state@ is MountInvoked ==> (event matches BootEvent::MountReturned { status, os_error }
            ==> (status < 0 ==> next.0@ == BootStateView::Fatal(BootError::OsError(os_error))
            && next.1@ == BootActionView::Exit(FAILURE_STATUS))),
{
    match state {
        BootState::Start => match event {
            BootEvent::FlagRead(flag) => {
                let mode = match &flag {
                    Some(value) => select_boot_mode(Some(value.as_str())),
                    None => select_boot_mode(None),
                };
                let action = match mode {
                    BootMode::AgentBoot => BootAction::Proceed,
                    BootMode::StandardBoot => BootAction::MountTransport(
                        TransportMount {
                            fs_type: settings.transport.fs_type.clone(),
                            target: settings.transport.target.clone(),
                            options: settings.transport.options.clone(),
                        },
                    ),
                };
                (BootState::ModeSelected(mode), action)
            },
            _ => fatal(BootError::UnexpectedEvent),
        },
        BootState::ModeSelected(BootMode::AgentBoot) => match event {
            BootEvent::Proceed => (
                BootState::MountInvoked,
                BootAction::InvokeMount(MountRequest::Bare),
            ),
            _ => fatal(BootError::UnexpectedEvent),
        },
        BootState::ModeSelected(BootMode::StandardBoot) => match event {
            BootEvent::TransportMounted(mounted) => {
                if mounted || !settings.transport_failure_fatal {
                    (BootState::TransportReady, BootAction::ReadKeyFile(settings.key_file.clone()))
                } else {
                    fatal(BootError::KeyUnavailable)
                }
            },
            _ => fatal(BootError::UnexpectedEvent),
        },
        BootState::TransportReady => match event {
            BootEvent::KeyFileRead(Some(content)) => {
                let text = trim_line_endings(content.as_str()).to_owned();
                (BootState::KeyAcquired(text), BootAction::Proceed)
            },
            BootEvent::KeyFileRead(None) => fatal(BootError::KeyUnavailable),
            _ => fatal(BootError::UnexpectedEvent),
        },
        BootState::KeyAcquired(text) => match event {
            BootEvent::Proceed => match decode_key(text.as_str()) {
                Ok(key) => (BootState::KeyDecoded(key), BootAction::Proceed),
                Err(error) => fatal(error),
            },
            _ => fatal(BootError::UnexpectedEvent),
        },
        BootState::KeyDecoded(key) => match event {
            BootEvent::Proceed => match LayeredRootfsConfig::build(&settings.layout) {
                Ok(config) => (BootState::ConfigBuilt(key, config), BootAction::Proceed),
                Err(error) => fatal(error),
            },
            _ => fatal(BootError::UnexpectedEvent),
        },
        BootState::ConfigBuilt(key, config) => match event {
            BootEvent::Proceed => (
                BootState::MountInvoked,
                BootAction::InvokeMount(MountRequest::Layered { key, config }),
            ),
            _ => fatal(BootError::UnexpectedEvent),
        },
        BootState::MountInvoked => match event {
            BootEvent::MountReturned { status, os_error } => match mount_outcome(
                status,
                os_error,
            ) {
                Ok(_) => (BootState::Success, BootAction::Exit(SUCCESS_STATUS)),
                Err(error) => fatal(error),
            },
            _ => fatal(BootError::UnexpectedEvent),
        },
        BootState::Success => (BootState::Success, BootAction::Exit(SUCCESS_STATUS)),
        BootState::Fatal(error) => fatal(error),
    }
}

} // verus!
