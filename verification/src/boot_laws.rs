//! What holds of every run of the boot sequence.

use crate::acquire::trim_spec;
use crate::boot::{
    fatal_spec, is_terminal, step_spec, steps_left, BootActionView, BootEventView, BootStateView,
};
use crate::codec::{decode_spec, KEY_LEN};
use crate::config::{config_spec, envp_spec, record_size};
use crate::error::{BootError, FAILURE_STATUS, SUCCESS_STATUS};
use crate::invoke::MountRequestView;
use crate::mode::{boot_mode_spec, selects_agent, BootMode};
use crate::settings::{lemma_stock_layout_builds, stock_settings, BootSettingsView};
use vstd::prelude::*;
use vstd::utf8::encode_utf8;

verus! {

/// No edge leads back: each step of a boot that has not ended brings it
/// nearer to its end, whatever the driver hands in. So every boot ends, in
/// at most seven steps.
pub proof fn lemma_every_step_advances(
    settings: BootSettingsView,
    state: BootStateView,
    event: BootEventView,
)
    requires
        !is_terminal(state),
    ensures
        steps_left(step_spec(settings, state, event).0) < steps_left(state),
{
}

/// A boot that has ended stays where it is.
pub proof fn lemma_end_is_final(
    settings: BootSettingsView,
    state: BootStateView,
    event: BootEventView,
)
    requires
        is_terminal(state),
    ensures
        step_spec(settings, state, event).0 == state,
{
}

/// The driver is told to exit exactly when the boot has ended, with status
/// zero after a success and with the failure status after any error.
pub proof fn lemma_exit_at_the_end(
    settings: BootSettingsView,
    state: BootStateView,
    event: BootEventView,
)
    ensures
        ({
            let (next, action) = step_spec(settings, state, event);
            &&& action is Exit <==> is_terminal(next)
            &&& next is Success ==> action == BootActionView::Exit(SUCCESS_STATUS)
            &&& next is Fatal ==> action == BootActionView::Exit(FAILURE_STATUS)
        }),
{
}

/// The privileged mount is issued on the step that enters `MountInvoked`
/// and on no other; as no step leads back, it is issued at most once.
pub proof fn lemma_mount_issued_once(
    settings: BootSettingsView,
    state: BootStateView,
    event: BootEventView,
)
    ensures
        ({
            let (next, action) = step_spec(settings, state, event);
            action is InvokeMount <==> next is MountInvoked
        }),
{
}

/// There is no success without the privileged mount: a boot succeeds only
/// on the step that reads a status of the mount, and that status is not
/// negative.
pub proof fn lemma_success_needs_the_mount(
    settings: BootSettingsView,
    state: BootStateView,
    event: BootEventView,
)
    requires
        !is_terminal(state),
        step_spec(settings, state, event).0 is Success,
    ensures
        state is MountInvoked,
        event matches BootEventView::MountReturned { status, .. } && status >= 0,
{
}

/// An agent boot invokes the privileged mount bare: when the flag selects
/// the agent, the second step issues the mount with no key and no
/// configuration, and nothing is mounted or read before it.
pub proof fn lemma_agent_boot_is_bare(settings: BootSettingsView, flag: Seq<u8>)
    requires
        selects_agent(flag),
    ensures
        ({
            let (selected, first) = step_spec(
                settings,
                BootStateView::Start,
                BootEventView::FlagRead(Some(flag)),
            );
            let (invoked, second) = step_spec(settings, selected, BootEventView::Proceed);
            &&& selected == BootStateView::ModeSelected(BootMode::AgentBoot)
            &&& first == BootActionView::Proceed
            &&& invoked == BootStateView::MountInvoked
            &&& second == BootActionView::InvokeMount(MountRequestView::Bare)
        }),
{
}

/// A standard boot invokes the layered mount with the key that the key
/// file decodes to and the record of the layout: when the flag does not
/// select the agent, the transport mount succeeds, the content of the key
/// file is a well-formed key text followed by line endings, and the layout
/// holds no NUL byte, then the sixth step issues that mount.
pub proof fn lemma_standard_boot_is_layered(
    settings: BootSettingsView,
    flag: Option<Seq<u8>>,
    content: Seq<u8>,
)
    requires
        boot_mode_spec(flag) == BootMode::StandardBoot,
        decode_spec(trim_spec(content), KEY_LEN as nat) is Some,
        config_spec(settings.layout) is Ok,
    ensures
        ({
            let (s1, a1) = step_spec(settings, BootStateView::Start, BootEventView::FlagRead(flag));
            let (s2, a2) = step_spec(settings, s1, BootEventView::TransportMounted(true));
            let (s3, a3) = step_spec(settings, s2, BootEventView::KeyFileRead(Some(content)));
            let (s4, a4) = step_spec(settings, s3, BootEventView::Proceed);
            let (s5, a5) = step_spec(settings, s4, BootEventView::Proceed);
            let (s6, a6) = step_spec(settings, s5, BootEventView::Proceed);
            &&& a1 == BootActionView::MountTransport(settings.transport)
            &&& a2 == BootActionView::ReadKeyFile(settings.key_file)
            &&& s6 == BootStateView::MountInvoked
            &&& a6 == BootActionView::InvokeMount(
                MountRequestView::Layered {
                    key: decode_spec(trim_spec(content), KEY_LEN as nat).unwrap(),
                    config: config_spec(settings.layout).unwrap(),
                },
            )
        }),
{
}

/// With the stock settings the layered mount gets the stock layout: in a
/// standard boot whose key file holds a well-formed key text, the record
/// handed to the privileged mount names the stock paths, its length field
/// is the size of the record, and its environment vector holds the stock
/// assignment and the null entry.
pub proof fn lemma_stock_boot_is_layered(flag: Option<Seq<u8>>, content: Seq<u8>)
    requires
        boot_mode_spec(flag) == BootMode::StandardBoot,
        decode_spec(trim_spec(content), KEY_LEN as nat) is Some,
    ensures
        ({
            let settings = stock_settings();
            let (s1, a1) = step_spec(settings, BootStateView::Start, BootEventView::FlagRead(flag));
            let (s2, a2) = step_spec(settings, s1, BootEventView::TransportMounted(true));
            let (s3, a3) = step_spec(settings, s2, BootEventView::KeyFileRead(Some(content)));
            let (s4, a4) = step_spec(settings, s3, BootEventView::Proceed);
            let (s5, a5) = step_spec(settings, s4, BootEventView::Proceed);
            let (s6, a6) = step_spec(settings, s5, BootEventView::Proceed);
            &&& a6 matches BootActionView::InvokeMount(MountRequestView::Layered { key, config })
            &&& key == decode_spec(trim_spec(content), KEY_LEN as nat).unwrap()
            &&& config.len == record_size()
            &&& config.upper_layer_path == encode_utf8("/sefs/upper"@)
            &&& config.lower_layer_path == encode_utf8("/sefs/lower"@)
            &&& config.entry_point == encode_utf8("/"@)
            &&& config.hostfs_source == encode_utf8("/tmp"@)
            &&& config.hostfs_target is None
            &&& config.envp == seq![Some(encode_utf8("TEST=1234"@)), None]
        }),
{
    lemma_stock_layout_builds();
    lemma_standard_boot_is_layered(stock_settings(), flag, content);
    assert(envp_spec(stock_settings().layout.env) =~= seq![
        Some(encode_utf8("TEST=1234"@)),
        None,
    ]);
}

/// A failed transport mount ends the boot where the settings make it
/// fatal, and lets it go on to the key file where they do not.
pub proof fn lemma_transport_failure(settings: BootSettingsView)
    ensures
        ({
            let next = step_spec(
                settings,
                BootStateView::ModeSelected(BootMode::StandardBoot),
                BootEventView::TransportMounted(false),
            );
            if settings.transport_failure_fatal {
                next == fatal_spec(BootError::KeyUnavailable)
            } else {
                next == (
                    BootStateView::TransportReady,
                    BootActionView::ReadKeyFile(settings.key_file),
                )
            }
        }),
{
}

/// A negative status of the privileged mount ends the boot with the
/// platform's error and the failure status; any other status ends it in
/// success.
pub proof fn lemma_mount_status_decides(settings: BootSettingsView, status: i64, os_error: i32)
    ensures
        ({
            let next = step_spec(
                settings,
                BootStateView::MountInvoked,
                BootEventView::MountReturned { status, os_error },
            );
            if status < 0 {
                next == fatal_spec(BootError::OsError(os_error))
            } else {
                next == (BootStateView::Success, BootActionView::Exit(SUCCESS_STATUS))
            }
        }),
{
}

} // verus!
