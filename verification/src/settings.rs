//! The startup configuration: every fixed name and path of the boot
//! sequence in one value, handed to the sequence instead of being written
//! into it.

use crate::acquire::{TransportMount, TransportMountView};
use crate::config::{config_spec, RootfsLayout, RootfsLayoutView};
use crate::cstr::{lemma_plain_ascii_nul_free, plain_ascii};
use vstd::prelude::*;
use vstd::utf8::encode_utf8;

verus! {

/// What the boot sequence is started with.
pub struct BootSettings {
    /// Name of the environment variable that selects the agent boot.
    pub agent_flag: String,
    /// The mount through which the host hands over the key.
    pub transport: TransportMount,
    /// Whether a failed transport mount ends the boot. Without it the key
    /// file would be read from whatever lies under the mount point.
    pub transport_failure_fatal: bool,
    /// The file under the transport mount that holds the key text.
    pub key_file: String,
    /// The layered root filesystem.
    pub layout: RootfsLayout,
}

/// What a [`BootSettings`] holds.
pub struct BootSettingsView {
    pub agent_flag: Seq<char>,
    pub transport: TransportMountView,
    pub transport_failure_fatal: bool,
    pub key_file: Seq<char>,
    pub layout: RootfsLayoutView,
}

impl View for BootSettings {
    type V = BootSettingsView;

    open spec fn view(&self) -> BootSettingsView {
        BootSettingsView {
            agent_flag: self.agent_flag@,
            transport: self.transport@,
            transport_failure_fatal: self.transport_failure_fatal,
            key_file: self.key_file@,
            layout: self.layout@,
        }
    }
}

/// The settings of a stock enclave image.
pub open spec fn stock_settings() -> BootSettingsView {
    BootSettingsView {
        agent_flag: "ENCLAVE_AGENT"@,
        transport: TransportMountView {
            fs_type: "sefs"@,
            target: "/mnt"@,
            options: "dir=/keys"@,
        },
        transport_failure_fatal: true,
        key_file: "/mnt/key.txt"@,
        layout: RootfsLayoutView {
            upper_layer: encode_utf8("/sefs/upper"@),
            lower_layer: encode_utf8("/sefs/lower"@),
            entry_point: encode_utf8("/"@),
            hostfs_source: encode_utf8("/tmp"@),
            hostfs_target: None,
            env: seq![encode_utf8("TEST=1234"@)],
        },
    }
}

/// The record can always be built from the stock layout: none of its
/// strings holds a NUL byte.
pub proof fn lemma_stock_layout_builds()
    ensures
        config_spec(stock_settings().layout) is Ok,
{
    reveal_strlit("/sefs/upper");
    reveal_strlit("/sefs/lower");
    reveal_strlit("/");
    reveal_strlit("/tmp");
    reveal_strlit("TEST=1234");
    assert(plain_ascii("/sefs/upper"@));
    assert(plain_ascii("/sefs/lower"@));
    assert(plain_ascii("/"@));
    assert(plain_ascii("/tmp"@));
    assert(plain_ascii("TEST=1234"@));
    lemma_plain_ascii_nul_free("/sefs/upper"@);
    lemma_plain_ascii_nul_free("/sefs/lower"@);
    lemma_plain_ascii_nul_free("/"@);
    lemma_plain_ascii_nul_free("/tmp"@);
    lemma_plain_ascii_nul_free("TEST=1234"@);
}

impl Default for BootSettings {
    /// The settings of a stock enclave image: a failed transport mount is
    /// fatal.
    fn default() -> (settings: BootSettings)
        ensures
            settings@ == stock_settings(),
    {
        let mut env: Vec<String> = Vec::new();
        env.push("TEST=1234".to_owned());
        let settings = BootSettings {
            agent_flag: "ENCLAVE_AGENT".to_owned(),
            transport: TransportMount {
                fs_type: "sefs".to_owned(),
                target: "/mnt".to_owned(),
                options: "dir=/keys".to_owned(),
            },
            transport_failure_fatal: true,
            key_file: "/mnt/key.txt".to_owned(),
            layout: RootfsLayout {
                upper_layer: "/sefs/upper".to_owned(),
                lower_layer: "/sefs/lower".to_owned(),
                entry_point: "/".to_owned(),
                hostfs_source: "/tmp".to_owned(),
                hostfs_target: None,
                env,
            },
        };
        assert(settings@.layout.env =~= stock_settings().layout.env);
        settings
    }
}

} // verus!
