//! The boot mode selector.

use crate::ascii::{lower_case, to_ascii_lower};
use vstd::prelude::*;
use vstd::string::StringSliceAdditionalSpecFns;

verus! {

/// How this boot obtains its root filesystem.
#[derive(Debug, Clone, Copy, PartialEq, Eq, Structural)]
pub enum BootMode {
    /// A cooperating agent has resolved the root filesystem: the privileged
    /// mount is issued bare, with no key and no configuration.
    AgentBoot,
    /// This process fetches the key, builds the configuration and issues the
    /// full layered mount.
    StandardBoot,
}

/// The bytes of `true`.
pub open spec fn true_word() -> Seq<u8> {
    seq![0x74u8, 0x72, 0x75, 0x65]
}

/// The bytes of `1`.
pub open spec fn one_word() -> Seq<u8> {
    seq![0x31u8]
}

/// A value of the flag that asks for an agent boot: `true` in any letter
/// case, or `1`.
pub open spec fn selects_agent(value: Seq<u8>) -> bool {
    lower_case(value) == true_word() || value == one_word()
}

/// The mode that the flag selects. A flag that is not set, or set to
/// anything else, selects the standard boot.
pub open spec fn boot_mode_spec(flag: Option<Seq<u8>>) -> BootMode {
    match flag {
        Some(value) if selects_agent(value) => BootMode::AgentBoot,
        _ => BootMode::StandardBoot,
    }
}

/// Whether the bytes are a value of the flag that asks for an agent boot.
pub fn is_agent_value(value: &[u8]) -> (agent: bool)
    ensures
        agent == selects_agent(value@),
{
    if value.len() == 1 {
        let agent = value[0] == 0x31;
        assert(agent == (value@ =~= one_word()));
        assert(lower_case(value@).len() != true_word().len());
        agent
    } else if value.len() == 4 {
        let agent = to_ascii_lower(value[0]) == 0x74 && to_ascii_lower(value[1]) == 0x72
            && to_ascii_lower(value[2]) == 0x75 && to_ascii_lower(value[3]) == 0x65;
        assert(agent == (lower_case(value@) =~= true_word()));
        agent
    } else {
        assert(lower_case(value@).len() != true_word().len());
        false
    }
}

/// Selects the boot mode from the value of the agent flag in the
/// environment, `None` standing for a flag that is not set.
pub fn select_boot_mode(flag: Option<&str>) -> (mode: BootMode)
    ensures
        mode == boot_mode_spec(
            match flag {
                Some(value) => Some(value.spec_bytes()),
                None => None,
            },
        ),
{
    match flag {
        Some(value) => {
            if is_agent_value(value.as_bytes()) {
                BootMode::AgentBoot
            } else {
                BootMode::StandardBoot
            }
        },
        None => BootMode::StandardBoot,
    }
}

} // verus!
