use enclave_init::boot::{start, step, BootAction, BootEvent, BootState};
use enclave_init::invoke::MountRequest;
use enclave_init::mode::BootMode;
use enclave_init::settings::BootSettings;
use enclave_init::BootError;

const KEY_TEXT: &str = "aa-bb-cc-dd-ee-ff-00-11-22-33-44-55-66-77-88-99";

const KEY: [u8; 16] = [
    0xaa, 0xbb, 0xcc, 0xdd, 0xee, 0xff, 0x00, 0x11, 0x22, 0x33, 0x44, 0x55, 0x66, 0x77, 0x88, 0x99,
];

/// The outside world of one boot, with a privileged operation that records
/// how it was called and answers with a fixed status.
struct World {
    flag: Option<String>,
    transport_mounts: bool,
    key_file: Option<String>,
    status: i64,
    os_error: i32,
    mounted: Vec<String>,
    read: Vec<String>,
    calls: Vec<MountRequest>,
}

impl World {
    fn new(flag: Option<&str>, key_file: Option<&str>, status: i64) -> World {
        World {
            flag: flag.map(String::from),
            transport_mounts: true,
            key_file: key_file.map(String::from),
            status,
            os_error: 5,
            mounted: Vec::new(),
            read: Vec::new(),
            calls: Vec::new(),
        }
    }

    /// Runs a boot to its end and gives the last state, the exit status and
    /// the number of steps taken.
    fn boot(&mut self, settings: &BootSettings) -> (BootState, i32, usize) {
        let (mut state, mut action) = start(settings);
        let mut steps = 0;
        loop {
            let event = match action {
                BootAction::ReadFlag(name) => {
                    assert_eq!(name, settings.agent_flag);
                    BootEvent::FlagRead(self.flag.clone())
                }
                BootAction::MountTransport(transport) => {
                    self.mounted.push(format!(
                        "{} on {} with {}",
                        transport.fs_type, transport.target, transport.options
                    ));
                    BootEvent::TransportMounted(self.transport_mounts)
                }
                BootAction::ReadKeyFile(path) => {
                    self.read.push(path);
                    BootEvent::KeyFileRead(self.key_file.clone())
                }
                BootAction::Proceed => BootEvent::Proceed,
                BootAction::InvokeMount(request) => {
                    self.calls.push(request);
                    BootEvent::MountReturned { status: self.status, os_error: self.os_error }
                }
                BootAction::Exit(status) => return (state, status, steps),
            };
            (state, action) = step(settings, state, event);
            steps += 1;
            assert!(steps <= 7, "a boot takes at most seven steps");
        }
    }
}

fn fatal(state: &BootState) -> BootError {
    match state {
        BootState::Fatal(error) => *error,
        _ => panic!("the boot did not fail"),
    }
}

#[test]
fn agent_boot_invokes_the_bare_mount() {
    let settings = BootSettings::default();
    let mut world = World::new(Some("true"), None, 0);
    let (state, status, steps) = world.boot(&settings);
    assert!(matches!(state, BootState::Success));
    assert_eq!(status, 0);
    assert_eq!(steps, 3);
    assert_eq!(world.calls.len(), 1);
    assert!(matches!(world.calls[0], MountRequest::Bare));
    assert!(world.mounted.is_empty());
    assert!(world.read.is_empty());
}

#[test]
fn agent_boot_for_each_value_that_selects_it() {
    let settings = BootSettings::default();
    for flag in ["true", "TRUE", "1", "True"] {
        let mut world = World::new(Some(flag), Some(KEY_TEXT), 0);
        let (state, status, _) = world.boot(&settings);
        assert!(matches!(state, BootState::Success));
        assert_eq!(status, 0);
        assert!(matches!(world.calls[..], [MountRequest::Bare]));
    }
}

#[test]
fn standard_boot_invokes_the_layered_mount() {
    let settings = BootSettings::default();
    let mut world = World::new(None, Some(KEY_TEXT), 0);
    let (state, status, steps) = world.boot(&settings);
    assert!(matches!(state, BootState::Success));
    assert_eq!(status, 0);
    assert_eq!(steps, 7);
    assert_eq!(world.mounted, vec![String::from("sefs on /mnt with dir=/keys")]);
    assert_eq!(world.read, vec![String::from("/mnt/key.txt")]);
    assert_eq!(world.calls.len(), 1);
    match &world.calls[0] {
        MountRequest::Layered { key, config } => {
            assert_eq!(key.bytes, KEY);
            assert_eq!(config.upper_layer_path().as_bytes_with_nul(), b"/sefs/upper\0");
            assert_eq!(config.lower_layer_path().as_bytes_with_nul(), b"/sefs/lower\0");
            assert_eq!(config.entry_point().as_bytes_with_nul(), b"/\0");
            assert_eq!(config.hostfs_source().as_bytes_with_nul(), b"/tmp\0");
            assert!(config.hostfs_target().is_none());
            assert_eq!(config.len(), 7 * std::mem::size_of::<usize>());
            assert_eq!(config.envp().len(), 2);
            assert!(config.envp()[1].is_none());
        }
        MountRequest::Bare => panic!("a standard boot hands over key and configuration"),
    }
}

#[test]
fn standard_boot_for_a_flag_that_selects_nothing() {
    let settings = BootSettings::default();
    for flag in ["", "0", "false", "yes"] {
        let mut world = World::new(Some(flag), Some(KEY_TEXT), 0);
        let (state, _, _) = world.boot(&settings);
        assert!(matches!(state, BootState::Success));
        assert!(matches!(world.calls[..], [MountRequest::Layered { .. }]));
    }
}

#[test]
fn key_file_may_end_in_line_endings() {
    let settings = BootSettings::default();
    for ending in ["\n", "\r\n", "\n\n"] {
        let content = format!("{}{}", KEY_TEXT, ending);
        let mut world = World::new(None, Some(&content), 0);
        let (state, _, _) = world.boot(&settings);
        assert!(matches!(state, BootState::Success));
        match &world.calls[0] {
            MountRequest::Layered { key, .. } => assert_eq!(key.bytes, KEY),
            MountRequest::Bare => panic!("a standard boot hands over key and configuration"),
        }
    }
}

#[test]
fn negative_status_ends_the_boot_with_the_os_error() {
    let settings = BootSettings::default();
    let mut agent = World::new(Some("1"), None, -1);
    agent.os_error = 38;
    let (state, status, _) = agent.boot(&settings);
    assert_eq!(fatal(&state), BootError::OsError(38));
    assert_ne!(status, 0);
    assert_eq!(agent.calls.len(), 1);
    let mut standard = World::new(None, Some(KEY_TEXT), -22);
    standard.os_error = 1;
    let (state, status, _) = standard.boot(&settings);
    assert_eq!(fatal(&state), BootError::OsError(1));
    assert_ne!(status, 0);
    assert_eq!(standard.calls.len(), 1);
}

#[test]
fn status_that_is_not_negative_is_not_looked_into() {
    let settings = BootSettings::default();
    for status in [0, 1, 363, i64::MAX] {
        let mut world = World::new(Some("1"), None, status);
        let (state, exit, _) = world.boot(&settings);
        assert!(matches!(state, BootState::Success));
        assert_eq!(exit, 0);
    }
}

#[test]
fn failed_transport_mount_is_fatal_by_default() {
    let settings = BootSettings::default();
    let mut world = World::new(None, Some(KEY_TEXT), 0);
    world.transport_mounts = false;
    let (state, status, steps) = world.boot(&settings);
    assert_eq!(fatal(&state), BootError::KeyUnavailable);
    assert_ne!(status, 0);
    assert_eq!(steps, 2);
    assert!(world.read.is_empty());
    assert!(world.calls.is_empty());
}

#[test]
fn failed_transport_mount_can_be_passed_over() {
    let mut settings = BootSettings::default();
    settings.transport_failure_fatal = false;
    let mut world = World::new(None, Some(KEY_TEXT), 0);
    world.transport_mounts = false;
    let (state, status, _) = world.boot(&settings);
    assert!(matches!(state, BootState::Success));
    assert_eq!(status, 0);
    assert_eq!(world.read, vec![String::from("/mnt/key.txt")]);
    assert!(matches!(world.calls[..], [MountRequest::Layered { .. }]));
}

#[test]
fn unreadable_key_file_makes_the_key_unavailable() {
    let settings = BootSettings::default();
    let mut world = World::new(None, None, 0);
    let (state, status, steps) = world.boot(&settings);
    assert_eq!(fatal(&state), BootError::KeyUnavailable);
    assert_ne!(status, 0);
    assert_eq!(steps, 3);
    assert!(world.calls.is_empty());
}

#[test]
fn malformed_key_text_ends_the_boot() {
    let settings = BootSettings::default();
    let texts = ["", "aa-bb", "aa-bb-cc-dd-ee-ff-00-11-22-33-44-55-66-77-88-9g", "\n"];
    for text in texts {
        let mut world = World::new(None, Some(text), 0);
        let (state, status, steps) = world.boot(&settings);
        assert_eq!(fatal(&state), BootError::MalformedKey);
        assert_ne!(status, 0);
        assert_eq!(steps, 4);
        assert!(world.calls.is_empty());
    }
}

#[test]
fn layout_with_a_nul_ends_the_boot() {
    let mut path = BootSettings::default();
    path.layout.lower_layer = String::from("/sefs/\0lower");
    let mut world = World::new(None, Some(KEY_TEXT), 0);
    let (state, status, steps) = world.boot(&path);
    assert_eq!(fatal(&state), BootError::InvalidPath);
    assert_ne!(status, 0);
    assert_eq!(steps, 5);
    assert!(world.calls.is_empty());
    let mut env = BootSettings::default();
    env.layout.env.push(String::from("BAD=\0"));
    let mut world = World::new(None, Some(KEY_TEXT), 0);
    let (state, _, _) = world.boot(&env);
    assert_eq!(fatal(&state), BootError::InvalidEnv);
    assert!(world.calls.is_empty());
}

#[test]
fn agent_boot_does_not_look_at_the_layout() {
    let mut settings = BootSettings::default();
    settings.layout.upper_layer = String::from("\0");
    let mut world = World::new(Some("TRUE"), None, 0);
    let (state, _, _) = world.boot(&settings);
    assert!(matches!(state, BootState::Success));
    assert!(matches!(world.calls[..], [MountRequest::Bare]));
}

#[test]
fn first_action_reads_the_flag_of_the_settings() {
    let mut settings = BootSettings::default();
    settings.agent_flag = String::from("OTHER_FLAG");
    let (state, action) = start(&settings);
    assert!(matches!(state, BootState::Start));
    match action {
        BootAction::ReadFlag(name) => assert_eq!(name, "OTHER_FLAG"),
        _ => panic!("a boot begins with the flag"),
    }
}

#[test]
fn states_follow_one_another_as_drawn() {
    let settings = BootSettings::default();
    let (state, _) = start(&settings);
    let (state, action) = step(&settings, state, BootEvent::FlagRead(None));
    assert!(matches!(state, BootState::ModeSelected(BootMode::StandardBoot)));
    assert!(matches!(action, BootAction::MountTransport(_)));
    let (state, action) = step(&settings, state, BootEvent::TransportMounted(true));
    assert!(matches!(state, BootState::TransportReady));
    assert!(matches!(action, BootAction::ReadKeyFile(_)));
    let content = format!("{}\r\n", KEY_TEXT);
    let (state, action) = step(&settings, state, BootEvent::KeyFileRead(Some(content)));
    match &state {
        BootState::KeyAcquired(text) => assert_eq!(text, KEY_TEXT),
        _ => panic!("the key text is here"),
    }
    assert!(matches!(action, BootAction::Proceed));
    let (state, action) = step(&settings, state, BootEvent::Proceed);
    match &state {
        BootState::KeyDecoded(key) => assert_eq!(key.bytes, KEY),
        _ => panic!("the key text is well formed"),
    }
    assert!(matches!(action, BootAction::Proceed));
    let (state, action) = step(&settings, state, BootEvent::Proceed);
    assert!(matches!(state, BootState::ConfigBuilt(_, _)));
    assert!(matches!(action, BootAction::Proceed));
    let (state, action) = step(&settings, state, BootEvent::Proceed);
    assert!(matches!(state, BootState::MountInvoked));
    assert!(matches!(action, BootAction::InvokeMount(MountRequest::Layered { .. })));
    let returned = BootEvent::MountReturned { status: 0, os_error: 0 };
    let (state, action) = step(&settings, state, returned);
    assert!(matches!(state, BootState::Success));
    assert!(matches!(action, BootAction::Exit(0)));
}

#[test]
fn agent_states_follow_one_another_as_drawn() {
    let settings = BootSettings::default();
    let (state, _) = start(&settings);
    let (state, action) = step(&settings, state, BootEvent::FlagRead(Some(String::from("1"))));
    assert!(matches!(state, BootState::ModeSelected(BootMode::AgentBoot)));
    assert!(matches!(action, BootAction::Proceed));
    let (state, action) = step(&settings, state, BootEvent::Proceed);
    assert!(matches!(state, BootState::MountInvoked));
    assert!(matches!(action, BootAction::InvokeMount(MountRequest::Bare)));
    let returned = BootEvent::MountReturned { status: -1, os_error: 9 };
    let (state, action) = step(&settings, state, returned);
    assert!(matches!(state, BootState::Fatal(BootError::OsError(9))));
    assert!(matches!(action, BootAction::Exit(1)));
}

#[test]
fn result_that_answers_another_action_ends_the_boot() {
    let settings = BootSettings::default();
    let (state, action) = step(&settings, BootState::Start, BootEvent::Proceed);
    assert_eq!(fatal(&state), BootError::UnexpectedEvent);
    assert!(matches!(action, BootAction::Exit(1)));
    let (state, _) = step(
        &settings,
        BootState::ModeSelected(BootMode::AgentBoot),
        BootEvent::TransportMounted(true),
    );
    assert_eq!(fatal(&state), BootError::UnexpectedEvent);
    let (state, _) = step(
        &settings,
        BootState::ModeSelected(BootMode::StandardBoot),
        BootEvent::Proceed,
    );
    assert_eq!(fatal(&state), BootError::UnexpectedEvent);
    let (state, _) = step(&settings, BootState::TransportReady, BootEvent::FlagRead(None));
    assert_eq!(fatal(&state), BootError::UnexpectedEvent);
    let (state, _) = step(
        &settings,
        BootState::KeyAcquired(String::from(KEY_TEXT)),
        BootEvent::KeyFileRead(None),
    );
    assert_eq!(fatal(&state), BootError::UnexpectedEvent);
    let (state, _) = step(&settings, BootState::MountInvoked, BootEvent::Proceed);
    assert_eq!(fatal(&state), BootError::UnexpectedEvent);
}

#[test]
fn boot_that_has_ended_stays_ended() {
    let settings = BootSettings::default();
    let (state, action) = step(&settings, BootState::Success, BootEvent::Proceed);
    assert!(matches!(state, BootState::Success));
    assert!(matches!(action, BootAction::Exit(0)));
    let (state, action) = step(
        &settings,
        BootState::Fatal(BootError::MalformedKey),
        BootEvent::MountReturned { status: 0, os_error: 0 },
    );
    assert_eq!(fatal(&state), BootError::MalformedKey);
    assert!(matches!(action, BootAction::Exit(1)));
}
