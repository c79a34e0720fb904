use enclave_init::config::{LayeredRootfsConfig, RootfsLayout, RECORD_WORDS};
use enclave_init::cstr::CStrBuf;
use enclave_init::settings::BootSettings;
use enclave_init::BootError;

fn layout(env: &[&str]) -> RootfsLayout {
    RootfsLayout {
        upper_layer: String::from("/sefs/upper"),
        lower_layer: String::from("/sefs/lower"),
        entry_point: String::from("/"),
        hostfs_source: String::from("/tmp"),
        hostfs_target: None,
        env: env.iter().map(|e| e.to_string()).collect(),
    }
}

fn build_error(layout: &RootfsLayout) -> BootError {
    match LayeredRootfsConfig::build(layout) {
        Ok(_) => panic!("the layout holds a NUL byte"),
        Err(error) => error,
    }
}

fn texts(envp: &[Option<CStrBuf>]) -> Vec<Option<&[u8]>> {
    envp.iter().map(|entry| entry.as_ref().map(|text| text.as_bytes_with_nul())).collect()
}

#[test]
fn terminated_text_ends_in_its_only_nul() {
    let text = CStrBuf::new("/sefs/upper").expect("no NUL in the text");
    assert_eq!(text.as_bytes_with_nul(), b"/sefs/upper\0");
    let empty = CStrBuf::new("").expect("no NUL in the text");
    assert_eq!(empty.as_bytes_with_nul(), b"\0");
    let wide = CStrBuf::new("cl\u{e9}").expect("no NUL in the text");
    assert_eq!(wide.as_bytes_with_nul(), &[0x63, 0x6c, 0xc3, 0xa9, 0x00]);
}

#[test]
fn text_with_a_nul_cannot_be_terminated() {
    assert!(CStrBuf::new("\0").is_none());
    assert!(CStrBuf::new("/sefs\0/upper").is_none());
    assert!(CStrBuf::new("/sefs/upper\0").is_none());
    assert!(CStrBuf::from_bytes(&[0x2f, 0x00]).is_none());
    assert!(CStrBuf::from_bytes(&[0xff, 0x01]).is_some());
}

#[test]
fn record_of_the_stock_layout() {
    let settings = BootSettings::default();
    let config = LayeredRootfsConfig::build(&settings.layout).ok().expect("a clean layout");
    assert_eq!(config.upper_layer_path().as_bytes_with_nul(), b"/sefs/upper\0");
    assert_eq!(config.lower_layer_path().as_bytes_with_nul(), b"/sefs/lower\0");
    assert_eq!(config.entry_point().as_bytes_with_nul(), b"/\0");
    assert_eq!(config.hostfs_source().as_bytes_with_nul(), b"/tmp\0");
    assert!(config.hostfs_target().is_none());
    assert_eq!(texts(config.envp()), vec![Some(&b"TEST=1234\0"[..]), None]);
}

#[test]
fn length_field_is_the_size_of_the_record() {
    let config = LayeredRootfsConfig::build(&layout(&[])).ok().expect("a clean layout");
    assert_eq!(RECORD_WORDS, 7);
    assert_eq!(config.len(), 7 * std::mem::size_of::<usize>());
    assert_eq!(config.len(), std::mem::size_of::<[usize; 7]>());
    let longer = LayeredRootfsConfig::build(&layout(&["A=1", "B=2"])).ok().expect("a clean layout");
    assert_eq!(longer.len(), config.len());
}

#[test]
fn environment_vector_ends_in_the_null_entry() {
    let none = LayeredRootfsConfig::build(&layout(&[])).ok().expect("a clean layout");
    assert_eq!(texts(none.envp()), vec![None]);
    let one = LayeredRootfsConfig::build(&layout(&["TEST=1234"])).ok().expect("a clean layout");
    assert_eq!(texts(one.envp()), vec![Some(&b"TEST=1234\0"[..]), None]);
    let three =
        LayeredRootfsConfig::build(&layout(&["A=1", "", "C=3"])).ok().expect("a clean layout");
    assert_eq!(
        texts(three.envp()),
        vec![Some(&b"A=1\0"[..]), Some(&b"\0"[..]), Some(&b"C=3\0"[..]), None]
    );
}

#[test]
fn host_target_is_kept_where_the_layout_names_one() {
    let mut named = layout(&[]);
    named.hostfs_target = Some(String::from("/host"));
    let config = LayeredRootfsConfig::build(&named).ok().expect("a clean layout");
    let target = config.hostfs_target().as_ref().expect("the layout names a target");
    assert_eq!(target.as_bytes_with_nul(), b"/host\0");
}

#[test]
fn nul_in_a_path_is_an_invalid_path() {
    let mut upper = layout(&["TEST=1234"]);
    upper.upper_layer = String::from("/sefs\0/upper");
    assert_eq!(build_error(&upper), BootError::InvalidPath);
    let mut lower = layout(&["TEST=1234"]);
    lower.lower_layer = String::from("\0");
    assert_eq!(build_error(&lower), BootError::InvalidPath);
    let mut entry = layout(&["TEST=1234"]);
    entry.entry_point = String::from("/\0");
    assert_eq!(build_error(&entry), BootError::InvalidPath);
    let mut source = layout(&["TEST=1234"]);
    source.hostfs_source = String::from("\0/tmp");
    assert_eq!(build_error(&source), BootError::InvalidPath);
    let mut target = layout(&["TEST=1234"]);
    target.hostfs_target = Some(String::from("/ho\0st"));
    assert_eq!(build_error(&target), BootError::InvalidPath);
}

#[test]
fn nul_in_an_assignment_is_an_invalid_env() {
    assert_eq!(build_error(&layout(&["TEST=\01234"])), BootError::InvalidEnv);
    assert_eq!(build_error(&layout(&["A=1", "B=2", "\0"])), BootError::InvalidEnv);
}

#[test]
fn nul_in_a_path_is_reported_before_one_in_an_assignment() {
    let mut both = layout(&["TEST=\01234"]);
    both.entry_point = String::from("\0");
    assert_eq!(build_error(&both), BootError::InvalidPath);
}

#[test]
fn stock_settings() {
    let settings = BootSettings::default();
    assert_eq!(settings.agent_flag, "ENCLAVE_AGENT");
    assert_eq!(settings.transport.fs_type, "sefs");
    assert_eq!(settings.transport.target, "/mnt");
    assert_eq!(settings.transport.options, "dir=/keys");
    assert!(settings.transport_failure_fatal);
    assert_eq!(settings.key_file, "/mnt/key.txt");
    assert_eq!(settings.layout.upper_layer, "/sefs/upper");
    assert_eq!(settings.layout.lower_layer, "/sefs/lower");
    assert_eq!(settings.layout.entry_point, "/");
    assert_eq!(settings.layout.hostfs_source, "/tmp");
    assert_eq!(settings.layout.hostfs_target, None);
    assert_eq!(settings.layout.env, vec![String::from("TEST=1234")]);
}
