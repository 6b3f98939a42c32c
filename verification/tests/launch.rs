use astera::backend;
use astera::launch::{BackendKind, LaunchOptions};

#[test]
fn backend_kind_has_distinct_native_and_nested_modes() {
    assert_ne!(BackendKind::Winit, BackendKind::Native);
}

#[test]
fn parses_backend_config_and_legacy_nested_alias() {
    let options = LaunchOptions::try_parse_from(&[
        "astera",
        "--backend=native",
        "--config",
        "/tmp/astera.kdl",
    ])
    .unwrap();
    assert_eq!(options.effective_backend(), BackendKind::Native);
    assert_eq!(options.config, Some("/tmp/astera.kdl".to_string()));

    let nested = LaunchOptions::try_parse_from(&["astera", "--nested"]).unwrap();
    assert_eq!(nested.effective_backend(), BackendKind::Winit);
}

#[test]
fn unknown_arguments_are_refused() {
    assert_eq!(
        LaunchOptions::try_parse_from(&["astera", "--config"]),
        Err("--config requires a path".to_string())
    );
    assert_eq!(
        LaunchOptions::try_parse_from(&["astera", "--what"]),
        Err(
            "unknown argument \"--what\"; usage: astera [--backend=winit|native] [--config PATH]"
                .to_string()
        )
    );
    let both = LaunchOptions::try_parse_from(&["astera", "--nested", "--config=a=b", "--backend=native"])
        .unwrap();
    assert_eq!(both.config, Some("a=b".to_string()));
    assert_eq!(both.effective_backend(), BackendKind::Winit);
}

#[test]
fn a_backend_may_be_an_argument_of_its_own() {
    for (name, kind) in [("native", BackendKind::Native), ("winit", BackendKind::Winit)] {
        let options = LaunchOptions::try_parse_from(&["astera", "--backend", name]).unwrap();
        assert_eq!(options.effective_backend(), kind);
    }
    for arguments in [vec!["astera", "--backend"], vec!["astera", "--backend", "other"]] {
        assert_eq!(
            LaunchOptions::try_parse_from(&arguments),
            Err("--backend requires winit or native".to_string())
        );
    }
}

#[test]
fn options_are_given_once() {
    for (name, arguments) in [
        ("--backend", vec!["astera", "--backend=winit", "--backend=native"]),
        ("--backend", vec!["astera", "--backend", "winit", "--backend=winit"]),
        ("--config", vec!["astera", "--config=a", "--config", "b"]),
        ("--nested", vec!["astera", "--nested", "--nested"]),
    ] {
        assert_eq!(
            LaunchOptions::try_parse_from(&arguments),
            Err(format!("{name} cannot be used multiple times"))
        );
    }
}

#[test]
fn an_option_is_no_value() {
    for arguments in [
        vec!["astera", "--config", "--nested"],
        vec!["astera", "--config", "-x"],
        vec!["astera", "--config", "--"],
        vec!["astera", "--config", ""],
        vec!["astera", "--config="],
    ] {
        assert_eq!(
            LaunchOptions::try_parse_from(&arguments),
            Err("--config requires a path".to_string())
        );
    }
    let dash = LaunchOptions::try_parse_from(&["astera", "--config", "-"]).unwrap();
    assert_eq!(dash.config, Some("-".to_string()));
    let odd = LaunchOptions::try_parse_from(&["astera", "--config=--nested", "--"]).unwrap();
    assert_eq!(odd.config, Some("--nested".to_string()));
    assert!(!odd.nested);
    assert!(LaunchOptions::try_parse_from(&["astera", "--", "--nested"]).is_err());
    assert!(LaunchOptions::try_parse_from(&["astera", "--nested=true"]).is_err());
    assert!(LaunchOptions::try_parse_from(&["astera", "-"]).is_err());
}

#[test]
fn the_last_plain_argument_counts() {
    let options = backend::LaunchOptions::from_args(&[
        "astera",
        "--backend=native",
        "--config",
        "--nested",
        "--config=b",
    ])
    .unwrap();
    assert_eq!(options.backend, BackendKind::Native);
    assert_eq!(options.config_path, Some("b".to_string()));
    let nested =
        backend::LaunchOptions::from_args(&["astera", "--backend=native", "--nested"]).unwrap();
    assert_eq!(nested.backend, BackendKind::Winit);
    assert_eq!(
        backend::LaunchOptions::from_args(&["astera", "--config"]),
        Err("--config requires a path".to_string())
    );
    assert!(backend::LaunchOptions::from_args(&["astera", "--backend", "native"]).is_err());
}
