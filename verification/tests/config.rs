use astera::actions::{Action, Binding, CardinalDirection, WorkspaceSelector};
use astera::bindings::{parse_binding_key, BindingKey, ConfigError, KeyTrigger, Modifiers};
use astera::config::{Config, KeyRepeatConfig};
use astera::geometry::Direction;
use astera::model::{CameraPolicy, WindowMode};
use astera::suggestions::edit_distance;
use astera::text::TextMap;

/// The symbols of some keys, as the keyboard library numbers them.
fn symbols() -> TextMap<u32> {
    let mut table = TextMap::new();
    for (name, symbol) in [
        ("Return", 0xff0d),
        ("Space", 0x20),
        ("space", 0x20),
        ("Left", 0xff51),
        ("Up", 0xff52),
        ("Right", 0xff53),
        ("Down", 0xff54),
        ("f", 0x66),
        ("q", 0x71),
        ("nothing", 0),
    ] {
        table.insert(&name.to_string(), symbol);
    }
    for digit in 1..=9_u32 {
        table.insert(&digit.to_string(), 0x30 + digit);
    }
    table
}

fn from_kdl(contents: &str) -> Result<Config, ConfigError> {
    Config::from_kdl(contents, &symbols())
}

fn refusal(contents: &str) -> String {
    from_kdl(contents).unwrap_err().message()
}

#[test]
fn missing_file_uses_built_in_bindings_but_file_does_not() {
    assert!(!Config::default().bindings.is_empty());
    assert!(from_kdl("").unwrap().bindings.is_empty());
}

#[test]
fn parses_sections_actions_and_physical_bindings() {
    let config = from_kdl(
        r#"
            general { gap 12 }
            input { repeat-delay 400; repeat-rate 30 }
            camera { keep-visible margin=40 }
            bind "Super+Return" { spawn "kitty" }
            bind "Super+Right" repeat=#true { pan-camera 10 0 }
            bind "Super+code:0x7b" { close-window }
            bind "Super+1" { focus-workspace 1 }
            bind "Super+2" { focus-workspace 2 output="DP-1" }
            bind "Super+3" { spawn "sh" "-c" "echo hello" }
        "#,
    )
    .unwrap();
    assert_eq!(config.bindings.len(), 6);
    assert_eq!(config.gap, 12);
    assert_eq!(config.key_repeat.delay_ms, 400);
    assert_eq!(config.key_repeat.rate, 30);
    assert_eq!(config.camera, CameraPolicy::KeepVisible { margin: 40 });
    assert_eq!(
        config.bindings.get(&BindingKey::code(Modifiers(Modifiers::SUPER), 0x7b)),
        Some(&Binding { action: Action::CloseWindow, repeat: false })
    );
    assert_eq!(
        config.bindings.get(&BindingKey::keysym(Modifiers(Modifiers::SUPER), 0x32)),
        Some(&Binding {
            action: Action::FocusWorkspace {
                workspace: WorkspaceSelector::Index(2, Some("DP-1".to_string())),
            },
            repeat: false,
        })
    );
    assert_eq!(
        config.bindings.get(&BindingKey::keysym(Modifiers(Modifiers::SUPER), 0xff53)),
        Some(&Binding { action: Action::PanCamera { x: 10, y: 0 }, repeat: true })
    );
}

#[test]
fn formatter_preserves_comments_and_generated_config_is_valid() {
    let source = "// keep me\ngeneral { gap 8 }\n";
    let formatted = Config::format_kdl(source, &symbols()).unwrap();
    assert!(formatted.contains("// keep me"));
    let generated_source = Config::generated_kdl(&symbols()).unwrap();
    assert_eq!(
        Config::format_kdl(&generated_source, &symbols()).unwrap(),
        generated_source
    );
    let generated = from_kdl(&generated_source).unwrap();
    assert_eq!(generated.bindings.len(), Config::default().bindings.len());
    assert_eq!(generated.bindings.iter(), Config::default().bindings.iter());
}

#[test]
fn the_generated_file_reads_as_the_usual_configuration() {
    let generated = from_kdl(&Config::generated_kdl(&symbols()).unwrap()).unwrap();
    assert_eq!(generated.gap, 8);
    assert_eq!(generated.camera, CameraPolicy::KeepVisible { margin: 32 });
    assert_eq!(generated.key_repeat, KeyRepeatConfig { delay_ms: 300, rate: 25 });
    assert_eq!(generated.bindings.len(), 25);
    let usual = Config::default();
    assert_eq!(generated.gap, usual.gap);
    assert_eq!(generated.camera, usual.camera);
    assert_eq!(generated.key_repeat, usual.key_repeat);
    assert_eq!(generated.bindings.iter(), usual.bindings.iter());
}

#[test]
fn config_commands_do_not_require_wayland_display() {
    let generated = Config::generated_kdl(&symbols()).unwrap();
    assert!(generated.contains("spawn \"kitty\""));
    from_kdl(&generated).unwrap();
}

#[test]
fn rejects_duplicates_unsafe_repeat_and_unknown_names() {
    assert!(
        from_kdl(
            r#"bind "Super+Q" { close-window }
               bind "super+q" { close-window }"#
        )
        .is_err()
    );
    assert!(from_kdl(r#"bind "Super+Return" repeat=#true { spawn "kitty" }"#).is_err());
    assert!(from_kdl(r#"bind "Super+1" { focus-workpace 1 }"#).is_err());
    let error = refusal(r#"bind "Super+1" { focus-workpace 1 }"#);
    assert!(error.contains("did you mean `focus-workspace`"));
    assert!(error.contains("--> 1:1"));
    assert!(from_kdl(r#"bind "Super+1" { focus-workspace 1 activate=#true }"#).is_err());
    assert!(from_kdl(r#"bind "Super+1" { focus-workspace id=7 output="DP-1" }"#).is_err());
}

#[test]
fn refusals_show_the_line() {
    assert_eq!(
        refusal("general { gap 1 }\n  camera { }\n"),
        "invalid configuration: camera requires exactly one policy\n  --> 2:3\n   |\n  2 |   \
         camera { }\n   |   ^"
    );
}

#[test]
fn every_refusal_has_its_words() {
    for (contents, words) in [
        ("genral { gap 1 }", "unknown top-level node `genral`; did you mean `general`?"),
        ("something { }", "unknown top-level node `something`\n"),
        ("general { gap 1 }\ngeneral { gap 1 }", "duplicate `general` section"),
        ("general 1 { gap 1 }", "`general` does not accept values or properties"),
        ("general", "`general` requires a child block"),
        ("general { gap 1; gap 2 }", "duplicate `gap` setting"),
        ("general { gap }", "`gap` requires one integer"),
        ("general { gap \"x\" }", "`gap` must be an integer"),
        ("general { gap -1 }", "gap cannot be negative"),
        ("input { repeat-delay 0 }", "key repeat delay must be 1..=5000 ms"),
        ("input { repeat-rate 201 }", "key repeat rate must be 1..=200"),
        ("input { repeat-rate -1 }", "`repeat-rate` is out of range"),
        ("input { repeat-delay -1 }", "`repeat-delay` must be non-negative"),
        ("input { repeat-rate 1; repeat-rate 2 }", "duplicate `repeat-rate` setting"),
        ("input { repeat 1 }", "unknown input setting `repeat`"),
        ("camera { centred }", "unknown camera policy `centred`; did you mean `centered`?"),
        ("camera { centered 1 }", "`centered` does not accept values or properties"),
        ("camera { keep-visible margins=1 }", "unknown property `margins`; did you mean `margin`?"),
        ("camera { keep-visible margin=1 margin=2 }", "duplicate `margin` property"),
        ("bind { quit }", "`bind` requires exactly one key string"),
        ("bind 1 { quit }", "binding key must be a string"),
        ("bind \"f\"", "binding \"f\" requires an action block"),
        ("bind \"f\" { quit; quit }", "binding \"f\" must contain exactly one action"),
        ("bind \"f\" repeat=1 { quit }", "`repeat` must be true or false"),
        ("bind \"f\" { quit 1 }", "`quit` does not accept values or properties"),
        ("bind \"f\" { quit { } }", "`quit` does not accept a child block"),
        ("bind \"f\" { spawn }", "binding \"f\" has an empty Spawn argv"),
        ("bind \"f\" { spawn 1 }", "`spawn` arguments must be strings"),
        ("bind \"f\" { focus-workspace 0 }", "binding \"f\" uses workspace index zero"),
        (
            "bind \"f\" { focus-workspace 4294967296 }",
            "binding \"f\" uses a workspace index larger than u32::MAX",
        ),
        ("bind \"f\" { focus-workspace -1 }", "workspace index is out of range"),
        ("bind \"f\" { focus-workspace id=4294967296 }", "workspace id is out of range"),
        ("bind \"f\" { focus-workspace #null }", "workspace selector must be an integer index"),
        (
            "bind \"f\" { focus-workspace \"code\" output=\"A\" }",
            "workspace names cannot be combined with `output`",
        ),
        ("bind \"f\" { focus-workspace }", "`focus-workspace` requires one workspace selector"),
        (
            "bind \"f\" { move-workspace-to-output \"A\" index=0 }",
            "binding \"f\" uses target index zero",
        ),
        ("bind \"f\" { focus-output }", "`focus-output` requires a string"),
        ("bind \"f\" { focus-output \"A\" \"B\" }", "`focus-output` requires exactly one string"),
        (
            "bind \"f\" { focus-window \"north\" }",
            "unknown direction \"north\"; expected left, right, up, or down",
        ),
        ("bind \"f\" { set-window-mode \"huge\" }", "unknown window mode \"huge\""),
        ("bind \"f\" { pan-camera 1 }", "`pan-camera` requires x and y integers"),
    ] {
        let message = refusal(contents);
        assert!(message.contains(words), "{contents}: {message}");
    }
    let error = from_kdl("general {").unwrap_err();
    assert!(matches!(error, ConfigError::Parse(_)));
    assert!(error.message().starts_with("could not parse KDL configuration: "));
    assert!(error.message().contains(" at 1:"));
}

#[test]
fn keys_are_spelt_in_many_ways() {
    let key = |source: &str| parse_binding_key(source, &symbols());
    let expected = BindingKey::keysym(Modifiers(Modifiers::SUPER | Modifiers::SHIFT), 0x71);
    assert_eq!(key("Super+Shift+q"), Ok(expected));
    assert_eq!(key(" shift + SUPER + Q "), Ok(expected));
    assert_eq!(
        key("code:30"),
        Ok(BindingKey { modifiers: Modifiers(0), trigger: KeyTrigger::Code(30) })
    );
    for (source, words) in [
        ("Super++q", "empty component in binding \"Super++q\""),
        ("Super+super+q", "duplicate modifier in \"Super+super+q\""),
        ("q+f", "multiple keys in binding \"q+f\""),
        ("code:zz", "invalid keycode in \"code:zz\""),
        ("code:0x300", "keycode is outside the Linux evdev range in \"code:0x300\""),
        ("nothing", "unknown keysym in \"nothing\""),
        ("Super", "missing key in \"Super\""),
    ] {
        assert_eq!(key(source), Err(ConfigError::Invalid(words.to_string())));
    }
    assert_eq!(key("Super+Home"), Err(ConfigError::NeedsSymbol("Home".to_string())));
}

#[test]
fn distances_count_edits() {
    assert_eq!(edit_distance("kitten", "sitting"), 3);
    assert_eq!(edit_distance("", "abc"), 3);
    assert_eq!(edit_distance("gap", "gap"), 0);
    assert_eq!(edit_distance("focus-workpace", "focus-workspace"), 1);
    assert_eq!(edit_distance("sitting", "kitten"), edit_distance("kitten", "sitting"));
}

#[test]
fn usual_settings() {
    let config = Config::default();
    assert_eq!(config.gap, 8);
    assert_eq!(config.camera, CameraPolicy::KeepVisible { margin: 32 });
    assert_eq!(config.key_repeat, KeyRepeatConfig { delay_ms: 300, rate: 25 });
    assert_eq!(config.bindings.len(), 25);
    assert!(config.validate().is_ok());
    let modifiers = Modifiers::from_state(false, false, true, true);
    assert!(modifiers.shift() && modifiers.super_key() && !modifiers.ctrl() && !modifiers.alt());
    assert_eq!(
        config.bindings.get(&BindingKey::keysym(modifiers, 0x34)),
        Some(&Binding {
            action: Action::MoveWindowToWorkspace {
                workspace: WorkspaceSelector::Index(4, None),
                activate: false,
            },
            repeat: false,
        })
    );
    assert!(!Action::SetWindowMode(WindowMode::Maximized).can_repeat());
    assert!(Action::FocusDirection(CardinalDirection::Up).can_repeat());
    assert_eq!(
        CardinalDirection::Up.as_direction(),
        Direction { x_bits: 0.0_f64.to_bits(), y_bits: (-1.0_f64).to_bits() }
    );
    assert_eq!(CardinalDirection::Right.as_direction(), Direction::right());
}

#[test]
fn formatting_leaves_one_space_and_the_spelling() {
    let source = "general   {\n  gap    8\n}\nbind    \"Super+Return\"   repeat=#false {\n spawn   \"kitty\"  e1 \"b c\"\n}\n";
    assert_eq!(
        Config::format_kdl(source, &symbols()).unwrap(),
        "general {\n    gap 8\n}\nbind \"Super+Return\" repeat=#false {\n    spawn \"kitty\" e1 \"b c\"\n}\n"
    );
}
