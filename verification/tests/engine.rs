use mouse_assist_core::buttons::MouseButton;
use mouse_assist_core::classify::{
    classify_event, classify_events, wheel_tilt_from_relative_axis, RawEvent, EV_KEY, EV_REL,
    REL_HWHEEL, REL_HWHEEL_HI_RES,
};
use mouse_assist_core::config::{Action, Binding, Config};
use mouse_assist_core::dispatch::{
    action_for_button, find_binding, find_binding_by_key_code, find_binding_by_x11_button,
    is_x11_session_env,
};
use mouse_assist_core::executor::{
    chord_for, chord_plan, collect_uinput_keys, command_plan, plan_action, plan_key_combo,
    resolve_key_codes, ActionPlan, KeyComboPlan,
};
use mouse_assist_core::multiplexer::{device_qualifies, DeviceSet, LoopDirective, ReadStatus};

fn key_combo(names: &[&str]) -> Action {
    Action::KeyCombo { keys: names.iter().map(|s| s.to_string()).collect() }
}

fn command(argv: &[&str]) -> Action {
    Action::Command { argv: argv.iter().map(|s| s.to_string()).collect() }
}

#[test]
fn linux_key_codes_match_kernel_button_range() {
    assert_eq!(MouseButton::BtnLeft.linux_key_code(), Some(0x110));
    assert_eq!(MouseButton::BtnRight.linux_key_code(), Some(0x111));
    assert_eq!(MouseButton::BtnMiddle.linux_key_code(), Some(0x112));
    assert_eq!(MouseButton::BtnSide.linux_key_code(), Some(0x113));
    assert_eq!(MouseButton::BtnExtra.linux_key_code(), Some(0x114));
    assert_eq!(MouseButton::BtnForward.linux_key_code(), Some(0x115));
    assert_eq!(MouseButton::BtnBack.linux_key_code(), Some(0x116));
    assert_eq!(MouseButton::BtnTask.linux_key_code(), Some(0x117));
    assert_eq!(MouseButton::WheelTiltLeft.linux_key_code(), None);
    assert_eq!(MouseButton::WheelTiltRight.linux_key_code(), None);
}

#[test]
fn x11_button_numbers() {
    assert_eq!(MouseButton::BtnLeft.x11_button_number(), Some(1));
    assert_eq!(MouseButton::BtnMiddle.x11_button_number(), Some(2));
    assert_eq!(MouseButton::BtnRight.x11_button_number(), Some(3));
    assert_eq!(MouseButton::BtnSide.x11_button_number(), Some(8));
    assert_eq!(MouseButton::BtnBack.x11_button_number(), Some(8));
    assert_eq!(MouseButton::BtnExtra.x11_button_number(), Some(9));
    assert_eq!(MouseButton::BtnForward.x11_button_number(), Some(9));
    assert_eq!(MouseButton::BtnTask.x11_button_number(), None);
    assert_eq!(MouseButton::WheelTiltLeft.x11_button_number(), Some(6));
    assert_eq!(MouseButton::WheelTiltRight.x11_button_number(), Some(7));
}

#[test]
fn wheel_tilt_sign_mapping() {
    assert_eq!(
        wheel_tilt_from_relative_axis(REL_HWHEEL, -3),
        Some(MouseButton::WheelTiltLeft)
    );
    assert_eq!(
        wheel_tilt_from_relative_axis(REL_HWHEEL, 2),
        Some(MouseButton::WheelTiltRight)
    );
    assert_eq!(wheel_tilt_from_relative_axis(REL_HWHEEL, 0), None);
    assert_eq!(
        wheel_tilt_from_relative_axis(REL_HWHEEL_HI_RES, -120),
        Some(MouseButton::WheelTiltLeft)
    );
    assert_eq!(
        wheel_tilt_from_relative_axis(REL_HWHEEL_HI_RES, 120),
        Some(MouseButton::WheelTiltRight)
    );
    // The vertical wheel axis never synthesizes a tilt.
    assert_eq!(wheel_tilt_from_relative_axis(0x08, -1), None);
}

#[test]
fn only_press_edge_triggers() {
    let press = RawEvent { event_type: EV_KEY, code: 0x113, value: 1 };
    let release = RawEvent { event_type: EV_KEY, code: 0x113, value: 0 };
    let repeat = RawEvent { event_type: EV_KEY, code: 0x113, value: 2 };
    assert_eq!(classify_event(press), Some(MouseButton::BtnSide));
    assert_eq!(classify_event(release), None);
    assert_eq!(classify_event(repeat), None);
}

#[test]
fn batch_events_classified_independently_in_order() {
    let batch = vec![
        RawEvent { event_type: EV_REL, code: REL_HWHEEL, value: 1 },
        RawEvent { event_type: EV_KEY, code: 0x114, value: 1 },
        RawEvent { event_type: EV_KEY, code: 0x1000, value: 1 },
        RawEvent { event_type: EV_REL, code: REL_HWHEEL, value: 0 },
    ];
    let acts = classify_events(&batch);
    assert_eq!(
        acts,
        vec![MouseButton::WheelTiltRight, MouseButton::BtnExtra]
    );
}

#[test]
fn duplicate_bindings_first_declared_wins() {
    let bindings = vec![
        Binding { button: MouseButton::BtnSide, action: key_combo(&["KEY_BACK"]) },
        Binding { button: MouseButton::BtnSide, action: command(&["true"]) },
    ];
    assert_eq!(find_binding(&bindings, MouseButton::BtnSide), Some(0));
    let action = action_for_button(&bindings, MouseButton::BtnSide).unwrap();
    assert_eq!(*action, key_combo(&["KEY_BACK"]));
}

#[test]
fn binding_lookup_by_key_code_and_x11_number() {
    let bindings = vec![
        Binding { button: MouseButton::BtnExtra, action: command(&["true"]) },
        Binding { button: MouseButton::BtnBack, action: key_combo(&["KEY_B"]) },
    ];
    assert_eq!(find_binding_by_key_code(&bindings, 0x114), Some(0));
    assert_eq!(find_binding_by_key_code(&bindings, 0x116), Some(1));
    assert_eq!(find_binding_by_key_code(&bindings, 0x110), None);
    // BtnBack arrives as X11 button 8.
    assert_eq!(find_binding_by_x11_button(&bindings, 8), Some(1));
    assert_eq!(find_binding_by_x11_button(&bindings, 9), Some(0));
    assert_eq!(find_binding_by_x11_button(&bindings, 1), None);
}

#[test]
fn would_block_keeps_device_and_failure_removes_it() {
    let mut set = DeviceSet::new(vec![10, 20, 30]);
    let statuses = vec![ReadStatus::WouldBlock, ReadStatus::Failed, ReadStatus::Ready];
    set.apply_pass(&statuses);
    assert_eq!(set.len(), 2);
    assert_eq!(set.id_at(0), 10);
    assert_eq!(set.id_at(1), 30);
    // A second failing pass removes the rest one by one.
    let statuses = vec![ReadStatus::Failed, ReadStatus::WouldBlock];
    set.apply_pass(&statuses);
    assert_eq!(set.len(), 1);
    assert_eq!(set.id_at(0), 30);
}

#[test]
fn empty_device_set_exits_and_idle_pass_sleeps() {
    let mut set = DeviceSet::new(vec![7]);
    assert_eq!(set.directive(false), LoopDirective::Sleep);
    assert_eq!(set.directive(true), LoopDirective::Continue);
    set.apply_pass(&vec![ReadStatus::Failed]);
    assert_eq!(set.len(), 0);
    assert_eq!(set.directive(false), LoopDirective::Exit);
    assert_eq!(set.directive(true), LoopDirective::Exit);
}

#[test]
fn chord_release_is_exact_reverse_of_press() {
    let chord = chord_for(&vec![1u16, 2, 3]);
    assert_eq!(chord.press, vec![1, 2, 3]);
    assert_eq!(chord.release, vec![3, 2, 1]);
    let single = chord_for(&vec![158u16]);
    assert_eq!(single.press, vec![158]);
    assert_eq!(single.release, vec![158]);
}

#[test]
fn chord_plan_skips_empty_code_list() {
    assert!(chord_plan(&Vec::<u16>::new()).is_none());
    let chord = chord_plan(&vec![5u8, 6]).unwrap();
    assert_eq!(chord.press, vec![5, 6]);
    assert_eq!(chord.release, vec![6, 5]);
}

#[test]
fn key_names_resolve_through_evdev_table() {
    let names = vec![
        "KEY_BACK".to_string(),
        "KEY_NOT_A_REAL_KEY".to_string(),
        "KEY_A".to_string(),
    ];
    assert_eq!(resolve_key_codes(&names), vec![158, 30]);
    assert_eq!(resolve_key_codes(&vec!["KEY_VOLUMEUP".to_string()]), vec![115]);
    assert_eq!(resolve_key_codes(&vec!["KEY_VOLUMEDOWN".to_string()]), vec![114]);
    assert_eq!(resolve_key_codes(&vec!["KEY_FORWARD".to_string()]), vec![159]);
}

#[test]
fn key_combo_press_for_bound_side_button() {
    // One binding table, one press of the side button's key code: exactly
    // one press and one release for the resolved code, nothing else fires.
    let bindings = vec![
        Binding { button: MouseButton::BtnSide, action: key_combo(&["KEY_BACK"]) },
    ];
    let press = RawEvent { event_type: EV_KEY, code: 0x113, value: 1 };
    let button = classify_event(press).unwrap();
    assert_eq!(button, MouseButton::BtnSide);
    assert_eq!(find_binding(&bindings, MouseButton::BtnExtra), None);
    let action = action_for_button(&bindings, button).unwrap();
    match plan_action(true, action) {
        ActionPlan::Inject(chord) => {
            assert_eq!(chord.press, vec![158]);
            assert_eq!(chord.release, vec![158]);
        }
        _ => panic!("expected an injection"),
    }
}

#[test]
fn command_press_spawns_exact_argv() {
    let bindings = vec![
        Binding { button: MouseButton::BtnExtra, action: command(&["notify-send", "hi"]) },
    ];
    let press = RawEvent { event_type: EV_KEY, code: 0x114, value: 1 };
    let button = classify_event(press).unwrap();
    let action = action_for_button(&bindings, button).unwrap();
    match plan_action(true, action) {
        ActionPlan::Spawn(program, args) => {
            assert_eq!(program, "notify-send");
            assert_eq!(args, vec!["hi".to_string()]);
        }
        _ => panic!("expected a spawn"),
    }
}

#[test]
fn empty_key_combo_is_a_no_op() {
    let bindings = vec![
        Binding { button: MouseButton::BtnTask, action: key_combo(&[]) },
    ];
    let press = RawEvent { event_type: EV_KEY, code: 0x117, value: 1 };
    let button = classify_event(press).unwrap();
    let action = action_for_button(&bindings, button).unwrap();
    match plan_action(true, action) {
        ActionPlan::ComboNoOp => {}
        _ => panic!("expected a no-op"),
    }
}

#[test]
fn key_combo_plan_cases() {
    match plan_key_combo(false, &vec!["KEY_A".to_string()]) {
        KeyComboPlan::Unavailable => {}
        _ => panic!("expected unavailable"),
    }
    match plan_key_combo(true, &vec!["KEY_TOTALLY_UNKNOWN".to_string()]) {
        KeyComboPlan::NoOp => {}
        _ => panic!("expected no-op"),
    }
    match plan_key_combo(true, &vec!["KEY_A".to_string(), "KEY_B".to_string()]) {
        KeyComboPlan::Emit(chord) => {
            assert_eq!(chord.press, vec![30, 48]);
            assert_eq!(chord.release, vec![48, 30]);
        }
        _ => panic!("expected emission"),
    }
}

#[test]
fn empty_argv_spawns_nothing() {
    assert!(command_plan(&Vec::new()).is_none());
    let (program, args) = command_plan(&vec!["true".to_string()]).unwrap();
    assert_eq!(program, "true");
    assert!(args.is_empty());
}

#[test]
fn uinput_key_set_is_sorted_union_of_combo_codes() {
    let config = Config::default();
    // KEY_VOLUMEDOWN=114, KEY_VOLUMEUP=115, KEY_BACK=158, KEY_FORWARD=159.
    assert_eq!(collect_uinput_keys(&config.bindings), vec![114, 115, 158, 159]);
    let bindings = vec![
        Binding { button: MouseButton::BtnSide, action: key_combo(&["KEY_B", "KEY_A"]) },
        Binding { button: MouseButton::BtnBack, action: key_combo(&["KEY_A", "KEY_NOPE"]) },
        Binding { button: MouseButton::BtnTask, action: command(&["true"]) },
    ];
    assert_eq!(collect_uinput_keys(&bindings), vec![30, 48]);
    assert_eq!(collect_uinput_keys(&Vec::new()), Vec::<u16>::new());
}

#[test]
fn default_config_binds_side_buttons_and_volume() {
    let config = Config::default();
    assert_eq!(config.device_by_path, None);
    assert_eq!(config.bindings.len(), 4);
    assert_eq!(config.bindings[0].button, MouseButton::BtnSide);
    assert_eq!(config.bindings[0].action, key_combo(&["KEY_BACK"]));
    assert_eq!(config.bindings[1].button, MouseButton::BtnExtra);
    assert_eq!(config.bindings[1].action, key_combo(&["KEY_FORWARD"]));
    assert_eq!(config.bindings[2].button, MouseButton::BtnForward);
    assert_eq!(config.bindings[2].action, key_combo(&["KEY_VOLUMEUP"]));
    assert_eq!(config.bindings[3].button, MouseButton::BtnBack);
    assert_eq!(config.bindings[3].action, key_combo(&["KEY_VOLUMEDOWN"]));
}

#[test]
fn device_qualification_rules() {
    let bindings = vec![
        Binding { button: MouseButton::BtnSide, action: key_combo(&["KEY_BACK"]) },
    ];
    // Supports the bound key code.
    assert!(device_qualifies(&bindings, &vec![0x110, 0x113], &Vec::new()));
    // Supports no bound code and no tilt is bound.
    assert!(!device_qualifies(&bindings, &vec![0x110], &vec![0x06]));
    let tilt_bindings = vec![
        Binding { button: MouseButton::WheelTiltLeft, action: command(&["true"]) },
    ];
    assert!(device_qualifies(&tilt_bindings, &Vec::new(), &vec![0x06]));
    assert!(device_qualifies(&tilt_bindings, &Vec::new(), &vec![0x0c]));
    assert!(!device_qualifies(&tilt_bindings, &Vec::new(), &vec![0x08]));
}

#[test]
fn session_detection_rules() {
    assert!(is_x11_session_env(Some("x11".to_string()), false, false));
    assert!(!is_x11_session_env(Some("wayland".to_string()), true, false));
    assert!(is_x11_session_env(Some("tty".to_string()), true, false));
    assert!(!is_x11_session_env(Some("tty".to_string()), true, true));
    assert!(is_x11_session_env(None, true, false));
    assert!(!is_x11_session_env(None, false, false));
    assert!(!is_x11_session_env(None, true, true));
}
