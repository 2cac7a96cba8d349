use imgvwr::config::Config;
use imgvwr::events::{
    after_file_removed, effective_filter, key_command, make_title, AfterDelete, EventOutcome,
    FramePlan, FrameState, KeyCommand,
};
use imgvwr::keybinds::Keysym;
use imgvwr::navigator::Navigator;
use imgvwr::renderer::FilterMethod;
use imgvwr::settings::{AppSettings, BindingKeysyms, CliOverrides};

fn settings(antialiasing: bool) -> AppSettings {
    let keys = BindingKeysyms {
        quit: Keysym(0x71),
        rotate_left: Keysym(0x5b),
        rotate_right: Keysym(0x5d),
        delete: Keysym(0xffff),
    };
    let cli = CliOverrides {
        decorations: None,
        antialiasing: Some(antialiasing),
        min_scale: None,
        max_scale: None,
        scale_step: None,
        filter_method: Some(imgvwr::config::FilterMethod::Lanczos3),
        log_level: None,
    };
    AppSettings::resolve_keysyms(&cli, &Config::default(), &keys, &keys, Keysym(0xff51), Keysym(0xff53)).unwrap()
}

#[test]
fn arrows_navigate_and_bindings_act() {
    let s = settings(true);
    assert_eq!(key_command(Keysym(0xff51), &s), KeyCommand::Previous);
    assert_eq!(key_command(Keysym(0xff53), &s), KeyCommand::Next);
    assert_eq!(key_command(Keysym(0x71), &s), KeyCommand::Quit);
    assert_eq!(key_command(Keysym(0x5b), &s), KeyCommand::RotateLeft);
    assert_eq!(key_command(Keysym(0x5d), &s), KeyCommand::RotateRight);
    assert_eq!(key_command(Keysym(0xffff), &s), KeyCommand::DeleteFile);
    assert_eq!(key_command(Keysym(0x7a), &s), KeyCommand::Ignore);
}

#[test]
fn arrow_keys_take_priority_over_bindings() {
    let keys = BindingKeysyms {
        quit: Keysym(0xff51),
        rotate_left: Keysym(0x5b),
        rotate_right: Keysym(0x5d),
        delete: Keysym(0xffff),
    };
    let cli = CliOverrides {
        decorations: None,
        antialiasing: None,
        min_scale: None,
        max_scale: None,
        scale_step: None,
        filter_method: None,
        log_level: None,
    };
    let s = AppSettings::resolve_keysyms(&cli, &Config::default(), &keys, &keys, Keysym(0xff51), Keysym(0xff53)).unwrap();
    assert_eq!(key_command(Keysym(0xff51), &s), KeyCommand::Previous);
}

#[test]
fn antialiasing_off_forces_nearest() {
    assert_eq!(effective_filter(&settings(true)), FilterMethod::Lanczos3);
    assert_eq!(effective_filter(&settings(false)), FilterMethod::Nearest);
}

#[test]
fn outcomes_fold_into_frame_state() {
    let mut frame = FrameState {
        dirty: false,
        navigated: false,
        closed: false,
    };
    frame.absorb(EventOutcome::default());
    assert_eq!(frame, FrameState { dirty: false, navigated: false, closed: false });
    frame.absorb(EventOutcome::after_navigation(false));
    assert_eq!(frame, FrameState { dirty: false, navigated: false, closed: false });
    frame.absorb(EventOutcome::redraw());
    assert_eq!(frame, FrameState { dirty: true, navigated: false, closed: false });
    frame.absorb(EventOutcome::after_navigation(true));
    assert_eq!(frame, FrameState { dirty: true, navigated: true, closed: false });
    frame.absorb(EventOutcome::quit());
    assert_eq!(frame, FrameState { dirty: true, navigated: true, closed: true });
}

#[test]
fn deleting_files_walks_forward_then_quits() {
    let entries = vec!["/p/a.png".to_string(), "/p/b.png".to_string()];
    let mut nav = Navigator::from_entries(&entries, None).unwrap();
    match after_file_removed(&mut nav) {
        AfterDelete::Show(p) => assert_eq!(p, "/p/b.png"),
        AfterDelete::Quit => panic!("an image is left"),
    }
    assert!(matches!(after_file_removed(&mut nav), AfterDelete::Quit));
}

#[test]
fn title_is_file_name_then_program() {
    assert_eq!(make_title("/home/u/pics/cat.png"), "cat.png — imgvwr");
    assert_eq!(make_title("/"), "imgvwr — imgvwr");
    assert_eq!(make_title("dir/.."), "imgvwr — imgvwr");
}

#[test]
fn navigation_refits_retitles_and_redraws() {
    let quiet = FrameState { dirty: false, navigated: false, closed: false };
    assert_eq!(
        quiet.plan(true),
        FramePlan { refit: false, retitle: false, redraw: false, close: false }
    );
    let moved = FrameState { dirty: false, navigated: true, closed: false };
    assert_eq!(
        moved.plan(true),
        FramePlan { refit: true, retitle: true, redraw: true, close: false }
    );
    assert_eq!(
        moved.plan(false),
        FramePlan { refit: true, retitle: false, redraw: true, close: false }
    );
    let closing = FrameState { dirty: true, navigated: false, closed: true };
    assert_eq!(
        closing.plan(false),
        FramePlan { refit: false, retitle: false, redraw: true, close: true }
    );
}
