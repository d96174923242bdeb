use desktop_ui_core::about::{
    about_window, init_error_message, on_dialog_event, DialogAction, DialogEvent,
};

#[test]
fn about_window_content() {
    let w = about_window();
    assert_eq!(w.title, String::from("About ZeroTier UI"));
    assert_eq!(w.ok_label, String::from(" Ok "));
    assert_eq!(w.width, 500);
    assert_eq!(w.height, 300);
    assert!(w.text.starts_with("ZeroTier Desktop UI\n"));
    assert!(w.text.contains("Mozilla Public License"));
    assert!(!w.text.contains('\0'));
}

#[test]
fn about_window_flags() {
    let w = about_window();
    assert!(!w.margined);
    assert!(w.padded);
    assert!(w.text_read_only);
}

#[test]
fn ok_click_exits_cleanly() {
    let DialogAction::ExitProcess { status } = on_dialog_event(DialogEvent::OkClicked);
    assert_eq!(status, 0);
}

#[test]
fn window_close_exits_cleanly() {
    let DialogAction::ExitProcess { status } = on_dialog_event(DialogEvent::WindowClosed);
    assert_eq!(status, 0);
}

#[test]
fn should_quit_exits_cleanly() {
    let DialogAction::ExitProcess { status } = on_dialog_event(DialogEvent::ShouldQuit);
    assert_eq!(status, 0);
}

#[test]
fn init_error_message_names_the_toolkit() {
    let m = init_error_message("out of memory");
    assert_eq!(m, String::from("libui init error: out of memory"));
}

#[test]
fn init_error_message_keeps_empty_detail() {
    assert_eq!(init_error_message(""), String::from("libui init error: "));
}
