//! The content of the about dialog.
//!
//! The dialog itself is toolkit wiring in the surrounding application; the
//! text it shows, its title, the label of its single button and the window
//! size are fixed data and live here, pinned down exactly.

use vstd::prelude::*;

verus! {

/// Everything the about dialog displays: a titled, fixed-size window with
/// a read-only text area and one button that dismisses it.
pub struct AboutWindow {
    pub title: String,
    pub text: String,
    pub ok_label: String,
    pub width: i32,
    pub height: i32,
    pub margined: bool,
    pub padded: bool,
    pub text_read_only: bool,
}

/// What the user can do to the dialog.
pub enum DialogEvent {
    OkClicked,
    WindowClosed,
    ShouldQuit,
}

/// What the application must do in response to a dialog event.
pub enum DialogAction {
    ExitProcess { status: i32 },
}

/// The dialog's decision for each event: every event ends the process
/// with status 0.
pub fn on_dialog_event(e: DialogEvent) -> (a: DialogAction)
    ensures
        (a matches DialogAction::ExitProcess { status } && status == 0),
{
    match e {
        DialogEvent::OkClicked => DialogAction::ExitProcess { status: 0 },
        DialogEvent::WindowClosed => DialogAction::ExitProcess { status: 0 },
        DialogEvent::ShouldQuit => DialogAction::ExitProcess { status: 0 },
    }
}

/// The message printed when toolkit initialisation fails.
pub fn init_error_message(e: &str) -> (r: String)
    ensures
        r@ == "libui init error: "@ + e@,
{
    String::from_str("libui init error: ").concat(e)
}

/// The title of the about window.
pub open spec fn spec_about_title() -> Seq<char> {
    "About ZeroTier UI"@
}

/// The text shown in the about window.
pub open spec fn spec_about_text() -> Seq<char> {
    "ZeroTier Desktop UI\n\n(c)2021-2022 ZeroTier, Inc.\nReleased under the terms of the Mozilla Public License V2.0 (MPL)\nSource URL: https://github.com/zerotier/DesktopUI\n\nThe following additional open source code was used in this software:\n\n * https://github.com/zserge/tray by Serge Zaitsev (heavily modified)\n * https://github.com/libui-ng/libui-ng by Pietro Gagliardi and others\n"@
}

/// The label of the dismissing button.
pub open spec fn spec_about_ok_label() -> Seq<char> {
    " Ok "@
}

/// The about dialog's fixed content.
pub fn about_window() -> (w: AboutWindow)
    ensures
        w.title@ == spec_about_title(),
        w.text@ == spec_about_text(),
        w.ok_label@ == spec_about_ok_label(),
        w.width == 500,
        w.height == 300,
        !w.margined,
        w.padded,
        w.text_read_only,
{
    AboutWindow {
        title: String::from_str("About ZeroTier UI"),
        text: String::from_str(
            "ZeroTier Desktop UI\n\n(c)2021-2022 ZeroTier, Inc.\nReleased under the terms of the Mozilla Public License V2.0 (MPL)\nSource URL: https://github.com/zerotier/DesktopUI\n\nThe following additional open source code was used in this software:\n\n * https://github.com/zserge/tray by Serge Zaitsev (heavily modified)\n * https://github.com/libui-ng/libui-ng by Pietro Gagliardi and others\n",
        ),
        ok_label: String::from_str(" Ok "),
        width: 500,
        height: 300,
        margined: false,
        padded: true,
        text_read_only: true,
    }
}

} // verus!
