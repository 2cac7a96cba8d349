//! The viewer's decisions on input: which command a key stands for, what
//! each handled event asks of the event loop, and where navigation goes
//! after the current file was deleted.

use crate::keybinds::{Action, Keysym};
use crate::navigator::Navigator;
use crate::renderer::FilterMethod;
use crate::settings::AppSettings;
use vstd::prelude::*;

verus! {

/// What handling one event asks of the event loop.
#[derive(Clone, Copy, Debug, PartialEq, Eq, Structural)]
pub struct EventOutcome {
    /// The window must be redrawn.
    pub dirty: bool,
    /// The viewer must close.
    pub quit: bool,
    /// A new image was loaded.
    pub navigated: bool,
}

impl Default for EventOutcome {
    fn default() -> (r: Self)
        ensures
            r == (EventOutcome { dirty: false, quit: false, navigated: false }),
    {
        EventOutcome { dirty: false, quit: false, navigated: false }
    }
}

impl EventOutcome {
    /// The outcome of showing another image: redraw and count it as a
    /// navigation exactly when the image loaded.
    pub fn after_navigation(loaded: bool) -> (r: Self)
        ensures
            r == (EventOutcome { dirty: loaded, quit: false, navigated: loaded }),
    {
        EventOutcome { dirty: loaded, quit: false, navigated: loaded }
    }

    /// The outcome of a change of the view (rotation, zoom, pan): redraw.
    pub fn redraw() -> (r: Self)
        ensures
            r == (EventOutcome { dirty: true, quit: false, navigated: false }),
    {
        EventOutcome { dirty: true, quit: false, navigated: false }
    }

    /// The outcome of a request to close the viewer.
    pub fn quit() -> (r: Self)
        ensures
            r == (EventOutcome { dirty: false, quit: true, navigated: false }),
    {
        EventOutcome { dirty: false, quit: true, navigated: false }
    }
}

/// What the event loop gathers from all the events of one dispatch.
#[derive(Clone, Copy, Debug, PartialEq, Eq, Structural)]
pub struct FrameState {
    pub dirty: bool,
    pub navigated: bool,
    pub closed: bool,
}

impl FrameState {
    /// Fold one outcome in: any redraw, navigation or close request
    /// sticks.
    pub fn absorb(&mut self, outcome: EventOutcome)
        ensures
            final(self).dirty == (old(self).dirty || outcome.dirty),
            final(self).navigated == (old(self).navigated || outcome.navigated),
            final(self).closed == (old(self).closed || outcome.quit),
    {
        self.dirty = self.dirty || outcome.dirty;
        self.navigated = self.navigated || outcome.navigated;
        self.closed = self.closed || outcome.quit;
    }
}

/// What the event loop does once all events of a dispatch are folded in.
#[derive(Clone, Copy, Debug, PartialEq, Eq, Structural)]
pub struct FramePlan {
    /// Fit the new image to the window again.
    pub refit: bool,
    /// Show the new image's name in the window title.
    pub retitle: bool,
    /// Render and commit a frame.
    pub redraw: bool,
    /// Leave the loop after this frame.
    pub close: bool,
}

impl FrameState {
    /// After a navigation the image is fitted to the window again, the
    /// title follows it when decorations are on, and a frame is drawn;
    /// otherwise a frame is drawn only when something asked for it.
    pub fn plan(&self, decorations: bool) -> (r: FramePlan)
        ensures
            r == (FramePlan {
                refit: self.navigated,
                retitle: self.navigated && decorations,
                redraw: self.dirty || self.navigated,
                close: self.closed,
            }),
    {
        FramePlan {
            refit: self.navigated,
            retitle: self.navigated && decorations,
            redraw: self.dirty || self.navigated,
            close: self.closed,
        }
    }
}

/// The command a key press stands for.
#[derive(Clone, Copy, Debug, PartialEq, Eq, Structural)]
pub enum KeyCommand {
    Previous,
    Next,
    Quit,
    RotateLeft,
    RotateRight,
    DeleteFile,
    Ignore,
}

/// The command bound to `action`.
pub open spec fn command_of(action: Action) -> KeyCommand {
    match action {
        Action::Quit => KeyCommand::Quit,
        Action::RotateLeft => KeyCommand::RotateLeft,
        Action::RotateRight => KeyCommand::RotateRight,
        Action::DeleteFile => KeyCommand::DeleteFile,
    }
}

/// The command for a key press: the left and right arrow keys go to the
/// previous and next image before any binding is looked at; other keys do
/// what they are bound to, or nothing.
pub fn key_command(sym: Keysym, settings: &AppSettings) -> (r: KeyCommand)
    ensures
        sym == settings.key_left ==> r == KeyCommand::Previous,
        sym != settings.key_left && sym == settings.key_right ==> r == KeyCommand::Next,
        sym != settings.key_left && sym != settings.key_right ==> r == (if settings.keybind_map@.contains_key(
            sym.0,
        ) {
            command_of(settings.keybind_map@[sym.0])
        } else {
            KeyCommand::Ignore
        }),
{
    if sym == settings.key_left {
        KeyCommand::Previous
    } else if sym == settings.key_right {
        KeyCommand::Next
    } else {
        match settings.keybind_map.lookup(sym) {
            Some(Action::Quit) => KeyCommand::Quit,
            Some(Action::RotateLeft) => KeyCommand::RotateLeft,
            Some(Action::RotateRight) => KeyCommand::RotateRight,
            Some(Action::DeleteFile) => KeyCommand::DeleteFile,
            None => KeyCommand::Ignore,
        }
    }
}

/// The filter the renderer uses: the configured one with antialiasing,
/// else nearest-neighbour.
pub fn effective_filter(settings: &AppSettings) -> (r: FilterMethod)
    ensures
        r == (if settings.antialiasing {
            settings.filter
        } else {
            FilterMethod::Nearest
        }),
{
    if settings.antialiasing {
        settings.filter
    } else {
        FilterMethod::Nearest
    }
}

/// What to do once the current file was removed from disk.
pub enum AfterDelete {
    /// Show the image at this path, now the current one.
    Show(String),
    /// No image is left: close the viewer.
    Quit,
}

/// Drop the deleted file from the list and say what to show next: the
/// image that followed it (the first one when the last was deleted),
/// or nothing when the list is now empty.
pub fn after_file_removed(navigator: &mut Navigator) -> (r: AfterDelete)
    requires
        old(navigator).wf(),
    ensures
        final(navigator).paths@ == old(navigator).paths@.remove(old(navigator).current as int),
        match r {
            AfterDelete::Quit => final(navigator).paths.len() == 0,
            AfterDelete::Show(p) => {
                &&& final(navigator).wf()
                &&& p@ == final(navigator).paths@[final(navigator).current as int]@
                &&& final(navigator).current == if old(navigator).current < final(navigator).paths.len() {
                    old(navigator).current as int
                } else {
                    0
                }
            },
        },
{
    match navigator.remove_current() {
        Some(p) => AfterDelete::Show(p.to_owned()),
        None => AfterDelete::Quit,
    }
}

/// The window title for the image at `path`: its file name, or `imgvwr`
/// when it has none, followed by ` — imgvwr`.
pub fn make_title(path: &str) -> (r: String)
    ensures
        r@ == (match crate::paths::spec_path_file_name(path@) {
            Some(n) => n,
            None => "imgvwr"@,
        }) + " — imgvwr"@,
{
    let mut title = match crate::paths::path_file_name(path) {
        Some(n) => n,
        None => "imgvwr".to_owned(),
    };
    title.append(" — imgvwr");
    title
}

/// Each bound action runs the command of the same name.
pub proof fn lemma_commands_follow_actions()
    ensures
        command_of(Action::Quit) == KeyCommand::Quit,
        command_of(Action::RotateLeft) == KeyCommand::RotateLeft,
        command_of(Action::RotateRight) == KeyCommand::RotateRight,
        command_of(Action::DeleteFile) == KeyCommand::DeleteFile,
{
}

} // verus!
