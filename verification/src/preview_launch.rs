//! How the floating capture preview is launched.

use vstd::prelude::*;

verus! {

/// The preview is shown in-process on KDE Wayland sessions; elsewhere it runs
/// in a separate process with its own GTK application context.
pub fn should_use_direct_preview_launch(is_kde_wayland_session: bool) -> (direct: bool)
    ensures
        direct == is_kde_wayland_session,
{
    is_kde_wayland_session
}

/// The editor is never launched in-process.
pub fn should_use_direct_editor_launch() -> (direct: bool)
    ensures
        !direct,
{
    false
}

/// Where the preview runs.
#[derive(Debug, Clone, Copy, PartialEq, Eq)]
pub enum PreviewLaunch {
    /// Show the preview overlay in this process (failures are only logged).
    Direct,
    /// Start `apexshot preview <path>` as a subprocess.
    Subprocess,
}

/// How to launch the preview of a capture.
pub fn launch_preview(is_kde_wayland_session: bool) -> (how: PreviewLaunch)
    ensures
        how == (if is_kde_wayland_session {
            PreviewLaunch::Direct
        } else {
            PreviewLaunch::Subprocess
        }),
{
    if should_use_direct_preview_launch(is_kde_wayland_session) {
        PreviewLaunch::Direct
    } else {
        PreviewLaunch::Subprocess
    }
}

} // verus!
