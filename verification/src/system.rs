//! How the application was installed, decided from what the host shows.

use crate::text::{chars_of, starts_with, starts_with_text};
use vstd::prelude::*;

verus! {

/// The file whose presence on the host marks a Flatpak sandbox.
pub const FLATPAK_SENTINEL: &'static str = "/.flatpak-info";

/// The environment variable that is set inside a Snap package.
pub const SNAP_VARIABLE: &'static str = "SNAP";

/// What the path of every mounted application image begins with.
pub const IMAGE_MOUNT: &'static str = "/tmp/mount_";

/// The file directly under the root that marks a portable installation.
pub const PORTABLE_FILE: &'static str = "portable.txt";

/// The directory directly under the root that marks a portable installation.
pub const PORTABLE_DIR: &'static str = "UserData";

/// The packaging of an installation.
#[derive(Debug, Clone, Copy, PartialEq, Eq, Structural)]
pub enum InstallationType {
    /// Files under a user-writable root, replaced in place.
    Portable,
    /// A mounted application image.
    Appimage,
    /// A Flatpak sandbox.
    Flatpak,
    /// A Snap package.
    Snap,
    /// Installed by a system installer.
    Normal,
}

/// What was observed of the host and of the installation root.
#[derive(Debug, Clone, Copy, PartialEq, Eq, Structural)]
pub struct EnvironmentProbe {
    /// The host-level Flatpak sentinel file exists.
    pub flatpak_sentinel: bool,
    /// The Snap environment variable is set.
    pub snap_variable: bool,
    /// The root lies under the mount point of an application image.
    pub image_mount: bool,
    /// The portable marker exists directly under the root and is a file.
    pub portable_file: bool,
    /// The portable marker directory exists directly under the root.
    pub portable_dir: bool,
}

/// The installation type that a probe stands for: the first rule that
/// matches decides, in the order Flatpak, Snap, application image, portable.
pub open spec fn classify(probe: EnvironmentProbe) -> InstallationType {
    if probe.flatpak_sentinel {
        InstallationType::Flatpak
    } else if probe.snap_variable {
        InstallationType::Snap
    } else if probe.image_mount {
        InstallationType::Appimage
    } else if probe.portable_file || probe.portable_dir {
        InstallationType::Portable
    } else {
        InstallationType::Normal
    }
}

/// Whether the root lies under the mount point of an application image: its
/// path begins with the mount prefix.
pub fn under_image_mount(root: &str) -> (r: bool)
    ensures
        r == starts_with_text(root@, IMAGE_MOUNT@),
{
    starts_with(&chars_of(root), &chars_of(IMAGE_MOUNT))
}

/// Classifies the installation from a probe of the host.
pub fn get_instalation_type(probe: &EnvironmentProbe) -> (r: InstallationType)
    ensures
        r == classify(*probe),
{
    if probe.flatpak_sentinel {
        InstallationType::Flatpak
    } else if probe.snap_variable {
        InstallationType::Snap
    } else if probe.image_mount {
        InstallationType::Appimage
    } else if probe.portable_file || probe.portable_dir {
        InstallationType::Portable
    } else {
        InstallationType::Normal
    }
}

/// An earlier signal always wins over every later one: Flatpak over all,
/// then Snap, then the image mount, then either portable marker; without
/// any signal the installation is a normal one.
pub proof fn lemma_precedence(probe: EnvironmentProbe)
    ensures
        probe.flatpak_sentinel ==> classify(probe) == InstallationType::Flatpak,
        !probe.flatpak_sentinel && probe.snap_variable ==> classify(probe)
            == InstallationType::Snap,
        !probe.flatpak_sentinel && !probe.snap_variable && probe.image_mount ==> classify(probe)
            == InstallationType::Appimage,
        !probe.flatpak_sentinel && !probe.snap_variable && !probe.image_mount && (
        probe.portable_file || probe.portable_dir) ==> classify(probe)
            == InstallationType::Portable,
        !probe.flatpak_sentinel && !probe.snap_variable && !probe.image_mount
            && !probe.portable_file && !probe.portable_dir ==> classify(probe)
            == InstallationType::Normal,
{
}

} // verus!
