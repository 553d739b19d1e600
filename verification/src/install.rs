//! The dependency installer's verified half: which package manager a Linux
//! system uses (first present in a fixed priority order wins) and whether
//! the conversion program's version probe names the expected tool.  Probing
//! and spawning the installer are plain I/O and stay outside the library.

use crate::text::spec_contains;
use crate::text::str_contains;
use vstd::prelude::*;

verus! {

/// The package managers probed on a Linux system, in priority order.
#[derive(Clone, Copy, Debug, PartialEq, Eq, Structural)]
pub enum PackageManager {
    Apt,
    Yum,
    Pacman,
}

impl PackageManager {
    /// The command this manager is invoked by.
    pub fn command_name(&self) -> (r: &'static str)
        ensures
            *self is Apt ==> r@ == "apt"@,
            *self is Yum ==> r@ == "yum"@,
            *self is Pacman ==> r@ == "pacman"@,
    {
        match self {
            PackageManager::Apt => "apt",
            PackageManager::Yum => "yum",
            PackageManager::Pacman => "pacman",
        }
    }
}

/// Picks the package manager to install with, given which ones the system
/// has: the first present one in priority order, or none at all.
pub fn choose_package_manager(apt: bool, yum: bool, pacman: bool) -> (r: Option<PackageManager>)
    ensures
        r == (if apt {
            Some(PackageManager::Apt)
        } else if yum {
            Some(PackageManager::Yum)
        } else if pacman {
            Some(PackageManager::Pacman)
        } else {
            None::<PackageManager>
        }),
{
    if apt {
        Some(PackageManager::Apt)
    } else if yum {
        Some(PackageManager::Yum)
    } else if pacman {
        Some(PackageManager::Pacman)
    } else {
        None
    }
}

/// Whether the version probe's diagnostic output names the expected
/// conversion tool, which decides that it is already installed.
pub fn diagnostic_reports_poppler(diagnostic: &str) -> (r: bool)
    ensures
        r == spec_contains(diagnostic@, "Poppler"@),
{
    str_contains(diagnostic, "Poppler")
}

} // verus!
