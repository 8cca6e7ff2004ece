//! The program's settings.
use vstd::prelude::*;

verus! {

/// The settings a run starts from: the file that lists the watch targets,
/// the mirror root, and whether to talk to the service supervisor.
pub struct Cli {
    pub config_file: String,
    pub user_dotfiles: String,
    pub systemd: bool,
}

} // verus!
