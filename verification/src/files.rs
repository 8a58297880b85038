//! Project configuration records, as read from the build's description
//! files. The build orchestration that fills them does file discovery and
//! parsing outside this library; these are the plain shapes it hands over.

use vstd::prelude::*;

verus! {

/// The project-wide description file.
#[derive(Debug, Clone)]
pub struct SotoProjectFile {
    pub project: SotoProjectFileProject,
}

/// The project table of the project description.
#[derive(Debug, Clone)]
pub struct SotoProjectFileProject {
    pub prefix: String,
}

/// The machine-local description file.
#[derive(Debug, Clone)]
pub struct SotoLocalFile {
    pub game: SotoLocalFileGame,
}

/// The game table of the local description: where the game's binaries and
/// content live.
#[derive(Debug, Clone)]
pub struct SotoLocalFileGame {
    pub bin: String,
    pub content: String,
}

/// One task description file.
#[derive(Debug, Clone)]
pub struct SotoTaskFile {
    pub soto: Option<SotoTaskFileSoto>,
}

/// The tag naming the runner a task file wants.
#[derive(Debug, Clone)]
pub struct SotoTaskFileSoto {
    pub runner: String,
}

} // verus!
