//! Project settings: the static description a project is opened with.

use vstd::prelude::*;
use vstd::string::*;

verus! {

/// Buffer length used when the settings name none.
pub const DEFAULT_BUFFER_LENGTH: usize = 1024;

/// Project sample rate used when the settings name none.
pub const DEFAULT_SAMPLERATE: usize = 44100;

/// How the engine is driven.
#[derive(Clone, Copy, Debug, PartialEq, Eq, Structural)]
pub enum WorkFlow {
    /// Interactive commands: play, seek, render.
    Manual,
    /// Continuous rendering of externally fed note events.
    Stream,
}

impl WorkFlow {
    /// The name of the workflow as the settings spell it.
    pub fn to_string(&self) -> (s: String)
        ensures
            s@ == (match *self {
                WorkFlow::Manual => "manual"@,
                WorkFlow::Stream => "stream"@,
            }),
    {
        match self {
            WorkFlow::Manual => String::from_str("manual"),
            WorkFlow::Stream => String::from_str("stream"),
        }
    }
}

/// The `project` table of the settings.
#[derive(Clone, Debug)]
pub struct Project {
    pub name: Option<String>,
}

impl Project {
    /// The project's name, `unnamed` when none is given.
    pub fn name(&self) -> (r: String)
        ensures
            r@ == (match self.name {
                Some(n) => n@,
                None => "unnamed"@,
            }),
    {
        match &self.name {
            Some(n) => n.clone(),
            None => String::from_str("unnamed"),
        }
    }
}

/// The `settings` table of the settings.
#[derive(Clone, Debug)]
pub struct Settings {
    /// Path of the project description, relative to the project directory.
    pub main: String,
    pub buffer_length: Option<usize>,
    pub project_samplerate: Option<usize>,
    pub workflow: Option<String>,
}

impl Settings {
    /// Frames per chunk; 1024 when unset.
    pub fn buffer_length(&self) -> (r: usize)
        ensures
            r == (match self.buffer_length {
                Some(b) => b,
                None => DEFAULT_BUFFER_LENGTH,
            }),
    {
        match self.buffer_length {
            Some(b) => b,
            None => DEFAULT_BUFFER_LENGTH,
        }
    }

    /// Internal mix rate in frames per second; 44100 when unset.
    pub fn project_samplerate(&self) -> (r: usize)
        ensures
            r == (match self.project_samplerate {
                Some(p) => p,
                None => DEFAULT_SAMPLERATE,
            }),
    {
        match self.project_samplerate {
            Some(p) => p,
            None => DEFAULT_SAMPLERATE,
        }
    }

    /// The workflow: `Stream` exactly when the settings say `stream`, and
    /// `Manual` for every other or missing value.
    pub fn workflow(&self) -> (w: WorkFlow)
        ensures
            w == (if self.workflow is Some && self.workflow->0@ == "stream"@ {
                WorkFlow::Stream
            } else {
                WorkFlow::Manual
            }),
    {
        match &self.workflow {
            Some(s) => {
                let stream: String = String::from_str("stream");
                if *s == stream {
                    WorkFlow::Stream
                } else {
                    WorkFlow::Manual
                }
            },
            None => WorkFlow::Manual,
        }
    }
}

/// The whole settings document.
#[derive(Clone, Debug)]
pub struct Config {
    pub project: Project,
    pub settings: Settings,
}

} // verus!
