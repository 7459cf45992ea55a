//! The settings file as it was before a change, and putting it back.

use vstd::prelude::*;
use crate::app::process;
use crate::app::process::install_error;
use crate::error;
use crate::error::{invalid_value, ErrorModel, MuxError};
use crate::path::UnixPath;
use crate::replace;
use crate::replace::{FileSteps, Removal, RemovalModel, StepEvent};
use crate::step_log::LoggedSteps;

verus! {

/// What the file system said of the settings file, symbolic links not followed.
#[derive(Debug)]
pub enum PreferenceProbe {
    Missing,
    /// Neither a regular file nor missing.
    Other,
    Unavailable(String),
    Regular { contents: Result<Vec<u8>, String>, mode: u32 },
}

/// A settings file, or the place where there was none.
pub struct PreferenceSnapshot {
    path: UnixPath,
    previous: Option<(Vec<u8>, u32)>,
}

#[verifier::ext_equal]
pub struct PreferenceModel {
    pub path: Seq<u8>,
    /// The bytes and the mode of the file; `None` where there was none.
    pub previous: Option<(Seq<u8>, u32)>,
}

impl View for PreferenceSnapshot {
    type V = PreferenceModel;

    closed spec fn view(&self) -> PreferenceModel {
        PreferenceModel {
            path: self.path@,
            previous: match self.previous {
                Some((bytes, mode)) => Some((bytes@, mode)),
                None => None,
            },
        }
    }
}

/// The snapshot that a look at the file gives.
pub open spec fn preference_seen(p: Seq<u8>, probe: PreferenceProbe) -> Result<
    PreferenceModel,
    ErrorModel,
> {
    match probe {
        PreferenceProbe::Missing => Ok(PreferenceModel { path: p, previous: None }),
        PreferenceProbe::Other => Err(
            ErrorModel::InvalidValue {
                field: "process configuration path"@,
                message: "must be a regular file"@,
            },
        ),
        PreferenceProbe::Unavailable(source) => Err(
            ErrorModel::Filesystem { path: p, source: source@ },
        ),
        PreferenceProbe::Regular { contents: Err(source), .. } => Err(
            ErrorModel::Filesystem { path: p, source: source@ },
        ),
        PreferenceProbe::Regular { contents: Ok(bytes), mode } => Ok(
            PreferenceModel { path: p, previous: Some((bytes@, mode)) },
        ),
    }
}

pub open spec fn snapshot_outcome(r: Result<PreferenceSnapshot, MuxError>) -> Result<
    PreferenceModel,
    ErrorModel,
> {
    match r {
        Ok(snapshot) => Ok(snapshot@),
        Err(e) => Err(e@),
    }
}

/// The file put back: its bytes in place of what is there now, or nothing where there
/// was nothing.
pub open spec fn restored_at(w: Seq<StepEvent>, k: int, snapshot: PreferenceModel) -> Option<
    (Result<(), ErrorModel>, int),
> {
    match snapshot.previous {
        Some((bytes, mode)) => match replace::replaced_at(w, k, snapshot.path, bytes, mode) {
            None => None,
            Some((Ok(_), k)) => Some((Ok(()), k)),
            Some((Err(failure), k)) => Some((Err(process::as_command(failure.error)), k)),
        },
        None => match replace::remove_at(w, k, snapshot.path) {
            None => None,
            Some((RemovalModel::Failed(source), k)) => Some(
                (Err(ErrorModel::Filesystem { path: snapshot.path, source }), k),
            ),
            Some((_, k)) => Some((Ok(()), k)),
        },
    }
}

impl PreferenceSnapshot {
    pub fn read(path: &UnixPath, probe: PreferenceProbe) -> (r: Result<Self, MuxError>)
        ensures
            snapshot_outcome(r) == preference_seen(path@, probe),
    {
        match probe {
            PreferenceProbe::Missing => Ok(
                PreferenceSnapshot { path: path.clone(), previous: None },
            ),
            PreferenceProbe::Other => Err(
                invalid_value("process configuration path", "must be a regular file"),
            ),
            PreferenceProbe::Unavailable(source) => Err(
                MuxError::Filesystem { path: path.clone(), source },
            ),
            PreferenceProbe::Regular { contents, mode } => match contents {
                Ok(bytes) => Ok(
                    PreferenceSnapshot { path: path.clone(), previous: Some((bytes, mode)) },
                ),
                Err(source) => Err(MuxError::Filesystem { path: path.clone(), source }),
            },
        }
    }

    pub fn restore<S: FileSteps>(&self, steps: &mut LoggedSteps<S>) -> (r: Result<(), MuxError>)
        ensures
            replace::agrees(final(steps).events(), old(steps).events()),
            forall|w: Seq<StepEvent>|
                replace::agrees(w, final(steps).events()) ==> #[trigger] restored_at(
                    w,
                    old(steps).events().len() as int,
                    self@,
                ) == Some((error::outcome(r), final(steps).events().len() as int)),
    {
        match &self.previous {
            Some((bytes, mode)) => match steps.atomic_replace_with(&self.path, bytes, *mode) {
                Ok(_) => Ok(()),
                Err(failure) => Err(install_error(&failure.into_error())),
            },
            None => match steps.delete(&self.path) {
                Removal::Failed(source) => Err(
                    MuxError::Filesystem { path: self.path.clone(), source },
                ),
                _ => Ok(()),
            },
        }
    }
}

} // verus!
