//! What the command line hands in: paths that were looked up, and the two
//! sets of parameters as they are written in a configuration.

use crate::coord2d::Coord2D;
use crate::excitation_source2d::{
    PulsedExcitationGaussian2D, PulsedExcitationGaussian2DParams, SourceError,
};
use crate::exciton::{AnnihilationOutcome, ExcitonParameters};
use vstd::prelude::*;

verus! {

/// `String::push_str`: appends the characters of `tail` to `s`.
pub assume_specification[ String::push_str ](s: &mut String, tail: &str)
    ensures
        final(s)@ == old(s)@ + tail@,
;

/// Why a path given on the command line is refused.
#[derive(Debug, Clone, PartialEq, Eq)]
pub enum CLIPathError {
    FileDoesNotExist(String),
    DirectoryDoesNotExist(String),
    ExpectedDirectoryNotFile(String),
}

impl CLIPathError {
    /// The path that was refused.
    pub open spec fn path(&self) -> Seq<char> {
        match self {
            CLIPathError::FileDoesNotExist(p) => p@,
            CLIPathError::DirectoryDoesNotExist(p) => p@,
            CLIPathError::ExpectedDirectoryNotFile(p) => p@,
        }
    }

    /// What the message says before the path.
    pub open spec fn opening(&self) -> Seq<char> {
        match self {
            CLIPathError::FileDoesNotExist(_) => "The provided path ("@,
            CLIPathError::DirectoryDoesNotExist(_) => "The provided directory ("@,
            CLIPathError::ExpectedDirectoryNotFile(_) => "The provided path ("@,
        }
    }

    /// What the message says after the path.
    pub open spec fn closing(&self) -> Seq<char> {
        match self {
            CLIPathError::FileDoesNotExist(_) => ") does not exist"@,
            CLIPathError::DirectoryDoesNotExist(_) => ") does not exist"@,
            CLIPathError::ExpectedDirectoryNotFile(_) => ") is a file; expected a directory"@,
        }
    }

    /// The message for the user: the path between the words that say what is
    /// wrong with it.
    pub fn message(&self) -> (m: String)
        ensures
            m@ == self.opening() + self.path() + self.closing(),
    {
        let mut m = String::new();
        match self {
            CLIPathError::FileDoesNotExist(p) => {
                m.push_str("The provided path (");
                m.push_str(p.as_str());
                m.push_str(") does not exist");
            },
            CLIPathError::DirectoryDoesNotExist(p) => {
                m.push_str("The provided directory (");
                m.push_str(p.as_str());
                m.push_str(") does not exist");
            },
            CLIPathError::ExpectedDirectoryNotFile(p) => {
                m.push_str("The provided path (");
                m.push_str(p.as_str());
                m.push_str(") is a file; expected a directory");
            },
        }
        assert(m@ =~= self.opening() + self.path() + self.closing());
        m
    }
}

/// Where a set of parameters comes from.
#[derive(Debug, Clone, Copy, PartialEq, Eq, Structural)]
pub enum InputChoice {
    /// The parameters are written on the command line.
    Inline,
    /// The parameters are in the file at a path.
    Path,
}

/// Where a set of parameters comes from, given which of the two ways of
/// handing it in were used. Exactly one must be: `None` where both were, or
/// neither.
pub fn input_choice(inline_given: bool, path_given: bool) -> (r: Option<InputChoice>)
    ensures
        r == if inline_given && !path_given {
            Some(InputChoice::Inline)
        } else if !inline_given && path_given {
            Some(InputChoice::Path)
        } else {
            None
        },
{
    match (inline_given, path_given) {
        (true, false) => Some(InputChoice::Inline),
        (false, true) => Some(InputChoice::Path),
        _ => None,
    }
}

/// The path of a file that was found to exist.
#[derive(Debug, Clone)]
pub struct ExistingFilePath(pub String);

impl ExistingFilePath {
    /// The path `s`, given whether something exists at it.
    pub fn from_probe(s: &str, exists: bool) -> (r: Result<Self, CLIPathError>)
        ensures
            exists ==> r is Ok && r->Ok_0.0@ == s@,
            !exists ==> r is Err && r->Err_0 is FileDoesNotExist && r->Err_0.path() == s@,
    {
        if !exists {
            Err(CLIPathError::FileDoesNotExist(s.to_owned()))
        } else {
            Ok(ExistingFilePath(s.to_owned()))
        }
    }
}

/// The path of a directory that was found to exist.
#[derive(Debug, Clone)]
pub struct ExistingDirectory(pub String);

impl ExistingDirectory {
    /// The path `s`, given whether something exists at it and whether that is
    /// a file.
    pub fn from_probe(s: &str, exists: bool, is_file: bool) -> (r: Result<Self, CLIPathError>)
        ensures
            exists && !is_file ==> r is Ok && r->Ok_0.0@ == s@,
            !exists ==> r is Err && r->Err_0 is DirectoryDoesNotExist && r->Err_0.path() == s@,
            exists && is_file ==> r is Err && r->Err_0 is ExpectedDirectoryNotFile
                && r->Err_0.path() == s@,
    {
        if !exists {
            Err(CLIPathError::DirectoryDoesNotExist(s.to_owned()))
        } else if is_file {
            Err(CLIPathError::ExpectedDirectoryNotFile(s.to_owned()))
        } else {
            Ok(ExistingDirectory(s.to_owned()))
        }
    }
}

/// The physical parameters as a configuration gives them. Each quantity is
/// the bit pattern of a binary64 number.
#[derive(Debug, Clone, Copy)]
pub struct ExcitonParametersInput {
    pub diffusivity_m2_per_s: u64,
    pub radiative_decay_rate_per_s: u64,
    pub exciton_radius_m: u64,
    pub annihilation_outcome: AnnihilationOutcome,
}

impl ExcitonParametersInput {
    /// The parameters of a run: those given, and no decay but the radiative
    /// one.
    pub fn params(&self) -> (r: ExcitonParameters)
        ensures
            r == (ExcitonParameters {
                diffusivity_m2_per_s: self.diffusivity_m2_per_s,
                radiative_decay_rate_per_s: self.radiative_decay_rate_per_s,
                non_radiative_decay_rate_per_s: 0,
                exciton_radius_m: self.exciton_radius_m,
                annihilation_outcome: self.annihilation_outcome,
            }),
    {
        ExcitonParameters {
            diffusivity_m2_per_s: self.diffusivity_m2_per_s,
            radiative_decay_rate_per_s: self.radiative_decay_rate_per_s,
            non_radiative_decay_rate_per_s: 0,
            exciton_radius_m: self.exciton_radius_m,
            annihilation_outcome: self.annihilation_outcome,
        }
    }
}

/// The parameters of a pulsed excitation as a configuration gives them.
#[derive(Debug, Clone, Copy)]
pub struct PulsedExcitationInput {
    pub spot_fwhm_m: u64,
    pub repetition_rate_hz: u64,
    pub pulse_fwhm_s: u64,
    pub n_excitations: usize,
    pub n_pulses: usize,
}

impl PulsedExcitationInput {
    /// The parameters of the source.
    pub open spec fn params_spec(&self) -> PulsedExcitationGaussian2DParams {
        PulsedExcitationGaussian2DParams {
            spot_fwhm_m: self.spot_fwhm_m,
            repetition_rate_hz: self.repetition_rate_hz,
            pulse_fwhm_s: self.pulse_fwhm_s,
            n_excitations: self.n_excitations,
            n_pulses: self.n_pulses,
        }
    }

    /// The parameters of the source.
    pub fn params(&self) -> (r: PulsedExcitationGaussian2DParams)
        ensures
            r == self.params_spec(),
    {
        PulsedExcitationGaussian2DParams {
            spot_fwhm_m: self.spot_fwhm_m,
            repetition_rate_hz: self.repetition_rate_hz,
            pulse_fwhm_s: self.pulse_fwhm_s,
            n_excitations: self.n_excitations,
            n_pulses: self.n_pulses,
        }
    }

    /// The source with these parameters over the places and times drawn for
    /// it.
    pub fn excitation_source(&self, coords: Vec<Coord2D>, times: Vec<u64>) -> (r: Result<
        PulsedExcitationGaussian2D,
        SourceError,
    >)
        ensures
            PulsedExcitationGaussian2D::made_of(self.params_spec(), coords@, times@, r),
    {
        PulsedExcitationGaussian2D::new(self.params(), coords, times)
    }
}

} // verus!
