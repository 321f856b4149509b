use experiment::binary64;
use experiment::cli_schema::{
    input_choice, CLIPathError, ExcitonParametersInput, ExistingDirectory, ExistingFilePath,
    InputChoice, PulsedExcitationInput,
};
use experiment::exciton::AnnihilationOutcome;

#[test]
fn path_error_messages() {
    assert_eq!(
        CLIPathError::FileDoesNotExist("a/b.json".to_string()).message(),
        "The provided path (a/b.json) does not exist"
    );
    assert_eq!(
        CLIPathError::DirectoryDoesNotExist("out".to_string()).message(),
        "The provided directory (out) does not exist"
    );
    assert_eq!(
        CLIPathError::ExpectedDirectoryNotFile("out.bin".to_string()).message(),
        "The provided path (out.bin) is a file; expected a directory"
    );
}

#[test]
fn file_path_must_exist() {
    assert_eq!(ExistingFilePath::from_probe("x.json", true).unwrap().0, "x.json");
    assert_eq!(
        ExistingFilePath::from_probe("x.json", false).unwrap_err(),
        CLIPathError::FileDoesNotExist("x.json".to_string())
    );
}

#[test]
fn directory_must_exist_and_be_no_file() {
    assert_eq!(ExistingDirectory::from_probe("out", true, false).unwrap().0, "out");
    assert_eq!(
        ExistingDirectory::from_probe("out", false, false).unwrap_err(),
        CLIPathError::DirectoryDoesNotExist("out".to_string())
    );
    assert_eq!(
        ExistingDirectory::from_probe("out", false, true).unwrap_err(),
        CLIPathError::DirectoryDoesNotExist("out".to_string())
    );
    assert_eq!(
        ExistingDirectory::from_probe("out", true, true).unwrap_err(),
        CLIPathError::ExpectedDirectoryNotFile("out".to_string())
    );
}

#[test]
fn input_parameters_have_no_non_radiative_decay() {
    let input = ExcitonParametersInput {
        diffusivity_m2_per_s: 6.0e-6f64.to_bits(),
        radiative_decay_rate_per_s: 1.0e8f64.to_bits(),
        exciton_radius_m: 1.0e-9f64.to_bits(),
        annihilation_outcome: AnnihilationOutcome::One,
    };
    let params = input.params();
    assert_eq!(params.diffusivity_m2_per_s, 6.0e-6f64.to_bits());
    assert_eq!(params.radiative_decay_rate_per_s, 1.0e8f64.to_bits());
    assert_eq!(params.non_radiative_decay_rate_per_s, 0.0f64.to_bits());
    assert!(binary64::is_zero(params.non_radiative_decay_rate_per_s));
    assert_eq!(params.exciton_radius_m, 1.0e-9f64.to_bits());
    assert_eq!(params.annihilation_outcome, AnnihilationOutcome::One);
}

#[test]
fn pulsed_input_gives_its_parameters() {
    let input = PulsedExcitationInput {
        spot_fwhm_m: 1.0e-6f64.to_bits(),
        repetition_rate_hz: 1.0e6f64.to_bits(),
        pulse_fwhm_s: 100.0e-15f64.to_bits(),
        n_excitations: 10,
        n_pulses: 3,
    };
    let params = input.params();
    assert_eq!(params.spot_fwhm_m, 1.0e-6f64.to_bits());
    assert_eq!(params.repetition_rate_hz, 1.0e6f64.to_bits());
    assert_eq!(params.pulse_fwhm_s, 100.0e-15f64.to_bits());
    assert_eq!(params.n_excitations, 10);
    assert_eq!(params.n_pulses, 3);
}

#[test]
fn exactly_one_way_of_input_is_accepted() {
    assert_eq!(input_choice(true, false), Some(InputChoice::Inline));
    assert_eq!(input_choice(false, true), Some(InputChoice::Path));
    assert_eq!(input_choice(true, true), None);
    assert_eq!(input_choice(false, false), None);
}
