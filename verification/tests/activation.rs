use jdkman::activation::{
    Action, Activation, ActivationError, Event, Stage, Strategy, ANNOUNCE_TIMEOUT_MS,
};
use jdkman::profile::Flavor;

fn values_up_to_read(path: &str) -> Activation {
    let (mut activation, first) = Activation::begin(Strategy::Values, path);
    assert_eq!(first, Action::OpenKey { key: "Environment".to_string() });
    let second = activation.step(Event::Done);
    assert_eq!(
        second,
        Action::WriteValue { name: "JAVA_HOME".to_string(), value: path.to_string() }
    );
    let third = activation.step(Event::Done);
    assert_eq!(third, Action::ReadValue { name: "PATH".to_string() });
    assert_eq!(activation.stage(), Stage::ReadingPath);
    activation
}

#[test]
fn values_strategy_runs_through() {
    let mut activation = values_up_to_read("C:\\jdk17");
    let bin = activation.bin().to_string();
    let write = activation.step(Event::Value { value: Some("C:\\Windows".to_string()) });
    assert_eq!(
        write,
        Action::WriteValue { name: "PATH".to_string(), value: format!("{};C:\\Windows", bin) }
    );
    let announce = activation.step(Event::Done);
    assert_eq!(
        announce,
        Action::Announce { setting: "Environment".to_string(), timeout_ms: ANNOUNCE_TIMEOUT_MS }
    );
    assert_eq!(ANNOUNCE_TIMEOUT_MS, 5000);
    let end = activation.step(Event::Done);
    assert_eq!(end, Action::Succeed);
    assert_eq!(end.outcome(), Some(Ok(())));
    assert_eq!(activation.stage(), Stage::Finished);
    assert_eq!(activation.path(), "C:\\jdk17");
}

#[test]
fn bin_directory_lies_below_the_path() {
    let (activation, _) = Activation::begin(Strategy::Values, "jdk17");
    let bin = activation.bin().to_string();
    assert!(bin.starts_with("jdk17"));
    assert!(bin.ends_with("bin"));
    assert_eq!(bin.chars().count(), "jdk17".len() + 1 + "bin".len());
}

#[test]
fn values_strategy_with_a_given_bin_directory() {
    let (mut activation, first) =
        Activation::begin_with(Strategy::Values, "C:\\Java\\jdk17", "C:\\Java\\jdk17\\bin".to_string());
    assert_eq!(first, Action::OpenKey { key: "Environment".to_string() });
    assert_eq!(activation.bin(), "C:\\Java\\jdk17\\bin");
    activation.step(Event::Done);
    activation.step(Event::Done);
    let current = "C:\\JAVA\\JDK8\\BIN;C:\\Windows;c:\\java\\jdk17\\bin";
    let write = activation.step(Event::Value { value: Some(current.to_string()) });
    assert_eq!(
        write,
        Action::WriteValue {
            name: "PATH".to_string(),
            value: "C:\\Java\\jdk17\\bin;C:\\Windows;C:\\Java\\jdk17\\bin".to_string()
        }
    );
}

#[test]
fn absent_search_path_counts_as_empty() {
    let mut activation = values_up_to_read("C:\\jdk17");
    let bin = activation.bin().to_string();
    let write = activation.step(Event::Value { value: None });
    assert_eq!(write, Action::WriteValue { name: "PATH".to_string(), value: format!("{};", bin) });
}

#[test]
fn key_that_cannot_be_opened_fails_the_activation() {
    let (mut activation, _) = Activation::begin(Strategy::Values, "C:\\jdk17");
    let end = activation.step(Event::Failed);
    assert_eq!(end, Action::Fail { error: ActivationError::RegistryAccess });
    assert_eq!(end.outcome(), Some(Err(ActivationError::RegistryAccess)));
    assert_eq!(activation.stage(), Stage::Finished);
}

#[test]
fn value_that_cannot_be_written_fails_the_activation() {
    let (mut activation, _) = Activation::begin(Strategy::Values, "C:\\jdk17");
    activation.step(Event::Done);
    assert_eq!(
        activation.step(Event::Failed),
        Action::Fail { error: ActivationError::RegistryWrite }
    );
    let mut later = values_up_to_read("C:\\jdk17");
    later.step(Event::Value { value: Some(String::new()) });
    assert_eq!(later.step(Event::Failed), Action::Fail { error: ActivationError::RegistryWrite });
}

#[test]
fn value_that_cannot_be_read_fails_the_activation() {
    let mut activation = values_up_to_read("C:\\jdk17");
    assert_eq!(
        activation.step(Event::Failed),
        Action::Fail { error: ActivationError::RegistryRead }
    );
}

#[test]
fn announcement_that_fails_is_passed_over() {
    let mut activation = values_up_to_read("C:\\jdk17");
    activation.step(Event::Value { value: Some("C:\\Windows".to_string()) });
    activation.step(Event::Done);
    assert_eq!(activation.stage(), Stage::Announcing);
    assert_eq!(activation.step(Event::Failed), Action::Succeed);
}

#[test]
fn profile_strategy_runs_through() {
    let (mut activation, first) =
        Activation::begin(Strategy::Profile(Flavor::Other), "/opt/jdk17");
    assert_eq!(first, Action::ReadProfile { file_name: ".bashrc".to_string() });
    assert_eq!(first.outcome(), None);
    let write = activation.step(Event::Content { content: "alias a=b\n".to_string() });
    assert_eq!(
        write,
        Action::WriteProfile {
            content: "alias a=b\nexport JAVA_HOME=/opt/jdk17\nexport PATH=$JAVA_HOME/bin:$PATH\n"
                .to_string()
        }
    );
    assert_eq!(activation.step(Event::Done), Action::Advise);
    assert_eq!(activation.step(Event::Done), Action::Succeed);
    assert_eq!(activation.stage(), Stage::Finished);
}

#[test]
fn profile_of_macos_is_that_of_zsh() {
    let (_, first) = Activation::begin(Strategy::Profile(Flavor::MacOs), "/opt/jdk17");
    assert_eq!(first, Action::ReadProfile { file_name: ".zshrc".to_string() });
}

#[test]
fn missing_home_fails_the_activation() {
    let (mut activation, _) = Activation::begin(Strategy::Profile(Flavor::Other), "/opt/jdk17");
    assert_eq!(
        activation.step(Event::NoHome),
        Action::Fail { error: ActivationError::HomeDirectory }
    );
}

#[test]
fn profile_that_cannot_be_read_fails_the_activation() {
    let (mut activation, _) = Activation::begin(Strategy::Profile(Flavor::Other), "/opt/jdk17");
    assert_eq!(
        activation.step(Event::Failed),
        Action::Fail { error: ActivationError::ProfileRead }
    );
}

#[test]
fn profile_that_cannot_be_written_fails_the_activation() {
    let (mut activation, _) = Activation::begin(Strategy::Profile(Flavor::Other), "/opt/jdk17");
    activation.step(Event::Content { content: String::new() });
    assert_eq!(
        activation.step(Event::Failed),
        Action::Fail { error: ActivationError::ProfileWrite }
    );
}

#[test]
fn event_out_of_turn_ends_the_activation() {
    let (mut activation, _) = Activation::begin(Strategy::Values, "C:\\jdk17");
    assert_eq!(
        activation.step(Event::Content { content: String::new() }),
        Action::Fail { error: ActivationError::OutOfTurn }
    );
    assert_eq!(activation.stage(), Stage::Finished);
    assert_eq!(activation.step(Event::Done), Action::Fail { error: ActivationError::OutOfTurn });
}

#[test]
fn activating_twice_through_the_values_strategy_keeps_one_segment() {
    let mut stored = "C:\\Windows;C:\\Tools".to_string();
    let mut bin = String::new();
    for _ in 0..2 {
        let mut activation = values_up_to_read("C:\\jdk17");
        bin = activation.bin().to_string();
        match activation.step(Event::Value { value: Some(stored.clone()) }) {
            Action::WriteValue { name, value } => {
                assert_eq!(name, "PATH");
                stored = value;
            }
            other => panic!("{:?}", other),
        }
    }
    assert_eq!(stored, format!("{};C:\\Windows;C:\\Tools", bin));
    assert_eq!(stored.split(';').filter(|s| *s == bin).count(), 1);
}
