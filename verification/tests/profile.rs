use jdkman::profile::{is_stale_line, profile_file_name, reload_hint, rewrite_profile, Flavor};

#[test]
fn profile_name_goes_by_flavor() {
    assert_eq!(profile_file_name(Flavor::MacOs), ".zshrc");
    assert_eq!(profile_file_name(Flavor::Other), ".bashrc");
}

#[test]
fn stale_lines_declare_the_variable_or_use_its_bin() {
    assert!(is_stale_line("export JAVA_HOME=/opt/jdk8"));
    assert!(is_stale_line("export JAVA_HOME="));
    assert!(is_stale_line("export PATH=$JAVA_HOME/bin:$PATH"));
    assert!(is_stale_line("  PATH=\"$JAVA_HOME/bin\""));
    assert!(!is_stale_line("  export JAVA_HOME=/opt/jdk8"));
    assert!(!is_stale_line("export JAVA_HOME"));
    assert!(!is_stale_line("export PATH=$HOME/bin:$PATH"));
    assert!(!is_stale_line(""));
}

#[test]
fn rewrite_appends_two_exports() {
    let out = rewrite_profile("alias ll='ls -l'\n", "/opt/jdk17");
    assert_eq!(
        out,
        "alias ll='ls -l'\nexport JAVA_HOME=/opt/jdk17\nexport PATH=$JAVA_HOME/bin:$PATH\n"
    );
}

#[test]
fn rewrite_of_an_empty_profile() {
    let out = rewrite_profile("", "/opt/jdk17");
    assert_eq!(out, "\nexport JAVA_HOME=/opt/jdk17\nexport PATH=$JAVA_HOME/bin:$PATH\n");
}

#[test]
fn rewrite_drops_what_an_earlier_activation_left() {
    let before = "# mine\nexport JAVA_HOME=/opt/jdk8\nexport PATH=$JAVA_HOME/bin:$PATH\nalias x=y\n";
    let out = rewrite_profile(before, "/opt/jdk17");
    assert_eq!(
        out,
        "# mine\nalias x=y\nexport JAVA_HOME=/opt/jdk17\nexport PATH=$JAVA_HOME/bin:$PATH\n"
    );
}

#[test]
fn rewrite_twice_is_rewrite_once() {
    let once = rewrite_profile("a\nb", "/opt/jdk17");
    let twice = rewrite_profile(&once, "/opt/jdk17");
    assert_eq!(once, "a\nb\nexport JAVA_HOME=/opt/jdk17\nexport PATH=$JAVA_HOME/bin:$PATH\n");
    assert_eq!(twice, once);
}

#[test]
fn rewrite_keeps_blank_lines_and_drops_line_terminators() {
    let out = rewrite_profile("a\r\n\r\nb\r\n", "/p");
    assert_eq!(out, "a\n\nb\nexport JAVA_HOME=/p\nexport PATH=$JAVA_HOME/bin:$PATH\n");
}

#[test]
fn rewrite_agrees_with_a_filter_over_std_lines() {
    let before = "x\nexport JAVA_HOME=1\n\ny $JAVA_HOME/bin z\nlast";
    let mut expected = before
        .lines()
        .filter(|l| !l.starts_with("export JAVA_HOME=") && !l.contains("$JAVA_HOME/bin"))
        .collect::<Vec<&str>>()
        .join("\n");
    expected.push_str("\nexport JAVA_HOME=/new");
    expected.push_str("\nexport PATH=$JAVA_HOME/bin:$PATH\n");
    assert_eq!(rewrite_profile(before, "/new"), expected);
}

#[test]
fn reload_hint_names_the_profile() {
    assert_eq!(
        reload_hint("/home/u/.bashrc"),
        "Please run 'source /home/u/.bashrc' or restart your terminal to apply changes."
    );
}
