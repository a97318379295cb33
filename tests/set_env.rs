use set_env::assignment;
use set_env::assignment::{append, assignment_line, check_or_set, prepend, Operation, Platform};
use set_env::managed::{
    do_prerequisites, inject, installed_version, managed_script_update, render_template, terminator,
    version_prefix, InjectError,
};
use set_env::profile::{choose_profile, profile_record, ProfileTarget};
use set_env::registry::{candidate_files, resolve_shell, shell_files, shell_name};

const TERM: &str = "# ----------------------------------SET_ENV_DEFS_END";
const PRE: &str = "# ----------------------------------VER";

fn template() -> String {
    format!("# managed\r\n{}${{VER}}\r\nfunction setenv_set {{}}\r\n{}\r\n# tail\r\n", PRE, TERM)
}

fn script(version_line: &str, body: &str) -> String {
    format!("# managed\r\n{}\r\n{}{}\r\n# tail\r\n", version_line, body, TERM)
}

#[test]
fn markers_are_exact() {
    assert_eq!(terminator(), TERM);
    assert_eq!(version_prefix(), PRE);
}

#[test]
fn resolve_each_shell() {
    assert_eq!(resolve_shell("/bin/zsh"), Some(0));
    assert_eq!(resolve_shell("/usr/bin/fish"), Some(1));
    assert_eq!(resolve_shell("/bin/tcsh"), Some(2));
    assert_eq!(resolve_shell("/bin/csh"), Some(3));
    assert_eq!(resolve_shell("/bin/ksh"), Some(4));
    assert_eq!(resolve_shell("/usr/local/bin/bash"), Some(5));
    assert_eq!(shell_name(5), "bash");
}

#[test]
fn resolve_unsupported_shell() {
    assert_eq!(resolve_shell(""), None);
    assert_eq!(resolve_shell("/bin/sh"), None);
    assert_eq!(resolve_shell("/bin/dash"), None);
}

#[test]
fn candidates_in_priority_order() {
    assert_eq!(candidate_files("/bin/zsh"), vec![".zprofile", ".zshrc", ".zlogin"]);
    assert_eq!(candidate_files("/usr/bin/fish"), vec![".config/fish/config.fish"]);
    assert_eq!(candidate_files("/bin/csh"), vec![".tcshrc", ".cshrc", ".login"]);
    assert_eq!(candidate_files("/bin/ksh"), vec![".profile", ".kshrc"]);
    assert_eq!(candidate_files("/bin/bash"), vec![".bash_profile", ".bash_login", ".bashrc"]);
    assert_eq!(shell_files(2), shell_files(3));
}

#[test]
fn unsupported_shell_falls_back_to_dot_profile() {
    for env in ["", "/bin/sh", "/opt/nushell/nu"] {
        let c = candidate_files(env);
        assert_eq!(c, vec![".profile"]);
        for exists in [false, true] {
            let t = choose_profile(&c, &vec![exists]);
            assert_eq!(t, ProfileTarget { index: 0, create_dirs: false });
            assert_eq!(c[t.index], ".profile");
        }
    }
}

#[test]
fn first_existing_candidate_wins() {
    let c = candidate_files("/bin/zsh");
    for rest in [[false, false], [true, false], [false, true], [true, true]] {
        let t = choose_profile(&c, &vec![true, rest[0], rest[1]]);
        assert_eq!(t, ProfileTarget { index: 0, create_dirs: false });
    }
}

#[test]
fn later_existing_candidate_is_found() {
    let c = candidate_files("/bin/bash");
    let t = choose_profile(&c, &vec![false, false, true]);
    assert_eq!(t, ProfileTarget { index: 2, create_dirs: false });
    let t = choose_profile(&c, &vec![false, true, true]);
    assert_eq!(t, ProfileTarget { index: 1, create_dirs: false });
}

#[test]
fn no_candidate_exists_defaults_to_first() {
    let c = candidate_files("/bin/bash");
    let t = choose_profile(&c, &vec![false, false, false]);
    assert_eq!(t, ProfileTarget { index: 0, create_dirs: false });
}

#[test]
fn subdirectory_candidate_gets_its_directories() {
    let c = candidate_files("/usr/bin/fish");
    assert_eq!(choose_profile(&c, &vec![false]), ProfileTarget { index: 0, create_dirs: true });
    assert_eq!(choose_profile(&c, &vec![true]), ProfileTarget { index: 0, create_dirs: false });
    let mixed = vec![".a", "sub/b", ".c"];
    assert_eq!(
        choose_profile(&mixed, &vec![false, false, true]),
        ProfileTarget { index: 1, create_dirs: true }
    );
}

#[test]
fn unix_lines() {
    assert_eq!(assignment::set(Platform::Unix, "DUMMY", "1"), "export DUMMY=1");
    assert_eq!(append(Platform::Unix, "PATH", "/opt/bin"), "export PATH=\"/opt/bin:$PATH\"");
    assert_eq!(prepend(Platform::Unix, "PATH", "/opt/bin"), "export PATH=\"$PATH:/opt/bin\"");
    assert_eq!(assignment::set(Platform::Unix, "DUMMY", r#""/something""#), "export DUMMY=\"/something\"");
}

#[test]
fn windows_lines() {
    assert_eq!(assignment::set(Platform::Windows, "DUMMY", "1"), "setenv_set DUMMY 1");
    assert_eq!(append(Platform::Windows, "PATH", "C:\\bin"), "setenv_append PATH C:\\bin");
    assert_eq!(prepend(Platform::Windows, "PATH", "C:\\bin"), "setenv_prepend PATH C:\\bin");
    assert_eq!(
        assignment_line(Platform::Windows, Operation::Assign, "A", "b c"),
        "setenv_set A b c"
    );
}

#[test]
fn check_or_set_skips_a_set_variable() {
    assert_eq!(check_or_set(true, Platform::Unix, "HOME", "/x"), None);
    assert_eq!(check_or_set(true, Platform::Windows, "HOME", "/x"), None);
    assert_eq!(
        check_or_set(false, Platform::Unix, "DUMMY", "1"),
        Some("export DUMMY=1".to_string())
    );
}

#[test]
fn zsh_without_profiles_sets_in_zprofile() {
    let c = candidate_files("/bin/zsh");
    let t = choose_profile(&c, &vec![false, false, false]);
    assert_eq!(c[t.index], ".zprofile");
    assert!(!t.create_dirs);
    let rec = profile_record(&assignment::set(Platform::Unix, "DUMMY", "1"));
    assert!(rec.lines().any(|l| l == "export DUMMY=1"));
}

#[test]
fn zsh_append_to_path() {
    let line = append(Platform::Unix, "PATH", "$HOME/bin");
    assert_eq!(line, "export PATH=\"$HOME/bin:$PATH\"");
    assert_eq!(profile_record(&line), "\nexport PATH=\"$HOME/bin:$PATH\"\n");
}

#[test]
fn appending_twice_keeps_both_lines() {
    let mut file = String::from("# user content");
    let line = assignment::set(Platform::Unix, "DUMMY", "1");
    file.push_str(&profile_record(&line));
    file.push_str(&profile_record(&line));
    assert_eq!(file, "# user content\nexport DUMMY=1\n\nexport DUMMY=1\n");
    assert_eq!(file.lines().filter(|l| *l == "export DUMMY=1").count(), 2);
}

#[test]
fn last_assignment_is_the_latest() {
    let mut file = String::from("export MYVAR=old");
    file.push_str(&profile_record(&assignment::set(Platform::Unix, "MYVAR", "first")));
    file.push_str(&profile_record(&assignment::set(Platform::Unix, "MYVAR", "second")));
    let last = file.lines().filter(|l| l.starts_with("export MYVAR=")).last().unwrap();
    assert_eq!(&last["export MYVAR=".len()..], "second");
}

#[test]
fn template_gets_version() {
    let r = render_template(&template(), "1.2.3");
    assert_eq!(r, script(&format!("{}1.2.3", PRE), "function setenv_set {}\r\n"));
    assert_eq!(render_template("a${VER}b${VER}", "9"), "a9b9");
    assert_eq!(render_template("no token", "9"), "no token");
    assert_eq!(render_template("${VE", "9"), "${VE");
}

#[test]
fn version_is_read_from_first_version_line() {
    let s = script(&format!("{}0.1.0", PRE), "");
    assert_eq!(installed_version(&s), Some("0.1.0".to_string()));
    let two = format!("{}1\n{}2\n", PRE, PRE);
    assert_eq!(installed_version(&two), Some("1".to_string()));
    assert_eq!(installed_version("no version here\r\n"), None);
    assert_eq!(installed_version(&format!("x {}1", PRE)), None);
    assert_eq!(installed_version(&format!("{}7", PRE)), Some("7".to_string()));
}

#[test]
fn prerequisites_write_template_when_absent() {
    assert_eq!(do_prerequisites(None, &template(), "1.0.0"), Some(render_template(&template(), "1.0.0")));
}

#[test]
fn prerequisites_keep_current_script() {
    let s = script(&format!("{}1.0.0", PRE), "setenv_set A 1\r\n");
    assert_eq!(do_prerequisites(Some(&s), &template(), "1.0.0"), None);
}

#[test]
fn prerequisites_replace_stale_script() {
    let old = script(&format!("{}0.9.0", PRE), "");
    assert_eq!(do_prerequisites(Some(&old), &template(), "1.0.0"), Some(render_template(&template(), "1.0.0")));
    let unversioned = format!("# mine\r\n{}\r\n", TERM);
    assert_eq!(
        do_prerequisites(Some(&unversioned), &template(), "1.0.0"),
        Some(render_template(&template(), "1.0.0"))
    );
}

#[test]
fn inject_before_terminator() {
    let s = format!("a\r\n{}\r\nb", TERM);
    assert_eq!(inject(&s, "setenv_set X 1"), Ok(format!("a\r\nsetenv_set X 1\r\n{}\r\nb", TERM)));
    assert_eq!(inject(TERM, "L"), Ok(format!("L\r\n{}", TERM)));
}

#[test]
fn inject_ignores_terminator_inside_a_line() {
    let s = format!("x{}\r\n{}tail\r\n{}", TERM, TERM, TERM);
    assert_eq!(inject(&s, "L"), Ok(format!("x{}\r\n{}tail\r\nL\r\n{}", TERM, TERM, TERM)));
}

#[test]
fn inject_without_terminator_fails() {
    assert_eq!(inject("a\r\nb\r\n", "L"), Err(InjectError::MissingTerminator));
    assert_eq!(inject("", "L"), Err(InjectError::MissingTerminator));
}

#[test]
fn current_script_gains_exactly_one_line() {
    let s = script(&format!("{}1.0.0", PRE), "setenv_set A 1\r\n");
    let r = managed_script_update(Some(&s), &template(), "1.0.0", "setenv_set B 2").unwrap();
    assert_eq!(r, script(&format!("{}1.0.0", PRE), "setenv_set A 1\r\nsetenv_set B 2\r\n"));
    assert_eq!(r.len(), s.len() + "setenv_set B 2\r\n".len());
}

#[test]
fn stale_script_is_replaced_then_injected() {
    let s = script(&format!("{}0.0.1", PRE), "setenv_set A 1\r\n");
    let r = managed_script_update(Some(&s), &template(), "1.0.0", "setenv_set B 2").unwrap();
    assert_eq!(r, inject(&render_template(&template(), "1.0.0"), "setenv_set B 2").unwrap());
    assert!(!r.contains("setenv_set A 1"));
    let r = managed_script_update(None, &template(), "1.0.0", "setenv_set B 2").unwrap();
    assert_eq!(r, inject(&render_template(&template(), "1.0.0"), "setenv_set B 2").unwrap());
}

#[test]
fn foreign_current_script_is_corrupt() {
    let s = format!("{}1.0.0\r\nno end marker\r\n", PRE);
    assert_eq!(
        managed_script_update(Some(&s), &template(), "1.0.0", "setenv_set B 2"),
        Err(InjectError::MissingTerminator)
    );
}
