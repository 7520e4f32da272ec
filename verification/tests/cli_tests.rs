use albert_eyes::cli::{mode_from_name, request, CliRequest};
use albert_eyes::render::DisplayMode;

fn args(list: &[&str]) -> Vec<String> {
    list.iter().map(|a| a.to_string()).collect()
}

#[test]
fn mode_names() {
    assert_eq!(mode_from_name("auto"), Ok(None));
    assert_eq!(mode_from_name("PC"), Ok(Some(DisplayMode::Pc)));
    assert_eq!(mode_from_name("Screen"), Ok(Some(DisplayMode::Screen)));
    assert_eq!(
        mode_from_name("tv"),
        Err("unknown mode 'tv'; expected auto, pc, or screen".to_string())
    );
}

#[test]
fn auto_follows_the_terminal() {
    let linux = Some("linux".to_string());
    let xterm = Some("xterm-256color".to_string());
    assert_eq!(request(None, &args(&[]), linux.clone()), Ok(CliRequest::Run(DisplayMode::Screen)));
    assert_eq!(request(None, &args(&[]), xterm.clone()), Ok(CliRequest::Run(DisplayMode::Pc)));
    assert_eq!(request(None, &args(&[]), None), Ok(CliRequest::Run(DisplayMode::Pc)));
    assert_eq!(
        request(Some("pc".to_string()), &args(&[]), linux.clone()),
        Ok(CliRequest::Run(DisplayMode::Pc))
    );
}

#[test]
fn arguments_override_the_environment() {
    let env = Some("pc".to_string());
    assert_eq!(
        request(env.clone(), &args(&["--mode", "screen"]), None),
        Ok(CliRequest::Run(DisplayMode::Screen))
    );
    assert_eq!(
        request(env.clone(), &args(&["--mode=SCREEN"]), None),
        Ok(CliRequest::Run(DisplayMode::Screen))
    );
    assert_eq!(
        request(env.clone(), &args(&["--mode=screen", "--mode", "auto"]), Some("linux".to_string())),
        Ok(CliRequest::Run(DisplayMode::Screen))
    );
}

#[test]
fn help_and_errors() {
    assert_eq!(request(None, &args(&["-h"]), None), Ok(CliRequest::Help));
    assert_eq!(request(None, &args(&["--help", "--bogus"]), None), Ok(CliRequest::Help));
    assert_eq!(
        request(None, &args(&["--bogus", "--help"]), None),
        Err("unknown argument '--bogus'".to_string())
    );
    assert_eq!(
        request(None, &args(&["--mode"]), None),
        Err("--mode requires auto, pc, or screen".to_string())
    );
    assert_eq!(
        request(Some("tv".to_string()), &args(&[]), None),
        Err("unknown mode 'tv'; expected auto, pc, or screen".to_string())
    );
    assert_eq!(
        request(None, &args(&["--mode="]), None),
        Err("unknown mode ''; expected auto, pc, or screen".to_string())
    );
}
