use releasor2000::channels::{order_channels, parse_channel, select_channels};
use releasor2000::config::{
    Build, CargoChannel, ChannelName, Channels, Config, CurlChannel, GitHubChannel,
    HomebrewChannel, NixChannel, Project,
};
use releasor2000::error::ReleaseError;

fn config(channels: Channels) -> Config {
    Config {
        project: Project {
            name: "tool".to_string(),
            binary: None,
            repo: "owner/tool".to_string(),
            version_command: None,
        },
        build: Build {
            command: Some("make".to_string()),
            artifact: Some("out/tool".to_string()),
            pre_built_dir: None,
            targets: vec!["x86_64-apple-darwin".to_string()],
        },
        channels,
    }
}

fn all_but_cargo() -> Channels {
    Channels {
        github: Some(GitHubChannel { enabled: true }),
        homebrew: Some(HomebrewChannel {
            enabled: true,
            tap: "owner/homebrew-tap".to_string(),
            formula_name: None,
        }),
        cargo: Some(CargoChannel { enabled: false, crate_name: None }),
        curl: Some(CurlChannel { enabled: true }),
        nix: Some(NixChannel { enabled: true, flake_repo: None }),
    }
}

fn names(v: &[&str]) -> Vec<String> {
    v.iter().map(|s| s.to_string()).collect()
}

#[test]
fn parse_channel_knows_the_five_channels() {
    assert_eq!(parse_channel("github"), Some(ChannelName::GitHub));
    assert_eq!(parse_channel("homebrew"), Some(ChannelName::Homebrew));
    assert_eq!(parse_channel("cargo"), Some(ChannelName::Cargo));
    assert_eq!(parse_channel("curl"), Some(ChannelName::Curl));
    assert_eq!(parse_channel("nix"), Some(ChannelName::Nix));
    for other in ["", "GitHub", "github ", "brew", "npm"] {
        assert_eq!(parse_channel(other), None, "{other:?}");
    }
    for c in [
        ChannelName::GitHub,
        ChannelName::Homebrew,
        ChannelName::Cargo,
        ChannelName::Curl,
        ChannelName::Nix,
    ] {
        assert_eq!(parse_channel(c.as_str()), Some(c));
    }
}

#[test]
fn without_a_request_every_enabled_channel_is_selected() {
    let config = config(all_but_cargo());
    let expected =
        vec![ChannelName::GitHub, ChannelName::Homebrew, ChannelName::Curl, ChannelName::Nix];
    assert_eq!(select_channels(&config, None).unwrap(), expected);
    assert_eq!(select_channels(&config, Some(&[])).unwrap(), expected);
    assert_eq!(config.enabled_set(), expected);
    assert_eq!(config.enabled_channels(), vec!["github", "homebrew", "curl", "nix"]);
    assert!(config.channels.is_enabled(ChannelName::Nix));
    assert!(!config.channels.is_enabled(ChannelName::Cargo));
}

#[test]
fn a_request_is_taken_as_it_stands() {
    let config = config(all_but_cargo());
    assert_eq!(
        select_channels(&config, Some(&names(&["nix", "github", "nix"]))).unwrap(),
        vec![ChannelName::Nix, ChannelName::GitHub, ChannelName::Nix]
    );
}

#[test]
fn an_unknown_channel_is_refused() {
    let config = config(all_but_cargo());
    match select_channels(&config, Some(&names(&["github", "npm", "cargo"]))) {
        Err(e @ ReleaseError::UnknownChannel { .. }) => assert_eq!(
            e.message(),
            "[release] unknown channel: npm (known: github, homebrew, cargo, curl, nix)"
        ),
        other => panic!("{other:?}"),
    }
}

#[test]
fn a_channel_that_is_not_enabled_is_refused() {
    let config = config(all_but_cargo());
    match select_channels(&config, Some(&names(&["github", "cargo", "npm"]))) {
        Err(e @ ReleaseError::ChannelNotEnabled { .. }) => {
            assert_eq!(e.message(), "[release] channel cargo is not enabled in config")
        }
        other => panic!("{other:?}"),
    }
    // A channel that is absent is not enabled either.
    let bare = config_with_github_only();
    match select_channels(&bare, Some(&names(&["homebrew"]))) {
        Err(ReleaseError::ChannelNotEnabled { name }) => assert_eq!(name, "homebrew"),
        other => panic!("{other:?}"),
    }
}

fn config_with_github_only() -> Config {
    config(Channels { github: Some(GitHubChannel { enabled: true }), ..Channels::default() })
}

#[test]
fn the_host_channel_runs_first_whatever_the_request() {
    assert_eq!(
        order_channels(&vec![ChannelName::Homebrew, ChannelName::GitHub]),
        vec![ChannelName::GitHub, ChannelName::Homebrew]
    );
    assert_eq!(
        order_channels(&vec![
            ChannelName::Nix,
            ChannelName::Curl,
            ChannelName::GitHub,
            ChannelName::Homebrew
        ]),
        vec![ChannelName::GitHub, ChannelName::Nix, ChannelName::Curl, ChannelName::Homebrew]
    );
    // Without the host channel the order of the request stays.
    assert_eq!(
        order_channels(&vec![ChannelName::Nix, ChannelName::Cargo]),
        vec![ChannelName::Nix, ChannelName::Cargo]
    );
    // The host channel runs once.
    assert_eq!(
        order_channels(&vec![ChannelName::GitHub, ChannelName::Curl, ChannelName::GitHub]),
        vec![ChannelName::GitHub, ChannelName::Curl]
    );
    assert_eq!(order_channels(&vec![]), vec![]);
}
