//! The release configuration: project identity, build settings, target
//! platforms and distribution channels, with the rules a configuration must
//! meet before any work starts.

use vstd::prelude::*;
use vstd::string::StringExecFns;

verus! {

/// A distribution channel. The set is closed.
#[derive(Clone, Copy, Debug, PartialEq, Eq, Structural)]
pub enum ChannelName {
    /// Release on the source host; runs before every other channel.
    GitHub,
    /// Formula in a package-manager tap.
    Homebrew,
    /// Publication to the source registry.
    Cargo,
    /// Shell installer attached to the host release.
    Curl,
    /// Update request against a companion flake repository.
    Nix,
}

/// Everything one release run is configured with.
#[derive(Debug)]
pub struct Config {
    pub project: Project,
    pub build: Build,
    pub channels: Channels,
}

/// Identity of the project being released.
#[derive(Debug)]
pub struct Project {
    pub name: String,
    pub binary: Option<String>,
    pub repo: String,
    pub version_command: Option<String>,
}

/// How artifacts come to be: by a build command with the path its artifact
/// lands at, or from a directory of artifacts built beforehand.
#[derive(Debug)]
pub struct Build {
    pub command: Option<String>,
    pub artifact: Option<String>,
    pub pre_built_dir: Option<String>,
    pub targets: Vec<String>,
}

/// Per-channel settings. A channel that is present is enabled unless its
/// `enabled` flag says otherwise.
#[derive(Debug)]
pub struct Channels {
    pub github: Option<GitHubChannel>,
    pub homebrew: Option<HomebrewChannel>,
    pub cargo: Option<CargoChannel>,
    pub curl: Option<CurlChannel>,
    pub nix: Option<NixChannel>,
}

/// Settings of the host channel.
#[derive(Debug)]
pub struct GitHubChannel {
    pub enabled: bool,
}

/// Settings of the formula channel: the tap, and the formula's name where it is
/// not the project's.
#[derive(Debug)]
pub struct HomebrewChannel {
    pub enabled: bool,
    pub tap: String,
    pub formula_name: Option<String>,
}

/// Settings of the registry channel.
#[derive(Debug)]
pub struct CargoChannel {
    pub enabled: bool,
    pub crate_name: Option<String>,
}

/// Settings of the installer channel.
#[derive(Debug)]
pub struct CurlChannel {
    pub enabled: bool,
}

/// Settings of the flake channel: the repository that takes update requests,
/// where it is not the project's own.
#[derive(Debug)]
pub struct NixChannel {
    pub enabled: bool,
    pub flake_repo: Option<String>,
}

/// Why a configuration is refused.
#[derive(Clone, Copy, Debug, PartialEq, Eq, Structural)]
pub enum ConfigError {
    /// Both a build command and a pre-built directory are set.
    MutuallyExclusive,
    /// Neither a build command nor a pre-built directory is set.
    MissingBuildSource,
    /// A build command is set without an artifact path.
    MissingArtifact,
    /// No target platform is listed.
    EmptyTargets,
}

/// The message for [`ConfigError::MutuallyExclusive`].
pub const MSG_MUTUALLY_EXCLUSIVE: &'static str =
    "build.command and build.pre_built_dir are mutually exclusive";

/// The message for [`ConfigError::MissingBuildSource`].
pub const MSG_MISSING_BUILD_SOURCE: &'static str =
    "one of build.command or build.pre_built_dir is required";

/// The message for [`ConfigError::MissingArtifact`].
pub const MSG_MISSING_ARTIFACT: &'static str =
    "build.artifact is required when build.command is set";

/// The message for [`ConfigError::EmptyTargets`].
pub const MSG_EMPTY_TARGETS: &'static str = "build.targets must not be empty";

impl ConfigError {
    /// The message shown to the user.
    pub open spec fn text(self) -> Seq<char> {
        match self {
            ConfigError::MutuallyExclusive => MSG_MUTUALLY_EXCLUSIVE@,
            ConfigError::MissingBuildSource => MSG_MISSING_BUILD_SOURCE@,
            ConfigError::MissingArtifact => MSG_MISSING_ARTIFACT@,
            ConfigError::EmptyTargets => MSG_EMPTY_TARGETS@,
        }
    }

    /// The message shown to the user.
    pub fn message(&self) -> (r: String)
        ensures
            r@ == self.text(),
    {
        match self {
            ConfigError::MutuallyExclusive => MSG_MUTUALLY_EXCLUSIVE.to_owned(),
            ConfigError::MissingBuildSource => MSG_MISSING_BUILD_SOURCE.to_owned(),
            ConfigError::MissingArtifact => MSG_MISSING_ARTIFACT.to_owned(),
            ConfigError::EmptyTargets => MSG_EMPTY_TARGETS.to_owned(),
        }
    }
}

impl ChannelName {
    /// The name the channel has in configuration files and on the command line.
    pub open spec fn text(self) -> Seq<char> {
        match self {
            ChannelName::GitHub => "github"@,
            ChannelName::Homebrew => "homebrew"@,
            ChannelName::Cargo => "cargo"@,
            ChannelName::Curl => "curl"@,
            ChannelName::Nix => "nix"@,
        }
    }

    /// All channels, in the order in which a configuration declares them.
    pub open spec fn all() -> Seq<ChannelName> {
        seq![
            ChannelName::GitHub,
            ChannelName::Homebrew,
            ChannelName::Cargo,
            ChannelName::Curl,
            ChannelName::Nix,
        ]
    }

    /// The name the channel has in configuration files and on the command line.
    pub fn as_str(&self) -> (r: &'static str)
        ensures
            r@ == self.text(),
    {
        match self {
            ChannelName::GitHub => "github",
            ChannelName::Homebrew => "homebrew",
            ChannelName::Cargo => "cargo",
            ChannelName::Curl => "curl",
            ChannelName::Nix => "nix",
        }
    }
}

impl Default for Channels {
    /// No channel is configured.
    fn default() -> (r: Channels)
        ensures
            r.github is None,
            r.homebrew is None,
            r.cargo is None,
            r.curl is None,
            r.nix is None,
    {
        Channels { github: None, homebrew: None, cargo: None, curl: None, nix: None }
    }
}

impl Channels {
    /// Whether `ch` is present and not switched off.
    pub open spec fn has(self, ch: ChannelName) -> bool {
        match ch {
            ChannelName::GitHub => self.github matches Some(c) && c.enabled,
            ChannelName::Homebrew => self.homebrew matches Some(c) && c.enabled,
            ChannelName::Cargo => self.cargo matches Some(c) && c.enabled,
            ChannelName::Curl => self.curl matches Some(c) && c.enabled,
            ChannelName::Nix => self.nix matches Some(c) && c.enabled,
        }
    }

    /// Whether `ch` is present and not switched off.
    pub fn is_enabled(&self, ch: ChannelName) -> (b: bool)
        ensures
            b == self.has(ch),
    {
        match ch {
            ChannelName::GitHub => match &self.github {
                Some(c) => c.enabled,
                None => false,
            },
            ChannelName::Homebrew => match &self.homebrew {
                Some(c) => c.enabled,
                None => false,
            },
            ChannelName::Cargo => match &self.cargo {
                Some(c) => c.enabled,
                None => false,
            },
            ChannelName::Curl => match &self.curl {
                Some(c) => c.enabled,
                None => false,
            },
            ChannelName::Nix => match &self.nix {
                Some(c) => c.enabled,
                None => false,
            },
        }
    }
}

/// The default of every channel's `enabled` flag.
pub fn default_true() -> (b: bool)
    ensures
        b,
{
    true
}

impl Project {
    /// The binary's name: the configured one, else the project's name.
    pub open spec fn binary_name(self) -> Seq<char> {
        match self.binary {
            Some(b) => b@,
            None => self.name@,
        }
    }

    /// The binary's name: the configured one, else the project's name.
    pub fn binary(&self) -> (r: &str)
        ensures
            r@ == self.binary_name(),
    {
        match &self.binary {
            Some(b) => b.as_str(),
            None => self.name.as_str(),
        }
    }
}

/// The views of a sequence of string slices.
pub open spec fn names(v: Seq<&'static str>) -> Seq<Seq<char>> {
    Seq::new(v.len(), |i: int| v[i]@)
}

/// The names of a sequence of channels.
pub open spec fn channel_names(s: Seq<ChannelName>) -> Seq<Seq<char>> {
    Seq::new(s.len(), |i: int| s[i].text())
}

/// The channels of `all[from..]` that `channels` has, as names, in order.
pub open spec fn enabled_from(channels: Channels, from: int) -> Seq<ChannelName>
    decreases 5 - from,
{
    if 0 <= from < 5 {
        let rest = enabled_from(channels, from + 1);
        if channels.has(ChannelName::all()[from]) {
            seq![ChannelName::all()[from]] + rest
        } else {
            rest
        }
    } else {
        Seq::empty()
    }
}

impl Config {
    /// The rules of a configuration: exactly one of build command and
    /// pre-built directory; an artifact path with a build command; at least
    /// one target.
    pub open spec fn valid(self) -> bool {
        &&& self.build.command is Some <==> self.build.pre_built_dir is None
        &&& self.build.command is Some ==> self.build.artifact is Some
        &&& self.build.targets@.len() > 0
    }

    /// The first rule that the configuration breaks, if it breaks one.
    pub open spec fn first_fault(self) -> Option<ConfigError> {
        if self.build.command is Some && self.build.pre_built_dir is Some {
            Some(ConfigError::MutuallyExclusive)
        } else if self.build.command is None && self.build.pre_built_dir is None {
            Some(ConfigError::MissingBuildSource)
        } else if self.build.command is Some && self.build.artifact is None {
            Some(ConfigError::MissingArtifact)
        } else if self.build.targets@.len() == 0 {
            Some(ConfigError::EmptyTargets)
        } else {
            None
        }
    }

    /// Checks the rules of a configuration and names the first one broken.
    pub fn validate(&self) -> (r: Result<(), ConfigError>)
        ensures
            r is Ok <==> self.valid(),
            match r {
                Ok(_) => self.first_fault() is None,
                Err(e) => self.first_fault() == Some(e),
            },
    {
        if self.build.command.is_some() && self.build.pre_built_dir.is_some() {
            return Err(ConfigError::MutuallyExclusive);
        }
        if self.build.command.is_none() && self.build.pre_built_dir.is_none() {
            return Err(ConfigError::MissingBuildSource);
        }
        if self.build.command.is_some() && self.build.artifact.is_none() {
            return Err(ConfigError::MissingArtifact);
        }
        if self.build.targets.len() == 0 {
            return Err(ConfigError::EmptyTargets);
        }
        Ok(())
    }

    /// The enabled channels in declaration order.
    pub open spec fn enabled(self) -> Seq<ChannelName> {
        enabled_from(self.channels, 0)
    }

    /// The enabled channels in declaration order.
    pub fn enabled_set(&self) -> (r: Vec<ChannelName>)
        ensures
            r@ == self.enabled(),
    {
        let mut out: Vec<ChannelName> = Vec::new();
        proof {
            reveal_with_fuel(enabled_from, 6);
        }
        if self.channels.is_enabled(ChannelName::GitHub) {
            out.push(ChannelName::GitHub);
        }
        if self.channels.is_enabled(ChannelName::Homebrew) {
            out.push(ChannelName::Homebrew);
        }
        if self.channels.is_enabled(ChannelName::Cargo) {
            out.push(ChannelName::Cargo);
        }
        if self.channels.is_enabled(ChannelName::Curl) {
            out.push(ChannelName::Curl);
        }
        if self.channels.is_enabled(ChannelName::Nix) {
            out.push(ChannelName::Nix);
        }
        out
    }

    /// The names of the enabled channels in declaration order.
    pub fn enabled_channels(&self) -> (r: Vec<&'static str>)
        ensures
            names(r@) == channel_names(self.enabled()),
    {
        let set = self.enabled_set();
        let mut out: Vec<&'static str> = Vec::new();
        let mut i: usize = 0;
        while i < set.len()
            invariant
                i <= set.len(),
                out@.len() == i,
                names(out@) == channel_names(set@.take(i as int)),
            decreases set.len() - i,
        {
            let ghost before = out@;
            out.push(set[i].as_str());
            assert forall|j: int| 0 <= j < i + 1 implies names(out@)[j] == channel_names(
                set@.take(i + 1),
            )[j] by {
                if j < i {
                    assert(names(before)[j] == channel_names(set@.take(i as int))[j]);
                }
            }
            i = i + 1;
        }
        out
    }
}

/// The starter configuration up to the project's name.
pub const TEMPLATE_NAME: &'static str = "[project]\nname = \"";

/// The starter configuration between the name and the binary.
pub const TEMPLATE_BINARY: &'static str = "\"\n# binary = \"";

/// The starter configuration between the binary and the repository.
pub const TEMPLATE_REPO: &'static str = "\"  # defaults to project name\nrepo = \"owner/";

/// The starter configuration from the repository to the formula's name: the
/// build by command, the four targets, the host channel.
pub const TEMPLATE_BUILD: &'static str =
    "\"\n# version_command = \"git describe --tags --abbrev=0\"\n\n[build]\ncommand = \"cargo build --release --target {target}\"\nartifact = \"target/{target}/release/{binary}\"\ntargets = [\n    \"x86_64-apple-darwin\",\n    \"aarch64-apple-darwin\",\n    \"x86_64-unknown-linux-gnu\",\n    \"aarch64-unknown-linux-gnu\",\n]\n\n[channels.github]\nenabled = true\n\n# [channels.homebrew]\n# tap = \"owner/homebrew-tap\"\n# formula_name = \"";

/// The starter configuration between the formula's name and the crate's.
pub const TEMPLATE_CRATE: &'static str = "\"\n\n# [channels.cargo]\n# crate_name = \"";

/// The end of the starter configuration.
pub const TEMPLATE_TAIL: &'static str =
    "\"\n\n# [channels.curl]\n\n# [channels.nix]\n# flake_repo = \"owner/nix-repo\"  # defaults to project repo\n";

/// The starter configuration for a project called `name`.
pub open spec fn template_text(name: Seq<char>) -> Seq<char> {
    TEMPLATE_NAME@ + name + TEMPLATE_BINARY@ + name + TEMPLATE_REPO@ + name + TEMPLATE_BUILD@
        + name + TEMPLATE_CRATE@ + name + TEMPLATE_TAIL@
}

/// A starter configuration file for a project called `project_name`: a build
/// by command for four common targets, and the host channel switched on.
pub fn generate_template(project_name: &str) -> (r: String)
    ensures
        r@ == template_text(project_name@),
{
    let mut s = TEMPLATE_NAME.to_owned();
    s.append(project_name);
    s.append(TEMPLATE_BINARY);
    s.append(project_name);
    s.append(TEMPLATE_REPO);
    s.append(project_name);
    s.append(TEMPLATE_BUILD);
    s.append(project_name);
    s.append(TEMPLATE_CRATE);
    s.append(project_name);
    s.append(TEMPLATE_TAIL);
    s
}

/// Every enabled channel is one that the channels have.
pub proof fn lemma_enabled_has(channels: Channels, from: int, c: ChannelName)
    requires
        enabled_from(channels, from).contains(c),
    ensures
        channels.has(c),
    decreases 5 - from,
{
    if 0 <= from < 5 {
        let rest = enabled_from(channels, from + 1);
        let all = enabled_from(channels, from);
        let i = choose|i: int| 0 <= i < all.len() && all[i] == c;
        if channels.has(ChannelName::all()[from]) {
            if i > 0 {
                assert(rest[i - 1] == c);
                lemma_enabled_has(channels, from + 1, c);
            }
        } else {
            lemma_enabled_has(channels, from + 1, c);
        }
    }
}

} // verus!
