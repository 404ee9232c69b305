//! The server's configuration and its access-control lists, with the
//! defaults that a missing setting takes.
use vstd::prelude::*;
use crate::sdk::{Difficulty, Dimension, Gamemode};
use crate::world::{append_decimal_digits, decimal};

verus! {

/// The whole configuration.
#[derive(Debug)]
pub struct ServerConfig {
    pub network: NetworkConfig,
    pub profile: ProfileConfig,
    pub auth: AuthentificationConfig,
}

/// Where the server listens, the protocol it speaks, and the packet size
/// from which payloads are compressed (0: never).
#[derive(Debug)]
pub struct NetworkConfig {
    /// The socket address to listen on, as `ip:port`.
    pub addr: String,
    pub protocol_version: u32,
    pub threshold: u32,
}

/// What the server shows of itself and the world it offers.
#[derive(Debug)]
pub struct ProfileConfig {
    pub name: String,
    pub description: String,
    pub max_players: u32,
    /// The path of the server icon.
    pub icon: Option<String>,
    pub gamemode: Gamemode,
    pub dimension: Dimension,
    pub difficulty: Difficulty,
}

/// Whether players are authenticated with Mojang, and the key files of the
/// encrypted login.
#[derive(Debug)]
pub struct AuthentificationConfig {
    pub enabled: bool,
    /// The path of the PEM file of the private key.
    pub private_key: Option<String>,
    /// The path of the DER file of the public key.
    pub public_key: Option<String>,
}

impl NetworkConfig {
    /// The defaults: `127.0.0.1:25565`, protocol 47 (1.8), threshold 256.
    pub open spec fn is_default(&self) -> bool {
        &&& self.addr@ == "127.0.0.1:25565"@
        &&& self.protocol_version == 47
        &&& self.threshold == 256
    }
}

impl Default for NetworkConfig {
    fn default() -> (c: Self)
        ensures
            c.is_default(),
    {
        NetworkConfig { addr: String::from_str("127.0.0.1:25565"), threshold: 256, protocol_version: 47 }
    }
}

impl ProfileConfig {
    /// The defaults: "Cobalt Server", an empty description, 20 players, no
    /// icon, survival in the overworld at normal difficulty.
    pub open spec fn is_default(&self) -> bool {
        &&& self.name@ == "Cobalt Server"@
        &&& self.description@ == ""@
        &&& self.max_players == 20
        &&& self.icon is None
        &&& self.gamemode == Gamemode::Survival
        &&& self.dimension == Dimension::Overworld
        &&& self.difficulty == Difficulty::Normal
    }
}

impl Default for ProfileConfig {
    fn default() -> (c: Self)
        ensures
            c.is_default(),
    {
        ProfileConfig {
            name: String::from_str("Cobalt Server"),
            max_players: 20,
            gamemode: Gamemode::Survival,
            dimension: Dimension::Overworld,
            difficulty: Difficulty::Normal,
            description: String::from_str(""),
            icon: None,
        }
    }
}

impl AuthentificationConfig {
    /// The defaults: authentication on, no key files.
    pub open spec fn is_default(&self) -> bool {
        &&& self.enabled
        &&& self.private_key is None
        &&& self.public_key is None
    }
}

impl Default for AuthentificationConfig {
    fn default() -> (c: Self)
        ensures
            c.is_default(),
    {
        AuthentificationConfig { enabled: true, private_key: None, public_key: None }
    }
}

impl Default for ServerConfig {
    fn default() -> (c: Self)
        ensures
            c.network.is_default(),
            c.profile.is_default(),
            c.auth.is_default(),
    {
        ServerConfig {
            network: NetworkConfig::default(),
            profile: ProfileConfig::default(),
            auth: AuthentificationConfig::default(),
        }
    }
}

/// A player allowed on a whitelisted server.
#[derive(Debug)]
pub struct WhitelistedPlayer {
    pub uuid: String,
    pub name: String,
}

/// A banned player, with why, by whom and when.
#[derive(Debug)]
pub struct BannedPlayer {
    pub uuid: String,
    pub name: String,
    pub reason: String,
    pub banned_by: String,
    pub date: String,
}

/// A banned address, with why, by whom and when.
#[derive(Debug)]
pub struct BannedIp {
    pub ip: String,
    pub reason: String,
    pub banned_by: String,
    pub date: String,
}

/// The whitelist and whether it is enforced.
#[derive(Debug)]
pub struct Whitelist {
    pub enabled: bool,
    pub players: Vec<WhitelistedPlayer>,
}

/// The banned players.
#[derive(Debug)]
pub struct BannedPlayers {
    pub players: Vec<BannedPlayer>,
}

/// The banned addresses.
#[derive(Debug)]
pub struct BannedIps {
    pub ips: Vec<BannedIp>,
}

/// Everything that decides who may join.
#[derive(Debug)]
pub struct AccessControlData {
    pub whitelist: Whitelist,
    pub banned_players: BannedPlayers,
    pub banned_ips: BannedIps,
}

/// The last component of the path `path`, where it is a file or directory
/// name: `None` for a path that is empty, a root, or ends in `..`.
pub uninterp spec fn path_file_name(path: Seq<char>) -> Option<Seq<char>>;

/// std's `Path::file_name` of the path `p`, converted with
/// `to_string_lossy`: the result is what the name `path_file_name` gives for
/// `p`. The path comes from a `str`, so the conversion keeps its text.
#[verifier::external_body]
fn file_name_text(p: &str) -> (r: Option<String>)
    ensures
        match r {
            Some(n) => path_file_name(p@) == Some(n@),
            None => path_file_name(p@) is None,
        },
{
    std::path::Path::new(p).file_name().map(|n| n.to_string_lossy().into_owned())
}

/// The file name of an optional path, as the printed configuration shows it.
pub open spec fn opt_file_name(path: Option<String>) -> Option<Seq<char>> {
    match path {
        Some(p) => path_file_name(p@),
        None => None,
    }
}

/// The decimal text of `v`.
fn u32_text(v: u32) -> (r: String)
    ensures
        r@ == decimal(v as int),
{
    let mut text = String::new();
    append_decimal_digits(&mut text, v as u64);
    text
}

/// The name of a game mode, as it is printed.
pub open spec fn gamemode_name(g: Gamemode) -> Seq<char> {
    match g {
        Gamemode::Survival => "Survival"@,
        Gamemode::Creative => "Creative"@,
        Gamemode::Adventure => "Adventure"@,
        Gamemode::Spectator => "Spectator"@,
    }
}

/// The name of a dimension, as it is printed.
pub open spec fn dimension_name(d: Dimension) -> Seq<char> {
    match d {
        Dimension::Overworld => "Overworld"@,
        Dimension::Nether => "Nether"@,
        Dimension::End => "End"@,
    }
}

/// The name of a difficulty, as it is printed.
pub open spec fn difficulty_name(d: Difficulty) -> Seq<char> {
    match d {
        Difficulty::Peaceful => "Peaceful"@,
        Difficulty::Easy => "Easy"@,
        Difficulty::Normal => "Normal"@,
        Difficulty::Hard => "Hard"@,
    }
}

/// `true` or `false`.
pub open spec fn bool_text(b: bool) -> Seq<char> {
    if b {
        "true"@
    } else {
        "false"@
    }
}

/// The file name of the icon, or `None`.
pub open spec fn icon_text(name: Option<Seq<char>>) -> Seq<char> {
    match name {
        Some(n) => n,
        None => "None"@,
    }
}

/// A key file's name behind three stars, or `None`.
pub open spec fn key_text(name: Option<Seq<char>>) -> Seq<char> {
    match name {
        Some(n) => "***"@ + n,
        None => "None"@,
    }
}

/// The view of an optional file name.
pub open spec fn opt_text(name: Option<&str>) -> Option<Seq<char>> {
    match name {
        Some(n) => Some(n@),
        None => None,
    }
}

/// One line of the printed configuration: its label, its value, a newline.
pub open spec fn line(label: Seq<char>, value: Seq<char>) -> Seq<char> {
    label + value + "\n"@
}

/// Appends one line of the printed configuration.
fn push_line(out: &mut String, label: &str, value: &str)
    ensures
        final(out)@ == old(out)@ + line(label@, value@),
{
    out.append(label);
    out.append(value);
    out.append("\n");
}

/// The printed name of a game mode.
fn gamemode_text(g: Gamemode) -> (r: &'static str)
    ensures
        r@ == gamemode_name(g),
{
    match g {
        Gamemode::Survival => "Survival",
        Gamemode::Creative => "Creative",
        Gamemode::Adventure => "Adventure",
        Gamemode::Spectator => "Spectator",
    }
}

/// The printed name of a dimension.
fn dimension_text(d: Dimension) -> (r: &'static str)
    ensures
        r@ == dimension_name(d),
{
    match d {
        Dimension::Overworld => "Overworld",
        Dimension::Nether => "Nether",
        Dimension::End => "End",
    }
}

/// The printed name of a difficulty.
fn difficulty_text(d: Difficulty) -> (r: &'static str)
    ensures
        r@ == difficulty_name(d),
{
    match d {
        Difficulty::Peaceful => "Peaceful",
        Difficulty::Easy => "Easy",
        Difficulty::Normal => "Normal",
        Difficulty::Hard => "Hard",
    }
}

impl ServerConfig {
    /// The network part of the printed configuration.
    pub open spec fn spec_network_text(&self) -> Seq<char> {
        "  Network\n"@ + line("    Address          : "@, self.network.addr@) + line(
            "    Protocol Version : "@,
            decimal(self.network.protocol_version as int),
        ) + line("    Threshold        : "@, decimal(self.network.threshold as int))
    }

    /// The profile part of the printed configuration, with the icon's file
    /// name.
    pub open spec fn spec_profile_text(&self, icon: Option<Seq<char>>) -> Seq<char> {
        "  Profile\n"@ + line("    Name             : "@, self.profile.name@) + line(
            "    Description      : "@,
            self.profile.description@,
        ) + line("    Max Players      : "@, decimal(self.profile.max_players as int)) + line(
            "    Gamemode         : "@,
            gamemode_name(self.profile.gamemode),
        ) + line("    Dimension        : "@, dimension_name(self.profile.dimension)) + line(
            "    Difficulty       : "@,
            difficulty_name(self.profile.difficulty),
        ) + line("    Icon             : "@, icon_text(icon))
    }

    /// The authentication part of the printed configuration, with the key
    /// files' names; no newline after its last line.
    pub open spec fn spec_auth_text(&self, private_key: Option<Seq<char>>, public_key: Option<Seq<char>>) -> Seq<char> {
        "  Authentication\n"@ + line("    Enabled          : "@, bool_text(self.auth.enabled)) + line(
            "    Private Key      : "@,
            key_text(private_key),
        ) + "    Public Key       : "@ + key_text(public_key)
    }

    /// The configuration as the server prints it on start: one line per
    /// setting, grouped under `Network`, `Profile` and `Authentication`, with
    /// the file names of the icon and the keys given (the keys behind three
    /// stars), no newline after the last line.
    pub open spec fn spec_summary(
        &self,
        icon: Option<Seq<char>>,
        private_key: Option<Seq<char>>,
        public_key: Option<Seq<char>>,
    ) -> Seq<char> {
        self.spec_network_text() + self.spec_profile_text(icon) + self.spec_auth_text(private_key, public_key)
    }

    /// The printed configuration (see `spec_summary`), with the given file
    /// names of the icon and of the keys.
    pub fn summary_with(&self, icon: Option<&str>, private_key: Option<&str>, public_key: Option<&str>) -> (r: String)
        ensures
            r@ == self.spec_summary(opt_text(icon), opt_text(private_key), opt_text(public_key)),
    {
        let mut network = String::from_str("  Network\n");
        push_line(&mut network, "    Address          : ", self.network.addr.as_str());
        push_line(&mut network, "    Protocol Version : ", u32_text(self.network.protocol_version).as_str());
        push_line(&mut network, "    Threshold        : ", u32_text(self.network.threshold).as_str());

        let mut profile = String::from_str("  Profile\n");
        push_line(&mut profile, "    Name             : ", self.profile.name.as_str());
        push_line(&mut profile, "    Description      : ", self.profile.description.as_str());
        push_line(&mut profile, "    Max Players      : ", u32_text(self.profile.max_players).as_str());
        push_line(&mut profile, "    Gamemode         : ", gamemode_text(self.profile.gamemode));
        push_line(&mut profile, "    Dimension        : ", dimension_text(self.profile.dimension));
        push_line(&mut profile, "    Difficulty       : ", difficulty_text(self.profile.difficulty));
        let icon_name: &str = match icon {
            Some(n) => n,
            None => "None",
        };
        push_line(&mut profile, "    Icon             : ", icon_name);

        let mut auth = String::from_str("  Authentication\n");
        push_line(&mut auth, "    Enabled          : ", if self.auth.enabled { "true" } else { "false" });
        let private_text: String = match private_key {
            Some(n) => String::from_str("***").concat(n),
            None => String::from_str("None"),
        };
        push_line(&mut auth, "    Private Key      : ", private_text.as_str());
        auth.append("    Public Key       : ");
        match public_key {
            Some(n) => {
                auth.append("***");
                auth.append(n);
            },
            None => auth.append("None"),
        }
        proof {
            if let Some(n) = public_key {
                assert(auth@ =~= self.spec_auth_text(opt_text(private_key), opt_text(public_key)));
            }
        }
        network.append(profile.as_str());
        network.append(auth.as_str());
        network
    }

    /// The configuration as the server prints it on start (see
    /// `spec_summary`), with the file names of the configured icon and keys.
    pub fn to_string(&self) -> (r: String)
        ensures
            r@ == self.spec_summary(
                opt_file_name(self.profile.icon),
                opt_file_name(self.auth.private_key),
                opt_file_name(self.auth.public_key),
            ),
    {
        let icon = match &self.profile.icon {
            Some(p) => file_name_text(p.as_str()),
            None => None,
        };
        let private_key = match &self.auth.private_key {
            Some(p) => file_name_text(p.as_str()),
            None => None,
        };
        let public_key = match &self.auth.public_key {
            Some(p) => file_name_text(p.as_str()),
            None => None,
        };
        let icon_ref: Option<&str> = match &icon {
            Some(n) => Some(n.as_str()),
            None => None,
        };
        let private_ref: Option<&str> = match &private_key {
            Some(n) => Some(n.as_str()),
            None => None,
        };
        let public_ref: Option<&str> = match &public_key {
            Some(n) => Some(n.as_str()),
            None => None,
        };
        self.summary_with(icon_ref, private_ref, public_ref)
    }
}

} // verus!
