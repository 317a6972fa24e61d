//! Commands and configuration, as the front end hands them to the operations.

use crate::text::same_text;
use vstd::prelude::*;

verus! {

pub const HELP_STR: &'static str = "\
This is mender-rust utility, a small command line tool
to perform tasks on a Mender server using its APIs.

Available commands are:
 * help -> display this help.
 * login email -> returns a token for the given user email, password
   needs to be typed manually.
 * deploy group artifact [name] -> deploy the given artifact to the given group.
   An optional name can be given, if there are none the group name is used.
 * getid serialnumber -> get the mender id of a device based on its attribute SerialNumber.
 * getinfo id -> return info of the device with the given id.
 * countartifacts -> return a count of the artifacts used by the devices.

Used environment variables:
 * SERVER_URL -> url of the mender server, must be provided.
 * TOKEN -> authentication token, must be provided for deploy, getid, getinfo and countartifacts commands.
 * CERT_FILE -> optional verification certificate for the server secure connection.";

pub const NO_EMAIL: &'static str = "email must be provided in login command";

pub const NO_GROUP_OR_ARTIFACT: &'static str =
    "group and artifact must be provided in deploy command";

pub const NO_SERIAL_NUMBER: &'static str = "serial number must be provided in getid command";

pub const NO_ID: &'static str = "id must be provided in getinfo command";

pub const UNRECOGNIZED: &'static str = "unrecognized command, run help to see available commands";

pub const NO_SERVER_URL: &'static str = "SERVER_URL env variable must be defined";

pub const NO_TOKEN: &'static str =
    "TOKEN must be provided for deploy, getid, getinfo and countartifacts commands";

/// One operation of the client, with the fields that it needs.
#[derive(PartialEq, Debug)]
pub enum Command {
    Login { email: String },
    /// Deploy `artifact` to a group or to a single device. A deployment is
    /// valid when exactly one of `group` and `device` is given.
    Deploy { group: Option<String>, device: Option<String>, artifact: String, name: Option<String> },
    GetId { serial_number: String },
    GetInfo { id: String },
    CountArtifacts,
    Help,
}

/// Mathematical value of a [`Command`].
pub enum CommandView {
    Login { email: Seq<char> },
    Deploy {
        group: Option<Seq<char>>,
        device: Option<Seq<char>>,
        artifact: Seq<char>,
        name: Option<Seq<char>>,
    },
    GetId { serial_number: Seq<char> },
    GetInfo { id: Seq<char> },
    CountArtifacts,
    Help,
}

impl DeepView for Command {
    type V = CommandView;

    open spec fn deep_view(&self) -> CommandView {
        match self {
            Command::Login { email } => CommandView::Login { email: email@ },
            Command::Deploy { group, device, artifact, name } => CommandView::Deploy {
                group: group.deep_view(),
                device: device.deep_view(),
                artifact: artifact@,
                name: name.deep_view(),
            },
            Command::GetId { serial_number } => CommandView::GetId {
                serial_number: serial_number@,
            },
            Command::GetInfo { id } => CommandView::GetInfo { id: id@ },
            Command::CountArtifacts => CommandView::CountArtifacts,
            Command::Help => CommandView::Help,
        }
    }
}

impl View for Command {
    type V = CommandView;

    open spec fn view(&self) -> CommandView {
        self.deep_view()
    }
}

/// The command that the argument list `args` asks for, `args[0]` being the
/// program's name, or the text that says why it asks for none.
pub open spec fn parse_command(args: Seq<Seq<char>>) -> Result<CommandView, Seq<char>>
    recommends
        args.len() >= 1,
{
    if args.len() == 1 {
        Err(HELP_STR@)
    } else if args[1] == "help"@ {
        Ok(CommandView::Help)
    } else if args[1] == "countartifacts"@ {
        Ok(CommandView::CountArtifacts)
    } else if args[1] == "login"@ {
        if args.len() < 3 {
            Err(NO_EMAIL@)
        } else {
            Ok(CommandView::Login { email: args[2] })
        }
    } else if args[1] == "deploy"@ {
        if args.len() < 4 {
            Err(NO_GROUP_OR_ARTIFACT@)
        } else {
            Ok(
                CommandView::Deploy {
                    group: Some(args[2]),
                    device: None,
                    artifact: args[3],
                    name: if args.len() == 5 {
                        Some(args[4])
                    } else {
                        None
                    },
                },
            )
        }
    } else if args[1] == "getid"@ {
        if args.len() < 3 {
            Err(NO_SERIAL_NUMBER@)
        } else {
            Ok(CommandView::GetId { serial_number: args[2] })
        }
    } else if args[1] == "getinfo"@ {
        if args.len() < 3 {
            Err(NO_ID@)
        } else {
            Ok(CommandView::GetInfo { id: args[2] })
        }
    } else {
        Err(UNRECOGNIZED@)
    }
}

impl Command {
    /// Reads a command from an argument list whose first entry is the
    /// program's name.
    pub fn new(args: &[String]) -> (parsed: Result<Command, &'static str>)
        requires
            args@.len() >= 1,
        ensures
            match parsed {
                Ok(command) => parse_command(args.deep_view()) == Ok::<CommandView, Seq<char>>(
                    command@,
                ),
                Err(text) => parse_command(args.deep_view()) == Err::<CommandView, Seq<char>>(
                    text@,
                ),
            },
    {
        let ghost words = args.deep_view();
        assert(forall|i: int| 0 <= i < args@.len() ==> words[i] == args@[i]@);
        if args.len() == 1 {
            return Err(HELP_STR);
        }
        let word = args[1].as_str();
        if same_text(word, "help") {
            Ok(Command::Help)
        } else if same_text(word, "countartifacts") {
            Ok(Command::CountArtifacts)
        } else if same_text(word, "login") {
            if args.len() < 3 {
                return Err(NO_EMAIL);
            }
            Ok(Command::Login { email: args[2].clone() })
        } else if same_text(word, "deploy") {
            if args.len() < 4 {
                return Err(NO_GROUP_OR_ARTIFACT);
            }
            let name = if args.len() == 5 {
                Some(args[4].clone())
            } else {
                None
            };
            Ok(
                Command::Deploy {
                    group: Some(args[2].clone()),
                    device: None,
                    artifact: args[3].clone(),
                    name,
                },
            )
        } else if same_text(word, "getid") {
            if args.len() < 3 {
                return Err(NO_SERIAL_NUMBER);
            }
            Ok(Command::GetId { serial_number: args[2].clone() })
        } else if same_text(word, "getinfo") {
            if args.len() < 3 {
                return Err(NO_ID);
            }
            Ok(Command::GetInfo { id: args[2].clone() })
        } else {
            Err(UNRECOGNIZED)
        }
    }

    /// Whether the command can only run with an authentication token.
    pub fn needs_token(&self) -> (needed: bool)
        ensures
            needed == needs_token(self@),
    {
        match self {
            Command::Deploy { .. } => true,
            Command::GetId { .. } => true,
            Command::GetInfo { .. } => true,
            Command::CountArtifacts => true,
            _ => false,
        }
    }
}

/// Whether a command can only run with an authentication token: every
/// command but `login` and `help`.
pub open spec fn needs_token(command: CommandView) -> bool {
    !(command is Login || command is Help)
}

/// What an operation needs besides its command: where the server is and how
/// to authenticate.
#[derive(PartialEq, Debug)]
pub struct Config {
    pub command: Command,
    pub token: Option<String>,
    pub server_url: String,
    pub cert_file: Option<String>,
}

/// Mathematical value of a [`Config`].
pub struct ConfigView {
    pub command: CommandView,
    pub token: Option<Seq<char>>,
    pub server_url: Seq<char>,
    pub cert_file: Option<Seq<char>>,
}

impl DeepView for Config {
    type V = ConfigView;

    open spec fn deep_view(&self) -> ConfigView {
        ConfigView {
            command: self.command@,
            token: self.token.deep_view(),
            server_url: self.server_url@,
            cert_file: self.cert_file.deep_view(),
        }
    }
}

impl View for Config {
    type V = ConfigView;

    open spec fn view(&self) -> ConfigView {
        self.deep_view()
    }
}

/// The configuration made of the given settings, or the text that says which
/// required one is missing: the server URL first, then the token.
pub open spec fn configure(
    command: CommandView,
    server_url: Option<Seq<char>>,
    token: Option<Seq<char>>,
    cert_file: Option<Seq<char>>,
) -> Result<ConfigView, Seq<char>> {
    if server_url is None {
        Err(NO_SERVER_URL@)
    } else if token is None && needs_token(command) {
        Err(NO_TOKEN@)
    } else {
        Ok(ConfigView { command, token, server_url: server_url->0, cert_file })
    }
}

impl Config {
    /// Builds the configuration of one run from the settings that the
    /// environment gave: the server URL is required, and so is the token for
    /// every command but `login` and `help`.
    pub fn new(
        command: Command,
        server_url: Option<String>,
        token: Option<String>,
        cert_file: Option<String>,
    ) -> (made: Result<Config, &'static str>)
        ensures
            match made {
                Ok(config) => configure(
                    command@,
                    server_url.deep_view(),
                    token.deep_view(),
                    cert_file.deep_view(),
                ) == Ok::<ConfigView, Seq<char>>(config@),
                Err(text) => configure(
                    command@,
                    server_url.deep_view(),
                    token.deep_view(),
                    cert_file.deep_view(),
                ) == Err::<ConfigView, Seq<char>>(text@),
            },
    {
        let server_url = match server_url {
            Some(url) => url,
            None => {
                return Err(NO_SERVER_URL);
            },
        };
        if token.is_none() && command.needs_token() {
            return Err(NO_TOKEN);
        }
        Ok(Config { command, token, server_url, cert_file })
    }
}

} // verus!
