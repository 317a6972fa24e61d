use mender_rust::parse::{Command, Config, HELP_STR};

#[test]
fn no_args() {
    let args = vec![String::from("name")];
    assert!(Command::new(&args).is_err());
}

#[test]
fn help_cmd() {
    let args = vec![String::from("name"), String::from("help")];
    let command = Command::new(&args).unwrap();
    assert_eq!(command, Command::Help);
}

#[test]
fn login_no_email() {
    let args = vec![String::from("name"), String::from("login")];
    assert!(Command::new(&args).is_err());
}

#[test]
fn login_email() {
    let email = String::from("toto@mail.com");
    let args = vec![String::from("name"), String::from("login"), email.clone()];
    let command = Command::new(&args).unwrap();
    assert_eq!(command, Command::Login { email });
}

#[test]
fn deploy_no_args() {
    let args = vec![String::from("name"), String::from("deploy")];
    assert!(Command::new(&args).is_err());
}

#[test]
fn deploy_group_artifact() {
    let (group, artifact) = (String::from("prod"), String::from("release"));
    let args = vec![
        String::from("name"),
        String::from("deploy"),
        group.clone(),
        artifact.clone(),
    ];
    let command = Command::new(&args).unwrap();
    assert_eq!(
        command,
        Command::Deploy {
            group: Some(group),
            device: None,
            artifact,
            name: None
        }
    );
}

#[test]
fn no_args_gives_the_help_text() {
    let args = vec![String::from("name")];
    assert_eq!(Command::new(&args), Err(HELP_STR));
}

#[test]
fn deploy_with_a_name() {
    let args: Vec<String> = ["name", "deploy", "prod", "release", "nightly"]
        .iter()
        .map(|s| s.to_string())
        .collect();
    assert_eq!(
        Command::new(&args),
        Ok(Command::Deploy {
            group: Some(String::from("prod")),
            device: None,
            artifact: String::from("release"),
            name: Some(String::from("nightly")),
        })
    );
}

#[test]
fn deploy_with_too_many_arguments_has_no_name() {
    let args: Vec<String> = ["name", "deploy", "prod", "release", "nightly", "extra"]
        .iter()
        .map(|s| s.to_string())
        .collect();
    assert_eq!(
        Command::new(&args),
        Ok(Command::Deploy {
            group: Some(String::from("prod")),
            device: None,
            artifact: String::from("release"),
            name: None,
        })
    );
}

#[test]
fn every_command_word_is_read() {
    let words = |list: &[&str]| -> Vec<String> { list.iter().map(|s| s.to_string()).collect() };
    assert_eq!(Command::new(&words(&["name", "countartifacts"])), Ok(Command::CountArtifacts));
    assert_eq!(
        Command::new(&words(&["name", "getid", "SN-1"])),
        Ok(Command::GetId { serial_number: String::from("SN-1") })
    );
    assert_eq!(
        Command::new(&words(&["name", "getinfo", "abc"])),
        Ok(Command::GetInfo { id: String::from("abc") })
    );
}

#[test]
fn each_parse_error_has_its_text() {
    let words = |list: &[&str]| -> Vec<String> { list.iter().map(|s| s.to_string()).collect() };
    assert_eq!(
        Command::new(&words(&["name", "login"])),
        Err("email must be provided in login command")
    );
    assert_eq!(
        Command::new(&words(&["name", "deploy", "prod"])),
        Err("group and artifact must be provided in deploy command")
    );
    assert_eq!(
        Command::new(&words(&["name", "getid"])),
        Err("serial number must be provided in getid command")
    );
    assert_eq!(
        Command::new(&words(&["name", "getinfo"])),
        Err("id must be provided in getinfo command")
    );
    assert_eq!(
        Command::new(&words(&["name", "reboot"])),
        Err("unrecognized command, run help to see available commands")
    );
}

#[test]
fn config_needs_a_server_url() {
    let made = Config::new(Command::Help, None, Some(String::from("t")), None);
    assert_eq!(made, Err("SERVER_URL env variable must be defined"));
}

#[test]
fn config_needs_a_token_for_fleet_commands() {
    let url = || Some(String::from("https://fleet.example"));
    let text = "TOKEN must be provided for deploy, getid, getinfo and countartifacts commands";
    assert_eq!(Config::new(Command::CountArtifacts, url(), None, None), Err(text));
    assert_eq!(
        Config::new(Command::GetId { serial_number: String::from("s") }, url(), None, None),
        Err(text)
    );
    assert_eq!(Config::new(Command::GetInfo { id: String::from("i") }, url(), None, None), Err(text));
    assert_eq!(
        Config::new(
            Command::Deploy {
                group: Some(String::from("g")),
                device: None,
                artifact: String::from("a"),
                name: None
            },
            url(),
            None,
            None
        ),
        Err(text)
    );
}

#[test]
fn config_for_login_needs_no_token() {
    let made = Config::new(
        Command::Login { email: String::from("toto@mail.com") },
        Some(String::from("https://fleet.example")),
        None,
        Some(String::from("ca.pem")),
    );
    assert_eq!(
        made,
        Ok(Config {
            command: Command::Login { email: String::from("toto@mail.com") },
            token: None,
            server_url: String::from("https://fleet.example"),
            cert_file: Some(String::from("ca.pem")),
        })
    );
}
