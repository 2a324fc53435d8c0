use wcli::cli::{Cli, Commands, Job};
use wcli::config::{
    check_counts, serializer_named, AuthMethod, CallConfig, ConnectionConfig, PublishConfig,
    SerializerKind, SubscribeConfig,
};
use wcli::error::ConfigError;

fn connection(serializer: &str) -> ConnectionConfig {
    ConnectionConfig {
        url: "ws://localhost:8080/ws".to_string(),
        realm: "realm1".to_string(),
        authid: None,
        authrole: None,
        secret: None,
        private_key: None,
        ticket: None,
        serializer: serializer.to_string(),
    }
}

#[test]
fn serializer_is_selected_whatever_the_case() {
    assert_eq!(connection("json").create_serializer(), Ok(SerializerKind::Json));
    assert_eq!(connection("JSON").create_serializer(), Ok(SerializerKind::Json));
    assert_eq!(connection("MsgPack").create_serializer(), Ok(SerializerKind::MsgPack));
    assert_eq!(connection("CBOR").create_serializer(), Ok(SerializerKind::Cbor));
    assert_eq!(connection("msgpac\u{212a}").create_serializer(), Ok(SerializerKind::MsgPack));
}

#[test]
fn unknown_serializer_is_reported_in_lower_case() {
    assert_eq!(
        connection("XML").create_serializer(),
        Err(ConfigError::UnknownSerializer { name: "xml".to_string() })
    );
    assert_eq!(
        connection("").create_serializer(),
        Err(ConfigError::UnknownSerializer { name: "".to_string() })
    );
    assert_eq!(
        connection(" json").create_serializer(),
        Err(ConfigError::UnknownSerializer { name: " json".to_string() })
    );
}

#[test]
fn serializer_by_lower_case_name() {
    assert_eq!(serializer_named("json".to_string()), Ok(SerializerKind::Json));
    assert_eq!(serializer_named("msgpack".to_string()), Ok(SerializerKind::MsgPack));
    assert_eq!(serializer_named("cbor".to_string()), Ok(SerializerKind::Cbor));
    assert_eq!(
        serializer_named("JSON".to_string()),
        Err(ConfigError::UnknownSerializer { name: "JSON".to_string() })
    );
}

#[test]
fn private_key_wins_over_secret_and_ticket() {
    let mut config = connection("json");
    config.authid = Some("alice".to_string());
    config.private_key = Some("00ff".to_string());
    config.secret = Some("s3cret".to_string());
    config.ticket = Some("t1cket".to_string());
    assert_eq!(
        config.create_authenticator(),
        AuthMethod::CryptoSign { authid: "alice".to_string(), private_key: "00ff".to_string() }
    );
}

#[test]
fn secret_wins_over_ticket() {
    let mut config = connection("json");
    config.authid = Some("alice".to_string());
    config.secret = Some("s3cret".to_string());
    config.ticket = Some("t1cket".to_string());
    assert_eq!(
        config.create_authenticator(),
        AuthMethod::ChallengeResponse { authid: "alice".to_string(), secret: "s3cret".to_string() }
    );
}

#[test]
fn ticket_is_used_when_alone() {
    let mut config = connection("json");
    config.ticket = Some("t1cket".to_string());
    assert_eq!(
        config.create_authenticator(),
        AuthMethod::Ticket { authid: "".to_string(), ticket: "t1cket".to_string() }
    );
}

#[test]
fn no_credential_means_anonymous() {
    let mut config = connection("json");
    assert_eq!(config.create_authenticator(), AuthMethod::Anonymous { authid: "".to_string() });
    config.authid = Some("bob".to_string());
    assert_eq!(config.create_authenticator(), AuthMethod::Anonymous { authid: "bob".to_string() });
}

#[test]
fn auth_extra_holds_the_role_if_any() {
    let mut config = connection("json");
    assert_eq!(config.build_auth_extra(), Vec::<(String, String)>::new());
    config.authrole = Some("admin".to_string());
    assert_eq!(config.build_auth_extra(), vec![("authrole".to_string(), "admin".to_string())]);
}

#[test]
fn connection_config_copies_the_shared_options() {
    let cli = Cli {
        url: "ws://router:9000/ws".to_string(),
        realm: "prod".to_string(),
        authid: Some("alice".to_string()),
        authrole: Some("admin".to_string()),
        secret: Some("s".to_string()),
        private_key: None,
        ticket: Some("t".to_string()),
        serializer: "cbor".to_string(),
        command: Commands::Register { procedure: "p".to_string() },
    };
    let config = ConnectionConfig::from(&cli);
    assert_eq!(config.url, "ws://router:9000/ws");
    assert_eq!(config.realm, "prod");
    assert_eq!(config.authid, Some("alice".to_string()));
    assert_eq!(config.authrole, Some("admin".to_string()));
    assert_eq!(config.secret, Some("s".to_string()));
    assert_eq!(config.private_key, None);
    assert_eq!(config.ticket, Some("t".to_string()));
    assert_eq!(config.serializer, "cbor");
}

#[test]
fn counts_must_be_positive() {
    assert_eq!(check_counts(1, 1, 1), Ok(()));
    assert_eq!(check_counts(3, 2, 5), Ok(()));
    assert_eq!(check_counts(0, 1, 1), Err(ConfigError::ZeroRepeat));
    assert_eq!(check_counts(1, 0, 1), Err(ConfigError::ZeroParallel));
    assert_eq!(check_counts(1, 1, 0), Err(ConfigError::ZeroConcurrency));
    assert_eq!(check_counts(0, 0, 0), Err(ConfigError::ZeroRepeat));
    assert_eq!(check_counts(1, 0, 0), Err(ConfigError::ZeroParallel));
}

#[test]
fn configurations_validate_their_counts() {
    let call = CallConfig {
        procedure: "p".to_string(),
        args: vec![],
        kwargs: vec![],
        options: vec![],
        repeat: 1,
        parallel: 1,
        concurrency: 1,
    };
    assert_eq!(call.validate(), Ok(()));
    let call = CallConfig { repeat: 0, ..call };
    assert_eq!(call.validate(), Err(ConfigError::ZeroRepeat));

    let publish = PublishConfig {
        topic: "t".to_string(),
        args: vec![],
        kwargs: vec![],
        options: vec![],
        repeat: 2,
        parallel: 0,
        concurrency: 1,
        acknowledge: false,
    };
    assert_eq!(publish.validate(), Err(ConfigError::ZeroParallel));
    let publish = PublishConfig { parallel: 4, ..publish };
    assert_eq!(publish.validate(), Ok(()));

    let subscribe = SubscribeConfig { topic: "t".to_string(), parallel: 3, concurrency: 0 };
    assert_eq!(subscribe.validate(), Err(ConfigError::ZeroConcurrency));
    let subscribe = SubscribeConfig { concurrency: 3, ..subscribe };
    assert_eq!(subscribe.validate(), Ok(()));
}

#[test]
fn commands_become_jobs_with_the_same_values() {
    let job = Commands::Call {
        procedure: "io.xconn.echo".to_string(),
        args: vec!["1".to_string()],
        kwargs: vec!["k=v".to_string()],
        options: vec!["o=1".to_string()],
        repeat: 3,
        parallel: 2,
        concurrency: 1,
    }
    .into_job();
    match job {
        Job::Call(config) => {
            assert_eq!(config.procedure, "io.xconn.echo");
            assert_eq!(config.args, vec!["1".to_string()]);
            assert_eq!(config.kwargs, vec!["k=v".to_string()]);
            assert_eq!(config.options, vec!["o=1".to_string()]);
            assert_eq!((config.repeat, config.parallel, config.concurrency), (3, 2, 1));
        }
        _ => panic!("a call command is a call job"),
    }

    let job = Commands::Publish {
        topic: "t".to_string(),
        args: vec![],
        kwargs: vec![],
        options: vec![],
        repeat: 1,
        parallel: 1,
        concurrency: 1,
        acknowledge: true,
    }
    .into_job();
    match job {
        Job::Publish(config) => {
            assert_eq!(config.topic, "t");
            assert!(config.acknowledge);
        }
        _ => panic!("a publish command is a publish job"),
    }

    match (Commands::Subscribe { topic: "t".to_string(), parallel: 3, concurrency: 2 }).into_job() {
        Job::Subscribe(config) => {
            assert_eq!(config.topic, "t");
            assert_eq!((config.parallel, config.concurrency), (3, 2));
        }
        _ => panic!("a subscribe command is a subscribe job"),
    }

    match (Commands::Register { procedure: "p".to_string() }).into_job() {
        Job::Register { procedure } => assert_eq!(procedure, "p"),
        _ => panic!("a register command is a register job"),
    }

    match (Commands::Keygen { output_file: Some("key".to_string()) }).into_job() {
        Job::Keygen { output_file } => assert_eq!(output_file, Some("key".to_string())),
        _ => panic!("a keygen command is a keygen job"),
    }
}
