use osdd::config::{
    assign_sockets, create_commands_all_handlers, u16_to_string, Chain, Handler, HandlerType,
    Settings,
};

fn settings() -> Settings {
    Settings {
        path: "/home/osdd".to_string(),
        stats_servers: vec!["10.0.0.2:8125".to_string()],
        syslog_host: "10.0.0.3".to_string(),
        syslog_port: "514".to_string(),
        log_level: "Warn".to_string(),
        instance: "alpha".to_string(),
        network: "ingress".to_string(),
        stats_multiplexer_listening_port: "8125".to_string(),
    }
}

fn handler(name: &str, handler_type: HandlerType) -> Handler {
    Handler {
        name: name.to_string(),
        executable: format!("{}_bin", name),
        arguments: vec![("listening_port".to_string(), "4001".to_string())],
        handler_type,
        incoming_socket: None,
        outgoing_socket: None,
        udp_port_option: None,
    }
}

#[test]
fn u16_to_string_test() {
    assert_eq!(u16_to_string(0), "0");
    assert_eq!(u16_to_string(7), "7");
    assert_eq!(u16_to_string(10), "10");
    assert_eq!(u16_to_string(8125), "8125");
    assert_eq!(u16_to_string(65535), "65535");
}

#[test]
fn assign_sockets_test() {
    let mut handlers = vec![
        handler("ph_udp", HandlerType::ProtocolHandler),
        handler("transport", HandlerType::TransportHandler),
    ];
    assign_sockets(&mut handlers, "ph_udp", "transport", "chain1").expect("both handlers exist");
    assert_eq!(
        handlers[0].outgoing_socket.as_deref(),
        Some("/tmp/chain1_ph_udp_transport")
    );
    assert_eq!(handlers[0].incoming_socket, None);
    assert_eq!(
        handlers[1].incoming_socket.as_deref(),
        Some("/tmp/chain1_ph_udp_transport")
    );
    assert_eq!(handlers[1].outgoing_socket, None);
}

#[test]
fn assign_sockets_unknown_handler_test() {
    let mut handlers = vec![handler("ph_udp", HandlerType::ProtocolHandler)];
    assert!(assign_sockets(&mut handlers, "ph_udp", "missing", "chain1").is_err());
    assert!(assign_sockets(&mut handlers, "missing", "ph_udp", "chain1").is_err());
}

#[test]
fn create_command_test() {
    let mut h = handler("ph_udp", HandlerType::ProtocolHandler);
    h.incoming_socket = Some("/tmp/chain1_x_ph_udp".to_string());
    h.udp_port_option = Some(4001);
    let cmd = h
        .create_command("chain1", 8125, &settings())
        .expect("sockets are wired");
    assert_eq!(cmd.program, "docker");
    assert_eq!(cmd.name, "osdd.alpha.ingress.chain1.ph.ph_udp");
    assert_eq!(cmd.current_dir, "/home/osdd");
    let expected: Vec<String> = [
        "run",
        "-d",
        "--publish=4001:4001/udp",
        "--name",
        "osdd.alpha.ingress.chain1.ph.ph_udp",
        "--mount",
        "type=bind,source=/home/osdd/sockets/,target=/tmp/",
        "--restart",
        "always",
        "--entrypoint",
        "./ph_udp_bin",
        "ph_udp_bin",
        "--listening_port",
        "4001",
        "--socket_path",
        "/tmp/chain1_x_ph_udp",
        "--stats_server_address",
        "172.17.0.1",
        "--stats_server_port",
        "8125",
        "--from_host_sys_log",
        "0.0.0.0",
        "--from_port_sys_log",
        "0",
        "--to_host_sys_log",
        "10.0.0.3",
        "--to_port_sys_log",
        "514",
        "--handler_name",
        "osdd.alpha.ingress.chain1.ph.ph_udp",
    ]
    .iter()
    .map(|s| s.to_string())
    .collect();
    assert_eq!(cmd.args, expected);
}

#[test]
fn create_command_transport_test() {
    let mut h = handler("transport", HandlerType::TransportHandler);
    h.outgoing_socket = Some("/tmp/chain1_transport_y".to_string());
    let cmd = h
        .create_command("chain1", 8125, &settings())
        .expect("sockets are wired");
    assert_eq!(cmd.name, "osdd.alpha.ingress.chain1.transport.transport");
    // a transport runs on the host network and reaches the stats
    // multiplexer on the loopback
    assert!(cmd.args.contains(&"--network".to_string()));
    assert!(cmd.args.contains(&"host".to_string()));
    assert!(cmd.args.contains(&"--cap-add=sys_nice".to_string()));
    assert!(cmd.args.contains(&"127.0.0.1".to_string()));
    // with only an outgoing socket, that is the one socket path
    let at = cmd
        .args
        .iter()
        .position(|a| a == "--socket_path")
        .expect("a socket path argument");
    assert_eq!(cmd.args[at + 1], "/tmp/chain1_transport_y");
}

#[test]
fn create_command_unwired_test() {
    let h = handler("ph_udp", HandlerType::ProtocolHandler);
    assert!(h.create_command("chain1", 8125, &settings()).is_err());
    let f = handler("filter1", HandlerType::FilterHandler);
    assert!(f.create_command("chain1", 8125, &settings()).is_err());
}

#[test]
fn create_commands_all_handlers_test() {
    let chains = vec![Chain {
        name: "chain1".to_string(),
        protocol_handler: "ph_udp".to_string(),
        filter_handlers: vec!["filter1".to_string()],
        transport_handler: "transport".to_string(),
    }];
    let handlers = vec![
        handler("ph_udp", HandlerType::ProtocolHandler),
        handler("filter1", HandlerType::FilterHandler),
        handler("transport", HandlerType::TransportHandler),
    ];
    let commands =
        create_commands_all_handlers(chains, handlers, 8125, &settings()).expect("a valid chain");
    assert_eq!(commands.len(), 3);
    assert_eq!(commands[0].name, "osdd.alpha.ingress.chain1.ph.ph_udp");
    assert_eq!(commands[1].name, "osdd.alpha.ingress.chain1.filter.filter1");
    assert_eq!(
        commands[2].name,
        "osdd.alpha.ingress.chain1.transport.transport"
    );
    // the filter is wired to both of its neighbours
    let args = &commands[1].args;
    let at_in = args
        .iter()
        .position(|a| a == "--socket_path_in")
        .expect("an incoming socket path");
    assert_eq!(args[at_in + 1], "/tmp/chain1_ph_udp_filter1");
    let at_out = args
        .iter()
        .position(|a| a == "--socket_path_out")
        .expect("an outgoing socket path");
    assert_eq!(args[at_out + 1], "/tmp/chain1_filter1_transport");
}

#[test]
fn create_commands_unknown_member_test() {
    let chains = vec![Chain {
        name: "chain1".to_string(),
        protocol_handler: "ph_udp".to_string(),
        filter_handlers: vec![],
        transport_handler: "missing".to_string(),
    }];
    let handlers = vec![handler("ph_udp", HandlerType::ProtocolHandler)];
    assert!(create_commands_all_handlers(chains, handlers, 8125, &settings()).is_err());
}
