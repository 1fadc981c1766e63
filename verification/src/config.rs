//! The supervisor's configuration model: the settings, chains and
//! handlers read from the configuration, the socket paths that wire a
//! chain's handlers together, and the container commands built from
//! them.

use vstd::prelude::*;

use vstd::string::StringExecFns;

verus! {

/// Socket files live here on the proxy host.
pub const PATH_PREFIX_UNIX_SOCKETS_ON_PROXY: &'static str = "/home/osdd/sockets/";

/// Socket files appear here inside each container.
pub const PATH_PREFIX_UNIX_SOCKETS_IN_DOCKER: &'static str = "/tmp/";

/// The local port the handlers' syslog traffic leaves from; zero lets
/// the system pick one.
pub const PORT_FROM_UDP_SYSLOG: u16 = 0;

/// The local host the handlers' syslog traffic leaves from.
pub const FROM_HOST_UDP_SYSLOG: &'static str = "0.0.0.0";

/// The top-level settings of one diode instance.
#[derive(Debug)]
pub struct Settings {
    /// The working directory for the handler containers.
    pub path: String,
    /// Where the statistics are forwarded to.
    pub stats_servers: Vec<String>,
    /// Where syslog messages are sent.
    pub syslog_host: String,
    /// The port syslog messages are sent to.
    pub syslog_port: String,
    /// How much logging the handlers produce.
    pub log_level: String,
    /// A name for this instance of the software.
    pub instance: String,
    /// Which side of the diode this is, ingress or egress.
    pub network: String,
    /// The port the statistics multiplexer listens on.
    pub stats_multiplexer_listening_port: String,
}

/// One chain: a protocol handler, zero or more filters between it and
/// the transport, and the transport handler.
pub struct Chain {
    pub name: String,
    /// The name of the protocol handler, as given in the handlers.
    pub protocol_handler: String,
    /// The names of the filter handlers, as given in the handlers.
    pub filter_handlers: Vec<String>,
    /// The name of the transport handler, as given in the handlers.
    pub transport_handler: String,
}

/// Which stage of a chain a handler implements.
#[derive(Debug, Copy, Clone, PartialEq, Eq, Structural)]
pub enum HandlerType {
    TransportHandler,
    FilterHandler,
    ProtocolHandler,
}

/// A handler as the configuration describes it, plus the socket paths
/// the supervisor assigns to wire it into its chain.
#[derive(Debug)]
pub struct Handler {
    pub name: String,
    pub executable: String,
    pub arguments: Vec<(String, String)>,
    pub handler_type: HandlerType,
    pub incoming_socket: Option<String>,
    pub outgoing_socket: Option<String>,
    pub udp_port_option: Option<u16>,
}

/// A handler seen through its character sequences.
#[verifier::ext_equal]
pub struct HandlerView {
    pub name: Seq<char>,
    pub executable: Seq<char>,
    pub arguments: Seq<(Seq<char>, Seq<char>)>,
    pub handler_type: HandlerType,
    pub incoming_socket: Option<Seq<char>>,
    pub outgoing_socket: Option<Seq<char>>,
    pub udp_port_option: Option<u16>,
}

impl View for Handler {
    type V = HandlerView;

    open spec fn view(&self) -> HandlerView {
        HandlerView {
            name: self.name@,
            executable: self.executable@,
            arguments: self.arguments@.map_values(|p: (String, String)| (p.0@, p.1@)),
            handler_type: self.handler_type,
            incoming_socket: match self.incoming_socket {
                Some(s) => Some(s@),
                None => None,
            },
            outgoing_socket: match self.outgoing_socket {
                Some(s) => Some(s@),
                None => None,
            },
            udp_port_option: self.udp_port_option,
        }
    }
}

/// The handlers of a configuration, seen through their views.
pub open spec fn views(handlers: Seq<Handler>) -> Seq<HandlerView> {
    handlers.map_values(|h: Handler| h@)
}

/// A command ready to start one handler container, with the name the
/// container runs under.
#[derive(Debug)]
pub struct CommandWithName {
    /// The program to start.
    pub program: String,
    /// Its arguments, in order.
    pub args: Vec<String>,
    /// The directory it starts in.
    pub current_dir: String,
    /// The name of the handler container.
    pub name: String,
}

/// A command seen through its character sequences.
#[verifier::ext_equal]
pub struct CommandView {
    pub program: Seq<char>,
    pub args: Seq<Seq<char>>,
    pub current_dir: Seq<char>,
    pub name: Seq<char>,
}

impl View for CommandWithName {
    type V = CommandView;

    open spec fn view(&self) -> CommandView {
        CommandView {
            program: self.program@,
            args: self.args@.map_values(|s: String| s@),
            current_dir: self.current_dir@,
            name: self.name@,
        }
    }
}

/// Everything one configuration holds.
pub struct TomlConfig {
    pub chains: Vec<Chain>,
    pub handlers: Vec<Handler>,
    pub settings: Settings,
}

/// An error the supervisor reports while working through the
/// configuration.
#[derive(Debug)]
pub enum ConfigError {
    /// The configuration does not fit together; the text names what
    /// is missing or malformed.
    ConfigurationError(String),
}

impl ConfigError {
    /// The error's description.
    pub fn message(&self) -> &String {
        match self {
            ConfigError::ConfigurationError(text) => text,
        }
    }
}

/// The decimal digits of a number, most significant first.
pub open spec fn dec_digits(n: int) -> Seq<char>
    decreases n,
{
    if n < 10 {
        seq![digit_char(n)]
    } else {
        dec_digits(n / 10) + seq![digit_char(n % 10)]
    }
}

/// The character for one decimal digit.
pub open spec fn digit_char(d: int) -> char {
    if d == 0 {
        '0'
    } else if d == 1 {
        '1'
    } else if d == 2 {
        '2'
    } else if d == 3 {
        '3'
    } else if d == 4 {
        '4'
    } else if d == 5 {
        '5'
    } else if d == 6 {
        '6'
    } else if d == 7 {
        '7'
    } else if d == 8 {
        '8'
    } else {
        '9'
    }
}

/// Appends one decimal digit to a string.
fn append_digit(s: &mut String, d: u16)
    requires
        d < 10,
    ensures
        final(s)@ == old(s)@ + seq![digit_char(d as int)],
{
    if d == 0 {
        proof {
            reveal_strlit("0");
        }
        s.append("0");
    } else if d == 1 {
        proof {
            reveal_strlit("1");
        }
        s.append("1");
    } else if d == 2 {
        proof {
            reveal_strlit("2");
        }
        s.append("2");
    } else if d == 3 {
        proof {
            reveal_strlit("3");
        }
        s.append("3");
    } else if d == 4 {
        proof {
            reveal_strlit("4");
        }
        s.append("4");
    } else if d == 5 {
        proof {
            reveal_strlit("5");
        }
        s.append("5");
    } else if d == 6 {
        proof {
            reveal_strlit("6");
        }
        s.append("6");
    } else if d == 7 {
        proof {
            reveal_strlit("7");
        }
        s.append("7");
    } else if d == 8 {
        proof {
            reveal_strlit("8");
        }
        s.append("8");
    } else {
        proof {
            reveal_strlit("9");
        }
        s.append("9");
    }
    assert(final(s)@ =~= old(s)@ + seq![digit_char(d as int)]);
}

/// Renders a port number in decimal.
pub fn u16_to_string(n: u16) -> (s: String)
    ensures
        s@ == dec_digits(n as int),
    decreases n,
{
    let mut s = if n >= 10 {
        u16_to_string(n / 10)
    } else {
        String::new()
    };
    append_digit(&mut s, n % 10);
    if n < 10 {
        assert(s@ =~= dec_digits(n as int));
    }
    s
}

/// The position of the first handler with the given name, or a
/// negative value when there is none.
pub open spec fn handler_index(handlers: Seq<HandlerView>, name: Seq<char>) -> int
    decreases handlers.len(),
{
    if handlers.len() == 0 {
        -1
    } else if handlers[0].name == name {
        0
    } else {
        let rest = handler_index(handlers.skip(1), name);
        if rest < 0 {
            -1
        } else {
            rest + 1
        }
    }
}

/// The first index with the given name is what `handler_index` says:
/// nothing before `i` matches and `i` matches — or nothing matches at
/// all.
proof fn lemma_handler_index_at(handlers: Seq<HandlerView>, name: Seq<char>, i: int)
    requires
        0 <= i <= handlers.len(),
        forall|j: int| 0 <= j < i ==> #[trigger] handlers[j].name != name,
        i < handlers.len() ==> handlers[i].name == name,
    ensures
        handler_index(handlers, name) == if i == handlers.len() {
            -1
        } else {
            i
        },
    decreases handlers.len(),
{
    if handlers.len() > 0 {
        if handlers[0].name == name {
            assert(i == 0);
        } else {
            assert(handlers[0].name != name);
            let rest = handlers.skip(1);
            assert forall|j: int| 0 <= j < i - 1 implies #[trigger] rest[j].name != name by {
                assert(rest[j] == handlers[j + 1]);
            }
            assert(i >= 1);
            if i - 1 < rest.len() {
                assert(rest[i - 1] == handlers[i]);
            }
            lemma_handler_index_at(rest, name, i - 1);
        }
    }
}

/// Finds the first handler with the given name.
fn find_handler(handlers: &Vec<Handler>, name: &String) -> (found: Option<usize>)
    ensures
        match found {
            Some(i) => i < handlers@.len() && i == handler_index(views(handlers@), name@)
                && views(handlers@)[i as int].name == name@,
            None => handler_index(views(handlers@), name@) < 0,
        },
{
    let mut i: usize = 0;
    while i < handlers.len()
        invariant
            i <= handlers@.len(),
            forall|j: int| 0 <= j < i ==> #[trigger] views(handlers@)[j].name != name@,
        decreases handlers@.len() - i,
    {
        if handlers[i].name.eq(name) {
            proof {
                assert(views(handlers@)[i as int].name == name@);
                lemma_handler_index_at(views(handlers@), name@, i as int);
            }
            return Some(i);
        }
        proof {
            assert(views(handlers@)[i as int].name != name@);
        }
        i = i + 1;
    }
    proof {
        lemma_handler_index_at(views(handlers@), name@, handlers@.len() as int);
    }
    None
}

/// The rendezvous path of the stream between two neighbouring
/// handlers of a chain, as the handlers see it inside their
/// containers.
pub open spec fn spec_socket_path(chain: Seq<char>, p1: Seq<char>, p2: Seq<char>) -> Seq<char> {
    PATH_PREFIX_UNIX_SOCKETS_IN_DOCKER@ + chain + "_"@ + p1 + "_"@ + p2
}

/// Builds the rendezvous path of the stream between two neighbouring
/// handlers.
fn socket_path(chain_name: &str, process1: &str, process2: &str) -> (path: String)
    ensures
        path@ == spec_socket_path(chain_name@, process1@, process2@),
{
    let mut path = String::new();
    path.append(PATH_PREFIX_UNIX_SOCKETS_IN_DOCKER);
    path.append(chain_name);
    path.append("_");
    path.append(process1);
    path.append("_");
    path.append(process2);
    path
}

/// What assigning the stream between two neighbouring handlers does:
/// the first named handler gets the path as its outgoing socket, the
/// second as its incoming one; a name that no handler carries fails.
pub open spec fn spec_assign_sockets(
    handlers: Seq<HandlerView>,
    chain: Seq<char>,
    p1: Seq<char>,
    p2: Seq<char>,
) -> Option<Seq<HandlerView>> {
    let path = spec_socket_path(chain, p1, p2);
    let i1 = handler_index(handlers, p1);
    if i1 < 0 {
        None
    } else {
        let mid = handlers.update(
            i1,
            HandlerView { outgoing_socket: Some(path), ..handlers[i1] },
        );
        let i2 = handler_index(mid, p2);
        if i2 < 0 {
            None
        } else {
            Some(mid.update(i2, HandlerView { incoming_socket: Some(path), ..mid[i2] }))
        }
    }
}

/// Wires two neighbouring handlers of a chain together: the shared
/// rendezvous path becomes the first one's outgoing socket and the
/// second one's incoming socket. An error names the handler that the
/// configuration does not hold; the first handler's assignment, if it
/// was made, stands.
pub fn assign_sockets(
    handlers_config: &mut Vec<Handler>,
    process1: &str,
    process2: &str,
    chain_name: &str,
) -> (result: Result<(), ConfigError>)
    ensures
        match spec_assign_sockets(
            views(old(handlers_config)@),
            chain_name@,
            process1@,
            process2@,
        ) {
            Some(assigned) => result is Ok && views(final(handlers_config)@) == assigned,
            None => result is Err,
        },
{
    let path = socket_path(chain_name, process1, process2);
    let name1 = process1.to_owned();
    let found1 = find_handler(handlers_config, &name1);
    let i1 = match found1 {
        Some(i) => i,
        None => {
            let mut text = String::new();
            text.append("Cannot find ");
            text.append(process1);
            text.append(" as handler in config");
            return Err(ConfigError::ConfigurationError(text));
        },
    };
    let handler1 = &mut handlers_config[i1];
    handler1.outgoing_socket = Some(path.clone());
    proof {
        assert(views(handlers_config@) =~~= views(old(handlers_config)@).update(
            i1 as int,
            HandlerView {
                outgoing_socket: Some(
                    spec_socket_path(chain_name@, process1@, process2@),
                ),
                ..views(old(handlers_config)@)[i1 as int]
            },
        ));
    }
    let ghost mid = views(handlers_config@);
    let name2 = process2.to_owned();
    let found2 = find_handler(handlers_config, &name2);
    let i2 = match found2 {
        Some(i) => i,
        None => {
            let mut text = String::new();
            text.append("Cannot find ");
            text.append(process2);
            text.append(" as handler in config");
            return Err(ConfigError::ConfigurationError(text));
        },
    };
    let handler2 = &mut handlers_config[i2];
    handler2.incoming_socket = Some(path);
    proof {
        assert(views(handlers_config@) =~~= mid.update(
            i2 as int,
            HandlerView {
                incoming_socket: Some(
                    spec_socket_path(chain_name@, process1@, process2@),
                ),
                ..mid[i2 as int]
            },
        ));
    }
    Ok(())
}

/// The short name of a handler type, as the container name carries it.
pub open spec fn spec_handler_type_short(t: HandlerType) -> Seq<char> {
    match t {
        HandlerType::TransportHandler => "transport"@,
        HandlerType::FilterHandler => "filter"@,
        HandlerType::ProtocolHandler => "ph"@,
    }
}

/// The name a handler's container runs under: the instance, the side
/// of the diode, the chain, the handler's kind and its own name,
/// joined by dots.
pub open spec fn spec_chain_handler_name(
    h: HandlerView,
    chain_name: Seq<char>,
    settings: Settings,
) -> Seq<char> {
    "osdd."@ + settings.instance@ + "."@ + settings.network@ + "."@ + chain_name + "."@
        + spec_handler_type_short(h.handler_type) + "."@ + h.name
}

/// The configured arguments of a handler, each as a `--key value`
/// pair.
pub open spec fn spec_argument_pairs(args: Seq<(Seq<char>, Seq<char>)>) -> Seq<Seq<char>>
    decreases args.len(),
{
    if args.len() == 0 {
        Seq::empty()
    } else {
        seq!["--"@ + args[0].0, args[0].1] + spec_argument_pairs(args.skip(1))
    }
}

/// The socket arguments a handler receives: a filter names its
/// incoming and outgoing stream, any other handler the one stream it
/// has — the incoming one when both are assigned. A handler that the
/// chains never wired up has none.
pub open spec fn spec_socket_args(h: HandlerView) -> Option<Seq<Seq<char>>> {
    match h.handler_type {
        HandlerType::FilterHandler => if h.incoming_socket is Some && h.outgoing_socket is Some {
            Some(
                seq![
                    "--socket_path_in"@,
                    h.incoming_socket->Some_0,
                    "--socket_path_out"@,
                    h.outgoing_socket->Some_0,
                ],
            )
        } else {
            None
        },
        _ => match h.incoming_socket {
            Some(inc) => Some(seq!["--socket_path"@, inc]),
            None => match h.outgoing_socket {
                Some(out) => Some(seq!["--socket_path"@, out]),
                None => None,
            },
        },
    }
}

/// Where a handler sends its statistics: the transport runs on the
/// host network and reaches the multiplexer on the loopback, the rest
/// reach it through the container bridge.
pub open spec fn spec_stats_host(t: HandlerType) -> Seq<char> {
    match t {
        HandlerType::TransportHandler => "127.0.0.1"@,
        _ => "172.17.0.1"@,
    }
}

/// Every argument of a handler's container command, in order.
pub open spec fn spec_command_args(
    h: HandlerView,
    chain_name: Seq<char>,
    stats_port: u16,
    settings: Settings,
    socket_args: Seq<Seq<char>>,
) -> Seq<Seq<char>> {
    seq!["run"@, "-d"@] + (if h.handler_type is TransportHandler {
        seq!["--network"@, "host"@, "--cap-add=sys_nice"@]
    } else {
        Seq::empty()
    }) + (match h.udp_port_option {
        Some(port) => seq![
            "--publish="@ + dec_digits(port as int) + ":"@ + dec_digits(port as int) + "/udp"@,
        ],
        None => Seq::empty(),
    }) + seq!["--name"@, spec_chain_handler_name(h, chain_name, settings)] + seq![
        "--mount"@,
        "type=bind,source="@ + PATH_PREFIX_UNIX_SOCKETS_ON_PROXY@ + ",target="@
            + PATH_PREFIX_UNIX_SOCKETS_IN_DOCKER@,
    ] + seq!["--restart"@, "always"@] + seq!["--entrypoint"@, "./"@ + h.executable] + seq![
        h.executable,
    ] + spec_argument_pairs(h.arguments) + socket_args + seq![
        "--stats_server_address"@,
        spec_stats_host(h.handler_type),
        "--stats_server_port"@,
        dec_digits(stats_port as int),
        "--from_host_sys_log"@,
        FROM_HOST_UDP_SYSLOG@,
        "--from_port_sys_log"@,
        dec_digits(PORT_FROM_UDP_SYSLOG as int),
        "--to_host_sys_log"@,
        settings.syslog_host@,
        "--to_port_sys_log"@,
        settings.syslog_port@,
        "--handler_name"@,
        spec_chain_handler_name(h, chain_name, settings),
    ]
}

/// The container command for one handler of a chain, or nothing when
/// the chains never wired the handler's sockets up.
pub open spec fn spec_create_command(
    h: HandlerView,
    chain_name: Seq<char>,
    stats_port: u16,
    settings: Settings,
) -> Option<CommandView> {
    match spec_socket_args(h) {
        None => None,
        Some(socket_args) => Some(
            CommandView {
                program: "docker"@,
                args: spec_command_args(h, chain_name, stats_port, settings, socket_args),
                current_dir: settings.path@,
                name: spec_chain_handler_name(h, chain_name, settings),
            },
        ),
    }
}

/// One more configured argument extends the pair list by its pair.
proof fn lemma_argument_pairs_take(args: Seq<(Seq<char>, Seq<char>)>, i: int)
    requires
        0 <= i < args.len(),
    ensures
        spec_argument_pairs(args.take(i + 1)) == spec_argument_pairs(args.take(i)) + seq![
            "--"@ + args[i].0,
            args[i].1,
        ],
    decreases i,
{
    if i == 0 {
        assert(args.take(0).len() == 0);
        assert(spec_argument_pairs(args.take(0)) == Seq::<Seq<char>>::empty());
        assert(args.take(1)[0] == args[0]);
        let tail = args.take(1).skip(1);
        assert(tail.len() == 0);
        assert(spec_argument_pairs(tail) == Seq::<Seq<char>>::empty());
        assert(spec_argument_pairs(args.take(1)) == seq!["--"@ + args[0].0, args[0].1]
            + spec_argument_pairs(tail));
        assert(spec_argument_pairs(args.take(1)) =~~= spec_argument_pairs(args.take(0)) + seq![
            "--"@ + args[0].0,
            args[0].1,
        ]);
    } else {
        let rest = args.skip(1);
        lemma_argument_pairs_take(rest, i - 1);
        assert(args.take(i + 1)[0] == args[0]);
        assert(args.take(i)[0] == args[0]);
        assert(args.take(i + 1).skip(1) =~~= rest.take(i));
        assert(args.take(i).skip(1) =~~= rest.take(i - 1));
        assert(rest[i - 1] == args[i]);
        assert(spec_argument_pairs(args.take(i + 1)) =~~= spec_argument_pairs(args.take(i))
            + seq!["--"@ + args[i].0, args[i].1]);
    }
}

/// Pushes one argument, extending the command's argument views by
/// the argument's characters.
fn push_arg(command: &mut Vec<String>, arg: String)
    ensures
        final(command)@.map_values(|s: String| s@) == old(command)@.map_values(|s: String| s@)
            + seq![arg@],
{
    let ghost arg_view = arg@;
    command.push(arg);
    proof {
        assert(final(command)@.map_values(|s: String| s@) =~~= old(command)@.map_values(
            |s: String| s@,
        ) + seq![arg_view]);
    }
}

impl Handler {
    /// Builds the container command that runs this handler inside its
    /// chain. An error when the chains never wired the handler's
    /// sockets up.
    #[verifier::rlimit(100)]
    pub fn create_command(
        &self,
        chain_name: &str,
        stats_port: u16,
        settings: &Settings,
    ) -> (result: Result<CommandWithName, ConfigError>)
        ensures
            match spec_create_command(self@, chain_name@, stats_port, *settings) {
                Some(cmd) => result matches Ok(c) && c@ == cmd,
                None => result is Err,
            },
    {
        let mut command: Vec<String> = Vec::new();
        push_arg(&mut command, "run".to_owned());
        push_arg(&mut command, "-d".to_owned());
        if let HandlerType::TransportHandler = self.handler_type {
            push_arg(&mut command, "--network".to_owned());
            push_arg(&mut command, "host".to_owned());
            push_arg(&mut command, "--cap-add=sys_nice".to_owned());
        }
        if let Some(port) = self.udp_port_option {
            let mut publish = String::new();
            publish.append("--publish=");
            let port_digits = u16_to_string(port);
            publish.append(port_digits.as_str());
            publish.append(":");
            publish.append(port_digits.as_str());
            publish.append("/udp");
            assert(publish@ =~~= "--publish="@ + dec_digits(port as int) + ":"@ + dec_digits(
                port as int,
            ) + "/udp"@);
            push_arg(&mut command, publish);
        }
        let chain_handler_name = self.chain_handler_name(chain_name, settings);
        push_arg(&mut command, "--name".to_owned());
        push_arg(&mut command, chain_handler_name.clone());
        push_arg(&mut command, "--mount".to_owned());
        let mut mount = String::new();
        mount.append("type=bind,source=");
        mount.append(PATH_PREFIX_UNIX_SOCKETS_ON_PROXY);
        mount.append(",target=");
        mount.append(PATH_PREFIX_UNIX_SOCKETS_IN_DOCKER);
        push_arg(&mut command, mount);
        push_arg(&mut command, "--restart".to_owned());
        push_arg(&mut command, "always".to_owned());
        push_arg(&mut command, "--entrypoint".to_owned());
        let mut entry = String::new();
        entry.append("./");
        entry.append(self.executable.as_str());
        push_arg(&mut command, entry);
        push_arg(&mut command, self.executable.clone());
        let ghost base = command@.map_values(|s: String| s@);
        let mut k: usize = 0;
        while k < self.arguments.len()
            invariant
                k <= self.arguments@.len(),
                command@.map_values(|s: String| s@) == base + spec_argument_pairs(
                    self@.arguments.take(k as int),
                ),
            decreases self.arguments@.len() - k,
        {
            let mut key = String::new();
            key.append("--");
            key.append(self.arguments[k].0.as_str());
            assert(key@ =~~= "--"@ + self@.arguments[k as int].0);
            push_arg(&mut command, key);
            push_arg(&mut command, self.arguments[k].1.clone());
            proof {
                lemma_argument_pairs_take(self@.arguments, k as int);
                assert(self@.arguments[k as int].1 == self.arguments@[k as int].1@);
                assert(command@.map_values(|s: String| s@) =~~= base + spec_argument_pairs(
                    self@.arguments.take(k + 1),
                ));
            }
            k = k + 1;
        }
        proof {
            assert(self@.arguments.take(self.arguments@.len() as int) =~~= self@.arguments);
        }
        let socket_result = match self.handler_type {
            HandlerType::FilterHandler => self.command_socket_paths_filter(&mut command),
            _ => self.command_socket_path_transport_protocol(&mut command),
        };
        if let Err(e) = socket_result {
            return Err(e);
        }
        push_arg(&mut command, "--stats_server_address".to_owned());
        match self.handler_type {
            HandlerType::TransportHandler => push_arg(&mut command, "127.0.0.1".to_owned()),
            _ => push_arg(&mut command, "172.17.0.1".to_owned()),
        }
        push_arg(&mut command, "--stats_server_port".to_owned());
        push_arg(&mut command, u16_to_string(stats_port));
        push_arg(&mut command, "--from_host_sys_log".to_owned());
        push_arg(&mut command, FROM_HOST_UDP_SYSLOG.to_owned());
        push_arg(&mut command, "--from_port_sys_log".to_owned());
        push_arg(&mut command, u16_to_string(PORT_FROM_UDP_SYSLOG));
        push_arg(&mut command, "--to_host_sys_log".to_owned());
        push_arg(&mut command, settings.syslog_host.clone());
        push_arg(&mut command, "--to_port_sys_log".to_owned());
        push_arg(&mut command, settings.syslog_port.clone());
        push_arg(&mut command, "--handler_name".to_owned());
        push_arg(&mut command, chain_handler_name.clone());
        proof {
            assert(command@.map_values(|s: String| s@) =~~= spec_command_args(
                self@,
                chain_name@,
                stats_port,
                *settings,
                spec_socket_args(self@)->Some_0,
            ));
        }
        Ok(
            CommandWithName {
                program: "docker".to_owned(),
                args: command,
                current_dir: settings.path.clone(),
                name: chain_handler_name,
            },
        )
    }

    /// Builds the name this handler's container runs under in the
    /// given chain.
    fn chain_handler_name(&self, chain_name: &str, settings: &Settings) -> (name: String)
        ensures
            name@ == spec_chain_handler_name(self@, chain_name@, *settings),
    {
        let mut name = String::new();
        name.append("osdd.");
        name.append(settings.instance.as_str());
        name.append(".");
        name.append(settings.network.as_str());
        name.append(".");
        name.append(chain_name);
        name.append(".");
        match self.handler_type {
            HandlerType::TransportHandler => name.append("transport"),
            HandlerType::FilterHandler => name.append("filter"),
            HandlerType::ProtocolHandler => name.append("ph"),
        }
        name.append(".");
        name.append(self.name.as_str());
        name
    }

    /// Pushes the one socket argument a protocol or transport handler
    /// takes: its incoming stream, or failing that its outgoing one.
    /// An error when it has neither.
    fn command_socket_path_transport_protocol(&self, command: &mut Vec<String>) -> (result: Result<
        (),
        ConfigError,
    >)
        requires
            !(self.handler_type is FilterHandler),
        ensures
            match spec_socket_args(self@) {
                Some(socket_args) => result is Ok && final(command)@.map_values(|s: String| s@)
                    == old(command)@.map_values(|s: String| s@) + socket_args,
                None => result is Err && *final(command) == *old(command),
            },
    {
        let socket: &String = match &self.incoming_socket {
            Some(x) => x,
            None => match &self.outgoing_socket {
                Some(x) => x,
                None => {
                    let mut text = String::new();
                    text.append("Cannot bind ");
                    text.append(self.name.as_str());
                    text.append(" to other handler in chain");
                    return Err(ConfigError::ConfigurationError(text));
                },
            },
        };
        command.push("--socket_path".to_owned());
        command.push(socket.clone());
        proof {
            assert(final(command)@.map_values(|s: String| s@) =~~= old(command)@.map_values(
                |s: String| s@,
            ) + spec_socket_args(self@)->Some_0);
        }
        Ok(())
    }

    /// Pushes the two socket arguments a filter takes: its incoming
    /// and its outgoing stream. An error when either is missing; a
    /// missing outgoing stream leaves the incoming arguments pushed.
    fn command_socket_paths_filter(&self, command: &mut Vec<String>) -> (result: Result<
        (),
        ConfigError,
    >)
        requires
            self.handler_type is FilterHandler,
        ensures
            match spec_socket_args(self@) {
                Some(socket_args) => result is Ok && final(command)@.map_values(|s: String| s@)
                    == old(command)@.map_values(|s: String| s@) + socket_args,
                None => result is Err,
            },
    {
        let incoming = match &self.incoming_socket {
            Some(x) => x,
            None => {
                let mut text = String::new();
                text.append("Cannot bind ");
                text.append(self.name.as_str());
                text.append(" to other handler in chain");
                return Err(ConfigError::ConfigurationError(text));
            },
        };
        command.push("--socket_path_in".to_owned());
        command.push(incoming.clone());
        let outgoing = match &self.outgoing_socket {
            Some(x) => x,
            None => {
                let mut text = String::new();
                text.append("Cannot bind ");
                text.append(self.name.as_str());
                text.append(" to other handler in chain");
                return Err(ConfigError::ConfigurationError(text));
            },
        };
        command.push("--socket_path_out".to_owned());
        command.push(outgoing.clone());
        proof {
            assert(final(command)@.map_values(|s: String| s@) =~~= old(command)@.map_values(
                |s: String| s@,
            ) + spec_socket_args(self@)->Some_0);
        }
        Ok(())
    }
}

/// The handlers of one chain, in chain order: the protocol handler,
/// the filters, the transport handler.
pub open spec fn chain_members(c: Chain) -> Seq<Seq<char>> {
    seq![c.protocol_handler@] + c.filter_handlers@.map_values(|s: String| s@) + seq![
        c.transport_handler@,
    ]
}

/// Wiring one chain: every neighbouring pair of members, front to
/// back, gets its stream assigned; a member that no handler carries
/// fails.
pub open spec fn spec_assign_chain(
    handlers: Seq<HandlerView>,
    chain: Seq<char>,
    members: Seq<Seq<char>>,
    k: int,
) -> Option<Seq<HandlerView>>
    decreases members.len() - k,
{
    if k < 0 || k + 1 >= members.len() {
        Some(handlers)
    } else {
        match spec_assign_sockets(handlers, chain, members[k], members[k + 1]) {
            None => None,
            Some(assigned) => spec_assign_chain(assigned, chain, members, k + 1),
        }
    }
}

/// The commands of one wired chain, from the `k`-th member on: each
/// member's first handler, turned into its container command.
pub open spec fn spec_chain_commands(
    handlers: Seq<HandlerView>,
    members: Seq<Seq<char>>,
    chain: Seq<char>,
    stats_port: u16,
    settings: Settings,
    k: int,
) -> Option<Seq<CommandView>>
    decreases members.len() - k,
{
    if k < 0 || k >= members.len() {
        Some(Seq::empty())
    } else {
        let i = handler_index(handlers, members[k]);
        if i < 0 {
            None
        } else {
            match spec_create_command(handlers[i], chain, stats_port, settings) {
                None => None,
                Some(cmd) => match spec_chain_commands(
                    handlers,
                    members,
                    chain,
                    stats_port,
                    settings,
                    k + 1,
                ) {
                    None => None,
                    Some(rest) => Some(seq![cmd] + rest),
                },
            }
        }
    }
}

/// Working through the chains from the `k`-th on: each chain is wired
/// up — the assignments carry over into later chains — and then its
/// commands are built.
pub open spec fn spec_all_commands(
    handlers: Seq<HandlerView>,
    chains: Seq<Chain>,
    stats_port: u16,
    settings: Settings,
    k: int,
) -> Option<(Seq<HandlerView>, Seq<CommandView>)>
    decreases chains.len() - k,
{
    if k < 0 || k >= chains.len() {
        Some((handlers, Seq::empty()))
    } else {
        let members = chain_members(chains[k]);
        match spec_assign_chain(handlers, chains[k].name@, members, 0) {
            None => None,
            Some(assigned) => match spec_chain_commands(
                assigned,
                members,
                chains[k].name@,
                stats_port,
                settings,
                0,
            ) {
                None => None,
                Some(cmds) => match spec_all_commands(
                    assigned,
                    chains,
                    stats_port,
                    settings,
                    k + 1,
                ) {
                    None => None,
                    Some(r) => Some((r.0, cmds + r.1)),
                },
            },
        }
    }
}

/// Builds the container command of every handler of every chain: each
/// chain's members are wired together by their shared socket paths,
/// and every member becomes one command, in chain order. An error
/// names the first member the configuration does not hold, or the
/// first handler whose sockets could not be wired.
#[verifier::loop_isolation(false)]
#[verifier::rlimit(100)]
pub fn create_commands_all_handlers(
    chains: Vec<Chain>,
    handlers_config: Vec<Handler>,
    stats_multiplexer_listening_port_u16: u16,
    settings: &Settings,
) -> (result: Result<Vec<CommandWithName>, ConfigError>)
    ensures
        match spec_all_commands(
            views(handlers_config@),
            chains@,
            stats_multiplexer_listening_port_u16,
            *settings,
            0,
        ) {
            Some(r) => result matches Ok(commands) && commands@.map_values(
                |c: CommandWithName| c@,
            ) == r.1,
            None => result is Err,
        },
{
    let ghost orig = views(handlers_config@);
    let port = stats_multiplexer_listening_port_u16;
    let mut handlers = handlers_config;
    let mut commands: Vec<CommandWithName> = Vec::new();
    let n_chains = chains.len();
    let mut ci: usize = 0;
    while ci < n_chains
        invariant
            ci <= chains@.len(),
            n_chains == chains@.len(),
            spec_all_commands(orig, chains@, port, *settings, 0) == (match spec_all_commands(
                views(handlers@),
                chains@,
                port,
                *settings,
                ci as int,
            ) {
                None => None::<(Seq<HandlerView>, Seq<CommandView>)>,
                Some(r) => Some(
                    (r.0, commands@.map_values(|c: CommandWithName| c@) + r.1),
                ),
            }),
        decreases n_chains - ci,
    {
        let ghost hs_start = views(handlers@);
        let chain = &chains[ci];
        let mut members: Vec<String> = Vec::new();
        members.push(chain.protocol_handler.clone());
        let mut fi: usize = 0;
        while fi < chain.filter_handlers.len()
            invariant
                fi <= chain.filter_handlers@.len(),
                chain == &chains@[ci as int],
                members@.map_values(|s: String| s@) == seq![chain.protocol_handler@]
                    + chain.filter_handlers@.take(fi as int).map_values(|s: String| s@),
            decreases chain.filter_handlers@.len() - fi,
        {
            let ghost prev = members@.map_values(|s: String| s@);
            members.push(chain.filter_handlers[fi].clone());
            proof {
                let pushed = chain.filter_handlers@[fi as int]@;
                assert(members@.map_values(|s: String| s@) =~~= prev + seq![pushed]);
                assert(chain.filter_handlers@.take(fi + 1).map_values(|s: String| s@)
                    =~~= chain.filter_handlers@.take(fi as int).map_values(|s: String| s@)
                    + seq![pushed]);
                assert(members@.map_values(|s: String| s@) =~~= seq![chain.protocol_handler@]
                    + chain.filter_handlers@.take(fi + 1).map_values(|s: String| s@));
            }
            fi = fi + 1;
        }
        members.push(chain.transport_handler.clone());
        proof {
            assert(chain.filter_handlers@.take(chain.filter_handlers@.len() as int)
                =~~= chain.filter_handlers@);
            assert(members@.map_values(|s: String| s@) =~~= chain_members(chains@[ci as int]));
        }
        let ghost mv = members@.map_values(|s: String| s@);
        let mut j: usize = 0;
        while j + 1 < members.len()
            invariant
                members@.len() >= 2,
                j <= members@.len() - 1,
                mv == members@.map_values(|s: String| s@),
                chain == &chains@[ci as int],
                spec_assign_chain(hs_start, chain.name@, mv, 0) == spec_assign_chain(
                    views(handlers@),
                    chain.name@,
                    mv,
                    j as int,
                ),
            decreases members@.len() - j,
        {
            let ghost hs_cur = views(handlers@);
            let result = assign_sockets(
                &mut handlers,
                members[j].as_str(),
                members[j + 1].as_str(),
                chain.name.as_str(),
            );
            proof {
                assert(mv[j as int] == members@[j as int]@);
                assert(mv[j + 1] == members@[j + 1]@);
            }
            match result {
                Ok(_) => {
                    proof {
                        assert(spec_assign_sockets(hs_cur, chain.name@, mv[j as int], mv[j + 1])
                            == Some(views(handlers@)));
                    }
                },
                Err(e) => {
                    proof {
                        assert(spec_assign_sockets(hs_cur, chain.name@, mv[j as int], mv[j + 1])
                            is None);
                        assert(spec_assign_chain(hs_cur, chain.name@, mv, j as int) is None);
                        assert(spec_all_commands(hs_start, chains@, port, *settings, ci as int)
                            is None);
                    }
                    return Err(e);
                },
            }
            j = j + 1;
        }
        let ghost hs_assigned = views(handlers@);
        proof {
            assert(spec_assign_chain(hs_assigned, chain.name@, mv, j as int) == Some(
                hs_assigned,
            ));
            assert(spec_assign_chain(hs_start, chain.name@, mv, 0) == Some(hs_assigned));
        }
        let ghost commands_before = commands@.map_values(|c: CommandWithName| c@);
        let mut mi: usize = 0;
        while mi < members.len()
            invariant
                mi <= members@.len(),
                mv == members@.map_values(|s: String| s@),
                chain == &chains@[ci as int],
                views(handlers@) == hs_assigned,
                spec_assign_chain(hs_start, chain.name@, mv, 0) == Some(hs_assigned),
                commands_before.len() <= commands@.len(),
                commands_before == commands@.map_values(|c: CommandWithName| c@).take(
                    commands_before.len() as int,
                ),
                spec_chain_commands(hs_assigned, mv, chain.name@, port, *settings, 0) == (
                match spec_chain_commands(
                    hs_assigned,
                    mv,
                    chain.name@,
                    port,
                    *settings,
                    mi as int,
                ) {
                    None => None::<Seq<CommandView>>,
                    Some(rest) => Some(
                        commands@.map_values(|c: CommandWithName| c@).skip(
                            commands_before.len() as int,
                        ) + rest,
                    ),
                }),
            decreases members@.len() - mi,
        {
            let found = find_handler(&handlers, &members[mi]);
            proof {
                assert(mv[mi as int] == members@[mi as int]@);
            }
            let hi = match found {
                Some(i) => i,
                None => {
                    proof {
                        assert(handler_index(hs_assigned, mv[mi as int]) < 0);
                        assert(spec_chain_commands(
                            hs_assigned,
                            mv,
                            chain.name@,
                            port,
                            *settings,
                            mi as int,
                        ) is None);
                        assert(spec_all_commands(hs_start, chains@, port, *settings, ci as int)
                            is None);
                    }
                    let mut text = String::new();
                    text.append("Cannot find ");
                    text.append(members[mi].as_str());
                    text.append(" as handler in config");
                    return Err(ConfigError::ConfigurationError(text));
                },
            };
            let created = handlers[hi].create_command(chain.name.as_str(), port, settings);
            proof {
                assert(views(handlers@)[hi as int] == handlers@[hi as int]@);
            }
            match created {
                Ok(cmd) => {
                    let ghost cmd_view = cmd@;
                    commands.push(cmd);
                    proof {
                        assert(commands@.map_values(|c: CommandWithName| c@)
                            =~~= commands@.map_values(|c: CommandWithName| c@).take(
                            commands@.len() - 1,
                        ) + seq![cmd_view]);
                        assert(commands@.map_values(|c: CommandWithName| c@).skip(
                            commands_before.len() as int,
                        ) =~~= commands@.map_values(|c: CommandWithName| c@).take(
                            commands@.len() - 1,
                        ).skip(commands_before.len() as int) + seq![cmd_view]);
                        assert(commands_before =~~= commands@.map_values(
                            |c: CommandWithName| c@,
                        ).take(commands_before.len() as int));
                    }
                },
                Err(e) => {
                    proof {
                        assert(spec_create_command(
                            hs_assigned[hi as int],
                            chain.name@,
                            port,
                            *settings,
                        ) is None);
                        assert(spec_chain_commands(
                            hs_assigned,
                            mv,
                            chain.name@,
                            port,
                            *settings,
                            mi as int,
                        ) is None);
                        assert(spec_all_commands(hs_start, chains@, port, *settings, ci as int)
                            is None);
                    }
                    return Err(e);
                },
            }
            mi = mi + 1;
        }
        proof {
            assert(spec_chain_commands(hs_assigned, mv, chain.name@, port, *settings, mi as int)
                == Some(Seq::<CommandView>::empty()));
            let chunk = commands@.map_values(|c: CommandWithName| c@).skip(
                commands_before.len() as int,
            );
            assert(chunk + Seq::<CommandView>::empty() =~~= chunk);
            assert(spec_chain_commands(hs_assigned, mv, chain.name@, port, *settings, 0) == Some(
                chunk,
            ));
            assert(mv == chain_members(chains@[ci as int]));
            assert(commands_before + chunk =~~= commands@.map_values(|c: CommandWithName| c@));
        }
        ci = ci + 1;
    }
    proof {
        assert(spec_all_commands(views(handlers@), chains@, port, *settings, ci as int) == Some(
            (views(handlers@), Seq::<CommandView>::empty()),
        ));
        assert(commands@.map_values(|c: CommandWithName| c@) + Seq::<CommandView>::empty()
            =~~= commands@.map_values(|c: CommandWithName| c@));
    }
    Ok(commands)
}

} // verus!
