//! What the command line of the node says, once it has been parsed.

use vstd::prelude::*;
use vstd::string::*;

verus! {

/// How much the node logs.
#[derive(Clone, Copy, Debug, PartialEq, Eq, Structural)]
pub enum LogLevel {
    TRACE,
    DEBUG,
    INFO,
    WARN,
    ERROR,
}

/// The level that a word names, if it names one. The five names are written
/// in lower case; no other spelling is a name.
pub open spec fn level_named(word: Seq<char>) -> Option<LogLevel> {
    if word == "trace"@ {
        Some(LogLevel::TRACE)
    } else if word == "debug"@ {
        Some(LogLevel::DEBUG)
    } else if word == "info"@ {
        Some(LogLevel::INFO)
    } else if word == "warn"@ {
        Some(LogLevel::WARN)
    } else if word == "error"@ {
        Some(LogLevel::ERROR)
    } else {
        None
    }
}

/// Whether two texts are the same.
fn same_text(a: &str, b: &str) -> (same: bool)
    ensures
        same == (a@ == b@),
{
    a.to_owned() == b.to_owned()
}

impl LogLevel {
    /// Reads a level from its name. Any other word is an error.
    pub fn from_str(s: &str) -> (parsed: Result<LogLevel, String>)
        ensures
            match parsed {
                Ok(level) => level_named(s@) == Some(level),
                Err(why) => level_named(s@) is None && why@ == "Unable to parse log level"@,
            },
    {
        if same_text(s, "trace") {
            Ok(LogLevel::TRACE)
        } else if same_text(s, "debug") {
            Ok(LogLevel::DEBUG)
        } else if same_text(s, "info") {
            Ok(LogLevel::INFO)
        } else if same_text(s, "warn") {
            Ok(LogLevel::WARN)
        } else if same_text(s, "error") {
            Ok(LogLevel::ERROR)
        } else {
            Err("Unable to parse log level".to_owned())
        }
    }
}

impl std::str::FromStr for LogLevel {
    type Err = String;

    /// Reads a level from its name, as the method of the same name on
    /// `LogLevel` does.
    fn from_str(s: &str) -> (parsed: Result<LogLevel, String>)
        ensures
            match parsed {
                Ok(level) => level_named(s@) == Some(level),
                Err(why) => level_named(s@) is None && why@ == "Unable to parse log level"@,
            },
    {
        LogLevel::from_str(s)
    }
}

/// What to join the swarm with.
#[derive(Debug)]
pub struct JoinOpts {
    topics: Vec<String>,
    name: Option<String>,
}

impl JoinOpts {
    /// The topics, as given.
    pub closed spec fn spec_topics(&self) -> Seq<String> {
        self.topics@
    }

    /// The name, if one was given.
    pub closed spec fn spec_name(&self) -> Option<String> {
        self.name
    }

    /// Options to join `topics` under `name`.
    pub fn new(topics: Vec<String>, name: Option<String>) -> (opts: JoinOpts)
        ensures
            opts.spec_topics() == topics@,
            opts.spec_name() == name,
    {
        JoinOpts { topics, name }
    }

    /// The topics to announce and to look up.
    pub fn topics(&self) -> (topics: &[String])
        ensures
            topics@ == self.spec_topics(),
    {
        self.topics.as_slice()
    }

    /// The name to send to peers in the initial message, if one was given.
    pub fn name(&self) -> (name: Option<&String>)
        ensures
            match name {
                Some(name) => self.spec_name() == Some(*name),
                None => self.spec_name() is None,
            },
    {
        self.name.as_ref()
    }
}

/// What the node is to do.
#[derive(Debug)]
pub enum Command {
    /// Run a DHT bootstrap node.
    Bootstrap,
    /// Join the swarm and connect to peers.
    Join(JoinOpts),
}

/// Everything the command line says. Addresses are kept as they were
/// written, in the form `host:port`.
#[derive(Debug)]
pub struct Opts {
    bootstrap: Vec<String>,
    bind: Option<String>,
    level: LogLevel,
    command: Command,
}

impl Opts {
    /// The bootstrap addresses, as given.
    pub closed spec fn spec_bootstrap(&self) -> Seq<String> {
        self.bootstrap@
    }

    /// The address to bind to, if one was given.
    pub closed spec fn spec_bind(&self) -> Option<String> {
        self.bind
    }

    /// The log level.
    pub closed spec fn spec_log_level(&self) -> LogLevel {
        self.level
    }

    /// The command.
    pub closed spec fn spec_command(&self) -> Command {
        self.command
    }

    /// Options made of their parts.
    pub fn new(
        bootstrap: Vec<String>,
        bind: Option<String>,
        level: LogLevel,
        command: Command,
    ) -> (opts: Opts)
        ensures
            opts.spec_bootstrap() == bootstrap@,
            opts.spec_bind() == bind,
            opts.spec_log_level() == level,
            opts.spec_command() == command,
    {
        Opts { bootstrap, bind, level, command }
    }

    /// The addresses of the nodes to bootstrap from.
    pub fn bootstrap(&self) -> (addrs: &[String])
        ensures
            addrs@ == self.spec_bootstrap(),
    {
        self.bootstrap.as_slice()
    }

    /// The address to bind the DHT node to, if one was given.
    pub fn bind(&self) -> (addr: Option<&String>)
        ensures
            match addr {
                Some(addr) => self.spec_bind() == Some(*addr),
                None => self.spec_bind() is None,
            },
    {
        self.bind.as_ref()
    }

    /// How much to log.
    pub fn log_level(&self) -> (level: &LogLevel)
        ensures
            *level == self.spec_log_level(),
    {
        &self.level
    }

    /// What to do.
    pub fn command(&self) -> (command: &Command)
        ensures
            *command == self.spec_command(),
    {
        &self.command
    }
}

} // verus!
