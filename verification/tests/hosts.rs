use std::collections::BTreeMap;

use rollcall::hosts::{
    expand_include, is_literal_alias, parse_effective_config, read_line, resolve_arguments,
    resolve_host, AliasSource, ConfigLine, ConfigWalk, ConnectivityState, HostDiscoveryError,
    WalkStep,
};
use rollcall::tmux::CommandOutcome;

/// Walks a configuration whose files are held in memory. A pattern matches every file whose
/// path has the same directory and ending.
fn discover_aliases(
    config: &str,
    files: &BTreeMap<&str, &str>,
) -> Result<Vec<AliasSource>, HostDiscoveryError> {
    let mut walk = ConfigWalk::new(config);
    loop {
        match walk.next("/home/fin/.ssh", "/home/fin")? {
            WalkStep::Continue => {}
            WalkStep::Open(path) => {
                let contents = files.get(path.as_str()).map(|text| (*text).to_owned());
                walk.opened(path.clone(), &path, contents);
            }
            WalkStep::Match(pattern) => {
                let found: Vec<String> = match pattern.split_once('*') {
                    Some((start, end)) => files
                        .keys()
                        .filter(|path| path.starts_with(start) && path.ends_with(end))
                        .map(|path| (*path).to_owned())
                        .collect(),
                    None => vec![pattern],
                };
                walk.matched(&found);
            }
            WalkStep::Done => return Ok(walk.discovered()),
        }
    }
}

fn names(aliases: &[AliasSource]) -> Vec<&str> {
    aliases.iter().map(|found| found.alias.as_str()).collect()
}

#[test]
fn discovers_literal_aliases_and_ignores_patterns() {
    let files = BTreeMap::from([(
        "/home/fin/.ssh/config",
        "\
Host topo coda
  User fin

Host *.example.com !blocked.example.com
  User deploy

Host -invalid
",
    )]);

    let aliases = discover_aliases("/home/fin/.ssh/config", &files)
        .expect("aliases should be discovered");

    assert_eq!(names(&aliases), ["coda", "topo"]);
}

#[test]
fn follows_include_globs_once() {
    let files = BTreeMap::from([
        (
            "/home/fin/.ssh/config",
            "Include config.d/*.conf\nHost laptop\n",
        ),
        (
            "/home/fin/.ssh/config.d/remote.conf",
            "Host topo\nInclude config\n",
        ),
    ]);

    let aliases = discover_aliases("/home/fin/.ssh/config", &files)
        .expect("aliases should be discovered");

    assert_eq!(names(&aliases), ["laptop", "topo"]);
    assert_eq!(aliases[1].source, "/home/fin/.ssh/config.d/remote.conf");
}

#[test]
fn parses_effective_ssh_configuration() {
    let host = parse_effective_config(
        "topo",
        "/home/fin/.ssh/config",
        "\
host topo
user fin
hostname 100.64.0.10
port 2222
identityfile ~/.ssh/id_ed25519
identityfile ~/.ssh/id_work
",
    );

    assert_eq!(host.alias, "topo");
    assert_eq!(host.hostname, "100.64.0.10");
    assert_eq!(host.user.as_deref(), Some("fin"));
    assert_eq!(host.port, 2222);
    assert_eq!(host.identity_files.len(), 2);
    assert_eq!(host.connectivity, ConnectivityState::Unknown);
    assert_eq!(host.resolution_error, None);
}

#[test]
fn a_configuration_without_settings_keeps_the_alias() {
    let host = parse_effective_config("topo", "/etc/ssh", "port none\nuser\n");
    assert_eq!(host.hostname, "topo");
    assert_eq!(host.user, None);
    assert_eq!(host.port, 22);
    assert!(host.identity_files.is_empty());
}

#[test]
fn literal_aliases_hold_no_pattern() {
    assert!(is_literal_alias("topo"));
    assert!(!is_literal_alias("*.example.com"));
    assert!(!is_literal_alias("host?"));
    assert!(!is_literal_alias("!blocked"));
    assert!(!is_literal_alias("-invalid"));
    assert!(!is_literal_alias(""));
}

#[test]
fn lines_are_read_as_a_shell_would() {
    assert_eq!(
        read_line("hOsT topo 'coda' # laptop"),
        ConfigLine::Hosts(vec!["topo".to_owned(), "coda".to_owned()])
    );
    assert_eq!(
        read_line("Include \"a b\" c"),
        ConfigLine::Files(vec!["a b".to_owned(), "c".to_owned()])
    );
    assert_eq!(read_line("User fin"), ConfigLine::Other);
    assert_eq!(read_line("Host 'unclosed"), ConfigLine::Other);
}

#[test]
fn included_files_are_found_from_the_directory_of_the_configuration() {
    let expand = |word: &str| expand_include(word, "/home/fin/.ssh", "/home/fin");
    assert_eq!(
        expand("config.d/*"),
        Ok("/home/fin/.ssh/config.d/*".to_owned())
    );
    assert_eq!(expand("/etc/ssh/*"), Ok("/etc/ssh/*".to_owned()));
    assert_eq!(expand("~/hosts"), Ok("/home/fin/hosts".to_owned()));
}

#[test]
fn a_pattern_that_cannot_be_read_is_reported() {
    let error = expand_include("a***", "/home/fin/.ssh", "/home/fin")
        .expect_err("the pattern should be refused");
    assert!(matches!(
        &error,
        HostDiscoveryError::InvalidInclude { pattern, .. } if pattern == "/home/fin/.ssh/a***"
    ));
    assert!(error.message().contains("/home/fin/.ssh/a***"));
}

#[test]
fn discovery_errors_say_what_failed() {
    assert!(!HostDiscoveryError::MissingHome.message().is_empty());
    let unread = HostDiscoveryError::ReadConfig {
        path: "/etc/ssh".to_owned(),
        source: "denied".to_owned(),
    };
    assert!(unread.message().contains("/etc/ssh"));
    assert!(unread.message().contains("denied"));
    assert!(HostDiscoveryError::StartSsh("missing".to_owned())
        .message()
        .contains("missing"));
}

#[test]
fn a_host_that_ssh_cannot_resolve_keeps_the_reason() {
    assert_eq!(resolve_arguments("topo", None), ["-G", "--", "topo"]);
    assert_eq!(
        resolve_arguments("topo", Some("/tmp/config")),
        ["-G", "-F", "/tmp/config", "--", "topo"]
    );
    let host = resolve_host(
        "topo",
        "/etc/ssh",
        &CommandOutcome {
            success: false,
            status: "exit status: 255".to_owned(),
            stdout: String::new(),
            stderr: "bad option\n".to_owned(),
        },
    );
    assert_eq!(host.hostname, "topo");
    assert_eq!(host.resolution_error.as_deref(), Some("bad option"));
}

#[test]
fn an_alias_counts_for_the_first_file_that_names_it() {
    let files = BTreeMap::from([
        (
            "/home/fin/.ssh/config",
            "Host topo topo\nInclude config.d/*.conf\nInclude config.d/*.conf\nHost coda\n",
        ),
        (
            "/home/fin/.ssh/config.d/more.conf",
            "Host topo coda\n",
        ),
    ]);
    let aliases = discover_aliases("/home/fin/.ssh/config", &files).expect("aliases");
    assert_eq!(names(&aliases), ["coda", "topo"]);
    assert_eq!(aliases[0].source, "/home/fin/.ssh/config.d/more.conf");
    assert_eq!(aliases[1].source, "/home/fin/.ssh/config");
}

#[test]
fn a_file_that_was_read_adds_no_more_work() {
    let mut walk = ConfigWalk::new("config");
    assert!(matches!(walk.next("/base", "/home"), Ok(WalkStep::Open(path)) if path == "config"));
    walk.opened("/it".to_owned(), "config", Some("Host topo\n".to_owned()));
    let pending = walk.work.len();
    assert_eq!(pending, 1);
    walk.opened("/it".to_owned(), "again", Some("Host other\n".to_owned()));
    assert_eq!(walk.work.len(), pending);
    assert!(matches!(walk.next("/base", "/home"), Ok(WalkStep::Continue)));
    assert!(matches!(walk.next("/base", "/home"), Ok(WalkStep::Done)));
    assert_eq!(names(&walk.discovered()), ["topo"]);
}

#[test]
fn a_walk_reports_what_is_wrong_with_a_pattern() {
    let files = BTreeMap::from([("/home/fin/.ssh/config", "Include a***\n")]);
    let found = discover_aliases("/home/fin/.ssh/config", &files).expect_err("the pattern is wrong");
    let fault = glob::Pattern::new("/home/fin/.ssh/a***").expect_err("the pattern is wrong");
    assert_eq!(
        found,
        HostDiscoveryError::InvalidInclude {
            pattern: "/home/fin/.ssh/a***".to_owned(),
            message: fault.to_string(),
        }
    );
}

#[test]
fn the_files_of_a_pattern_are_read_in_the_order_of_their_paths() {
    let mut walk = ConfigWalk::new("config");
    assert!(matches!(walk.next("/base", "/home"), Ok(WalkStep::Open(_))));
    walk.opened("/it".to_owned(), "config", Some("Include d/*\n".to_owned()));
    assert!(matches!(walk.next("/base", "/home"), Ok(WalkStep::Continue)));
    assert!(
        matches!(walk.next("/base", "/home"), Ok(WalkStep::Match(pattern)) if pattern == "/base/d/*")
    );
    walk.matched(&vec!["/base/d-2/a".to_owned(), "/base/d/b".to_owned()]);
    let mut order = Vec::new();
    while let Ok(WalkStep::Open(path)) = walk.next("/base", "/home") {
        order.push(path);
    }
    assert_eq!(order, ["/base/d/b", "/base/d-2/a"]);
}

#[test]
fn files_that_read_each_other_do_not_keep_the_walk_going() {
    let files = BTreeMap::from([
        ("/home/fin/.ssh/config", "Include *\nHost one\n"),
        ("/home/fin/.ssh/more", "Include *\nInclude config\nHost two\n"),
    ]);
    let aliases = discover_aliases("/home/fin/.ssh/config", &files).expect("the walk ends");
    assert_eq!(names(&aliases), ["one", "two"]);
}
