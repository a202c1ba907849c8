use moneywright_desktop::reaper::ListenerTool;

fn strings(v: &[&str]) -> Vec<String> {
    v.iter().map(|s| s.to_string()).collect()
}

#[test]
fn lsof_query_asks_for_listeners_only() {
    assert_eq!(ListenerTool::Lsof.program(), "lsof");
    assert_eq!(ListenerTool::Lsof.query_args(17777), strings(&["-ti", "tcp:17777", "-sTCP:LISTEN"]));
}

#[test]
fn ss_query_asks_for_listeners_only() {
    assert_eq!(ListenerTool::Ss.program(), "ss");
    assert_eq!(ListenerTool::Ss.query_args(17777), strings(&["-tlnp", "sport = :17777"]));
}

#[test]
fn netstat_query_asks_for_listeners_only() {
    assert_eq!(ListenerTool::Netstat.program(), "cmd");
    assert_eq!(
        ListenerTool::Netstat.query_args(8080),
        strings(&["/C", "netstat -ano | findstr :8080 | findstr LISTENING"])
    );
}

#[test]
fn query_writes_small_ports_without_padding() {
    assert_eq!(ListenerTool::Lsof.query_args(0)[1], "tcp:0");
    assert_eq!(ListenerTool::Ss.query_args(65535)[1], "sport = :65535");
}

#[test]
fn lsof_output_lists_one_pid_per_line() {
    assert_eq!(ListenerTool::Lsof.listening_pids("123\n 456 \n\n789"), strings(&["123", "456", "789"]));
    assert_eq!(ListenerTool::Lsof.listening_pids("123\r\n456\r\n"), strings(&["123", "456"]));
}

#[test]
fn empty_output_names_nobody() {
    assert!(ListenerTool::Lsof.listening_pids("").is_empty());
    assert!(ListenerTool::Ss.listening_pids("").is_empty());
    assert!(ListenerTool::Netstat.listening_pids("").is_empty());
}

#[test]
fn ss_output_names_the_owner() {
    let out = "State  Recv-Q Send-Q Local Address:Port Peer Address:Port Process\n\
               LISTEN 0      511          *:17777           *:*    users:((\"bun\",pid=12345,fd=20))\n";
    assert_eq!(ListenerTool::Ss.listening_pids(out), strings(&["12345"]));
}

#[test]
fn ss_line_without_end_of_digits_is_skipped() {
    assert!(ListenerTool::Ss.listening_pids("users:((\"bun\",pid=12345").is_empty());
    assert!(ListenerTool::Ss.listening_pids("pid=,fd=3").is_empty());
    assert_eq!(ListenerTool::Ss.listening_pids("a pid=1) b pid=2)"), strings(&["1"]));
}

#[test]
fn netstat_output_names_the_owner() {
    let out = "  TCP    0.0.0.0:17777          0.0.0.0:0              LISTENING       4321\r\n  TCP    [::]:17777             [::]:0                 LISTENING       0\r\n";
    assert_eq!(ListenerTool::Netstat.listening_pids(out), strings(&["4321"]));
}

#[test]
fn netstat_pid_must_parse_as_u32() {
    assert_eq!(ListenerTool::Netstat.listening_pids("x LISTENING +12"), strings(&["+12"]));
    assert!(ListenerTool::Netstat.listening_pids("x LISTENING 4294967296").is_empty());
    assert_eq!(ListenerTool::Netstat.listening_pids("x LISTENING 4294967295"), strings(&["4294967295"]));
    assert!(ListenerTool::Netstat.listening_pids("x LISTENING 12a").is_empty());
    assert!(ListenerTool::Netstat.listening_pids("x LISTENING +").is_empty());
    assert!(ListenerTool::Netstat.listening_pids("x LISTENING -5").is_empty());
}

#[test]
fn kill_commands() {
    assert_eq!(ListenerTool::Lsof.kill_program(), "kill");
    assert_eq!(ListenerTool::Ss.kill_args("42"), strings(&["-9", "42"]));
    assert_eq!(ListenerTool::Netstat.kill_program(), "taskkill");
    assert_eq!(ListenerTool::Netstat.kill_args("42"), strings(&["/F", "/PID", "42"]));
}
