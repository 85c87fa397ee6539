use spela::torrent::parse_pgrep_pids;

#[test]
fn parse_pgrep_pids_ignores_non_pid_lines() {
    assert_eq!(
        parse_pgrep_pids("123\nnot-a-pid\n456 webtorrent\n0\n"),
        vec![123, 456]
    );
}
