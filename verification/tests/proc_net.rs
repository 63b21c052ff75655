use geolibre_desktop::platform::TargetOs;
use geolibre_desktop::proc_net::{
    collect_listening_tcp_inodes, is_geolibre_jupyter_process, is_geolibre_sidecar_process,
    listening_tcp_inodes, process_has_socket, terminate_jupyter_listeners_on_port,
    terminate_sidecar_listeners_on_port, ProcessEntry,
};

const TABLE: &str = "  sl  local_address rem_address   st tx_queue rx_queue tr tm->when retrnsmt   uid  timeout inode
   0: 0100007F:223D 00000000:0000 0A 00000000:00000000 00:00000000 00000000  1000        0 111 1 0 100 0 0 10 0
   1: 0100007F:223D 0100007F:9999 01 00000000:00000000 00:00000000 00000000  1000        0 222 1 0 20 4 30 10 -1
   2: 00000000:0050 00000000:0000 0A 00000000:00000000 00:00000000 00000000     0        0 333 1 0 100 0 0 10 0
   3: 0100007F:223d 00000000:0000 0A 00000000:00000000 00:00000000 00000000  1000        0 444 1 0 100 0 0 10 0
   4: 0100007F:223D 00000000:0000 0A 00000000:00000000 00:00000000 00000000  1000        0 111 1 0 100 0 0 10 0
   5: short 223D 0A
";

fn entry(name: &str, links: &[&str], command_line: Option<&str>) -> ProcessEntry {
    ProcessEntry {
        name: name.into(),
        links: links.iter().map(|link| link.to_string()).collect(),
        command_line: command_line.map(|text| text.to_string()),
    }
}

#[test]
fn listening_sockets_are_found_by_their_port() {
    let mut inodes = vec!["9".to_string()];
    collect_listening_tcp_inodes(TABLE, 8765, &mut inodes);
    assert_eq!(inodes, vec!["9", "111", "444"]);
    let mut inodes = Vec::new();
    collect_listening_tcp_inodes(TABLE, 80, &mut inodes);
    assert_eq!(inodes, vec!["333"]);
    let mut inodes = Vec::new();
    collect_listening_tcp_inodes("", 80, &mut inodes);
    assert_eq!(inodes, Vec::<String>::new());
}

#[test]
fn the_heading_of_a_table_is_no_socket() {
    let line = "0: 00000000:0050 0:0 0A 0 0 0 0 0 333";
    let mut inodes = Vec::new();
    collect_listening_tcp_inodes(line, 80, &mut inodes);
    assert_eq!(inodes, Vec::<String>::new());
    collect_listening_tcp_inodes(&format!("heading\r\n{line}\r\n"), 80, &mut inodes);
    assert_eq!(inodes, vec!["333"]);
}

#[test]
fn both_tables_are_read() {
    let six = "heading\n 0: 00000000000000000000000001000000:223D 0:0 0A 0 0 0 0 0 555 1\n";
    assert_eq!(
        listening_tcp_inodes(Ok(TABLE.into()), Ok(six.into()), 8765),
        Ok(vec!["111".to_string(), "444".to_string(), "555".to_string()])
    );
    assert_eq!(
        listening_tcp_inodes(Err("denied".into()), Err("gone".into()), 8765),
        Err("Could not read /proc/net/tcp: denied".to_string())
    );
    assert_eq!(
        listening_tcp_inodes(Ok(TABLE.into()), Err("gone".into()), 8765),
        Err("Could not read /proc/net/tcp6: gone".to_string())
    );
}

#[test]
fn sockets_are_told_by_their_links() {
    let inodes = vec!["111".to_string()];
    let has = |links: &[&str]| {
        let links: Vec<String> = links.iter().map(|link| link.to_string()).collect();
        process_has_socket(&links, &inodes)
    };
    assert!(has(&["/dev/null", "socket:[111]"]));
    assert!(!has(&["socket:[1111]", "pipe:[111]", "socket:[111", "111"]));
    assert!(!has(&[]));
}

#[test]
fn own_servers_are_told_by_their_command_line() {
    assert!(is_geolibre_sidecar_process("python\0-m\0uvicorn\0geolibre_server.app.main:app"));
    assert!(is_geolibre_sidecar_process("/x/geolibre_server/app/run.py"));
    assert!(!is_geolibre_sidecar_process("uvicorn other.main:app"));
    assert!(is_geolibre_jupyter_process(
        "jupyter-lab --config=/x/geolibre_server/jupyter_server_config.py"
    ));
    assert!(!is_geolibre_jupyter_process("jupyter-lab --config=/x/jupyter_server_config.py"));
    assert!(!is_geolibre_jupyter_process("geolibre_server"));
}

#[test]
fn only_own_listeners_are_ended() {
    let sidecar = "uvicorn geolibre_server.app.main:app";
    let jupyter = "jupyter --config=/geolibre_server/jupyter_server_config.py";
    let processes = vec![
        entry("self", &["socket:[111]"], Some(sidecar)),
        entry("10", &["socket:[111]"], Some(sidecar)),
        entry("11", &["socket:[222]"], Some(sidecar)),
        entry("12", &["socket:[111]"], Some("nginx")),
        entry("13", &["socket:[111]"], None),
        entry("14", &["socket:[111]"], Some(jupyter)),
        entry("10", &["socket:[111]"], Some(sidecar)),
        entry("99999999999", &["socket:[111]"], Some(sidecar)),
    ];
    let inodes = vec!["111".to_string()];
    assert_eq!(
        terminate_sidecar_listeners_on_port(TargetOs::Linux, &processes, &inodes),
        vec![10]
    );
    assert_eq!(
        terminate_jupyter_listeners_on_port(TargetOs::Linux, &processes, &inodes),
        vec![14]
    );
    for os in [TargetOs::Macos, TargetOs::Windows, TargetOs::Other] {
        assert!(terminate_sidecar_listeners_on_port(os, &processes, &inodes).is_empty());
        assert!(terminate_jupyter_listeners_on_port(os, &processes, &inodes).is_empty());
    }
}
