//! The kernel's tables of sockets and processes: which processes listen on a port, and which of
//! them are servers of this application.

use vstd::prelude::*;

use crate::platform::TargetOs;
use crate::{numbers, split, text};

verus! {

// ---------------------------------------------------------------------------
// Listening sockets

/// The lines of a table behind its heading are the parts with an index above 0.
pub open spec fn table_lines(table: Seq<char>) -> Seq<Seq<char>> {
    split::split(table, split::one_of(seq!['\n']))
}

/// The inode of the socket in a line of the table of TCP sockets, if it listens on `port`. The
/// fourth field is the state, the second ends in the port, and the tenth is the inode.
pub open spec fn listening_inode(line: Seq<char>, port: u16) -> Option<Seq<char>> {
    let fields = split::words(line);
    if fields.len() > 9 && fields[3] == "0A"@ {
        match split::after_last(fields[1], ':') {
            Some(local_port) => if text::lower(local_port) == text::lower(numbers::port_hex(port)) {
                Some(fields[9])
            } else {
                None
            },
            None => None,
        }
    } else {
        None
    }
}

/// The table of TCP sockets lists `inode` as the inode of a socket that listens on `port`.
pub open spec fn lists_inode(table: Seq<char>, port: u16, inode: Seq<char>) -> bool {
    exists|i: int|
        1 <= i < table_lines(table).len() && listening_inode(#[trigger] table_lines(table)[i], port)
            == Some(inode)
}

fn inode_in_line(line: &str, port_hex: &str, port: u16) -> (inode: Option<String>)
    requires
        port_hex@ == numbers::port_hex(port),
    ensures
        text::view_of(inode) == listening_inode(line@, port),
{
    let fields = split::split_words(line);
    let ghost words = split::words(line@);
    assert(words.len() == fields@.len());
    if fields.len() <= 9 {
        return None;
    }
    assert(words[3] == fields@[3]@ && words[1] == fields@[1]@ && words[9] == fields@[9]@);
    if !text::same_text(fields[3].as_str(), "0A") {
        return None;
    }
    match split::text_after_last(fields[1].as_str(), ':') {
        Some(local_port) => {
            if text::same_ignoring_case(local_port.as_str(), port_hex) {
                Some(fields[9].clone())
            } else {
                None
            }
        },
        None => None,
    }
}

/// Adds the inodes of the sockets that listen on `port`, as a table lists them, to `inodes`.
pub fn collect_listening_tcp_inodes(table: &str, port: u16, inodes: &mut Vec<String>)
    ensures
        forall|inode: Seq<char>|
            text::views(final(inodes)@).contains(inode) <==> text::views(old(inodes)@).contains(
                inode,
            ) || #[trigger] lists_inode(table@, port, inode),
        text::views(old(inodes)@).no_duplicates() ==> text::views(final(inodes)@).no_duplicates(),
{
    let port_hex = numbers::to_port_hex(port);
    let separators: Vec<char> = vec!['\n'];
    assert(separators@ == seq!['\n']);
    let lines = split::split_at_any(table, &separators);
    let ghost all = table_lines(table@);
    let ghost before = text::views(inodes@);
    assert(all == text::views(lines@));
    let mut i: usize = 1;
    while i < lines.len()
        invariant
            1 <= i,
            all == table_lines(table@),
            all == text::views(lines@),
            port_hex@ == numbers::port_hex(port),
            forall|inode: Seq<char>|
                #![trigger text::views(inodes@).contains(inode)]
                text::views(inodes@).contains(inode) <==> before.contains(inode) || exists|k: int|
                    1 <= k < i && k < all.len() && listening_inode(#[trigger] all[k], port) == Some(
                        inode,
                    ),
            before.no_duplicates() ==> text::views(inodes@).no_duplicates(),
        decreases lines@.len() - i,
    {
        let ghost known = text::views(inodes@);
        assert(all[i as int] == lines@[i as int]@);
        let found = inode_in_line(lines[i].as_str(), port_hex.as_str(), port);
        match found {
            Some(inode) => {
                assert(listening_inode(all[i as int], port) == Some(inode@));
                if !text::holds_text(inodes, inode.as_str()) {
                    let ghost added = inode@;
                    inodes.push(inode);
                    assert(text::views(inodes@) == known.push(added));
                    assert forall|other: Seq<char>|
                        text::views(inodes@).contains(other) <==> known.contains(other) || other
                            == added by {
                        if known.contains(other) {
                            let k = choose|k: int| 0 <= k < known.len() && known[k] == other;
                            assert(text::views(inodes@)[k] == other);
                        }
                        assert(text::views(inodes@)[known.len() as int] == added);
                    }
                }
                assert forall|other: Seq<char>|
                    #![trigger text::views(inodes@).contains(other)]
                    text::views(inodes@).contains(other) <==> before.contains(other)
                        || exists|k: int|
                        1 <= k < i + 1 && k < all.len() && listening_inode(#[trigger] all[k], port)
                            == Some(other) by {
                    assert(text::views(inodes@).contains(other) <==> known.contains(other) || other
                        == inode@);
                    if known.contains(other) && !before.contains(other) {
                        let k = choose|k: int|
                            1 <= k < i && k < all.len() && listening_inode(#[trigger] all[k], port)
                                == Some(other);
                        assert(listening_inode(all[k], port) == Some(other));
                    }
                }
            },
            None => {
                assert(listening_inode(all[i as int], port) is None);
            },
        }
        i = i + 1;
    }
    assert forall|inode: Seq<char>|
        text::views(inodes@).contains(inode) <==> before.contains(inode) || #[trigger] lists_inode(
            table@,
            port,
            inode,
        ) by {
        if lists_inode(table@, port, inode) {
            let k = choose|k: int|
                1 <= k < all.len() && listening_inode(#[trigger] all[k], port) == Some(inode);
            assert(listening_inode(all[k], port) == Some(inode));
        }
    }
}

/// The inodes of the sockets that listen on `port`, from the tables of both address families, or
/// the first table that could not be read.
pub fn listening_tcp_inodes(
    tcp: Result<String, String>,
    tcp6: Result<String, String>,
    port: u16,
) -> (inodes: Result<Vec<String>, String>)
    ensures
        match (text::outcome_view(tcp), text::outcome_view(tcp6)) {
            (Err(error), _) => inodes matches Err(message) && message@
                == "Could not read /proc/net/tcp: "@ + error,
            (Ok(_), Err(error)) => inodes matches Err(message) && message@
                == "Could not read /proc/net/tcp6: "@ + error,
            (Ok(tcp), Ok(tcp6)) => {
                &&& inodes is Ok
                &&& text::views(inodes->Ok_0@).no_duplicates()
                &&& forall|inode: Seq<char>|
                    #![trigger text::views(inodes->Ok_0@).contains(inode)]
                    text::views(inodes->Ok_0@).contains(inode) <==> lists_inode(tcp, port, inode)
                        || lists_inode(tcp6, port, inode)
            },
        },
{
    let tcp = match tcp {
        Ok(table) => table,
        Err(error) => {
            return Err(text::chained("Could not read /proc/net/tcp: ", error.as_str()));
        },
    };
    let tcp6 = match tcp6 {
        Ok(table) => table,
        Err(error) => {
            return Err(text::chained("Could not read /proc/net/tcp6: ", error.as_str()));
        },
    };
    let mut inodes: Vec<String> = Vec::new();
    let ghost none = text::views(inodes@);
    assert(none == Seq::<Seq<char>>::empty());
    collect_listening_tcp_inodes(tcp.as_str(), port, &mut inodes);
    let ghost first = text::views(inodes@);
    collect_listening_tcp_inodes(tcp6.as_str(), port, &mut inodes);
    let ghost second = text::views(inodes@);
    assert forall|inode: Seq<char>|
        #![trigger second.contains(inode)]
        second.contains(inode) <==> lists_inode(tcp@, port, inode) || lists_inode(
            tcp6@,
            port,
            inode,
        ) by {
        let in_tcp = lists_inode(tcp@, port, inode);
        let in_tcp6 = lists_inode(tcp6@, port, inode);
        assert(!none.contains(inode));
        assert(in_tcp ==> first.contains(inode));
        assert(first.contains(inode) ==> in_tcp);
        assert(in_tcp6 ==> second.contains(inode));
        assert(first.contains(inode) ==> second.contains(inode));
        assert(second.contains(inode) ==> in_tcp || in_tcp6);
    }
    Ok(inodes)
}

// ---------------------------------------------------------------------------
// Processes

/// The inode of the socket that the link of a file descriptor leads to, if it leads to one.
pub open spec fn socket_inode(link: Seq<char>) -> Option<Seq<char>> {
    match text::strip_prefix(link, "socket:["@) {
        Some(rest) => text::strip_suffix(rest, "]"@),
        None => None,
    }
}

/// The link of a file descriptor leads to one of the given sockets.
pub open spec fn leads_to_socket(link: Seq<char>, inodes: Seq<Seq<char>>) -> bool {
    socket_inode(link) matches Some(inode) && inodes.contains(inode)
}

/// One of the links leads to one of the given sockets.
pub open spec fn has_socket(links: Seq<Seq<char>>, inodes: Seq<Seq<char>>) -> bool {
    exists|i: int| 0 <= i < links.len() && leads_to_socket(#[trigger] links[i], inodes)
}

fn link_leads_to_socket(link: &str, inodes: &Vec<String>) -> (answer: bool)
    ensures
        answer == leads_to_socket(link@, text::views(inodes@)),
{
    match text::without_prefix(link, "socket:[") {
        Some(rest) => match text::without_suffix(rest.as_str(), "]") {
            Some(inode) => text::holds_text(inodes, inode.as_str()),
            None => false,
        },
        None => false,
    }
}

/// Whether a process holds one of the given sockets, by the links of its file descriptors.
pub fn process_has_socket(links: &Vec<String>, inodes: &Vec<String>) -> (answer: bool)
    ensures
        answer == has_socket(text::views(links@), text::views(inodes@)),
{
    let ghost all = text::views(links@);
    let mut i: usize = 0;
    while i < links.len()
        invariant
            all == text::views(links@),
            i <= links@.len(),
            forall|j: int|
                0 <= j < i ==> !leads_to_socket(#[trigger] all[j], text::views(inodes@)),
        decreases links@.len() - i,
    {
        if link_leads_to_socket(links[i].as_str(), inodes) {
            assert(leads_to_socket(all[i as int], text::views(inodes@)));
            return true;
        }
        i = i + 1;
    }
    false
}

/// A command line that starts the processing server of this application.
pub open spec fn sidecar_command(command_line: Seq<char>) -> bool {
    text::occurs_in(command_line, "geolibre_server.app.main"@) || text::occurs_in(
        command_line,
        "geolibre_server/app"@,
    )
}

/// Whether a command line starts the processing server of this application.
pub fn is_geolibre_sidecar_process(command_line: &str) -> (answer: bool)
    ensures
        answer == sidecar_command(command_line@),
{
    text::has_text(command_line, "geolibre_server.app.main") || text::has_text(
        command_line,
        "geolibre_server/app",
    )
}

/// A command line that starts the notebook server with the settings of this application.
pub open spec fn jupyter_command(command_line: Seq<char>) -> bool {
    text::occurs_in(command_line, "jupyter_server_config.py"@) && text::occurs_in(
        command_line,
        "geolibre_server"@,
    )
}

/// Whether a command line starts the notebook server with the settings of this application.
pub fn is_geolibre_jupyter_process(command_line: &str) -> (answer: bool)
    ensures
        answer == jupyter_command(command_line@),
{
    text::has_text(command_line, "jupyter_server_config.py") && text::has_text(
        command_line,
        "geolibre_server",
    )
}

/// What the process table tells of an entry: its name, the links of its file descriptors, and
/// its command line, where that could be read.
#[derive(Debug)]
pub struct ProcessEntry {
    pub name: String,
    pub links: Vec<String>,
    pub command_line: Option<String>,
}

/// The servers of this application.
#[derive(Debug, Clone, Copy, PartialEq, Eq, Structural)]
pub enum OwnServer {
    Sidecar,
    Jupyter,
}

/// A command line that starts the given server.
pub open spec fn starts_server(server: OwnServer, command_line: Option<Seq<char>>) -> bool {
    match command_line {
        Some(command_line) => match server {
            OwnServer::Sidecar => sidecar_command(command_line),
            OwnServer::Jupyter => jupyter_command(command_line),
        },
        None => false,
    }
}

/// The number of the process that an entry stands for.
pub open spec fn process_number(name: Seq<char>) -> Option<int> {
    numbers::bounded_integer(name, i32::MIN as int, i32::MAX as int)
}

/// An entry is the process `pid`, holds one of the sockets, and is the given server.
pub open spec fn own_listener(
    server: OwnServer,
    process: ProcessEntry,
    inodes: Seq<Seq<char>>,
    pid: i32,
) -> bool {
    &&& process_number(process.name@) == Some(pid as int)
    &&& has_socket(text::views(process.links@), inodes)
    &&& starts_server(server, text::view_of(process.command_line))
}

/// Some entry is the process `pid`, holds one of the sockets, and is the given server.
pub open spec fn some_own_listener(
    server: OwnServer,
    processes: Seq<ProcessEntry>,
    inodes: Seq<Seq<char>>,
    pid: i32,
) -> bool {
    exists|i: int|
        0 <= i < processes.len() && own_listener(server, #[trigger] processes[i], inodes, pid)
}

fn own_listener_number(server: OwnServer, process: &ProcessEntry, inodes: &Vec<String>) -> (pid:
    Option<i32>)
    ensures
        match pid {
            Some(pid) => own_listener(server, *process, text::views(inodes@), pid),
            None => forall|pid: i32|
                !own_listener(server, *process, text::views(inodes@), pid),
        },
{
    let pid: i32 = match numbers::parse_i32(process.name.as_str()) {
        Some(pid) => pid,
        None => {
            return None;
        },
    };
    if !process_has_socket(&process.links, inodes) {
        return None;
    }
    let ours = match &process.command_line {
        Some(command_line) => match server {
            OwnServer::Sidecar => is_geolibre_sidecar_process(command_line.as_str()),
            OwnServer::Jupyter => is_geolibre_jupyter_process(command_line.as_str()),
        },
        None => false,
    };
    if ours {
        Some(pid)
    } else {
        None
    }
}

fn is_number_listed(pids: &Vec<i32>, pid: i32) -> (answer: bool)
    ensures
        answer == pids@.contains(pid),
{
    let mut i: usize = 0;
    while i < pids.len()
        invariant
            i <= pids@.len(),
            forall|j: int| 0 <= j < i ==> pids@[j] != pid,
        decreases pids@.len() - i,
    {
        if pids[i] == pid {
            return true;
        }
        i = i + 1;
    }
    false
}

/// The processes that hold one of the sockets and are the given server, each once. No other
/// process is named, whatever it listens on.
pub fn own_listeners(server: OwnServer, processes: &Vec<ProcessEntry>, inodes: &Vec<String>) -> (pids:
    Vec<i32>)
    ensures
        pids@.no_duplicates(),
        forall|pid: i32|
            pids@.contains(pid) <==> #[trigger] some_own_listener(
                server,
                processes@,
                text::views(inodes@),
                pid,
            ),
{
    let ghost sockets = text::views(inodes@);
    let mut pids: Vec<i32> = Vec::new();
    let mut i: usize = 0;
    while i < processes.len()
        invariant
            sockets == text::views(inodes@),
            i <= processes@.len(),
            pids@.no_duplicates(),
            forall|pid: i32|
                #![trigger pids@.contains(pid)]
                pids@.contains(pid) <==> exists|k: int|
                    0 <= k < i && own_listener(server, #[trigger] processes@[k], sockets, pid),
        decreases processes@.len() - i,
    {
        let ghost known = pids@;
        let found = own_listener_number(server, &processes[i], inodes);
        match found {
            Some(number) => {
                assert(own_listener(server, processes@[i as int], sockets, number));
                if !is_number_listed(&pids, number) {
                    pids.push(number);
                    assert(pids@[known.len() as int] == number);
                }
                assert forall|pid: i32|
                    #![trigger pids@.contains(pid)]
                    pids@.contains(pid) <==> exists|k: int|
                        0 <= k < i + 1 && own_listener(server, #[trigger] processes@[k], sockets, pid) by {
                    if known.contains(pid) {
                        let j = choose|j: int| 0 <= j < known.len() && known[j] == pid;
                        assert(pids@[j] == pid);
                        let k = choose|k: int|
                            0 <= k < i && own_listener(server, #[trigger] processes@[k], sockets, pid);
                        assert(own_listener(server, processes@[k], sockets, pid));
                    }
                    if pid == number {
                        assert(own_listener(server, processes@[i as int], sockets, pid));
                        if known.contains(number) {
                            let j = choose|j: int| 0 <= j < known.len() && known[j] == number;
                            assert(pids@[j] == pid);
                        }
                    }
                }
            },
            None => {},
        }
        i = i + 1;
    }
    assert forall|pid: i32|
        pids@.contains(pid) <==> #[trigger] some_own_listener(
            server,
            processes@,
            text::views(inodes@),
            pid,
        ) by {
        if some_own_listener(server, processes@, sockets, pid) {
            let k = choose|k: int|
                0 <= k < processes@.len() && own_listener(
                    server,
                    #[trigger] processes@[k],
                    sockets,
                    pid,
                );
            assert(own_listener(server, processes@[k], sockets, pid));
        }
    }
    pids
}

/// The processes to end so that the processing server gives up its port. Only Linux has the
/// tables to tell them by.
pub fn terminate_sidecar_listeners_on_port(
    os: TargetOs,
    processes: &Vec<ProcessEntry>,
    inodes: &Vec<String>,
) -> (pids: Vec<i32>)
    ensures
        os != TargetOs::Linux ==> pids@.len() == 0,
        pids@.no_duplicates(),
        os == TargetOs::Linux ==> forall|pid: i32|
            pids@.contains(pid) <==> #[trigger] some_own_listener(
                OwnServer::Sidecar,
                processes@,
                text::views(inodes@),
                pid,
            ),
{
    match os {
        TargetOs::Linux => own_listeners(OwnServer::Sidecar, processes, inodes),
        _ => Vec::new(),
    }
}

/// The processes to end so that the notebook server gives up its port. Only Linux has the tables
/// to tell them by.
pub fn terminate_jupyter_listeners_on_port(
    os: TargetOs,
    processes: &Vec<ProcessEntry>,
    inodes: &Vec<String>,
) -> (pids: Vec<i32>)
    ensures
        os != TargetOs::Linux ==> pids@.len() == 0,
        pids@.no_duplicates(),
        os == TargetOs::Linux ==> forall|pid: i32|
            pids@.contains(pid) <==> #[trigger] some_own_listener(
                OwnServer::Jupyter,
                processes@,
                text::views(inodes@),
                pid,
            ),
{
    match os {
        TargetOs::Linux => own_listeners(OwnServer::Jupyter, processes, inodes),
        _ => Vec::new(),
    }
}

/// A process that is not a server of this application is never ended, and neither is one that
/// holds none of the sockets.
pub proof fn strangers_are_never_ended(
    server: OwnServer,
    processes: Seq<ProcessEntry>,
    inodes: Seq<Seq<char>>,
    pid: i32,
)
    requires
        forall|i: int|
            0 <= i < processes.len() && process_number((#[trigger] processes[i]).name@) == Some(
                pid as int,
            ) ==> !starts_server(server, text::view_of(processes[i].command_line)) || !has_socket(
                text::views(processes[i].links@),
                inodes,
            ),
    ensures
        !some_own_listener(server, processes, inodes, pid),
{
}

// ---------------------------------------------------------------------------
// Laws

/// A line of the table of sockets tells of a socket that listens on a port exactly where it has at
/// least ten fields, the fourth is `0A`, and the second ends in a colon and the port in
/// hexadecimal digits of any case. The inode is the tenth.
pub proof fn listening_lines_tell_their_inode(line: Seq<char>, port: u16)
    ensures
        ({
            let fields = split::words(line);
            let local = split::after_last(fields[1], ':');
            let listens = fields.len() >= 10 && fields[3] == "0A"@ && local is Some && text::lower(
                local->0,
            ) == text::lower(numbers::port_hex(port));
            listening_inode(line, port) == if listens {
                Some(fields[9])
            } else {
                None
            }
        }),
{
}

/// A table lists the inodes of its lines, but for the first one, which is its heading.
pub proof fn tables_list_their_lines(table: Seq<char>, port: u16, inode: Seq<char>)
    ensures
        ({
            let lines = split::split(table, split::one_of(seq!['\n']));
            lists_inode(table, port, inode) <==> exists|i: int|
                1 <= i < lines.len() && listening_inode(#[trigger] lines[i], port) == Some(inode)
        }),
{
}

/// The link of a file descriptor leads to a socket where it is the socket's inode between
/// `socket:[` and `]`, and a process holds a socket where one of its links leads to it.
pub proof fn links_lead_to_their_sockets(
    inode: Seq<char>,
    links: Seq<Seq<char>>,
    inodes: Seq<Seq<char>>,
    link: Seq<char>,
)
    ensures
        socket_inode("socket:["@ + inode + "]"@) == Some(inode),
        socket_inode(link) matches Some(found) ==> link == "socket:["@ + found + "]"@,
        leads_to_socket("socket:["@ + inode + "]"@, inodes) <==> inodes.contains(inode),
        !"socket:["@.is_prefix_of(link) ==> !leads_to_socket(link, inodes),
        has_socket(links, inodes) <==> exists|i: int|
            0 <= i < links.len() && leads_to_socket(#[trigger] links[i], inodes),
{
    let front = "socket:["@;
    let whole = front + inode + "]"@;
    assert(whole == front + (inode + "]"@));
    text::stripping_undoes_joining(front, inode + "]"@, link);
    text::stripping_undoes_joining("]"@, inode, link);
    if socket_inode(link) is Some {
        let rest = text::strip_prefix(link, front)->0;
        text::stripping_undoes_joining("]"@, inode, rest);
        let found = socket_inode(link)->0;
        assert(front + (found + "]"@) == front + found + "]"@);
    }
}

/// A command line is the processing server's where it names the server's module or its directory,
/// and the notebook server's where it names both its settings and the application's project.
pub proof fn servers_are_told_by_their_command_line(command_line: Seq<char>)
    ensures
        starts_server(OwnServer::Sidecar, Some(command_line)) <==> text::occurs_in(
            command_line,
            "geolibre_server.app.main"@,
        ) || text::occurs_in(command_line, "geolibre_server/app"@),
        sidecar_command(command_line) <==> text::occurs_in(
            command_line,
            "geolibre_server.app.main"@,
        ) || text::occurs_in(command_line, "geolibre_server/app"@),
        starts_server(OwnServer::Jupyter, Some(command_line)) <==> text::occurs_in(
            command_line,
            "jupyter_server_config.py"@,
        ) && text::occurs_in(command_line, "geolibre_server"@),
        jupyter_command(command_line) <==> text::occurs_in(
            command_line,
            "jupyter_server_config.py"@,
        ) && text::occurs_in(command_line, "geolibre_server"@),
        !starts_server(OwnServer::Sidecar, None),
        !starts_server(OwnServer::Jupyter, None),
{
}

/// A process is ended exactly where its entry is its number, one of its links leads to a socket
/// that listens on the port, and its command line is the server's.
pub proof fn own_listeners_are_ended(
    server: OwnServer,
    processes: Seq<ProcessEntry>,
    inodes: Seq<Seq<char>>,
    pid: i32,
)
    ensures
        some_own_listener(server, processes, inodes, pid) <==> exists|i: int|
            {
                &&& 0 <= i < processes.len()
                &&& numbers::bounded_integer(
                    (#[trigger] processes[i]).name@,
                    -0x8000_0000,
                    0x7fff_ffff,
                ) == Some(pid as int)
                &&& has_socket(text::views(processes[i].links@), inodes)
                &&& processes[i].command_line is Some
                &&& starts_server(server, Some(processes[i].command_line->0@))
            },
{
    if some_own_listener(server, processes, inodes, pid) {
        let i = choose|i: int|
            0 <= i < processes.len() && own_listener(server, #[trigger] processes[i], inodes, pid);
        assert(processes[i].command_line is Some);
    }
}

} // verus!
