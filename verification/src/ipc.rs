//! Hyprland IPC: event-line parsing and socket location.
//!
//! Hyprland writes one event per line to its second socket, in the form
//! `EVENT>>DATA`. Reading the socket is left to the caller; this module turns
//! each line into a [`HyprlandEvent`].

use vstd::prelude::*;
use crate::text::{
    chars_of, find, find_from, lemma_find_from, lemma_find_from_first, occurs_at, push_str, range_eq,
    string_from, trim_chars, trimmed,
};

verus! {

/// Errors of the Hyprland IPC client.
#[derive(Debug)]
pub enum IpcError {
    /// `HYPRLAND_INSTANCE_SIGNATURE` is not set or the socket does not exist.
    SocketNotFound,
    /// Connecting to or reading from the socket failed (the I/O error's message).
    ConnectionError(String),
    /// An event line could not be understood.
    InvalidEvent(String),
}

/// An event reported by Hyprland.
#[derive(Debug, Clone)]
pub enum HyprlandEvent {
    /// The focused window changed.
    ActiveWindowChanged { class: String, title: String },
    /// A window was opened.
    WindowOpened { address: String, workspace: String, class: String, title: String },
    /// A window was closed.
    WindowClosed { address: String },
    /// The active workspace changed.
    WorkspaceChanged { name: String },
    /// A window's title changed.
    WindowTitleChanged { address: String, title: String },
}

/// The mathematical content of a [`HyprlandEvent`].
pub enum EventModel {
    ActiveWindowChanged { class: Seq<char>, title: Seq<char> },
    WindowOpened { address: Seq<char>, workspace: Seq<char>, class: Seq<char>, title: Seq<char> },
    WindowClosed { address: Seq<char> },
    WorkspaceChanged { name: Seq<char> },
    WindowTitleChanged { address: Seq<char>, title: Seq<char> },
}

impl View for HyprlandEvent {
    type V = EventModel;

    open spec fn view(&self) -> EventModel {
        match self {
            HyprlandEvent::ActiveWindowChanged { class, title } => EventModel::ActiveWindowChanged {
                class: class@,
                title: title@,
            },
            HyprlandEvent::WindowOpened { address, workspace, class, title } =>
                EventModel::WindowOpened {
                address: address@,
                workspace: workspace@,
                class: class@,
                title: title@,
            },
            HyprlandEvent::WindowClosed { address } => EventModel::WindowClosed { address: address@ },
            HyprlandEvent::WorkspaceChanged { name } => EventModel::WorkspaceChanged { name: name@ },
            HyprlandEvent::WindowTitleChanged { address, title } =>
                EventModel::WindowTitleChanged { address: address@, title: title@ },
        }
    }
}

/// The separator between an event's name and its data.
pub open spec fn event_separator() -> Seq<char> {
    seq!['>', '>']
}

/// `data` split at its first comma, as `splitn(2, ',')` yields two parts.
pub open spec fn split_first_comma(data: Seq<char>) -> Option<(Seq<char>, Seq<char>)> {
    match find_from(data, seq![','], 0) {
        Some(j) => Some((data.take(j), data.skip(j + 1))),
        None => None,
    }
}

/// `data` split at its first three commas, as `splitn(4, ',')` yields four parts.
pub open spec fn split_three_commas(data: Seq<char>) -> Option<
    (Seq<char>, Seq<char>, Seq<char>, Seq<char>),
> {
    match split_first_comma(data) {
        None => None,
        Some((a, rest1)) => match split_first_comma(rest1) {
            None => None,
            Some((b, rest2)) => match split_first_comma(rest2) {
                None => None,
                Some((c, d)) => Some((a, b, c, d)),
            },
        },
    }
}

/// The event that an event name and its data describe, if any.
pub open spec fn event_of(name: Seq<char>, data: Seq<char>) -> Option<EventModel> {
    if name == "activewindow"@ {
        match split_first_comma(data) {
            Some((class, title)) => Some(EventModel::ActiveWindowChanged { class, title }),
            None => None,
        }
    } else if name == "openwindow"@ {
        match split_three_commas(data) {
            Some((address, workspace, class, title)) => Some(
                EventModel::WindowOpened { address, workspace, class, title },
            ),
            None => None,
        }
    } else if name == "closewindow"@ {
        Some(EventModel::WindowClosed { address: data })
    } else if name == "workspace"@ || name == "workspacev2"@ {
        Some(EventModel::WorkspaceChanged { name: data })
    } else if name == "windowtitle"@ {
        Some(EventModel::WindowTitleChanged { address: data, title: Seq::empty() })
    } else if name == "windowtitlev2"@ {
        match split_first_comma(data) {
            Some((address, title)) => Some(EventModel::WindowTitleChanged { address, title }),
            None => None,
        }
    } else {
        None
    }
}

/// The event that a line `EVENT>>DATA` describes: the line must hold `>>` exactly
/// once (splitting it on `>>` must give two parts), and the event name must be known.
pub open spec fn spec_parse_event(s: Seq<char>) -> Option<EventModel> {
    match find_from(s, event_separator(), 0) {
        None => None,
        Some(i) => {
            let data = s.skip(i + 2);
            if find_from(data, event_separator(), 0) is Some {
                None
            } else {
                event_of(s.take(i), data)
            }
        },
    }
}

/// Finds the first comma in `v[from..]`.
fn find_comma(v: &[char], from: usize) -> (r: Option<usize>)
    requires
        from <= v@.len(),
    ensures
        r matches Some(j) ==> from <= j < v@.len() && find_from(v@.skip(from as int), seq![','], 0)
            == Some(j - from),
        r is None ==> find_from(v@.skip(from as int), seq![','], 0) is None,
{
    let comma = vec![','];
    let r = find(v, comma.as_slice(), from);
    proof {
        lemma_find_shift(v@, seq![','], from as int);
        lemma_find_from(v@, seq![','], from as int);
    }
    assert(comma@ == seq![',']);
    r
}

/// Searching a suffix is searching the whole sequence from the suffix's start.
pub proof fn lemma_find_shift(s: Seq<char>, p: Seq<char>, from: int)
    requires
        0 <= from <= s.len(),
    ensures
        find_from(s, p, from) matches Some(k) ==> find_from(s.skip(from), p, 0) == Some(k - from),
        find_from(s, p, from) is None ==> find_from(s.skip(from), p, 0) is None,
{
    lemma_find_shift_at(s, p, from, from);
}

proof fn lemma_find_shift_at(s: Seq<char>, p: Seq<char>, from: int, i: int)
    requires
        0 <= from <= i,
        from <= s.len(),
    ensures
        find_from(s, p, i) matches Some(k) ==> find_from(s.skip(from), p, i - from) == Some(k
            - from),
        find_from(s, p, i) is None ==> find_from(s.skip(from), p, i - from) is None,
    decreases s.len() + 1 - i,
{
    let t = s.skip(from);
    if i + p.len() > s.len() {
    } else {
        assert(t.subrange(i - from, i - from + p.len()) =~= s.subrange(i, i + p.len()));
        if occurs_at(s, p, i) {
        } else {
            lemma_find_shift_at(s, p, from, i + 1);
        }
    }
}

/// Whether `c` occurs in `s`.
pub open spec fn has_char(s: Seq<char>, c: char) -> bool {
    exists|i: int| 0 <= i < s.len() && s[i] == c
}

/// `a + ',' + b` splits at its first comma into `a` and `b` when `a` has no comma.
pub proof fn lemma_split_first_comma(a: Seq<char>, b: Seq<char>)
    requires
        !has_char(a, ','),
    ensures
        split_first_comma(a + seq![','] + b) == Some((a, b)),
{
    let s = a + seq![','] + b;
    assert(occurs_at(s, seq![','], a.len() as int)) by {
        assert(s.subrange(a.len() as int, a.len() as int + 1) =~= seq![',']);
    }
    assert forall|j: int| 0 <= j < a.len() implies !occurs_at(s, seq![','], j) by {
        if occurs_at(s, seq![','], j) {
            assert(s.subrange(j, j + 1)[0] == s[j]);
            assert(a[j] == ',');
        }
    }
    lemma_find_from_first(s, seq![','], 0, a.len() as int);
    assert(s.take(a.len() as int) =~= a);
    assert(s.skip(a.len() as int + 1) =~= b);
}

/// The line Hyprland writes for an event: its name, `>>`, its data.
pub open spec fn event_line(name: Seq<char>, data: Seq<char>) -> Seq<char> {
    name + event_separator() + data
}

/// A line `name>>data` whose name holds no `>` and whose data holds no `>>`
/// is read as the event that the name and data describe.
pub proof fn lemma_parse_event_line(name: Seq<char>, data: Seq<char>)
    requires
        !has_char(name, '>'),
        find_from(data, event_separator(), 0) is None,
    ensures
        spec_parse_event(event_line(name, data)) == event_of(name, data),
{
    let s = event_line(name, data);
    let sep = event_separator();
    let n = name.len() as int;
    assert(occurs_at(s, sep, n)) by {
        assert(s.subrange(n, n + 2) =~= sep);
    }
    assert forall|j: int| 0 <= j < n implies !occurs_at(s, sep, j) by {
        if occurs_at(s, sep, j) {
            assert(s.subrange(j, j + 2)[0] == s[j]);
            assert(name[j] == '>');
        }
    }
    lemma_find_from_first(s, sep, 0, n);
    assert(s.take(n) =~= name);
    assert(s.skip(n + 2) =~= data);
}

/// Two texts free of `>>`, joined by a comma, make a text free of `>>`.
pub proof fn lemma_join_no_separator(a: Seq<char>, b: Seq<char>)
    requires
        find_from(a, event_separator(), 0) is None,
        find_from(b, event_separator(), 0) is None,
    ensures
        find_from(a + seq![','] + b, event_separator(), 0) is None,
{
    let sep = event_separator();
    let s = a + seq![','] + b;
    lemma_find_from(a, sep, 0);
    lemma_find_from(b, sep, 0);
    lemma_find_from(s, sep, 0);
    if find_from(s, sep, 0) is Some {
        let k = find_from(s, sep, 0)->0;
        assert(s.subrange(k, k + 2)[0] == s[k]);
        assert(s.subrange(k, k + 2)[1] == s[k + 1]);
        if k + 1 < a.len() {
            assert(a.subrange(k, k + 2) =~= s.subrange(k, k + 2));
            assert(occurs_at(a, sep, k));
        } else if k + 1 == a.len() {
            assert(s[k + 1] == ',');
        } else if k == a.len() {
            assert(s[k] == ',');
        } else {
            let j = k - a.len() - 1;
            assert(b.subrange(j, j + 2) =~= s.subrange(k, k + 2));
            assert(occurs_at(b, sep, j));
        }
    }
}

/// The line of a focus change, `activewindow>>CLASS,TITLE`, is read back as
/// that focus change when the class holds no comma and neither holds `>>`.
pub proof fn lemma_active_window_round_trip(class: Seq<char>, title: Seq<char>)
    requires
        !has_char(class, ','),
        find_from(class, event_separator(), 0) is None,
        find_from(title, event_separator(), 0) is None,
    ensures
        spec_parse_event(event_line("activewindow"@, class + seq![','] + title)) == Some(
            EventModel::ActiveWindowChanged { class, title },
        ),
{
    reveal_strlit("activewindow");
    lemma_join_no_separator(class, title);
    lemma_parse_event_line("activewindow"@, class + seq![','] + title);
    lemma_split_first_comma(class, title);
}

/// The line of a closed window, `closewindow>>ADDRESS`, is read back as that
/// closed window when the address holds no `>>`.
pub proof fn lemma_close_window_round_trip(address: Seq<char>)
    requires
        find_from(address, event_separator(), 0) is None,
    ensures
        spec_parse_event(event_line("closewindow"@, address)) == Some(
            EventModel::WindowClosed { address },
        ),
{
    reveal_strlit("closewindow");
    reveal_strlit("activewindow");
    reveal_strlit("openwindow");
    lemma_parse_event_line("closewindow"@, address);
}

/// The line of a workspace change, `workspace>>NAME`, is read back as that
/// change when the name holds no `>>`.
pub proof fn lemma_workspace_round_trip(name: Seq<char>)
    requires
        find_from(name, event_separator(), 0) is None,
    ensures
        spec_parse_event(event_line("workspace"@, name)) == Some(EventModel::WorkspaceChanged { name }),
{
    reveal_strlit("workspace");
    reveal_strlit("closewindow");
    reveal_strlit("activewindow");
    reveal_strlit("openwindow");
    lemma_parse_event_line("workspace"@, name);
}

/// The line of a title change, `windowtitlev2>>ADDRESS,TITLE`, is read back as
/// that change when the address holds no comma and neither holds `>>`.
pub proof fn lemma_window_title_round_trip(address: Seq<char>, title: Seq<char>)
    requires
        !has_char(address, ','),
        find_from(address, event_separator(), 0) is None,
        find_from(title, event_separator(), 0) is None,
    ensures
        spec_parse_event(event_line("windowtitlev2"@, address + seq![','] + title)) == Some(
            EventModel::WindowTitleChanged { address, title },
        ),
{
    lemma_join_no_separator(address, title);
    reveal_strlit("windowtitlev2");
    reveal_strlit("windowtitle");
    reveal_strlit("workspacev2");
    reveal_strlit("workspace");
    reveal_strlit("closewindow");
    reveal_strlit("activewindow");
    reveal_strlit("openwindow");
    lemma_parse_event_line("windowtitlev2"@, address + seq![','] + title);
    lemma_split_first_comma(address, title);
}

/// The line of an opened window, `openwindow>>ADDRESS,WORKSPACE,CLASS,TITLE`,
/// is read back as that window when the first three hold no comma and none
/// holds `>>`.
pub proof fn lemma_open_window_round_trip(
    address: Seq<char>,
    workspace: Seq<char>,
    class: Seq<char>,
    title: Seq<char>,
)
    requires
        !has_char(address, ','),
        !has_char(workspace, ','),
        !has_char(class, ','),
        find_from(address, event_separator(), 0) is None,
        find_from(workspace, event_separator(), 0) is None,
        find_from(class, event_separator(), 0) is None,
        find_from(title, event_separator(), 0) is None,
    ensures
        spec_parse_event(
            event_line(
                "openwindow"@,
                address + seq![','] + workspace + seq![','] + class + seq![','] + title,
            ),
        ) == Some(EventModel::WindowOpened { address, workspace, class, title }),
{
    reveal_strlit("openwindow");
    reveal_strlit("activewindow");
    let rest2 = class + seq![','] + title;
    let rest1 = workspace + seq![','] + rest2;
    let data = address + seq![','] + rest1;
    assert(data =~= address + seq![','] + workspace + seq![','] + class + seq![','] + title);
    lemma_join_no_separator(class, title);
    lemma_join_no_separator(workspace, rest2);
    lemma_join_no_separator(address, rest1);
    lemma_parse_event_line("openwindow"@, data);
    lemma_split_first_comma(address, rest1);
    lemma_split_first_comma(workspace, rest2);
    lemma_split_first_comma(class, title);
}

/// Hyprland IPC client: knows where the event socket is.
pub struct HyprlandIpc {
    socket_path: String,
}

impl HyprlandIpc {
    /// The socket path this client reads from.
    pub closed spec fn path(&self) -> Seq<char> {
        self.socket_path@
    }

    /// The path of the event socket: `{runtime_dir}/hypr/{signature}/.socket2.sock`,
    /// where the runtime directory defaults to `/tmp`.
    pub open spec fn spec_socket_path(runtime_dir: Option<Seq<char>>, signature: Seq<char>) -> Seq<
        char,
    > {
        let dir = match runtime_dir {
            Some(d) => d,
            None => "/tmp"@,
        };
        dir + "/hypr/"@ + signature + "/.socket2.sock"@
    }

    /// Where the socket lies, given `HYPRLAND_INSTANCE_SIGNATURE` and
    /// `XDG_RUNTIME_DIR` (each `None` when unset): `SocketNotFound` without a signature.
    pub fn socket_path_for(signature: Option<&str>, runtime_dir: Option<&str>) -> (r: Result<
        String,
        IpcError,
    >)
        ensures
            signature is None <==> r matches Err(IpcError::SocketNotFound),
            signature matches Some(sig) ==> (r matches Ok(p) && p@ == Self::spec_socket_path(
                match runtime_dir {
                    Some(d) => Some(d@),
                    None => None,
                },
                sig@,
            )),
    {
        match signature {
            None => Err(IpcError::SocketNotFound),
            Some(sig) => {
                let mut p = String::new();
                match runtime_dir {
                    Some(d) => push_str(&mut p, d),
                    None => push_str(&mut p, "/tmp"),
                }
                push_str(&mut p, "/hypr/");
                push_str(&mut p, sig);
                push_str(&mut p, "/.socket2.sock");
                Ok(p)
            },
        }
    }

    /// A client for the socket at `socket_path`; `SocketNotFound` when it does not exist.
    pub fn open(socket_path: String, exists: bool) -> (r: Result<HyprlandIpc, IpcError>)
        ensures
            exists <==> r is Ok,
            r matches Ok(ipc) ==> ipc.path() == socket_path@,
            !exists ==> r matches Err(IpcError::SocketNotFound),
    {
        if exists {
            Ok(HyprlandIpc { socket_path })
        } else {
            Err(IpcError::SocketNotFound)
        }
    }

    /// The path of the event socket.
    pub fn socket_path(&self) -> (p: &String)
        ensures
            p@ == self.path(),
    {
        &self.socket_path
    }

    /// Parses one event line `EVENT>>DATA`.
    pub fn parse_event(event: &str) -> (r: Option<HyprlandEvent>)
        ensures
            match r {
                Some(e) => spec_parse_event(event@) == Some(e@),
                None => spec_parse_event(event@) is None,
            },
    {
        let s = chars_of(event);
        let n = s.len();
        let sep = vec!['>', '>'];
        assert(sep@ == event_separator());
        let i = match find(s.as_slice(), sep.as_slice(), 0) {
            None => return None,
            Some(i) => i,
        };
        proof {
            lemma_find_from(s@, sep@, 0);
            assert(occurs_at(s@, sep@, i as int));
        }
        let d = i + 2;
        let second = find(s.as_slice(), sep.as_slice(), d);
        proof {
            lemma_find_shift(s@, sep@, d as int);
        }
        if second.is_some() {
            return None;
        }
        let ghost name = s@.take(i as int);
        let ghost data = s@.skip(d as int);
        assert(s@.subrange(0, i as int) == name);
        if range_eq(s.as_slice(), 0, i, chars_of("activewindow").as_slice()) {
            match find_comma(s.as_slice(), d) {
                Some(j) => {
                    assert(data.take(j - d) =~= s@.subrange(d as int, j as int));
                    assert(data.skip(j - d + 1) =~= s@.subrange(j + 1, n as int));
                    Some(
                        HyprlandEvent::ActiveWindowChanged {
                            class: string_from(s.as_slice(), d, j),
                            title: string_from(s.as_slice(), j + 1, n),
                        },
                    )
                },
                None => None,
            }
        } else if range_eq(s.as_slice(), 0, i, chars_of("openwindow").as_slice()) {
            let j1 = match find_comma(s.as_slice(), d) {
                Some(j) => j,
                None => return None,
            };
            let ghost rest1 = data.skip(j1 - d + 1);
            assert(rest1 =~= s@.skip(j1 + 1));
            let j2 = match find_comma(s.as_slice(), j1 + 1) {
                Some(j) => j,
                None => return None,
            };
            let ghost rest2 = rest1.skip(j2 - j1);
            assert(rest2 =~= s@.skip(j2 + 1));
            let j3 = match find_comma(s.as_slice(), j2 + 1) {
                Some(j) => j,
                None => return None,
            };
            assert(data.take(j1 - d) =~= s@.subrange(d as int, j1 as int));
            assert(rest1.take(j2 - j1 - 1) =~= s@.subrange(j1 + 1, j2 as int));
            assert(rest2.take(j3 - j2 - 1) =~= s@.subrange(j2 + 1, j3 as int));
            assert(rest2.skip(j3 - j2) =~= s@.subrange(j3 + 1, n as int));
            Some(
                HyprlandEvent::WindowOpened {
                    address: string_from(s.as_slice(), d, j1),
                    workspace: string_from(s.as_slice(), j1 + 1, j2),
                    class: string_from(s.as_slice(), j2 + 1, j3),
                    title: string_from(s.as_slice(), j3 + 1, n),
                },
            )
        } else if range_eq(s.as_slice(), 0, i, chars_of("closewindow").as_slice()) {
            assert(data =~= s@.subrange(d as int, n as int));
            Some(HyprlandEvent::WindowClosed { address: string_from(s.as_slice(), d, n) })
        } else if range_eq(s.as_slice(), 0, i, chars_of("workspace").as_slice()) || range_eq(
            s.as_slice(),
            0,
            i,
            chars_of("workspacev2").as_slice(),
        ) {
            assert(data =~= s@.subrange(d as int, n as int));
            Some(HyprlandEvent::WorkspaceChanged { name: string_from(s.as_slice(), d, n) })
        } else if range_eq(s.as_slice(), 0, i, chars_of("windowtitle").as_slice()) {
            assert(data =~= s@.subrange(d as int, n as int));
            Some(
                HyprlandEvent::WindowTitleChanged {
                    address: string_from(s.as_slice(), d, n),
                    title: String::new(),
                },
            )
        } else if range_eq(s.as_slice(), 0, i, chars_of("windowtitlev2").as_slice()) {
            match find_comma(s.as_slice(), d) {
                Some(j) => {
                    assert(data.take(j - d) =~= s@.subrange(d as int, j as int));
                    assert(data.skip(j - d + 1) =~= s@.subrange(j + 1, n as int));
                    Some(
                        HyprlandEvent::WindowTitleChanged {
                            address: string_from(s.as_slice(), d, j),
                            title: string_from(s.as_slice(), j + 1, n),
                        },
                    )
                },
                None => None,
            }
        } else {
            None
        }
    }

    /// Parses one line read from the socket, ignoring surrounding white space.
    pub fn event_from_line(line: &str) -> (r: Option<HyprlandEvent>)
        ensures
            match r {
                Some(e) => spec_parse_event(trimmed(line@)) == Some(e@),
                None => spec_parse_event(trimmed(line@)) is None,
            },
    {
        let v = chars_of(line);
        let t = trim_chars(v.as_slice());
        let s = string_from(t.as_slice(), 0, t.len());
        assert(t@.subrange(0, t@.len() as int) == t@);
        Self::parse_event(s.as_str())
    }
}

} // verus!
