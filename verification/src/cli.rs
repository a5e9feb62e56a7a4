//! What the command-line client decides: how it answers the prompts it
//! reads, which device a number in its listings stands for, and the texts
//! it builds to reach the group server and its peers. Reading the terminal,
//! printing and the network calls are left to the caller.

use vstd::prelude::*;
use crate::device::DeviceSpec;
use crate::device_manager::{nth_id, DeviceManager};
use crate::ids::{hyphenated_text, law_hyphenated_round_trip, parse_uuid, random_id, uuid_parse, uuid_text};
use crate::network::TcpNetwork;
use crate::text::{
    decimal, decimal_text, law_decimal_reads_back, parse_i32, parse_usize, parsed_i32, parsed_usize, trim, trim_end, trim_end_text, trim_text,
};

verus! {

/// The answer to "join an existing group? [Y/n]".
#[derive(Clone, Copy, Debug, PartialEq, Eq, Structural)]
pub enum GroupChoice {
    /// Join an existing group, whose id is asked next.
    Join,
    /// Ask the server for a new group.
    Create,
    /// The answer was neither: ask again.
    Retry,
}

/// The actions of the client's menu.
#[derive(Clone, Copy, Debug, PartialEq, Eq, Structural)]
pub enum Action {
    DeviceList,
    FileSystem,
    FileTransfer,
    Exit,
    /// A number the menu does not list.
    Undefined,
}

/// The actions the menu lists, in order; each is shown beside its position.
pub open spec fn menu_order() -> Seq<Action> {
    seq![Action::DeviceList, Action::FileSystem, Action::FileTransfer, Action::Exit]
}

/// The action a number selects: the one the menu lists at that position, or
/// `Undefined`.
pub open spec fn action_of_number(n: int) -> Action {
    if 0 <= n < menu_order().len() {
        menu_order()[n]
    } else {
        Action::Undefined
    }
}

/// What the client's listener on the group server's channel received.
#[derive(Clone, Copy, Debug, PartialEq, Eq, Structural)]
pub enum SyncEvent {
    /// A text message: the group changed.
    Text,
    /// Any other message (binary, ping, pong, close, frame).
    OtherMessage,
    /// The channel reported an error.
    Error,
}

/// The answer an input line gives: after trimming whitespace, `n` (in either
/// case) creates a group, `y` (in either case) joins one, anything else
/// asks again.
pub open spec fn group_choice_of(input: Seq<char>) -> GroupChoice {
    let t = trim_text(input);
    if t == seq!['n'] || t == seq!['N'] {
        GroupChoice::Create
    } else if t == seq!['y'] || t == seq!['Y'] {
        GroupChoice::Join
    } else {
        GroupChoice::Retry
    }
}

/// `n` spaces.
pub open spec fn spaces(n: nat) -> Seq<char> {
    Seq::new(n, |i: int| ' ')
}

/// The line listing device number `idx` with spec `spec`:
/// `idx> os(os_version)_ip`.
pub open spec fn device_line(idx: nat, spec: DeviceSpec) -> Seq<char> {
    decimal_text(idx) + "> "@ + spec.os@ + "("@ + spec.os_version@ + ")_"@ + spec.ip@
}

/// The address a device is reached at for a file transfer: `ip:port`.
pub open spec fn peer_address_text(spec: DeviceSpec) -> Seq<char> {
    spec.ip@ + ":"@ + spec.listen_port@
}

/// The URL of the group server's channel for a device of a group: the
/// server's address with `http://` replaced by `ws://`, then `/ws/`, the
/// group's id and the device's spec id, hyphenated. `None` where the
/// server's address does not start with `http://`.
pub open spec fn websocket_url_text(master: Seq<char>, manager: u128, spec_id: u128) -> Option<Seq<char>> {
    if master.len() >= 7 && master.take(7) == "http://"@ {
        Some("ws://"@ + master.skip(7) + "/ws/"@ + hyphenated_text(manager) + "/"@ + hyphenated_text(spec_id))
    } else {
        None
    }
}

/// The serialization of the URL that `url::Url::parse` reads from `text`,
/// if it reads one.
pub uninterp spec fn url_parse(text: Seq<char>) -> Option<Seq<char>>;

/// The URL the client opens for the server's channel: the channel text (see
/// [`websocket_url_text`]) as the `url` crate reads and normalizes it.
pub open spec fn channel_url(master: Seq<char>, manager: u128, spec_id: u128) -> Option<Seq<char>> {
    match websocket_url_text(master, manager, spec_id) {
        Some(t) => url_parse(t),
        None => None,
    }
}

/// Reads a URL.
///
/// Calls `url::Url::parse` and writes the URL back with its `Display`,
/// which gives its normalized serialization. Its result is named
/// `url_parse`; the URL standard it follows is not restated here.
#[verifier::external_body]
fn parse_url(text: &str) -> (r: Option<String>)
    ensures
        match r {
            Some(u) => url_parse(text@) == Some(u@),
            None => url_parse(text@) is None,
        },
{
    match url::Url::parse(text) {
        Ok(u) => Some(u.to_string()),
        Err(_) => None,
    }
}

/// Whether the client reports that it left its group: only when both its
/// spec and its file system were removed from the registry.
pub fn left_group(spec_removed: bool, fs_removed: bool) -> (r: bool)
    ensures
        r == (spec_removed && fs_removed),
{
    spec_removed && fs_removed
}

/// The answer an input line gives to the group prompt.
pub fn group_choice(input: &str) -> (c: GroupChoice)
    ensures
        c == group_choice_of(input@),
{
    let t = trim(input);
    if t.unicode_len() == 1 {
        let ch = t.get_char(0);
        proof {
            assert(t@ =~= seq![ch]);
        }
        if ch == 'n' || ch == 'N' {
            return GroupChoice::Create;
        } else if ch == 'y' || ch == 'Y' {
            return GroupChoice::Join;
        }
        assert(t@ != seq!['n'] && t@ != seq!['N'] && t@ != seq!['y'] && t@ != seq!['Y']) by {
            assert(seq!['n'][0] == 'n');
            assert(seq!['N'][0] == 'N');
            assert(seq!['y'][0] == 'y');
            assert(seq!['Y'][0] == 'Y');
        }
    }
    GroupChoice::Retry
}

/// The number a device is chosen by: the input line, trimmed, read as an
/// unsigned number.
pub fn selected_index(input: &str) -> (r: Option<usize>)
    ensures
        r == parsed_usize(trim_text(input@)),
{
    parse_usize(trim(input))
}

/// The number of the menu action chosen: the input line, trimmed, read as a
/// signed 32-bit number.
pub fn action_number(input: &str) -> (r: Option<i32>)
    ensures
        r == parsed_i32(trim_text(input@)),
{
    parse_i32(trim(input))
}

/// The number of the device chosen for a file transfer: the input line,
/// trimmed, read as an unsigned number; the line must hold one.
pub fn device_number(input: &str) -> (n: usize)
    requires
        parsed_usize(trim_text(input@)) is Some,
    ensures
        parsed_usize(trim_text(input@)) == Some(n),
{
    parse_usize(trim(input)).unwrap()
}

/// The actions the menu lists, in the order it lists them.
pub fn menu_actions() -> (actions: Vec<Action>)
    ensures
        actions@ == menu_order(),
{
    let mut actions = Vec::new();
    actions.push(Action::DeviceList);
    actions.push(Action::FileSystem);
    actions.push(Action::FileTransfer);
    actions.push(Action::Exit);
    assert(actions@ =~= menu_order());
    actions
}

/// The action the number `n` selects.
pub fn action_of(n: i32) -> (a: Action)
    ensures
        a == action_of_number(n as int),
{
    if n == 0 {
        Action::DeviceList
    } else if n == 1 {
        Action::FileSystem
    } else if n == 2 {
        Action::FileTransfer
    } else if n == 3 {
        Action::Exit
    } else {
        Action::Undefined
    }
}

/// The number shown beside an action in the menu selects that action, and
/// every action but `Undefined` is listed exactly once.
pub proof fn law_menu_numbers_select(i: int)
    ensures
        0 <= i < menu_order().len() ==> action_of_number(i) == menu_order()[i],
        menu_order().len() == 4,
        menu_order().no_duplicates(),
        !menu_order().contains(Action::Undefined),
{
    assert(menu_order()[0] == Action::DeviceList);
    assert(menu_order()[1] == Action::FileSystem);
    assert(menu_order()[2] == Action::FileTransfer);
    assert(menu_order()[3] == Action::Exit);
}

/// A number the menu does not list selects no action, and an action is
/// selected only by the position the menu lists it at.
pub proof fn law_unlisted_numbers_select_nothing(n: int)
    ensures
        n < 0 || n >= menu_order().len() ==> action_of_number(n) == Action::Undefined,
        action_of_number(n) != Action::Undefined ==> 0 <= n < menu_order().len()
            && menu_order()[n] == action_of_number(n),
        forall|m: int| 0 <= m < menu_order().len() && 0 <= n < menu_order().len()
            && action_of_number(m) == action_of_number(n) ==> m == n,
{
    law_menu_numbers_select(n);
}

/// The line listing device number `idx` starts with `idx` in decimal and
/// `> `, followed by the device's OS, its version and its address; and the
/// number shown, read back as the client reads a selection, is `idx`, the
/// number that selects the device.
pub proof fn law_device_line_number(idx: usize, spec: DeviceSpec)
    ensures
        device_line(idx as nat, spec).take(decimal_text(idx as nat).len() as int) == decimal_text(idx as nat),
        device_line(idx as nat, spec).subrange(
            decimal_text(idx as nat).len() as int,
            decimal_text(idx as nat).len() as int + 2,
        ) == seq!['>', ' '],
        device_line(idx as nat, spec).skip(decimal_text(idx as nat).len() as int + 2)
            == spec.os@ + seq!['('] + spec.os_version@ + seq![')', '_'] + spec.ip@,
        parsed_usize(trim_text(decimal_text(idx as nat))) == Some(idx),
{
    reveal_strlit("> ");
    reveal_strlit("(");
    reveal_strlit(")_");
    let d = decimal_text(idx as nat);
    let line = device_line(idx as nat, spec);
    let k = d.len() as int;
    assert(line =~= d + seq!['>', ' '] + (spec.os@ + seq!['('] + spec.os_version@ + seq![')', '_'] + spec.ip@));
    assert(line.take(k) =~= d);
    assert(line.subrange(k, k + 2) =~= seq!['>', ' ']);
    assert(line.skip(k + 2) =~= spec.os@ + seq!['('] + spec.os_version@ + seq![')', '_'] + spec.ip@);
    law_decimal_reads_back(idx);
}

/// A peer's address is its registered ip, a `:`, and its registered port
/// text whole; so for a device that registered the port its listener binds,
/// the address reaches that port.
pub proof fn law_peer_address_carries_port(spec: DeviceSpec, net: TcpNetwork)
    ensures
        peer_address_text(spec).take(spec.ip@.len() as int) == spec.ip@,
        peer_address_text(spec)[spec.ip@.len() as int] == ':',
        peer_address_text(spec).skip(spec.ip@.len() as int + 1) == spec.listen_port@,
        spec.listen_port@ == decimal_text(net.port() as nat) ==> peer_address_text(spec).skip(spec.ip@.len() as int + 1)
            == ("0.0.0.0:"@ + decimal_text(net.port() as nat)).skip(8),
{
    reveal_strlit(":");
    reveal_strlit("0.0.0.0:");
    let a = peer_address_text(spec);
    let k = spec.ip@.len() as int;
    assert(a =~= spec.ip@ + seq![':'] + spec.listen_port@);
    assert(a.take(k) =~= spec.ip@);
    assert(a.skip(k + 1) =~= spec.listen_port@);
    assert(("0.0.0.0:"@ + decimal_text(net.port() as nat)).skip(8) =~= decimal_text(net.port() as nat));
}

/// For a server at `http://host`, the channel text is `ws://host/ws/`, then
/// the group's id, `/`, and the spec's id, each written so that it reads
/// back as that id.
pub proof fn law_channel_text_names_ids(host: Seq<char>, group: u128, spec_id: u128)
    ensures
        websocket_url_text("http://"@ + host, group, spec_id) matches Some(t) && {
            let g: int = 9 + host.len() as int;
            &&& t.take(5) == seq!['w', 's', ':', '/', '/']
            &&& t.subrange(5, 5 + host.len() as int) == host
            &&& t.subrange(5 + host.len() as int, g) == seq!['/', 'w', 's', '/']
            &&& uuid_parse(t.subrange(g, g + 36)) == Some(group)
            &&& t[g + 36] == '/'
            &&& uuid_parse(t.subrange(g + 37, g + 73)) == Some(spec_id)
            &&& t.len() == g + 73
        },
{
    reveal_strlit("http://");
    reveal_strlit("ws://");
    reveal_strlit("/ws/");
    reveal_strlit("/");
    let master = "http://"@ + host;
    assert(master.take(7) =~= "http://"@);
    assert(master.skip(7) =~= host);
    let t = "ws://"@ + host + "/ws/"@ + hyphenated_text(group) + "/"@ + hyphenated_text(spec_id);
    let g: int = 9 + host.len() as int;
    assert(t.take(5) =~= seq!['w', 's', ':', '/', '/']);
    assert(t.subrange(5, 5 + host.len() as int) =~= host);
    assert(t.subrange(5 + host.len() as int, g) =~= seq!['/', 'w', 's', '/']);
    assert(t.subrange(g, g + 36) =~= hyphenated_text(group));
    assert(t.subrange(g + 37, g + 73) =~= hyphenated_text(spec_id));
    law_hyphenated_round_trip(group);
    law_hyphenated_round_trip(spec_id);
}

/// An indented line is `4 * indent` spaces followed by the message whole.
pub proof fn law_indented_line(indent: nat, msg: Seq<char>)
    ensures
        (spaces(4 * indent) + msg).len() == 4 * indent + msg.len(),
        forall|i: int| 0 <= i < 4 * indent ==> #[trigger] (spaces(4 * indent) + msg)[i] == ' ',
        (spaces(4 * indent) + msg).skip(4 * indent as int) == msg,
{
    assert((spaces(4 * indent) + msg).skip(4 * indent as int) =~= msg);
}

/// The path of the file to ask a peer for: the input line without its
/// trailing whitespace.
pub fn requested_file_name(input: &str) -> (name: String)
    ensures
        name@ == trim_end_text(input@),
{
    String::from_str(trim_end(input))
}

/// `msg` indented by `indent` levels of four spaces.
pub fn indented(indent: usize, msg: &str) -> (line: String)
    requires
        indent <= usize::MAX / 4,
    ensures
        line@ == spaces(4 * indent as nat) + msg@,
{
    proof {
        reveal_strlit(" ");
    }
    let n = indent * 4;
    let mut line = String::new();
    let mut i: usize = 0;
    while i < n
        invariant
            i <= n,
            line@ == spaces(i as nat),
        decreases n - i,
    {
        proof {
            reveal_strlit(" ");
        }
        line.append(" ");
        i = i + 1;
        assert(line@ =~= spaces(i as nat));
    }
    line.append(msg);
    line
}

/// The lines listing the devices of a group that registered a spec, in the
/// order of their ids, numbered from 0.
pub fn device_list(dm: &DeviceManager) -> (lines: Vec<String>)
    ensures
        lines@.len() == dm.specs().dom().len(),
        forall|i: int| 0 <= i < lines@.len() ==> #[trigger] lines@[i]@
            == device_line(i as nat, dm.specs()[nth_id(dm.specs().dom(), i)]),
{
    let ids = dm.spec_ids();
    proof {
        ids@.unique_seq_to_set();
    }
    let mut lines: Vec<String> = Vec::new();
    let mut i: usize = 0;
    while i < ids.len()
        invariant
            i <= ids@.len(),
            ids@.len() == dm.specs().dom().len(),
            ids@.to_set() == dm.specs().dom(),
            ids@.no_duplicates(),
            crate::device_manager::strictly_increasing(ids@),
            lines@.len() == i,
            forall|k: int| 0 <= k < i ==> #[trigger] lines@[k]@
                == device_line(k as nat, dm.specs()[nth_id(dm.specs().dom(), k)]),
        decreases ids@.len() - i,
    {
        let id = ids[i];
        proof {
            crate::device_manager::lemma_nth_of_sorted(ids@, i as int);
            assert(ids@.to_set().contains(id));
        }
        let spec = dm.get_device_spec(id).unwrap();
        let line = device_line_string(i, spec);
        let ghost before = lines@;
        lines.push(line);
        proof {
            assert forall|k: int| 0 <= k < i + 1 implies #[trigger] lines@[k]@
                == device_line(k as nat, dm.specs()[nth_id(dm.specs().dom(), k)]) by {
                if k < i {
                    assert(lines@[k] == before[k]);
                }
            }
        }
        i = i + 1;
    }
    lines
}

fn device_line_string(idx: usize, spec: &DeviceSpec) -> (line: String)
    ensures
        line@ == device_line(idx as nat, *spec),
{
    proof {
        reveal_strlit("> ");
        reveal_strlit("(");
        reveal_strlit(")_");
    }
    let mut line = decimal(idx as u64);
    line.append("> ");
    line.append(spec.os.as_str());
    line.append("(");
    line.append(spec.os_version.as_str());
    line.append(")_");
    line.append(spec.ip.as_str());
    line
}

/// The address to connect to for a file transfer with the device of `spec`.
pub fn peer_address(spec: &DeviceSpec) -> (addr: String)
    ensures
        addr@ == peer_address_text(*spec),
{
    proof {
        reveal_strlit(":");
    }
    let mut addr = spec.ip.clone();
    addr.append(":");
    addr.append(spec.listen_port.as_str());
    addr
}

/// Whether the client fetches its group's registry again on `event`: only
/// on a text message.
pub fn needs_refresh(event: SyncEvent) -> (r: bool)
    ensures
        r == (event == SyncEvent::Text),
{
    match event {
        SyncEvent::Text => true,
        _ => false,
    }
}

/// A command-line client: the group server it talks to, the group it is in,
/// its own device id and its file-transfer endpoint.
#[derive(Clone, Debug)]
pub struct Cli {
    master_addr: String,
    device_manager_uuid: u128,
    device_uuid: u128,
    network: TcpNetwork,
}

impl Cli {
    /// The group server's address.
    pub closed spec fn master(&self) -> Seq<char> {
        self.master_addr@
    }

    /// The id of the group the client is in (`0`, the nil id, before it
    /// joins or creates one).
    pub closed spec fn group_id(&self) -> u128 {
        self.device_manager_uuid
    }

    /// The client's own device id.
    pub closed spec fn device_id(&self) -> u128 {
        self.device_uuid
    }

    /// The client's file-transfer endpoint.
    pub closed spec fn endpoint(&self) -> TcpNetwork {
        self.network
    }

    /// A client of the server at `master_addr` with a fresh random device id,
    /// in no group yet, listening on `listen_port` and storing received
    /// files in `file_storage`.
    pub fn new(master_addr: String, listen_port: u16, file_storage: String) -> (c: Cli)
        ensures
            c.master() == master_addr@,
            c.group_id() == 0,
            (c.device_id() >> 76u128) & 15u128 == 4,
            (c.device_id() >> 62u128) & 3u128 == 2,
            c.endpoint().port() == listen_port,
            c.endpoint().storage() == file_storage@,
    {
        Cli::with_device_id(master_addr, listen_port, file_storage, random_id())
    }

    /// A client as [`Cli::new`] makes it, with the device id `device_id`.
    pub fn with_device_id(master_addr: String, listen_port: u16, file_storage: String, device_id: u128) -> (c: Cli)
        ensures
            c.master() == master_addr@,
            c.group_id() == 0,
            c.device_id() == device_id,
            c.endpoint().port() == listen_port,
            c.endpoint().storage() == file_storage@,
    {
        Cli {
            master_addr,
            device_manager_uuid: 0,
            device_uuid: device_id,
            network: TcpNetwork::new(listen_port, file_storage),
        }
    }

    /// The client's file-transfer endpoint.
    pub fn network(&self) -> (n: &TcpNetwork)
        ensures
            *n == self.endpoint(),
    {
        &self.network
    }

    /// The id of the group the client is in.
    pub fn device_manager_id(&self) -> (id: u128)
        ensures
            id == self.group_id(),
    {
        self.device_manager_uuid
    }

    /// The client's own device id.
    pub fn device_uuid(&self) -> (id: u128)
        ensures
            id == self.device_id(),
    {
        self.device_uuid
    }

    /// The group server's address.
    pub fn master_addr(&self) -> (a: &str)
        ensures
            a@ == self.master(),
    {
        self.master_addr.as_str()
    }

    /// The group's id as the client shows it to its user, who hands it to the
    /// devices that are to join: the hyphenated form.
    pub fn group_id_text(&self) -> (t: String)
        ensures
            t@ == hyphenated_text(self.group_id()),
    {
        uuid_text(self.device_manager_uuid)
    }

    /// Enters the group `id` (one the server created for the client).
    pub fn enter(&mut self, id: u128)
        ensures
            final(self).group_id() == id,
            final(self).master() == old(self).master(),
            final(self).device_id() == old(self).device_id(),
            final(self).endpoint() == old(self).endpoint(),
    {
        self.device_manager_uuid = id;
    }

    /// Enters the group whose id the input line holds (trimmed, in any form
    /// the `uuid` crate reads); the line must hold one.
    pub fn join_group(&mut self, input: &str) -> (id: u128)
        requires
            uuid_parse(trim_text(input@)) is Some,
        ensures
            uuid_parse(trim_text(input@)) == Some(id),
            forall|k: u128| trim_text(input@) == #[trigger] hyphenated_text(k) ==> id == k,
            final(self).group_id() == id,
            final(self).master() == old(self).master(),
            final(self).device_id() == old(self).device_id(),
            final(self).endpoint() == old(self).endpoint(),
    {
        let id = parse_uuid(trim(input)).unwrap();
        proof {
            assert forall|k: u128| trim_text(input@) == #[trigger] hyphenated_text(k) implies id == k by {
                law_hyphenated_round_trip(k);
            }
        }
        self.enter(id);
        id
    }

    /// Enters the group whose id the input line holds, if it holds one.
    /// Gives back the id entered, or `None`, with the client unchanged,
    /// where the line holds no id.
    pub fn try_join_group(&mut self, input: &str) -> (r: Option<u128>)
        ensures
            r == uuid_parse(trim_text(input@)),
            forall|k: u128| trim_text(input@) == #[trigger] hyphenated_text(k) ==> r == Some(k),
            r matches Some(id) ==> final(self).group_id() == id,
            r is None ==> final(self).group_id() == old(self).group_id(),
            final(self).master() == old(self).master(),
            final(self).device_id() == old(self).device_id(),
            final(self).endpoint() == old(self).endpoint(),
    {
        let r = parse_uuid(trim(input));
        proof {
            assert forall|k: u128| trim_text(input@) == #[trigger] hyphenated_text(k) implies r == Some(k) by {
                law_hyphenated_round_trip(k);
            }
        }
        match r {
            Some(id) => self.enter(id),
            None => {},
        }
        r
    }

    /// The channel text for this client's group and the spec `spec_id` it
    /// registered, before the `url` crate reads it.
    fn channel_text(&self, spec_id: u128) -> (r: Option<String>)
        ensures
            match r {
                Some(u) => websocket_url_text(self.master(), self.group_id(), spec_id) == Some(u@),
                None => websocket_url_text(self.master(), self.group_id(), spec_id) is None,
            },
    {
        proof {
            reveal_strlit("http://");
            reveal_strlit("ws://");
            reveal_strlit("/ws/");
            reveal_strlit("/");
        }
        let m = self.master_addr.as_str();
        let n = m.unicode_len();
        if n < 7 {
            return None;
        }
        let prefix = "http://";
        let mut i: usize = 0;
        while i < 7
            invariant
                i <= 7 <= n,
                n == m@.len(),
                m@ == self.master(),
                prefix@ == "http://"@,
                prefix@.len() == 7,
                forall|k: int| 0 <= k < i ==> m@[k] == prefix@[k],
            decreases 7 - i,
        {
            if m.get_char(i) != prefix.get_char(i) {
                assert(m@.take(7)[i as int] != prefix@[i as int]);
                return None;
            }
            i = i + 1;
        }
        assert(m@.take(7) =~= "http://"@);
        let rest = m.substring_char(7, n);
        assert(rest@ =~= m@.skip(7));
        let mut u = String::from_str("ws://");
        u.append(rest);
        u.append("/ws/");
        u.append(uuid_text(self.device_manager_uuid).as_str());
        u.append("/");
        u.append(uuid_text(spec_id).as_str());
        Some(u)
    }

    /// The URL the client opens for the server's channel of its group and
    /// the spec `spec_id` it registered. The server's address must start
    /// with `http://`, and the channel text must be a URL.
    pub fn websocket_url(&self, spec_id: u128) -> (u: String)
        requires
            channel_url(self.master(), self.group_id(), spec_id) is Some,
        ensures
            channel_url(self.master(), self.group_id(), spec_id) == Some(u@),
    {
        let t = self.channel_text(spec_id).unwrap();
        parse_url(t.as_str()).unwrap()
    }

    /// The URL the client opens for the server's channel, or `None` where
    /// the server's address does not start with `http://` or the channel
    /// text is not a URL.
    pub fn checked_websocket_url(&self, spec_id: u128) -> (r: Option<String>)
        ensures
            match r {
                Some(u) => channel_url(self.master(), self.group_id(), spec_id) == Some(u@),
                None => channel_url(self.master(), self.group_id(), spec_id) is None,
            },
    {
        match self.channel_text(spec_id) {
            Some(t) => match parse_url(t.as_str()) {
                Some(_) => Some(self.websocket_url(spec_id)),
                None => None,
            },
            None => None,
        }
    }
}

} // verus!
