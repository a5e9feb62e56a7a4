//! The peer-to-peer file transfer between the devices of a group.
//!
//! A device listens on its port; a peer connects, sends the path of the file
//! it wants as UTF-8 text, and the device answers with the file's bytes. The
//! requester stores what it received in its storage directory, under the
//! final component of the requested path. This module holds what the
//! transfer computes; the sockets and files are driven by the caller.

use vstd::prelude::*;
use vstd::utf8::{decode_utf8, encode_utf8, valid_utf8};
use crate::text::{chars_of, decimal, decimal_text};

verus! {

broadcast use vstd::utf8::group_utf8_lib;

/// The number of bytes a device reads of a request, and a requester of a
/// reply.
pub const TRANSFER_BUFFER_LEN: usize = 1024;

/// The start of the path segment that ends at position `n` of `s`: the
/// position just after the last `/` before `n`, or `0`.
pub open spec fn segment_start(s: Seq<char>, n: int) -> int
    decreases n,
{
    if n <= 0 || s[n - 1] == '/' {
        n
    } else {
        segment_start(s, n - 1)
    }
}

/// A segment starts at or before the position where it ends, after a `/`
/// or at the start, and holds no `/`.
pub proof fn lemma_segment_start_bounds(s: Seq<char>, n: int)
    requires
        0 <= n <= s.len(),
    ensures
        0 <= segment_start(s, n) <= n,
        n > 0 && s[n - 1] != '/' ==> segment_start(s, n) < n,
        forall|k: int| segment_start(s, n) <= k < n ==> s[k] != '/',
        segment_start(s, n) > 0 ==> s[segment_start(s, n) - 1] == '/',
    decreases n,
{
    if n > 0 && s[n - 1] != '/' {
        lemma_segment_start_bounds(s, n - 1);
    }
}

/// The bounds of the final component of the path made of the first `n`
/// characters of `s`, read as Unix paths are: `/` separates components,
/// empty and `.` components are dropped, and a final `..` (or no component
/// at all) has no file name.
pub open spec fn final_component(s: Seq<char>, n: int) -> Option<(int, int)>
    decreases n,
{
    if n <= 0 || n > s.len() {
        None
    } else if s[n - 1] == '/' {
        final_component(s, n - 1)
    } else {
        let st = segment_start(s, n);
        proof {
            lemma_segment_start_bounds(s, n);
        }
        if n - st == 1 && s[st] == '.' {
            final_component(s, st)
        } else if n - st == 2 && s[st] == '.' && s[st + 1] == '.' {
            None
        } else {
            Some((st, n))
        }
    }
}

/// The file name of a path: its final component, unless that is `..` or
/// the path has none (the empty path, `/`, `.`).
pub open spec fn path_file_name(path: Seq<char>) -> Option<Seq<char>> {
    match final_component(path, path.len() as int) {
        Some((st, en)) => Some(path.subrange(st, en)),
        None => None,
    }
}

/// Where a received file is stored: the storage directory, a `/`, and the
/// file name of the requested path.
pub open spec fn stored_path(storage: Seq<char>, requested: Seq<char>) -> Option<Seq<char>> {
    match path_file_name(requested) {
        Some(name) => Some(storage + seq!['/'] + name),
        None => None,
    }
}

/// What a device answers to a request for a file with contents
/// `contents`: the file's bytes.
pub open spec fn reply_bytes(contents: Seq<u8>) -> Seq<u8> {
    contents
}

/// The path a device reads from a request: the request's bytes as UTF-8
/// text, if they are valid UTF-8.
pub open spec fn requested_path_of(request: Seq<u8>) -> Option<Seq<char>> {
    if valid_utf8(request) {
        Some(decode_utf8(request))
    } else {
        None
    }
}

/// What is read of a request (by the device) or of a reply (by the
/// requester) in one go: the bytes themselves if they fit in the
/// transfer buffer, else their first [`TRANSFER_BUFFER_LEN`] bytes.
pub open spec fn buffered(bytes: Seq<u8>) -> Seq<u8> {
    if bytes.len() <= TRANSFER_BUFFER_LEN {
        bytes
    } else {
        bytes.take(TRANSFER_BUFFER_LEN as int)
    }
}

/// A single plain path component: not empty, without `/`, and neither `.`
/// nor `..`.
pub open spec fn is_plain_component(name: Seq<char>) -> bool {
    &&& name.len() > 0
    &&& forall|i: int| 0 <= i < name.len() ==> name[i] != '/'
    &&& name != seq!['.']
    &&& name != seq!['.', '.']
}

proof fn lemma_final_component_is_plain(s: Seq<char>, n: int)
    requires
        0 <= n <= s.len(),
    ensures
        final_component(s, n) matches Some((st, en)) ==> 0 <= st < en <= n
            && is_plain_component(s.subrange(st, en)),
    decreases n,
{
    if n <= 0 {
    } else if s[n - 1] == '/' {
        lemma_final_component_is_plain(s, n - 1);
    } else {
        let st = segment_start(s, n);
        lemma_segment_start_bounds(s, n);
        if n - st == 1 && s[st] == '.' {
            lemma_final_component_is_plain(s, st);
        } else if n - st == 2 && s[st] == '.' && s[st + 1] == '.' {
        } else {
            let name = s.subrange(st, n);
            assert(name.len() == n - st);
            if name == seq!['.'] {
                assert(name[0] == s[st]);
                assert(false);
            }
            if name == seq!['.', '.'] {
                assert(name[0] == s[st] && name[1] == s[st + 1]);
                assert(false);
            }
            assert forall|i: int| 0 <= i < name.len() implies name[i] != '/' by {
                assert(name[i] == s[st + i]);
            }
        }
    }
}

proof fn lemma_segment_start_of_plain(s: Seq<char>, n: int)
    requires
        0 <= n <= s.len(),
        forall|i: int| 0 <= i < n ==> s[i] != '/',
    ensures
        segment_start(s, n) == 0,
    decreases n,
{
    if n > 0 {
        lemma_segment_start_of_plain(s, n - 1);
    }
}

/// The file name of any path is a single plain component: a received file
/// is always stored directly inside the storage directory, whatever path
/// was requested.
pub proof fn law_file_name_is_plain(path: Seq<char>)
    ensures
        path_file_name(path) matches Some(name) ==> is_plain_component(name),
{
    lemma_final_component_is_plain(path, path.len() as int);
}

/// A plain component is its own file name, so taking the file name twice
/// gives what taking it once gives.
pub proof fn law_file_name_idempotent(path: Seq<char>)
    ensures
        is_plain_component(path) ==> path_file_name(path) == Some(path),
        path_file_name(path) matches Some(name) ==> path_file_name(name) == Some(name),
{
    law_file_name_is_plain(path);
    assert forall|name: Seq<char>| is_plain_component(name) implies path_file_name(name) == Some(name) by {
        let n = name.len() as int;
        lemma_segment_start_of_plain(name, n);
        assert(name[n - 1] != '/');
        if n == 1 && name[0] == '.' {
            assert(name =~= seq!['.']);
        }
        if n == 2 && name[0] == '.' && name[1] == '.' {
            assert(name =~= seq!['.', '.']);
        }
        assert(name.subrange(0, n) =~= name);
    }
}

proof fn lemma_segment_start_after_slash(s: Seq<char>, st: int, n: int)
    requires
        0 < st <= n <= s.len(),
        s[st - 1] == '/',
        forall|k: int| st <= k < n ==> s[k] != '/',
    ensures
        segment_start(s, n) == st,
    decreases n - st,
{
    if n > st {
        lemma_segment_start_after_slash(s, st, n - 1);
    }
}

/// The file name of a path that ends in a plain component after a `/` is
/// that whole component, whatever the directory before it; so a file
/// received for `dir/name` is stored as `storage/name`.
pub proof fn law_file_name_is_last_component(dir: Seq<char>, name: Seq<char>, storage: Seq<char>)
    requires
        is_plain_component(name),
    ensures
        path_file_name(dir + seq!['/'] + name) == Some(name),
        stored_path(storage, dir + seq!['/'] + name) == Some(storage + seq!['/'] + name),
{
    let s = dir + seq!['/'] + name;
    let st: int = dir.len() as int + 1;
    let n = s.len() as int;
    assert(s[st - 1] == '/');
    assert forall|k: int| st <= k < n implies s[k] != '/' by {
        assert(s[k] == name[k - st]);
    }
    lemma_segment_start_after_slash(s, st, n);
    assert(s[n - 1] == name[name.len() - 1]);
    assert(s.subrange(st, n) =~= name);
    if n - st == 1 && s[st] == '.' {
        assert(name =~= seq!['.']);
    }
    if n - st == 2 && s[st] == '.' && s[st + 1] == '.' {
        assert(name =~= seq!['.', '.']);
    }
}

/// A device reads back exactly the path a requester asked for, as long as
/// the request fits in the transfer buffer.
pub proof fn law_request_round_trip(path: Seq<char>)
    requires
        encode_utf8(path).len() <= TRANSFER_BUFFER_LEN,
    ensures
        requested_path_of(buffered(encode_utf8(path))) == Some(path),
{
    vstd::utf8::encode_utf8_valid_utf8(path);
    vstd::utf8::encode_utf8_decode_utf8(path);
}

/// A transfer copies the peer's file: when the file fits in the transfer
/// buffer, what the requester reads of the reply, and stores, is exactly
/// the file's contents.
pub proof fn law_transfer_copies_file(contents: Seq<u8>)
    requires
        contents.len() <= TRANSFER_BUFFER_LEN,
    ensures
        buffered(reply_bytes(contents)) == contents,
{
}

/// Reads `bytes` as UTF-8 text.
///
/// Calls `std::str::from_utf8`. Claimed of it, as its documentation says:
/// it succeeds exactly when the bytes are valid UTF-8, and then the text it
/// returns is made of those very bytes.
#[verifier::external_body]
fn utf8_text(bytes: &[u8]) -> (r: Option<&str>)
    ensures
        r is Some <==> valid_utf8(bytes@),
        r matches Some(t) ==> encode_utf8(t@) == bytes@,
{
    std::str::from_utf8(bytes).ok()
}

/// The bounds of the file name of `path` (see [`path_file_name`]).
fn file_name_bounds(path: &Vec<char>) -> (r: Option<(usize, usize)>)
    ensures
        match r {
            Some((st, en)) => final_component(path@, path@.len() as int) == Some((st as int, en as int))
                && st <= en <= path@.len(),
            None => final_component(path@, path@.len() as int) is None,
        },
{
    let ghost s = path@;
    let mut end: usize = path.len();
    loop
        invariant
            s == path@,
            end <= s.len(),
            final_component(s, s.len() as int) == final_component(s, end as int),
        decreases end,
    {
        let ghost e0 = end;
        while end > 0 && path[end - 1] == '/'
            invariant
                end <= e0,
                s == path@,
                end <= s.len(),
                final_component(s, s.len() as int) == final_component(s, end as int),
            decreases end,
        {
            end = end - 1;
        }
        if end == 0 {
            return None;
        }
        let mut st: usize = end;
        while st > 0 && path[st - 1] != '/'
            invariant
                end <= e0,
                s == path@,
                0 < end <= s.len(),
                s[end - 1] != '/',
                st <= end,
                segment_start(s, end as int) == segment_start(s, st as int),
            decreases st,
        {
            st = st - 1;
        }
        proof {
            lemma_segment_start_bounds(s, end as int);
        }
        assert(segment_start(s, st as int) == st);
        if end - st == 1 && path[st] == '.' {
            end = st;
        } else if end - st == 2 && path[st] == '.' && path[st + 1] == '.' {
            return None;
        } else {
            return Some((st, end));
        }
    }
}

/// A device's file-transfer endpoint: the port it listens on and the
/// directory where the files it receives are stored.
#[derive(Clone, Debug)]
pub struct TcpNetwork {
    pub listen_port: u16,
    file_storage: String,
}

impl TcpNetwork {
    /// The port the device listens on.
    pub closed spec fn port(&self) -> u16 {
        self.listen_port
    }

    /// The directory where received files are stored.
    pub closed spec fn storage(&self) -> Seq<char> {
        self.file_storage@
    }

    pub fn new(listen_port: u16, file_storage: String) -> (n: TcpNetwork)
        ensures
            n.port() == listen_port,
            n.storage() == file_storage@,
    {
        TcpNetwork { listen_port, file_storage }
    }

    /// The address the listener binds: every interface, on the device's port.
    pub fn listen_address(&self) -> (addr: String)
        ensures
            addr@ == "0.0.0.0:"@ + decimal_text(self.port() as nat),
    {
        proof {
            reveal_strlit("0.0.0.0:");
        }
        let mut addr = String::from_str("0.0.0.0:");
        addr.append(decimal(self.listen_port as u64).as_str());
        addr
    }

    /// Where the file received for the request `file_name` is stored. The
    /// requested path must have a file name (see [`has_file_name`]).
    pub fn save_path(&self, file_name: &str) -> (p: String)
        requires
            path_file_name(file_name@) is Some,
        ensures
            stored_path(self.storage(), file_name@) == Some(p@),
    {
        let cs = chars_of(file_name);
        let (st, en) = file_name_bounds(&cs).unwrap();
        let name = file_name.substring_char(st, en);
        proof {
            reveal_strlit("/");
        }
        let mut p = self.file_storage.clone();
        p.append("/");
        p.append(name);
        p
    }
}

/// Whether the path `file_name` has a file name, so that a file received
/// for it can be stored.
pub fn has_file_name(file_name: &str) -> (r: bool)
    ensures
        r == path_file_name(file_name@) is Some,
{
    let cs = chars_of(file_name);
    file_name_bounds(&cs).is_some()
}

/// The bytes a requester sends to ask for the file at `file_name`: the
/// path's UTF-8 encoding.
pub fn file_request(file_name: &str) -> (request: Vec<u8>)
    ensures
        request@ == encode_utf8(file_name@),
{
    file_name.as_bytes_vec()
}

/// Whether a received request is valid UTF-8, so that a device can read a
/// path from it.
pub fn is_readable_request(request: &[u8]) -> (r: bool)
    ensures
        r == valid_utf8(request@),
{
    utf8_text(request).is_some()
}

/// The path a device reads from a request it received, which must be valid
/// UTF-8 (see [`is_readable_request`]).
pub fn requested_path(request: &[u8]) -> (p: String)
    requires
        valid_utf8(request@),
    ensures
        requested_path_of(request@) == Some(p@),
{
    let t = utf8_text(request).unwrap();
    proof {
        vstd::utf8::encode_utf8_decode_utf8(t@);
    }
    String::from_str(t)
}

/// The answer a device sends for a file with contents `contents` (see
/// [`reply_bytes`]).
pub fn reply_payload(contents: &[u8]) -> (reply: Vec<u8>)
    ensures
        reply@ == reply_bytes(contents@),
{
    let mut reply: Vec<u8> = Vec::new();
    let n = contents.len();
    let mut i: usize = 0;
    while i < n
        invariant
            n == contents@.len(),
            i <= n,
            reply@ == contents@.take(i as int),
        decreases n - i,
    {
        reply.push(contents[i]);
        i = i + 1;
        assert(reply@ =~= contents@.take(i as int));
    }
    assert(reply@ =~= contents@);
    reply
}

} // verus!
