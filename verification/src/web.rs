//! The web side of the server: which file a request for the page is served
//! from and with which content type, who may use the control API, and which
//! LAN port may be taken.

use vstd::prelude::*;
use crate::error::{AppError, ErrorKind, outcome};
use crate::paths::{components, is_normal, path_components};
use crate::text::{concat3, copy_string, starts_with, str_eq, u64_to_string};

verus! {

/// The last index of `c` in `s`.
pub open spec fn last_index_of(s: Seq<char>, c: char) -> Option<int>
    decreases s.len(),
{
    if s.len() == 0 {
        None
    } else if s.last() == c {
        Some(s.len() - 1)
    } else {
        last_index_of(s.drop_last(), c)
    }
}

/// `Path::file_name`: the last component, when it is a name.
pub open spec fn file_name_of(p: Seq<char>) -> Option<Seq<char>> {
    let cs = components(p);
    if cs.len() > 0 && is_normal(cs.last()) { Some(cs.last()) } else { None }
}

/// `Path::extension`: what follows the last `.` of the file name, unless
/// that `.` begins the name.
pub open spec fn extension_of(p: Seq<char>) -> Option<Seq<char>> {
    match file_name_of(p) {
        None => None,
        Some(n) => match last_index_of(n, '.') {
            None => None,
            Some(i) => if i == 0 { None } else { Some(n.skip(i + 1)) },
        },
    }
}

fn last_dot(s: &str) -> (r: Option<usize>)
    ensures
        match last_index_of(s@, '.') {
            Some(i) => r matches Some(k) && k as int == i && 0 <= i < s@.len(),
            None => r is None,
        },
{
    let cs = crate::text::chars_of(s);
    let mut i: usize = cs.len();
    assert(s@.take(s@.len() as int) =~= s@);
    while i > 0
        invariant
            i <= cs@.len(),
            cs@ == s@,
            last_index_of(s@, '.') == last_index_of(s@.take(i as int), '.'),
        decreases i,
    {
        assert(s@.take(i as int).drop_last() =~= s@.take(i - 1));
        if cs[i - 1] == '.' {
            assert(s@.take(i as int).last() == '.');
            return Some(i - 1);
        }
        i = i - 1;
    }
    assert(s@.take(0) =~= Seq::<char>::empty());
    None
}

pub fn extension(path: &str) -> (r: Option<String>)
    ensures
        match extension_of(path@) {
            Some(e) => r matches Some(x) && x@ == e,
            None => r is None,
        },
{
    proof {
        reveal_strlit("/");
        reveal_strlit(".");
        reveal_strlit("..");
    }
    let cs = path_components(path);
    if cs.len() == 0 {
        assert(extension_of(path@) is None);
        return None;
    }
    let last = &cs[cs.len() - 1];
    assert(last@ == components(path@).last());
    if str_eq(last.as_str(), "/") || str_eq(last.as_str(), ".") || str_eq(last.as_str(), "..") {
        assert(extension_of(path@) is None);
        return None;
    }
    assert(file_name_of(path@) == Some(last@));
    match last_dot(last.as_str()) {
        None => {
            assert(extension_of(path@) is None);
            None
        },
        Some(i) => {
            if i == 0 {
                assert(extension_of(path@) is None);
                None
            } else {
                let chars = crate::text::chars_of(last.as_str());
                let n = chars.len();
                assert(i < n);
                let tail = crate::text::slice_chars(&chars, i + 1, n);
                let r = crate::text::from_chars(tail.as_slice());
                assert(r@ =~= last@.skip(i + 1));
                Some(r)
            }
        },
    }
}

/// The content type a file is served with, by its extension.
pub open spec fn content_type_of(ext: Option<Seq<char>>) -> Seq<char> {
    match ext {
        Some(e) => if e == "html"@ {
            "text/html; charset=utf-8"@
        } else if e == "js"@ {
            "application/javascript; charset=utf-8"@
        } else if e == "wasm"@ {
            "application/wasm"@
        } else if e == "css"@ {
            "text/css; charset=utf-8"@
        } else if e == "json"@ {
            "application/json; charset=utf-8"@
        } else if e == "svg"@ {
            "image/svg+xml"@
        } else if e == "png"@ {
            "image/png"@
        } else if e == "jpg"@ || e == "jpeg"@ {
            "image/jpeg"@
        } else if e == "woff2"@ {
            "font/woff2"@
        } else {
            "application/octet-stream"@
        },
        None => "application/octet-stream"@,
    }
}

pub fn content_type(path: &str) -> (r: &'static str)
    ensures
        r@ == content_type_of(extension_of(path@)),
{
    match extension(path) {
        Some(e) => {
            let e = e.as_str();
            if str_eq(e, "html") {
                "text/html; charset=utf-8"
            } else if str_eq(e, "js") {
                "application/javascript; charset=utf-8"
            } else if str_eq(e, "wasm") {
                "application/wasm"
            } else if str_eq(e, "css") {
                "text/css; charset=utf-8"
            } else if str_eq(e, "json") {
                "application/json; charset=utf-8"
            } else if str_eq(e, "svg") {
                "image/svg+xml"
            } else if str_eq(e, "png") {
                "image/png"
            } else if str_eq(e, "jpg") || str_eq(e, "jpeg") {
                "image/jpeg"
            } else if str_eq(e, "woff2") {
                "font/woff2"
            } else {
                "application/octet-stream"
            }
        },
        None => "application/octet-stream",
    }
}

/// `s` without its leading `/`s.
pub open spec fn without_leading_slashes(s: Seq<char>) -> Seq<char>
    decreases s.len(),
{
    if s.len() > 0 && s[0] == '/' { without_leading_slashes(s.drop_first()) } else { s }
}

/// Where a request for the page goes.
#[derive(Debug, Clone, PartialEq)]
pub enum WebTarget {
    /// An API path: never served as a page.
    NotFound,
    /// A file under the web root, when it is one.
    File(String),
    /// The page itself.
    Index,
}

/// A relative path that names a file below the root: not empty, and made
/// of names only.
pub open spec fn safe_file(p: Seq<char>) -> bool {
    p.len() > 0 && forall|i: int| 0 <= i < components(p).len() ==> is_normal(#[trigger] components(p)[i])
}

pub open spec fn web_target_of(uri_path: Seq<char>) -> Option<Option<Seq<char>>> {
    let r = without_leading_slashes(uri_path);
    if r == "api"@ || "api/"@.is_prefix_of(r) || "_lan/"@.is_prefix_of(r) {
        None
    } else if safe_file(r) {
        Some(Some(r))
    } else {
        Some(None)
    }
}

/// Decides a request for the page: API paths are not found; a safe
/// relative path is served from the web root when it is a file there;
/// anything else gets the page.
pub fn web_target(uri_path: &str) -> (r: WebTarget)
    ensures
        match web_target_of(uri_path@) {
            None => r is NotFound,
            Some(None) => r is Index,
            Some(Some(f)) => r matches WebTarget::File(x) && x@ == f,
        },
{
    let cs = crate::text::chars_of(uri_path);
    let mut i: usize = 0;
    assert(uri_path@.skip(0) =~= uri_path@);
    while i < cs.len() && cs[i] == '/'
        invariant
            i <= cs@.len(),
            cs@ == uri_path@,
            without_leading_slashes(uri_path@) == without_leading_slashes(uri_path@.skip(i as int)),
        decreases cs.len() - i,
    {
        assert(uri_path@.skip(i as int).drop_first() =~= uri_path@.skip(i + 1));
        i = i + 1;
    }
    let rest_chars = crate::text::slice_chars(&cs, i, cs.len());
    let requested = crate::text::from_chars(rest_chars.as_slice());
    assert(requested@ =~= uri_path@.skip(i as int));
    assert(without_leading_slashes(requested@) == requested@);
    let req = requested.as_str();
    if str_eq(req, "api") || starts_with(req, "api/") || starts_with(req, "_lan/") {
        return WebTarget::NotFound;
    }
    if req.is_empty() {
        return WebTarget::Index;
    }
    let comps = path_components(req);
    let mut k: usize = 0;
    while k < comps.len()
        invariant
            k <= comps@.len(),
            requested@ == without_leading_slashes(uri_path@),
            requested@.len() > 0,
            !(requested@ == "api"@ || "api/"@.is_prefix_of(requested@) || "_lan/"@.is_prefix_of(requested@)),
            comps@.len() == components(requested@).len(),
            forall|q: int| 0 <= q < comps@.len() ==> (#[trigger] comps@[q])@ == components(requested@)[q],
            forall|q: int| 0 <= q < k ==> is_normal(#[trigger] components(requested@)[q]),
        decreases comps.len() - k,
    {
        let c = comps[k].as_str();
        if str_eq(c, "/") || str_eq(c, ".") || str_eq(c, "..") {
            return WebTarget::Index;
        }
        k = k + 1;
    }
    WebTarget::File(requested)
}

/// A loopback address: `127.x.x.x`, or `::1`.
#[derive(Debug, Clone, PartialEq)]
pub enum PeerAddress {
    V4([u8; 4]),
    V6([u16; 8]),
}

pub open spec fn is_loopback(a: PeerAddress) -> bool {
    match a {
        PeerAddress::V4(o) => o@[0] == 127,
        PeerAddress::V6(s) => s@ == seq![0u16, 0, 0, 0, 0, 0, 0, 1],
    }
}

/// The control API answers only to this machine.
pub fn require_loopback(peer: &PeerAddress) -> (r: Result<(), AppError>)
    ensures
        outcome(r, if is_loopback(*peer) { None } else { Some((ErrorKind::Forbidden, "该控制端 API 仅允许本机访问"@)) }),
{
    let ok = match peer {
        PeerAddress::V4(o) => o[0] == 127,
        PeerAddress::V6(s) => {
            let r = s[0] == 0 && s[1] == 0 && s[2] == 0 && s[3] == 0 && s[4] == 0 && s[5] == 0 && s[6] == 0 && s[7] == 1;
            proof {
                if r {
                    assert(s@ =~= seq![0u16, 0, 0, 0, 0, 0, 0, 1]);
                } else if s@ == seq![0u16, 0, 0, 0, 0, 0, 0, 1] {
                    assert(s@[0] == 0 && s@[7] == 1);
                }
            }
            r
        },
    };
    if ok { Ok(()) } else { Err(AppError::Forbidden("该控制端 API 仅允许本机访问".to_string())) }
}

/// The checks of a new LAN port that need no socket: it is not 0 and not
/// the control port. Gives whether the port must still be shown free (it
/// is not the one in use).
pub fn lan_port_precheck(control_port: u16, current_lan_port: u16, port: u16) -> (r: Result<bool, AppError>)
    ensures
        port == 0 ==> outcome(r, Some((ErrorKind::Validation, "局域网业务端口必须在 1 到 65535 之间"@))),
        port != 0 && port == control_port ==> outcome(r, Some((ErrorKind::Validation, "局域网业务端口不能使用当前工具的本机控制端口"@))),
        port != 0 && port != control_port ==> r == Ok::<bool, AppError>(port != current_lan_port),
{
    if port == 0 {
        return Err(AppError::Validation("局域网业务端口必须在 1 到 65535 之间".to_string()));
    }
    if port == control_port {
        return Err(AppError::Validation("局域网业务端口不能使用当前工具的本机控制端口".to_string()));
    }
    Ok(port != current_lan_port)
}

/// The error for a LAN port that another program holds.
pub fn lan_port_occupied(port: u16) -> (e: AppError)
    ensures
        e.kind() == ErrorKind::Conflict,
        e.spec_message() == "局域网业务端口 "@ + crate::text::dec(port as nat) + " 已被占用"@,
{
    let n = u64_to_string(port as u64);
    AppError::Conflict(concat3("局域网业务端口 ", n.as_str(), " 已被占用"))
}

} // verus!
