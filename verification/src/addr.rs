//! Address URIs: `host:port` for TCP, `unix://<path>` for Unix domain
//! sockets.

use vstd::prelude::*;

use crate::text::{chars_to_string, str_to_chars};

verus! {

/// Whether a URI names a Unix domain socket.
pub open spec fn is_unix_uri(u: Seq<char>) -> bool {
    u.len() >= 7 && u.subrange(0, 7) == "unix://"@
}

/// Where an address URI points: a Unix socket path, or a TCP address.
#[derive(Debug, Clone)]
pub enum AddrKind {
    Unix { path: String },
    Tcp { addr: String },
}

/// Classifies an address URI, stripping the `unix://` scheme from Unix
/// socket paths.
pub fn classify_addr_uri(uri: &str) -> (r: AddrKind)
    ensures
        is_unix_uri(uri@) ==> (r matches AddrKind::Unix { path } && path@ == uri@.skip(7)),
        !is_unix_uri(uri@) ==> (r matches AddrKind::Tcp { addr } && addr@ == uri@),
{
    proof {
        reveal_strlit("unix://");
    }
    let v = str_to_chars(uri);
    let n = v.len();
    if n >= 7 && v[0] == 'u' && v[1] == 'n' && v[2] == 'i' && v[3] == 'x' && v[4] == ':' && v[5]
        == '/' && v[6] == '/' {
        proof {
            assert(uri@.subrange(0, 7) =~= "unix://"@);
        }
        let mut path: Vec<char> = Vec::new();
        let mut i: usize = 7;
        while i < n
            invariant
                n == uri@.len(),
                v@ == uri@,
                7 <= i <= n,
                path@ =~= uri@.subrange(7, i as int),
            decreases n - i,
        {
            path.push(v[i]);
            i = i + 1;
        }
        proof {
            assert(path@ =~= uri@.skip(7));
        }
        AddrKind::Unix { path: chars_to_string(&path) }
    } else {
        proof {
            if is_unix_uri(uri@) {
                assert(uri@.subrange(0, 7)[0] == uri@[0]);
                assert(uri@.subrange(0, 7)[1] == uri@[1]);
                assert(uri@.subrange(0, 7)[2] == uri@[2]);
                assert(uri@.subrange(0, 7)[3] == uri@[3]);
                assert(uri@.subrange(0, 7)[4] == uri@[4]);
                assert(uri@.subrange(0, 7)[5] == uri@[5]);
                assert(uri@.subrange(0, 7)[6] == uri@[6]);
                assert(false);
            }
        }
        AddrKind::Tcp { addr: uri.to_owned() }
    }
}

} // verus!
