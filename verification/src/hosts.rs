//! Which addresses the server listens on, and under which names it answers.
use vstd::prelude::*;

use crate::collections::StringSet;
use crate::text::{chars_of, dec, find_char, index_of, push_dec, same, trim, trimmed, views};
use crate::titles::opt_str;

verus! {

/// A host that covers the loopback by itself: every host, or the loopback.
pub open spec fn covers_loopback(host: Seq<char>) -> bool {
    ||| host.len() == 0
    ||| host == "127.0.0.1"@
    ||| host == "0.0.0.0"@
    ||| host == "localhost"@
    ||| host == "::"@
    ||| host == "::1"@
    ||| host == "[::]"@
    ||| host == "[::1]"@
}

/// A host and a port as one address.
pub open spec fn address(host: Seq<char>, port: u16) -> Seq<char> {
    host + ":"@ + dec(port as nat)
}

fn address_text(host: &str, port: u16) -> (r: String)
    ensures
        r@ == address(host@, port),
{
    let mut a = host.to_owned();
    a.append(":");
    push_dec(&mut a, port as u64);
    a
}

/// The addresses to listen on: the one that is asked for, and the loopback before it where that
/// does not cover it, so that the server can always reach itself.
pub open spec fn bind_addresses(host: Seq<char>, port: u16) -> Seq<Seq<char>> {
    if covers_loopback(trim(host)) {
        seq![address(host, port)]
    } else {
        seq![address("127.0.0.1"@, port), address(host, port)]
    }
}

/// Gives [`bind_addresses`].
pub fn compute_bind_addresses(host: &str, port: u16) -> (r: Vec<String>)
    ensures
        views(r@) == bind_addresses(host@, port),
{
    let primary = address_text(host, port);
    let t = trimmed(host);
    let h = t.as_str();
    let mut out: Vec<String> = Vec::new();
    if h.is_empty() || same(h, "127.0.0.1") || same(h, "0.0.0.0") || same(h, "localhost") || same(
        h,
        "::",
    ) || same(h, "::1") || same(h, "[::]") || same(h, "[::1]") {
        out.push(primary);
        assert(views(out@) =~= seq![address(host@, port)]);
    } else {
        out.push(address_text("127.0.0.1", port));
        out.push(primary);
        assert(views(out@) =~= seq![address("127.0.0.1"@, port), address(host@, port)]);
    }
    out
}

/// A host is answered for: one of the server's own names, or one that the configuration gives.
pub open spec fn is_allowed(host: Seq<char>, stream_host: Seq<char>, extra: Seq<Seq<char>>) -> bool {
    ||| host == "localhost"@
    ||| host == "127.0.0.1"@
    ||| host == "darwin.home"@
    ||| host.len() > 0 && (host == stream_host || extra.contains(host))
}

/// The names that the server answers under.
pub fn compute_host_allowlist(stream_host: &str, allowed_hosts: &Vec<String>) -> (r: StringSet)
    ensures
        forall|h: Seq<char>| #[trigger]
            r@.contains(h) <==> is_allowed(h, stream_host@, views(allowed_hosts@)),
{
    let mut set = StringSet::new();
    set.insert("localhost".to_owned());
    set.insert("127.0.0.1".to_owned());
    set.insert("darwin.home".to_owned());
    if !stream_host.is_empty() {
        set.insert(stream_host.to_owned());
    }
    let n: usize = allowed_hosts.len();
    let mut i: usize = 0;
    let ghost extra = views(allowed_hosts@);
    assert(extra.take(0) =~= Seq::<Seq<char>>::empty());
    while i < n
        invariant
            n == allowed_hosts@.len(),
            extra == views(allowed_hosts@),
            i <= n,
            forall|h: Seq<char>| #[trigger]
                set@.contains(h) <==> is_allowed(h, stream_host@, extra.take(i as int)),
        decreases n - i,
    {
        let h = &allowed_hosts[i];
        let ghost before = set@;
        if !h.as_str().is_empty() {
            set.insert(h.clone());
        }
        proof {
            let t = extra.take(i as int);
            let u = extra.take(i + 1);
            assert(u =~= t.push(h@));
            assert forall|x: Seq<char>| u.contains(x) <==> t.contains(x) || x == h@ by {
                if t.contains(x) {
                    let j = choose|j: int| 0 <= j < t.len() && t[j] == x;
                    assert(u[j] == x);
                }
                if x == h@ {
                    assert(u[i as int] == x);
                }
                if u.contains(x) {
                    let j = choose|j: int| 0 <= j < u.len() && u[j] == x;
                    if j < i {
                        assert(t[j] == x);
                    }
                }
            }
        }
        i += 1;
    }
    assert(extra.take(n as int) =~= extra);
    set
}

/// The empty name is never answered for.
pub proof fn no_host_is_never_allowed(stream_host: Seq<char>, extra: Seq<Seq<char>>)
    ensures
        !is_allowed(Seq::empty(), stream_host, extra),
{
    reveal_strlit("localhost");
    reveal_strlit("127.0.0.1");
    reveal_strlit("darwin.home");
    assert("localhost"@.len() == 9);
    assert("127.0.0.1"@.len() == 9);
    assert("darwin.home"@.len() == 11);
}

/// The index of the last `c`, or -1.
pub open spec fn last_index_of(s: Seq<char>, c: char) -> int
    decreases s.len(),
{
    if s.len() == 0 {
        -1
    } else if s.last() == c {
        s.len() - 1
    } else {
        last_index_of(s.drop_last(), c)
    }
}

/// A `Host` header without its port: up to the closing bracket of a bracketed address, else up
/// to the last colon.
pub open spec fn host_of(raw: Seq<char>) -> Seq<char> {
    let close = index_of(raw, ']');
    let colon = last_index_of(raw, ':');
    if raw.len() > 0 && raw[0] == '[' && close < raw.len() {
        raw.take(close + 1)
    } else if colon >= 0 {
        raw.take(colon)
    } else {
        raw
    }
}

/// Reads [`host_of`].
pub fn parse_host_header(raw: &str) -> (r: &str)
    ensures
        r@ == host_of(raw@),
{
    let v = chars_of(raw);
    let n: usize = v.len();
    assert(v@.skip(0) =~= v@);
    let close = find_char(&v, ']', 0);
    if n > 0 && v[0] == '[' && close < n {
        let r = raw.substring_char(0, close + 1);
        assert(r@ =~= raw@.take(close + 1));
        return r;
    }
    let mut k: usize = n;
    assert(v@.take(n as int) =~= v@);
    while k > 0
        invariant
            n == v@.len(),
            k <= n,
            v@ == raw@,
            last_index_of(v@.take(k as int), ':') == last_index_of(v@, ':'),
            !(n > 0 && v@[0] == '[' && index_of(v@, ']') < n),
        decreases k,
    {
        assert(v@.take(k as int).last() == v@[k - 1]);
        if v[k - 1] == ':' {
            let r = raw.substring_char(0, k - 1);
            assert(r@ =~= raw@.take(k - 1));
            return r;
        }
        assert(v@.take(k as int).drop_last() =~= v@.take(k - 1));
        k -= 1;
    }
    raw
}

/// A request may pass: its `Host` header names a host that is answered for.
pub open spec fn passes(header: Option<Seq<char>>, allowed: Set<Seq<char>>) -> bool {
    match header {
        Some(h) => allowed.contains(host_of(h)),
        None => false,
    }
}

/// Decides [`passes`].
pub fn host_allowed(header: Option<&str>, allowlist: &StringSet) -> (r: bool)
    ensures
        r == passes(opt_str(header), allowlist@),
{
    match header {
        Some(h) => allowlist.contains(parse_host_header(h)),
        None => false,
    }
}

} // verus!
