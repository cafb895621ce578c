//! Daemon argument handling: turning the plain argument values into broker
//! and peer configurations.

use vstd::prelude::*;

use crate::config::{ConfigError, IceServer, MqttConfig, PeerConfig};
use crate::numbers::{parse_u16, parses_as_u16};
use crate::text::{chars_to_string, str_to_chars};

verus! {

/// The Unicode whitespace characters, as the standard trim sees them.
pub open spec fn is_space(c: char) -> bool {
    c == ' ' || c == '\u{09}' || c == '\u{0A}' || c == '\u{0B}' || c == '\u{0C}' || c == '\u{0D}'
        || c == '\u{85}' || c == '\u{A0}' || c == '\u{1680}' || ('\u{2000}' <= c && c
        <= '\u{200A}') || c == '\u{2028}' || c == '\u{2029}' || c == '\u{202F}' || c == '\u{205F}'
        || c == '\u{3000}'
}

/// Whether `c` is whitespace, as executable code.
fn is_space_char(c: char) -> (r: bool)
    ensures
        r == is_space(c),
{
    c == ' ' || c == '\u{09}' || c == '\u{0A}' || c == '\u{0B}' || c == '\u{0C}' || c == '\u{0D}'
        || c == '\u{85}' || c == '\u{A0}' || c == '\u{1680}' || ('\u{2000}' <= c && c
        <= '\u{200A}') || c == '\u{2028}' || c == '\u{2029}' || c == '\u{202F}' || c == '\u{205F}'
        || c == '\u{3000}'
}

/// The text with leading whitespace removed.
pub open spec fn trim_front(s: Seq<char>) -> Seq<char>
    decreases s.len(),
{
    if s.len() > 0 && is_space(s[0]) {
        trim_front(s.skip(1))
    } else {
        s
    }
}

/// The text with trailing whitespace removed.
pub open spec fn trim_back(s: Seq<char>) -> Seq<char>
    decreases s.len(),
{
    if s.len() > 0 && is_space(s.last()) {
        trim_back(s.drop_last())
    } else {
        s
    }
}

/// The text before the first colon.
pub open spec fn head_before_colon(s: Seq<char>) -> Seq<char>
    decreases s.len(),
{
    if s.len() == 0 || s[0] == ':' {
        Seq::empty()
    } else {
        seq![s[0]] + head_before_colon(s.skip(1))
    }
}

/// The text after the first colon, if there is one.
pub open spec fn tail_after_colon(s: Seq<char>) -> Option<Seq<char>>
    decreases s.len(),
{
    if s.len() == 0 {
        None
    } else if s[0] == ':' {
        Some(s.skip(1))
    } else {
        tail_after_colon(s.skip(1))
    }
}

/// The position of the last `@`, if there is one.
pub open spec fn find_last_at(s: Seq<char>) -> Option<int>
    decreases s.len(),
{
    if s.len() == 0 {
        None
    } else if s.last() == '@' {
        Some(s.len() - 1)
    } else {
        find_last_at(s.drop_last())
    }
}

/// When the first `k` characters are no colons and a colon (or the end)
/// follows, the text splits there.
proof fn lemma_colon_split(s: Seq<char>, k: int)
    requires
        0 <= k <= s.len(),
        forall|j: int| 0 <= j < k ==> s[j] != ':',
        k < s.len() ==> s[k] == ':',
    ensures
        head_before_colon(s) =~= s.take(k),
        k == s.len() ==> tail_after_colon(s) is None,
        k < s.len() ==> tail_after_colon(s) == Some(s.skip(k + 1)),
    decreases k,
{
    if k == 0 {
        if s.len() > 0 && s[0] != ':' {
            assert(false);
        }
    } else {
        assert(s[0] != ':');
        let s2 = s.skip(1);
        assert forall|j: int| 0 <= j < k - 1 implies s2[j] != ':' by {
            assert(s2[j] == s[j + 1]);
        }
        assert(k - 1 < s2.len() ==> s2[k - 1] == ':');
        lemma_colon_split(s2, k - 1);
        assert(head_before_colon(s) == seq![s[0]] + head_before_colon(s2));
        assert(seq![s[0]] + s2.take(k - 1) =~= s.take(k));
        if k < s.len() {
            assert(s2.skip(k) =~= s.skip(k + 1));
        }
    }
}

/// When the character at `k` is the last `@`, that is where the split lands.
proof fn lemma_last_at(s: Seq<char>, k: int)
    requires
        0 <= k < s.len(),
        s[k] == '@',
        forall|j: int| k < j < s.len() ==> s[j] != '@',
    ensures
        find_last_at(s) == Some(k),
    decreases s.len(),
{
    if k == s.len() - 1 {
    } else {
        assert(s.last() != '@');
        let s2 = s.drop_last();
        assert(s2[k] == s[k]);
        assert forall|j: int| k < j < s2.len() implies s2[j] != '@' by {
            assert(s2[j] == s[j]);
        }
        lemma_last_at(s2, k);
    }
}

/// A text without `@` has no last `@`.
proof fn lemma_no_at(s: Seq<char>)
    requires
        forall|j: int| 0 <= j < s.len() ==> s[j] != '@',
    ensures
        find_last_at(s) is None,
    decreases s.len(),
{
    if s.len() > 0 {
        let s2 = s.drop_last();
        assert forall|j: int| 0 <= j < s2.len() implies s2[j] != '@' by {
            assert(s2[j] == s[j]);
        }
        lemma_no_at(s2);
    }
}

/// What a broker URL parses to: the host and port of `mqtt://host[:port]`,
/// or the error a malformed URL is rejected with.  Trailing segments after a
/// second colon are ignored; a missing port defaults.
pub open spec fn parsed_broker(u: Seq<char>) -> Result<(Seq<char>, int), ConfigError> {
    let w = trim_back(trim_front(u));
    if !(w.len() >= 7 && w.subrange(0, 7) == "mqtt://"@) {
        Err(ConfigError::BrokerUrlScheme)
    } else {
        let rest = w.skip(7);
        let host = head_before_colon(rest);
        match tail_after_colon(rest) {
            None => Ok((host, 1883)),
            Some(p2) => {
                let digits = head_before_colon(p2);
                if exists|x: int| parses_as_u16(digits, x) {
                    Ok((host, choose|x: int| parses_as_u16(digits, x)))
                } else {
                    Err(ConfigError::BrokerPortInvalid)
                }
            },
        }
    }
}

/// Broker arguments: the URL and optional credentials.
#[derive(Debug, Clone)]
pub struct MqttArgs {
    pub mqtt_broker: String,
    pub mqtt_username: Option<String>,
    pub mqtt_password: Option<String>,
}

impl MqttArgs {
    /// Parses the broker URL into a configuration: the URL is trimmed, must
    /// carry the `mqtt://` scheme, and its port (1883 when absent) must be a
    /// port number.  Keepalive and clean-session take their defaults.
    #[verifier::rlimit(60)]
    pub fn to_config(&self) -> (r: Result<MqttConfig, ConfigError>)
        ensures
            parsed_broker(self.mqtt_broker@) matches Ok(hp) ==> (r matches Ok(c)
                && c.broker_host@ == hp.0 && c.broker_port as int == hp.1 && c.username
                == self.mqtt_username && c.password == self.mqtt_password && c.keep_alive == 60
                && c.clean_session == true),
            parsed_broker(self.mqtt_broker@) matches Err(e) ==> r == Err::<
                MqttConfig,
                ConfigError,
            >(e),
    {
        proof {
            reveal_strlit("mqtt://");
        }
        let s = str_to_chars(self.mqtt_broker.as_str());
        let ghost sv = s@;
        let n = s.len();
        let mut a: usize = 0;
        proof {
            assert(sv.skip(0) =~= sv);
        }
        while a < n && is_space_char(s[a])
            invariant
                n == sv.len(),
                s@ == sv,
                a <= n,
                trim_front(sv) == trim_front(sv.skip(a as int)),
            decreases n - a,
        {
            proof {
                assert(sv.skip(a as int)[0] == sv[a as int]);
                assert(sv.skip(a as int).skip(1) =~= sv.skip(a + 1));
            }
            a = a + 1;
        }
        proof {
            if a < n {
                assert(trim_front(sv.skip(a as int)) == sv.skip(a as int));
            } else {
                assert(sv.skip(a as int) =~= Seq::<char>::empty());
            }
            assert(trim_front(sv) == sv.skip(a as int));
        }
        let ghost fv = sv.skip(a as int);
        let mut b: usize = n;
        proof {
            assert(fv.take(n - a) =~= fv);
        }
        while b > a && is_space_char(s[b - 1])
            invariant
                n == sv.len(),
                s@ == sv,
                a <= b <= n,
                fv == sv.skip(a as int),
                trim_back(fv) == trim_back(fv.take(b - a)),
            decreases b,
        {
            proof {
                let t = fv.take(b - a);
                assert(t.last() == sv[b - 1]);
                assert(t.drop_last() =~= fv.take(b - 1 - a));
            }
            b = b - 1;
        }
        proof {
            if b > a {
                assert(fv.take(b - a).last() == sv[b - 1]);
                assert(trim_back(fv.take(b - a)) == fv.take(b - a));
            } else {
                assert(fv.take(0) =~= Seq::<char>::empty());
            }
            assert(trim_back(trim_front(sv)) == fv.take(b - a));
            assert(fv.take(b - a) =~= sv.subrange(a as int, b as int));
        }
        let ghost w = trim_back(trim_front(sv));
        if b - a < 7 || s[a] != 'm' || s[a + 1] != 'q' || s[a + 2] != 't' || s[a + 3] != 't' || s[a
            + 4] != ':' || s[a + 5] != '/' || s[a + 6] != '/' {
            proof {
                if w.len() >= 7 && w.subrange(0, 7) == "mqtt://"@ {
                    assert(w.subrange(0, 7)[0] == sv[a as int]);
                    assert(w.subrange(0, 7)[1] == sv[a + 1]);
                    assert(w.subrange(0, 7)[2] == sv[a + 2]);
                    assert(w.subrange(0, 7)[3] == sv[a + 3]);
                    assert(w.subrange(0, 7)[4] == sv[a + 4]);
                    assert(w.subrange(0, 7)[5] == sv[a + 5]);
                    assert(w.subrange(0, 7)[6] == sv[a + 6]);
                    assert(false);
                }
            }
            return Err(ConfigError::BrokerUrlScheme);
        }
        proof {
            assert(w.subrange(0, 7) =~= "mqtt://"@);
        }
        let ghost rest = w.skip(7);
        proof {
            assert(rest =~= sv.subrange(a + 7, b as int));
        }
        let mut i: usize = a + 7;
        while i < b && s[i] != ':'
            invariant
                n == sv.len(),
                s@ == sv,
                a + 7 <= i <= b <= n,
                rest == sv.subrange(a + 7, b as int),
                forall|j: int| a + 7 <= j < i ==> sv[j] != ':',
            decreases b - i,
        {
            i = i + 1;
        }
        proof {
            assert forall|j: int| 0 <= j < i - (a + 7) implies rest[j] != ':' by {
                assert(rest[j] == sv[a + 7 + j]);
            }
            if i < b {
                assert(rest[i - (a + 7)] == sv[i as int]);
            }
            lemma_colon_split(rest, i - (a + 7));
        }
        let mut host_chars: Vec<char> = Vec::new();
        let mut h: usize = a + 7;
        while h < i
            invariant
                n == sv.len(),
                s@ == sv,
                a + 7 <= h <= i <= n,
                host_chars@ =~= sv.subrange(a + 7, h as int),
            decreases i - h,
        {
            host_chars.push(s[h]);
            h = h + 1;
        }
        proof {
            assert(host_chars@ =~= rest.take(i - (a + 7)));
        }
        let host = chars_to_string(&host_chars);
        if i == b {
            return Ok(
                MqttConfig {
                    broker_host: host,
                    broker_port: 1883,
                    username: self.mqtt_username.clone(),
                    password: self.mqtt_password.clone(),
                    keep_alive: 60,
                    clean_session: true,
                },
            );
        }
        let ghost p2 = rest.skip(i + 1 - (a + 7));
        proof {
            assert(p2 =~= sv.subrange(i + 1, b as int));
        }
        let mut j: usize = i + 1;
        while j < b && s[j] != ':'
            invariant
                n == sv.len(),
                s@ == sv,
                i + 1 <= j <= b <= n,
                p2 == sv.subrange(i + 1, b as int),
                forall|t: int| i + 1 <= t < j ==> sv[t] != ':',
            decreases b - j,
        {
            j = j + 1;
        }
        proof {
            assert forall|t: int| 0 <= t < j - (i + 1) implies p2[t] != ':' by {
                assert(p2[t] == sv[i + 1 + t]);
            }
            if j < b {
                assert(p2[j - (i + 1)] == sv[j as int]);
            }
            lemma_colon_split(p2, j - (i + 1));
        }
        let mut digit_chars: Vec<char> = Vec::new();
        let mut g: usize = i + 1;
        while g < j
            invariant
                n == sv.len(),
                s@ == sv,
                i + 1 <= g <= j <= n,
                digit_chars@ =~= sv.subrange(i + 1, g as int),
            decreases j - g,
        {
            digit_chars.push(s[g]);
            g = g + 1;
        }
        proof {
            assert(digit_chars@ =~= p2.take(j - (i + 1)));
            assert(digit_chars@ == head_before_colon(p2));
        }
        match parse_u16(&digit_chars) {
            Some(port) => {
                proof {
                    let y = choose|x: int| parses_as_u16(digit_chars@, x);
                    assert(parses_as_u16(digit_chars@, port as int));
                    assert(parses_as_u16(digit_chars@, y));
                }
                Ok(
                    MqttConfig {
                        broker_host: host,
                        broker_port: port,
                        username: self.mqtt_username.clone(),
                        password: self.mqtt_password.clone(),
                        keep_alive: 60,
                        clean_session: true,
                    },
                )
            },
            None => Err(ConfigError::BrokerPortInvalid),
        }
    }
}

/// The TURN URL with its optional `turn:` scheme removed.
pub open spec fn strip_turn_scheme(u: Seq<char>) -> Seq<char> {
    if u.len() >= 5 && u.subrange(0, 5) == "turn:"@ {
        u.skip(5)
    } else {
        u
    }
}

/// What a TURN URL parses to: the server URL, the username and the
/// credential.  `turn:user:pass@host:port` carries credentials before the
/// last `@`; without an `@` the whole remainder is the host and the
/// credentials are empty.
pub open spec fn parsed_turn(u: Seq<char>) -> (Seq<char>, Seq<char>, Seq<char>) {
    let su = strip_turn_scheme(u);
    match find_last_at(su) {
        Some(k) => {
            let cred = su.take(k);
            let host = su.skip(k + 1);
            let pass = match tail_after_colon(cred) {
                Some(p) => p,
                None => Seq::empty(),
            };
            ("turn:"@ + host, head_before_colon(cred), pass)
        },
        None => ("turn:"@ + su, Seq::empty(), Seq::empty()),
    }
}

/// Peer arguments: STUN and TURN servers and the two wait timeouts, in
/// seconds.
#[derive(Debug, Clone)]
pub struct PeerArgs {
    pub peer_stun: Vec<String>,
    pub peer_turn: Vec<String>,
    pub online_timeout: u64,
    pub connect_timeout: u64,
}

impl PeerArgs {
    /// Parses one TURN URL: `turn:user:pass@host:port` or `turn:host:port`.
    /// Every URL yields a server; missing credentials come out empty.
    pub fn parse_turn_url(url: &str) -> (r: Option<IceServer>)
        ensures
            r is Some,
            r matches Some(srv) ==> srv.urls@.len() == 1 && srv.urls@[0]@ == parsed_turn(url@).0,
            r matches Some(srv) ==> (srv.username matches Some(u) && u@ == parsed_turn(url@).1),
            r matches Some(srv) ==> (srv.credential matches Some(c) && c@ == parsed_turn(
                url@,
            ).2),
    {
        proof {
            reveal_strlit("turn:");
        }
        let v = str_to_chars(url);
        let ghost sv = v@;
        let n = v.len();
        let p0: usize;
        if n >= 5 && v[0] == 't' && v[1] == 'u' && v[2] == 'r' && v[3] == 'n' && v[4] == ':' {
            p0 = 5;
            proof {
                assert(sv.subrange(0, 5) =~= "turn:"@);
            }
        } else {
            p0 = 0;
            proof {
                if sv.len() >= 5 && sv.subrange(0, 5) == "turn:"@ {
                    assert(sv.subrange(0, 5)[0] == sv[0]);
                    assert(sv.subrange(0, 5)[1] == sv[1]);
                    assert(sv.subrange(0, 5)[2] == sv[2]);
                    assert(sv.subrange(0, 5)[3] == sv[3]);
                    assert(sv.subrange(0, 5)[4] == sv[4]);
                    assert(false);
                }
            }
        }
        let ghost su = strip_turn_scheme(sv);
        proof {
            assert(su =~= sv.subrange(p0 as int, n as int));
        }
        let mut k: usize = n;
        while k > p0 && v[k - 1] != '@'
            invariant
                n == sv.len(),
                v@ == sv,
                p0 <= k <= n,
                su == sv.subrange(p0 as int, n as int),
                forall|j: int| k <= j < n ==> sv[j] != '@',
            decreases k,
        {
            k = k - 1;
        }
        if k > p0 {
            // The last `@` stands at k - 1.
            proof {
                assert(su[k - 1 - p0] == sv[k - 1]);
                assert forall|j: int| k - 1 - p0 < j < su.len() implies su[j] != '@' by {
                    assert(su[j] == sv[p0 + j]);
                }
                lemma_last_at(su, k - 1 - p0);
            }
            let ghost cred = su.take(k - 1 - p0);
            proof {
                assert(cred =~= sv.subrange(p0 as int, k - 1));
            }
            let mut m: usize = p0;
            while m < k - 1 && v[m] != ':'
                invariant
                    n == sv.len(),
                    v@ == sv,
                    p0 <= m <= k - 1 < n,
                    cred == sv.subrange(p0 as int, k - 1),
                    forall|j: int| p0 <= j < m ==> sv[j] != ':',
                decreases k - m,
            {
                m = m + 1;
            }
            proof {
                assert forall|j: int| 0 <= j < m - p0 implies cred[j] != ':' by {
                    assert(cred[j] == sv[p0 + j]);
                }
                if m < k - 1 {
                    assert(cred[m - p0] == sv[m as int]);
                }
                lemma_colon_split(cred, m - p0 as int);
            }
            let mut user_chars: Vec<char> = Vec::new();
            let mut t: usize = p0;
            while t < m
                invariant
                    n == sv.len(),
                    v@ == sv,
                    p0 <= t <= m <= n,
                    user_chars@ =~= sv.subrange(p0 as int, t as int),
                decreases m - t,
            {
                user_chars.push(v[t]);
                t = t + 1;
            }
            proof {
                assert(user_chars@ =~= cred.take(m - p0 as int));
            }
            let mut pass_chars: Vec<char> = Vec::new();
            if m < k - 1 {
                let mut t2: usize = m + 1;
                while t2 < k - 1
                    invariant
                        n == sv.len(),
                        v@ == sv,
                        m + 1 <= t2 <= k - 1 < n,
                        pass_chars@ =~= sv.subrange(m + 1, t2 as int),
                    decreases k - t2,
                {
                    pass_chars.push(v[t2]);
                    t2 = t2 + 1;
                }
                proof {
                    assert(pass_chars@ =~= cred.skip(m + 1 - p0));
                }
            }
            let mut host = "turn:".to_owned();
            let mut h: usize = k;
            while h < n
                invariant
                    n == sv.len(),
                    v@ == sv,
                    k <= h <= n,
                    host@ =~= "turn:"@ + sv.subrange(k as int, h as int),
                decreases n - h,
            {
                let mut one: Vec<char> = Vec::new();
                one.push(v[h]);
                let piece = chars_to_string(&one);
                host.append(piece.as_str());
                h = h + 1;
                proof {
                    assert(host@ =~= "turn:"@ + sv.subrange(k as int, h as int));
                }
            }
            proof {
                assert(sv.subrange(k as int, n as int) =~= su.skip(k - p0 as int));
                assert(host@ == parsed_turn(sv).0);
            }
            let user = chars_to_string(&user_chars);
            let pass = chars_to_string(&pass_chars);
            proof {
                assert(user@ == parsed_turn(sv).1);
                assert(pass@ == parsed_turn(sv).2);
            }
            Some(IceServer::turn(host.as_str(), user.as_str(), pass.as_str()))
        } else {
            proof {
                assert forall|j: int| 0 <= j < su.len() implies su[j] != '@' by {
                    assert(su[j] == sv[p0 + j]);
                }
                lemma_no_at(su);
            }
            let mut host = "turn:".to_owned();
            let mut h: usize = p0;
            while h < n
                invariant
                    n == sv.len(),
                    v@ == sv,
                    p0 <= h <= n,
                    host@ =~= "turn:"@ + sv.subrange(p0 as int, h as int),
                decreases n - h,
            {
                let mut one: Vec<char> = Vec::new();
                one.push(v[h]);
                let piece = chars_to_string(&one);
                host.append(piece.as_str());
                h = h + 1;
                proof {
                    assert(host@ =~= "turn:"@ + sv.subrange(p0 as int, h as int));
                }
            }
            proof {
                reveal_strlit("");
                assert(host@ == parsed_turn(sv).0);
                assert(Seq::<char>::empty() == parsed_turn(sv).1);
                assert(Seq::<char>::empty() == parsed_turn(sv).2);
                assert(""@ =~= Seq::<char>::empty());
            }
            Some(IceServer::turn(host.as_str(), "", ""))
        }
    }

    /// Turns the arguments into a peer configuration: one STUN server per
    /// STUN URL, then one TURN server per TURN URL, and the configured
    /// timeouts; the remaining timeouts take their defaults.
    pub fn to_config(&self) -> (r: PeerConfig)
        ensures
            r.online_timeout == self.online_timeout,
            r.connect_timeout == self.connect_timeout,
            r.datachannel_timeout == 5,
            r.ice_gathering_timeout == 5,
            r.ice_servers@.len() == self.peer_stun@.len() + self.peer_turn@.len(),
            forall|i: int|
                0 <= i < self.peer_stun@.len() ==> {
                    &&& (#[trigger] r.ice_servers@[i]).urls@.len() == 1
                    &&& r.ice_servers@[i].urls@[0]@ == self.peer_stun@[i]@
                    &&& r.ice_servers@[i].username is None
                    &&& r.ice_servers@[i].credential is None
                },
            forall|i: int|
                0 <= i < self.peer_turn@.len() ==> {
                    &&& (#[trigger] r.ice_servers@[self.peer_stun@.len() + i]).urls@.len() == 1
                    &&& r.ice_servers@[self.peer_stun@.len() + i].urls@[0]@ == parsed_turn(
                        self.peer_turn@[i]@,
                    ).0
                    &&& r.ice_servers@[self.peer_stun@.len() + i].username matches Some(u) && u@
                        == parsed_turn(self.peer_turn@[i]@).1
                    &&& r.ice_servers@[self.peer_stun@.len() + i].credential matches Some(c)
                        && c@ == parsed_turn(self.peer_turn@[i]@).2
                },
    {
        let mut ice_servers: Vec<IceServer> = Vec::new();
        let stun_count = self.peer_stun.len();
        let mut i: usize = 0;
        while i < stun_count
            invariant
                stun_count == self.peer_stun@.len(),
                i <= stun_count,
                ice_servers@.len() == i,
                forall|j: int|
                    0 <= j < i ==> {
                        &&& (#[trigger] ice_servers@[j]).urls@.len() == 1
                        &&& ice_servers@[j].urls@[0]@ == self.peer_stun@[j]@
                        &&& ice_servers@[j].username is None
                        &&& ice_servers@[j].credential is None
                    },
            decreases stun_count - i,
        {
            ice_servers.push(IceServer::stun(self.peer_stun[i].as_str()));
            i = i + 1;
        }
        let turn_count = self.peer_turn.len();
        let mut t: usize = 0;
        while t < turn_count
            invariant
                stun_count == self.peer_stun@.len(),
                turn_count == self.peer_turn@.len(),
                t <= turn_count,
                ice_servers@.len() == stun_count + t,
                forall|j: int|
                    0 <= j < stun_count ==> {
                        &&& (#[trigger] ice_servers@[j]).urls@.len() == 1
                        &&& ice_servers@[j].urls@[0]@ == self.peer_stun@[j]@
                        &&& ice_servers@[j].username is None
                        &&& ice_servers@[j].credential is None
                    },
                forall|j: int|
                    0 <= j < t ==> {
                        &&& (#[trigger] ice_servers@[stun_count + j]).urls@.len() == 1
                        &&& ice_servers@[stun_count + j].urls@[0]@ == parsed_turn(
                            self.peer_turn@[j]@,
                        ).0
                        &&& ice_servers@[stun_count + j].username matches Some(u) && u@
                            == parsed_turn(self.peer_turn@[j]@).1
                        &&& ice_servers@[stun_count + j].credential matches Some(c) && c@
                            == parsed_turn(self.peer_turn@[j]@).2
                    },
            decreases turn_count - t,
        {
            if let Some(server) = Self::parse_turn_url(self.peer_turn[t].as_str()) {
                ice_servers.push(server);
            }
            t = t + 1;
        }
        PeerConfig {
            ice_servers,
            online_timeout: self.online_timeout,
            connect_timeout: self.connect_timeout,
            datachannel_timeout: 5,
            ice_gathering_timeout: 5,
        }
    }
}

} // verus!
