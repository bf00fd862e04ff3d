//! LAN discovery: raw DNS-SD services, the candidates made from them, the
//! backend abstraction, and the hex form of discovery hints.

use vstd::prelude::*;
use crate::text::{chars_of, parse_int, parse_int_in, str_eq};

verus! {

/// The DNS-SD service type both peers browse and register.
pub const SERVICE_TYPE: &'static str = "_tptodo._tcp.local.";

/// A raw DNS-SD service instance reported by the platform backend.
#[derive(Clone, Debug, PartialEq, Eq)]
pub struct RawService {
    pub instance: String,
    pub hint: [u8; 16],
    pub endpoints: Vec<(String, u16)>,
    pub capabilities: u32,
    pub ttl_millis: i64,
}

/// A dialable address of a candidate.
#[derive(Clone, Debug, PartialEq, Eq)]
pub struct Endpoint {
    pub ip: String,
    pub port: u16,
}

/// An untrusted peer candidate, tagged with the network generation it was
/// discovered in.
#[derive(Clone, Debug, PartialEq, Eq)]
pub struct Candidate {
    pub opaque_service_instance: String,
    pub hint: [u8; 16],
    pub endpoints: Vec<Endpoint>,
    pub capabilities: u32,
    pub ttl_millis: i64,
    pub network_generation: u64,
}

/// Injectable DNS-SD backend. Tests use a fake; production uses mDNS.
pub trait DiscoveryBackend: Send + Sync {
    /// Browse the service type and return discovered service instances.
    fn browse(&self) -> Vec<RawService>;

    /// Register our own service instance with the rotating hint only.
    fn register(&self, instance: &str, port: u16, hint: [u8; 16], capabilities: u32) -> Result<
        (),
        String,
    >;

    /// Stop registration/browsing.
    fn stop(&self);
}

/// A no-op backend used when LAN discovery is unavailable or disabled.
pub struct NullBackend;

impl DiscoveryBackend for NullBackend {
    fn browse(&self) -> (r: Vec<RawService>)
        ensures
            r@.len() == 0,
    {
        Vec::new()
    }

    fn register(&self, _i: &str, _p: u16, _h: [u8; 16], _c: u32) -> (r: Result<(), String>)
        ensures
            r is Ok,
    {
        Ok(())
    }

    fn stop(&self) {
    }
}

/// The endpoints of `eps` whose verdict in `usable` is true, in order, as
/// `(ip, port)` views.
pub open spec fn kept_endpoints(eps: Seq<(String, u16)>, usable: Seq<bool>) -> Seq<(Seq<char>, u16)>
    decreases eps.len(),
{
    if eps.len() == 0 {
        Seq::empty()
    } else {
        let prev = kept_endpoints(eps.drop_last(), usable);
        if usable[eps.len() - 1] {
            prev.push((eps.last().0@, eps.last().1))
        } else {
            prev
        }
    }
}

/// The endpoints of a candidate as `(ip, port)` views.
pub open spec fn endpoint_views(eps: Seq<Endpoint>) -> Seq<(Seq<char>, u16)> {
    eps.map_values(|e: Endpoint| (e.ip@, e.port))
}

/// The indices of the services that keep at least one endpoint, in order.
pub open spec fn surviving(services: Seq<RawService>, usable: Seq<Vec<bool>>) -> Seq<int>
    decreases services.len(),
{
    if services.len() == 0 {
        Seq::empty()
    } else {
        let n = services.len() - 1;
        let prev = surviving(services.drop_last(), usable);
        if kept_endpoints(services[n].endpoints@, usable[n]@).len() > 0 {
            prev.push(n)
        } else {
            prev
        }
    }
}

/// `c` is the candidate made from `s` under the endpoint verdicts `usable`.
pub open spec fn candidate_from(s: RawService, usable: Seq<bool>, generation: u64, c: Candidate) -> bool {
    &&& c.opaque_service_instance@ == s.instance@
    &&& c.hint == s.hint
    &&& endpoint_views(c.endpoints@) == kept_endpoints(s.endpoints@, usable)
    &&& c.capabilities == s.capabilities
    &&& c.ttl_millis == s.ttl_millis
    &&& c.network_generation == generation
}

/// Keep the endpoints of one service that `usable` admits.
fn keep_endpoints(eps: &Vec<(String, u16)>, usable: &Vec<bool>) -> (r: Vec<Endpoint>)
    requires
        usable@.len() == eps@.len(),
    ensures
        endpoint_views(r@) == kept_endpoints(eps@, usable@),
{
    let mut r: Vec<Endpoint> = Vec::new();
    let mut i: usize = 0;
    while i < eps.len()
        invariant
            usable@.len() == eps@.len(),
            i <= eps@.len(),
            endpoint_views(r@) == kept_endpoints(eps@.take(i as int), usable@),
        decreases eps@.len() - i,
    {
        assert(eps@.take(i + 1).drop_last() =~= eps@.take(i as int));
        if usable[i] {
            let ghost before = r@;
            r.push(Endpoint { ip: eps[i].0.clone(), port: eps[i].1 });
            assert(endpoint_views(r@) =~= endpoint_views(before).push((eps@[i as int].0@, eps@[i as int].1)));
        }
        i = i + 1;
    }
    assert(eps@.take(eps@.len() as int) =~= eps@);
    r
}

/// Convert raw DNS-SD services into untrusted candidates tagged with the
/// network generation. `usable[i][j]` says whether endpoint `j` of service
/// `i` may be dialed (not loopback, multicast or otherwise invalid);
/// endpoints that may not are dropped, and services left without any
/// endpoint are discarded.
pub fn to_candidates(services: Vec<RawService>, generation: u64, usable: &Vec<Vec<bool>>) -> (r:
    Vec<Candidate>)
    requires
        usable@.len() == services@.len(),
        forall|i: int| 0 <= i < services@.len() ==> #[trigger] usable@[i]@.len() == services@[i].endpoints@.len(),
    ensures
        r@.len() == surviving(services@, usable@).len(),
        forall|k: int|
            0 <= k < r@.len() ==> candidate_from(
                services@[surviving(services@, usable@)[k]],
                usable@[surviving(services@, usable@)[k]]@,
                generation,
                #[trigger] r@[k],
            ),
{
    let mut r: Vec<Candidate> = Vec::new();
    let mut i: usize = 0;
    while i < services.len()
        invariant
            usable@.len() == services@.len(),
            forall|i: int| 0 <= i < services@.len() ==> #[trigger] usable@[i]@.len() == services@[i].endpoints@.len(),
            i <= services@.len(),
            r@.len() == surviving(services@.take(i as int), usable@).len(),
            forall|k: int|
                0 <= k < r@.len() ==> candidate_from(
                    services@[surviving(services@.take(i as int), usable@)[k]],
                    usable@[surviving(services@.take(i as int), usable@)[k]]@,
                    generation,
                    #[trigger] r@[k],
                ),
            forall|k: int|
                0 <= k < surviving(services@.take(i as int), usable@).len() ==> 0 <= #[trigger] surviving(services@.take(i as int), usable@)[k] < i,
        decreases services@.len() - i,
    {
        let s = &services[i];
        let eps = keep_endpoints(&s.endpoints, &usable[i]);
        let ghost prev_surv = surviving(services@.take(i as int), usable@);
        assert(services@.take(i + 1).drop_last() =~= services@.take(i as int));
        assert(services@.take(i + 1)[i as int] == services@[i as int]);
        assert(endpoint_views(eps@).len() == eps@.len());
        if eps.len() > 0 {
            let c = Candidate {
                opaque_service_instance: s.instance.clone(),
                hint: s.hint,
                endpoints: eps,
                capabilities: s.capabilities,
                ttl_millis: s.ttl_millis,
                network_generation: generation,
            };
            r.push(c);
        }
        proof {
            let surv = surviving(services@.take(i + 1), usable@);
            assert forall|k: int| 0 <= k < prev_surv.len() implies surv[k] == prev_surv[k] by {}
        }
        i = i + 1;
    }
    assert(services@.take(services@.len() as int) =~= services@);
    r
}

/// The lowercase hex digit of a nibble.
pub open spec fn hex_digit(n: u8) -> char {
    if n < 10 {
        (('0' as u8) + n) as char
    } else {
        (('a' as u8) + (n - 10)) as char
    }
}

/// Lowercase hex of a byte string, two digits per byte.
pub open spec fn hex_of(bytes: Seq<u8>) -> Seq<char>
    decreases bytes.len(),
{
    if bytes.len() == 0 {
        Seq::empty()
    } else {
        hex_of(bytes.drop_last()) + seq![hex_digit(bytes.last() / 16), hex_digit(bytes.last() % 16)]
    }
}

fn nibble_char(n: u8) -> (c: char)
    requires
        n < 16,
    ensures
        c == hex_digit(n),
{
    match n {
        0 => '0',
        1 => '1',
        2 => '2',
        3 => '3',
        4 => '4',
        5 => '5',
        6 => '6',
        7 => '7',
        8 => '8',
        9 => '9',
        10 => 'a',
        11 => 'b',
        12 => 'c',
        13 => 'd',
        14 => 'e',
        _ => 'f',
    }
}

/// Lowercase hex encoding of a byte slice.
pub fn hex(bytes: &[u8]) -> (s: String)
    ensures
        s@ == hex_of(bytes@),
{
    let mut out: Vec<char> = Vec::new();
    let mut i: usize = 0;
    while i < bytes.len()
        invariant
            i <= bytes@.len(),
            out@ == hex_of(bytes@.take(i as int)),
        decreases bytes@.len() - i,
    {
        let b = bytes[i];
        out.push(nibble_char(b / 16));
        out.push(nibble_char(b % 16));
        assert(bytes@.take(i + 1).drop_last() =~= bytes@.take(i as int));
        assert(out@ =~= hex_of(bytes@.take(i + 1)));
        i = i + 1;
    }
    assert(bytes@.take(bytes@.len() as int) =~= bytes@);
    crate::text::string_from_chars(&out)
}

/// The hex form of a discovery hint.
pub fn encode_hint(hint: &[u8; 16]) -> (s: String)
    ensures
        s@ == hex_of(hint@),
{
    hex(hint.as_slice())
}

/// The value of a hex digit of either case, if it is one.
pub open spec fn hex_value(c: char) -> Option<u8> {
    if '0' <= c && c <= '9' {
        Some(((c as u8) - ('0' as u8)) as u8)
    } else if 'a' <= c && c <= 'f' {
        Some(((c as u8) - ('a' as u8) + 10) as u8)
    } else if 'A' <= c && c <= 'F' {
        Some(((c as u8) - ('A' as u8) + 10) as u8)
    } else {
        None
    }
}

/// The byte two characters denote in base 16: two hex digits, or a `+`
/// sign and one hex digit.
pub open spec fn hex_pair(a: char, b: char) -> Option<u8> {
    if a == '+' {
        hex_value(b)
    } else {
        match (hex_value(a), hex_value(b)) {
            (Some(x), Some(y)) => Some((x * 16 + y) as u8),
            _ => None,
        }
    }
}

/// A hint decoded from text: 32 characters read as 16 pairs.
pub open spec fn hint_of(s: Seq<char>) -> Option<Seq<u8>> {
    if s.len() != 32 {
        None
    } else if forall|i: int| 0 <= i < 16 ==> #[trigger] hex_pair(s[2 * i], s[2 * i + 1]) is Some {
        Some(Seq::new(16, |i: int| hex_pair(s[2 * i], s[2 * i + 1])->0))
    } else {
        None
    }
}

fn hex_val(c: char) -> (v: Option<u8>)
    ensures
        v == hex_value(c),
{
    if '0' <= c && c <= '9' {
        Some((c as u8) - ('0' as u8))
    } else if 'a' <= c && c <= 'f' {
        Some((c as u8) - ('a' as u8) + 10)
    } else if 'A' <= c && c <= 'F' {
        Some((c as u8) - ('A' as u8) + 10)
    } else {
        None
    }
}

/// Decode a hex discovery hint. Text that is not ASCII, or not 32
/// characters of 16 base-16 pairs, decodes to nothing.
pub fn decode_hint(s: &str) -> (r: Option<[u8; 16]>)
    ensures
        !s.is_ascii() ==> r is None,
        s.is_ascii() ==> (r is Some <==> hint_of(s@) is Some),
        r matches Some(h) ==> h@ == hint_of(s@)->0,
{
    if !s.is_ascii() {
        return None;
    }
    let cs = crate::text::chars_of(s);
    if cs.len() != 32 {
        return None;
    }
    let mut out = [0u8; 16];
    let mut i: usize = 0;
    while i < 16
        invariant
            cs@ == s@,
            cs@.len() == 32,
            i <= 16,
            out@.len() == 16,
            forall|j: int| 0 <= j < i ==> #[trigger] hex_pair(cs@[2 * j], cs@[2 * j + 1]) is Some
                && out@[j] == hex_pair(cs@[2 * j], cs@[2 * j + 1])->0,
        decreases 16 - i,
    {
        let a = cs[2 * i];
        let b = cs[2 * i + 1];
        let v: Option<u8> = if a == '+' {
            hex_val(b)
        } else {
            match (hex_val(a), hex_val(b)) {
                (Some(x), Some(y)) => Some(x * 16 + y),
                _ => None,
            }
        };
        match v {
            Some(byte) => {
                out[i] = byte;
            },
            None => {
                proof {
                    assert(hex_pair(cs@[2 * i], cs@[2 * i + 1]) is None);
                    assert(!(hex_pair(s@[2 * (i as int)], s@[2 * (i as int) + 1]) is Some));
                }
                return None;
            },
        }
        i = i + 1;
    }
    assert(out@ =~= Seq::new(16, |i: int| hex_pair(s@[2 * i], s@[2 * i + 1])->0));
    Some(out)
}

/// The hex of a byte string has two digits per byte, the high nibble first.
proof fn lemma_hex_of_layout(bytes: Seq<u8>)
    ensures
        hex_of(bytes).len() == 2 * bytes.len(),
        forall|i: int|
            0 <= i < bytes.len() ==> hex_of(bytes)[2 * i] == hex_digit(#[trigger] bytes[i] / 16)
                && hex_of(bytes)[2 * i + 1] == hex_digit(bytes[i] % 16),
    decreases bytes.len(),
{
    if bytes.len() > 0 {
        let init = bytes.drop_last();
        lemma_hex_of_layout(init);
        let h = hex_of(bytes);
        assert forall|i: int| 0 <= i < bytes.len() implies h[2 * i] == hex_digit(#[trigger] bytes[i] / 16)
            && h[2 * i + 1] == hex_digit(bytes[i] % 16) by {
            if i < init.len() {
                assert(init[i] == bytes[i]);
            }
        }
    }
}

/// A nibble's digit reads back as the nibble.
proof fn lemma_hex_digit_value(n: u8)
    requires
        n < 16,
    ensures
        hex_value(hex_digit(n)) == Some(n),
        hex_digit(n) != '+',
{
    if n < 10 {
        assert(hex_digit(n) as int == 48 + n);
    } else {
        assert(hex_digit(n) as int == 97 + n - 10);
    }
}

/// A hint written as hex decodes back to the same hint: what a peer
/// advertises is what browsing reads.
pub proof fn lemma_hint_round_trip(hint: Seq<u8>)
    requires
        hint.len() == 16,
    ensures
        hint_of(hex_of(hint)) == Some(hint),
{
    let s = hex_of(hint);
    lemma_hex_of_layout(hint);
    assert forall|i: int| 0 <= i < 16 implies #[trigger] hex_pair(s[2 * i], s[2 * i + 1]) is Some
        && hex_pair(s[2 * i], s[2 * i + 1])->0 == hint[i] by {
        let b = hint[i];
        lemma_hex_digit_value(b / 16);
        lemma_hex_digit_value(b % 16);
        assert(((b / 16) * 16 + b % 16) as u8 == b);
    }
    assert(Seq::new(16, |i: int| hex_pair(s[2 * i], s[2 * i + 1])->0) =~= hint);
}

/// How long a discovered service stays valid without a refresh (ms).
pub const CANDIDATE_TTL_MS: i64 = 120_000;

/// The capabilities a TXT value advertises: a `u32` as std parses it, or 0.
pub open spec fn capabilities_of(txt: Option<Seq<char>>) -> u32 {
    match txt {
        Some(t) => match parse_int(t, 0, u32::MAX as int) {
            Some(v) => v as u32,
            None => 0,
        },
        None => 0,
    }
}

/// The hint a TXT value advertises, or all zeros when absent or malformed.
pub open spec fn advertised_hint(txt: Option<&str>) -> Seq<u8> {
    match txt {
        Some(t) => if t.is_ascii() && hint_of(t@) is Some {
            hint_of(t@)->0
        } else {
            Seq::new(16, |_i: int| 0u8)
        },
        None => Seq::new(16, |_i: int| 0u8),
    }
}

/// The raw service a resolved DNS-SD instance stands for: its full name,
/// the hint and capabilities of its TXT properties, each of its addresses
/// at its port, valid until `now` plus the candidate TTL.
pub fn resolved_service(
    fullname: &str,
    hint_txt: Option<&str>,
    cap_txt: Option<&str>,
    addresses: Vec<String>,
    port: u16,
    now: i64,
) -> (r: RawService)
    requires
        now + CANDIDATE_TTL_MS <= i64::MAX,
    ensures
        r.instance@ == fullname@,
        r.hint@ == advertised_hint(hint_txt),
        r.capabilities == capabilities_of(match cap_txt {
            Some(t) => Some(t@),
            None => None::<Seq<char>>,
        }),
        r.endpoints@.len() == addresses@.len(),
        forall|i: int|
            0 <= i < addresses@.len() ==> (#[trigger] r.endpoints@[i]).0 == addresses@[i]
                && r.endpoints@[i].1 == port,
        r.ttl_millis == now + CANDIDATE_TTL_MS,
{
    let hint = match hint_txt {
        Some(t) => match decode_hint(t) {
            Some(h) => h,
            None => [0u8; 16],
        },
        None => [0u8; 16],
    };
    proof {
        if !(hint_txt matches Some(t) && t.is_ascii() && hint_of(t@) is Some) {
            assert(hint@ =~= Seq::new(16, |_i: int| 0u8));
        }
    }
    let capabilities: u32 = match cap_txt {
        Some(t) => {
            let cs = chars_of(t);
            proof {
                assert(cs@.subrange(0, cs@.len() as int) =~= t@);
            }
            match parse_int_in(&cs, 0, cs.len(), 0, 0xFFFF_FFFF) {
                Some(v) => v as u32,
                None => 0,
            }
        },
        None => 0,
    };
    let mut endpoints: Vec<(String, u16)> = Vec::new();
    let mut addrs = addresses;
    let ghost all = addrs@;
    let mut i: usize = 0;
    let n = addrs.len();
    while i < n
        invariant
            n == all.len(),
            i <= n,
            addrs@ == all.skip(i as int),
            endpoints@.len() == i,
            forall|j: int| 0 <= j < i ==> (#[trigger] endpoints@[j]).0 == all[j] && endpoints@[j].1 == port,
        decreases n - i,
    {
        let ip = addrs.remove(0);
        assert(all.skip(i as int).drop_first() =~= all.skip(i + 1));
        endpoints.push((ip, port));
        i = i + 1;
    }
    RawService {
        instance: fullname.to_owned(),
        hint,
        endpoints,
        capabilities,
        ttl_millis: now + CANDIDATE_TTL_MS,
    }
}

/// The instance names in `s` are pairwise distinct.
pub open spec fn instances_unique(s: Seq<RawService>) -> bool {
    forall|i: int, j: int| 0 <= i < j < s.len() ==> #[trigger] s[i].instance@ != #[trigger] s[j].instance@
}

/// The position of the service named `name` in `s`, if one is there.
pub open spec fn position_of(s: Seq<RawService>, name: Seq<char>) -> Option<int> {
    if exists|i: int| 0 <= i < s.len() && #[trigger] s[i].instance@ == name {
        Some(choose|i: int| 0 <= i < s.len() && #[trigger] s[i].instance@ == name)
    } else {
        None
    }
}

/// The services currently resolved by a browse, one per instance name, in
/// the order they were first resolved.
pub struct ServiceSnapshot {
    services: Vec<RawService>,
}

impl View for ServiceSnapshot {
    type V = Seq<RawService>;

    closed spec fn view(&self) -> Seq<RawService> {
        self.services@
    }
}

impl ServiceSnapshot {
    #[verifier::type_invariant]
    spec fn inv(self) -> bool {
        instances_unique(self.services@)
    }

    pub fn new() -> (r: Self)
        ensures
            r@ == Seq::<RawService>::empty(),
    {
        ServiceSnapshot { services: Vec::new() }
    }

    /// The position of the service named `name`.
    fn find(&self, name: &str) -> (p: Option<usize>)
        ensures
            p matches Some(i) ==> i < self@.len() && self@[i as int].instance@ == name@,
            p is None ==> forall|i: int| 0 <= i < self@.len() ==> #[trigger] self@[i].instance@ != name@,
    {
        let mut i: usize = 0;
        while i < self.services.len()
            invariant
                i <= self@.len(),
                self@ == self.services@,
                forall|j: int| 0 <= j < i ==> #[trigger] self@[j].instance@ != name@,
            decreases self@.len() - i,
        {
            if str_eq(self.services[i].instance.as_str(), name) {
                return Some(i);
            }
            i = i + 1;
        }
        None
    }

    /// A service was resolved: it replaces the one of the same instance
    /// name, or is added after the others.
    pub fn on_resolved(&mut self, service: RawService)
        ensures
            instances_unique(final(self)@),
            final(self)@ == match position_of(old(self)@, service.instance@) {
                Some(i) => old(self)@.update(i, service),
                None => old(self)@.push(service),
            },
    {
        proof {
            use_type_invariant(&*self);
        }
        let ghost s = self@;
        let found = self.find(service.instance.as_str());
        let mut v: Vec<RawService> = Vec::new();
        std::mem::swap(&mut v, &mut self.services);
        match found {
            Some(i) => {
                proof {
                    let c = choose|k: int| 0 <= k < s.len() && #[trigger] s[k].instance@ == service.instance@;
                    if c != i {
                        if c < i {
                            assert(s[c].instance@ != s[i as int].instance@);
                        } else {
                            assert(s[i as int].instance@ != s[c].instance@);
                        }
                    }
                }
                v.set(i, service);
                proof {
                    let t = v@;
                    assert forall|a: int, b: int| 0 <= a < b < t.len() implies #[trigger] t[a].instance@
                        != #[trigger] t[b].instance@ by {
                        if a != i && b != i {
                            assert(t[a] == s[a] && t[b] == s[b]);
                        } else if a == i {
                            assert(t[b] == s[b]);
                            assert(s[a].instance@ != s[b].instance@);
                        } else {
                            assert(t[a] == s[a]);
                            assert(s[a].instance@ != s[b].instance@);
                        }
                    }
                }
            },
            None => {
                v.push(service);
                proof {
                    let t = v@;
                    assert forall|a: int, b: int| 0 <= a < b < t.len() implies #[trigger] t[a].instance@
                        != #[trigger] t[b].instance@ by {
                        assert(t[a] == s[a]);
                        if b < s.len() {
                            assert(t[b] == s[b]);
                        }
                    }
                }
            },
        }
        self.services = v;
        proof {
            use_type_invariant(&*self);
        }
    }

    /// A service was removed: the one of that instance name, if any, is
    /// dropped and the others keep their order.
    pub fn on_removed(&mut self, name: &str)
        ensures
            instances_unique(final(self)@),
            final(self)@ == match position_of(old(self)@, name@) {
                Some(i) => old(self)@.remove(i),
                None => old(self)@,
            },
    {
        proof {
            use_type_invariant(&*self);
        }
        let ghost s = self@;
        match self.find(name) {
            Some(i) => {
                proof {
                    let c = choose|k: int| 0 <= k < s.len() && #[trigger] s[k].instance@ == name@;
                    if c != i {
                        if c < i {
                            assert(s[c].instance@ != s[i as int].instance@);
                        } else {
                            assert(s[i as int].instance@ != s[c].instance@);
                        }
                    }
                }
                let mut v: Vec<RawService> = Vec::new();
                std::mem::swap(&mut v, &mut self.services);
                v.remove(i);
                proof {
                    let t = v@;
                    assert forall|a: int, b: int| 0 <= a < b < t.len() implies #[trigger] t[a].instance@
                        != #[trigger] t[b].instance@ by {
                        let aa = if a < i { a } else { a + 1 };
                        let bb = if b < i { b } else { b + 1 };
                        assert(t[a] == s[aa] && t[b] == s[bb]);
                    }
                }
                self.services = v;
            },
            None => {},
        }
        proof {
            use_type_invariant(&*self);
        }
    }

    /// The services currently resolved.
    pub fn services(&self) -> (r: &Vec<RawService>)
        ensures
            r@ == self@,
    {
        &self.services
    }
}

} // verus!
