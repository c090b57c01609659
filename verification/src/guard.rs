//! Which endpoints may be talked to.

use vstd::prelude::*;

use crate::outside::UrlParts;
use crate::outside;
use crate::text;

verus! {

/// Whether a host in lower case is this machine.
pub open spec fn loopback(h: Seq<char>) -> bool {
    h == "localhost"@ || h == "::1"@ || h == "::"@ || text::starts(h, "127."@)
}

/// The numbers between the dots of a host.
pub open spec fn octets_in(parts: Seq<Seq<char>>) -> Seq<nat>
    decreases parts.len(),
{
    if parts.len() == 0 {
        Seq::empty()
    } else {
        match text::parsed(parts.last(), u32::MAX as nat) {
            Some(n) => octets_in(parts.drop_last()).push(n),
            None => octets_in(parts.drop_last()),
        }
    }
}

pub open spec fn octets(host: Seq<char>) -> Seq<nat> {
    octets_in(text::split(host, '.'))
}

/// Whether a host is in a private network.
pub open spec fn private_network(host: Seq<char>) -> bool {
    let p = octets(host);
    p.len() == 4 && (p[0] == 10 || (p[0] == 172 && 16 <= p[1] <= 31) || (p[0] == 192 && p[1]
        == 168))
}

/// Whether a host in lower case is never talked to: it serves what a machine
/// may know of itself, or is on no network of its own.
pub open spec fn forbidden(h: Seq<char>) -> bool {
    let p = octets(h);
    ||| h == "169.254.169.254"@
    ||| h == "fd00:ec2::254"@
    ||| h == "[fd00:ec2::254]"@
    ||| h == "metadata.google.internal"@
    ||| h == "metadata"@
    ||| p.len() == 4 && ((p[0] == 169 && p[1] == 254) || (p[0] == 100 && 64 <= p[1] <= 127) || p[0]
        == 0)
}

/// Where a URL leads: scheme, host and port.
pub open spec fn origin(u: outside::UrlText) -> Seq<char> {
    match u.host {
        Some(h) => match u.port {
            Some(p) => u.scheme + "://"@ + h + ":"@ + text::decimal(p as nat),
            None => u.scheme + "://"@ + h,
        },
        None => u.whole,
    }
}

/// Whether a host in lower case is this machine.
pub fn is_loopback(h: &str) -> (r: bool)
    ensures
        r == loopback(h@),
{
    text::same(h, "localhost") || text::same(h, "::1") || text::same(h, "::") || text::starts_with(
        h,
        "127.",
    )
}

fn read_octets(host: &str) -> (r: Vec<u64>)
    ensures
        r@.map_values(|n: u64| n as nat) == octets(host@),
{
    let parts = text::split_char(host, '.');
    let ghost all = text::texts(parts@);
    let mut r: Vec<u64> = Vec::new();
    let mut i: usize = 0;
    assert(r@.map_values(|n: u64| n as nat) =~= octets_in(all.take(0)));
    while i < parts.len()
        invariant
            i <= parts.len(),
            all == text::texts(parts@),
            r@.map_values(|n: u64| n as nat) == octets_in(all.take(i as int)),
        decreases parts.len() - i,
    {
        assert(all.take(i + 1).drop_last() =~= all.take(i as int));
        assert(all.take(i + 1).last() == parts@[i as int]@);
        match text::parse_number(&parts[i], u32::MAX as u64) {
            Some(n) => {
                let ghost before = r@.map_values(|n: u64| n as nat);
                r.push(n);
                assert(r@.map_values(|n: u64| n as nat) =~= before.push(n as nat));
            },
            None => {},
        }
        i = i + 1;
    }
    assert(all.take(i as int) =~= all);
    r
}

/// Whether a host is in a private network.
pub fn is_rfc1918(host: &str) -> (r: bool)
    ensures
        r == private_network(host@),
{
    let p = read_octets(host);
    assert(octets(host@).len() == p@.len());
    if p.len() != 4 {
        return false;
    }
    assert(octets(host@)[0] == p@[0] && octets(host@)[1] == p@[1]);
    let a: u64 = p[0];
    let b: u64 = p[1];
    a == 10 || (a == 172 && 16 <= b && b <= 31) || (a == 192 && b == 168)
}

/// Whether a host in lower case is never talked to.
pub fn is_always_blocked(h: &str) -> (r: bool)
    ensures
        r == forbidden(h@),
{
    if text::same(h, "169.254.169.254") || text::same(h, "fd00:ec2::254") || text::same(
        h,
        "[fd00:ec2::254]",
    ) || text::same(h, "metadata.google.internal") || text::same(h, "metadata") {
        return true;
    }
    let p = read_octets(h);
    assert(octets(h@).len() == p@.len());
    if p.len() == 4 {
        assert(octets(h@)[0] == p@[0] && octets(h@)[1] == p@[1]);
        let a: u64 = p[0];
        let b: u64 = p[1];
        (a == 169 && b == 254) || (a == 100 && 64 <= b && b <= 127) || a == 0
    } else {
        false
    }
}

/// Where a URL leads.
pub fn origin_of(u: &UrlParts) -> (r: String)
    ensures
        r@ == origin(u@),
{
    match &u.host {
        Some(h) => match u.port {
            Some(p) => {
                let n = text::number(p as u64);
                text::cat5(&u.scheme, "://", h, ":", &n)
            },
            None => text::cat3(&u.scheme, "://", h),
        },
        None => u.whole.clone(),
    }
}

/// Whether an entry of a list leads to an origin.
pub open spec fn entry_allows(entry: Seq<char>, want: Seq<char>) -> bool {
    let e = text::trimmed(entry);
    e.len() > 0 && match outside::url_of(e) {
        Some(u) => origin(u) == want,
        None => false,
    }
}

/// Whether a list, whose entries are separated by commas, names an origin.
pub open spec fn listed(allow: Seq<char>, want: Seq<char>) -> bool {
    exists|i: int|
        0 <= i < text::split(allow, ',').len() && entry_allows(
            #[trigger] text::split(allow, ',')[i],
            want,
        )
}

fn check_entry(entry: &str, want: &str) -> (r: bool)
    ensures
        r == entry_allows(entry@, want@),
{
    let e = text::trim(entry);
    if e.as_str().is_empty() {
        return false;
    }
    match outside::url_parse(&e) {
        Some(u) => {
            let o = origin_of(&u);
            text::same(&o, want)
        },
        None => false,
    }
}

/// Whether a list, whose entries are separated by commas, names an origin.
pub fn is_listed(allow: &str, want: &str) -> (r: bool)
    ensures
        r == listed(allow@, want@),
{
    let parts = text::split_char(allow, ',');
    let ghost all = text::texts(parts@);
    let mut i: usize = 0;
    while i < parts.len()
        invariant
            i <= parts.len(),
            all == text::texts(parts@),
            all == text::split(allow@, ','),
            forall|j: int| 0 <= j < i ==> !entry_allows(#[trigger] all[j], want@),
        decreases parts.len() - i,
    {
        assert(all[i as int] == parts@[i as int]@);
        if check_entry(&parts[i], want) {
            return true;
        }
        i = i + 1;
    }
    false
}

/// Why an endpoint may not be talked to, by what is known of its URL.
#[derive(Debug, Clone, Copy, PartialEq, Eq, Structural)]
pub enum Refusal {
    Invalid,
    Scheme,
    Forbidden,
    NotAllowed,
}

pub open spec fn refusal_text(endpoint: Seq<char>, why: Refusal) -> Seq<char> {
    match why {
        Refusal::Invalid => "Invalid endpoint URL: "@ + endpoint,
        Refusal::Scheme => "Endpoint must use http(s): "@ + endpoint,
        Refusal::Forbidden => "Endpoint "@ + endpoint
            + " targets a metadata/link-local address; refusing."@,
        Refusal::NotAllowed => "Endpoint "@ + endpoint
            + " is not in LLM_ENDPOINT_ALLOWLIST and is not a private host. Set LLM_ENDPOINT_ALLOWLIST=<comma-separated origins> or LLM_ALLOW_PUBLIC_ENDPOINTS=1 to permit."@,
    }
}

/// Whether an endpoint may be talked to, by what is known of its URL: its
/// scheme, its host in lower case and as it is, whether public endpoints are
/// allowed, and whether a list names it.
pub open spec fn judged(
    scheme: Seq<char>,
    lowered: Option<Seq<char>>,
    host: Seq<char>,
    lowered_host: Seq<char>,
    public: bool,
    named: bool,
) -> Option<Refusal> {
    if scheme != "http"@ && scheme != "https"@ {
        Some(Refusal::Scheme)
    } else if lowered is Some && forbidden(lowered->0) {
        Some(Refusal::Forbidden)
    } else if public || named || loopback(lowered_host) || private_network(host) {
        None
    } else {
        Some(Refusal::NotAllowed)
    }
}

/// Whether an endpoint may be talked to, by its URL.
pub open spec fn url_judged(u: outside::UrlText, public: bool, allow: Seq<char>) -> Option<Refusal> {
    let host = match u.host {
        Some(h) => h,
        None => Seq::empty(),
    };
    judged(
        u.scheme,
        match u.host {
            Some(h) => Some(outside::lowered(h)),
            None => None,
        },
        host,
        outside::lowered(host),
        public,
        listed(allow, origin(u)),
    )
}

/// Whether an endpoint may be talked to, by what is known of its URL.
pub fn judge(
    scheme: &str,
    lowered: &Option<String>,
    host: &str,
    lowered_host: &str,
    public: bool,
    named: bool,
) -> (r: Option<Refusal>)
    ensures
        r == judged(
            scheme@,
            text::opt_text(*lowered),
            host@,
            lowered_host@,
            public,
            named,
        ),
{
    if !text::same(scheme, "http") && !text::same(scheme, "https") {
        return Some(Refusal::Scheme);
    }
    match lowered {
        Some(l) => {
            if is_always_blocked(l) {
                return Some(Refusal::Forbidden);
            }
        },
        None => {},
    }
    if public || named || is_loopback(lowered_host) || is_rfc1918(host) {
        None
    } else {
        Some(Refusal::NotAllowed)
    }
}

fn say(endpoint: &str, why: Refusal) -> (r: String)
    ensures
        r@ == refusal_text(endpoint@, why),
{
    match why {
        Refusal::Invalid => text::cat2("Invalid endpoint URL: ", endpoint),
        Refusal::Scheme => text::cat2("Endpoint must use http(s): ", endpoint),
        Refusal::Forbidden => text::cat3(
            "Endpoint ",
            endpoint,
            " targets a metadata/link-local address; refusing.",
        ),
        Refusal::NotAllowed => text::cat3(
            "Endpoint ",
            endpoint,
            " is not in LLM_ENDPOINT_ALLOWLIST and is not a private host. Set LLM_ENDPOINT_ALLOWLIST=<comma-separated origins> or LLM_ALLOW_PUBLIC_ENDPOINTS=1 to permit.",
        ),
    }
}

/// Whether an endpoint may be talked to. `public` and `allow` are the values of
/// the two variables that govern it; an unset one is empty.
pub fn assert_endpoint_allowed(endpoint: &str, public: &str, allow: &str) -> (r: Result<(), String>)
    ensures
        match outside::url_of(endpoint@) {
            None => r matches Err(e) && e@ == refusal_text(endpoint@, Refusal::Invalid),
            Some(u) => match url_judged(u, public@ == "1"@, allow@) {
                Some(why) => r matches Err(e) && e@ == refusal_text(endpoint@, why),
                None => r is Ok,
            },
        },
{
    match outside::url_parse(endpoint) {
        None => Err(say(endpoint, Refusal::Invalid)),
        Some(u) => {
            let host = match &u.host {
                Some(h) => h.clone(),
                None => {
                    let e = String::new();
                    assert(e@ =~= Seq::<char>::empty());
                    e
                },
            };
            let lowered_host = outside::to_lowercase(&host);
            let lowered = match &u.host {
                Some(h) => Some(outside::to_lowercase(h)),
                None => None,
            };
            let named = is_listed(allow, &origin_of(&u));
            match judge(&u.scheme, &lowered, &host, &lowered_host, text::same(public, "1"), named) {
                Some(why) => Err(say(endpoint, why)),
                None => Ok(()),
            }
        },
    }
}

/// No setting opens the way to a host that is never talked to.
pub proof fn law_forbidden_stays_forbidden(u: outside::UrlText, public: bool, allow: Seq<char>)
    requires
        u.host matches Some(h) && forbidden(outside::lowered(h)),
    ensures
        url_judged(u, public, allow) is Some,
{
}

/// Only http and https are spoken.
pub proof fn law_only_http(u: outside::UrlText, public: bool, allow: Seq<char>)
    requires
        url_judged(u, public, allow) is None,
    ensures
        u.scheme == "http"@ || u.scheme == "https"@,
{
}

/// A host of four numbers between dots.
pub open spec fn dotted(a: nat, b: nat, c: nat, d: nat) -> Seq<char> {
    text::decimal(a).push('.') + text::decimal(b).push('.') + text::decimal(c).push('.')
        + text::decimal(d)
}

proof fn lemma_number_is_whole(n: nat)
    ensures
        text::split(text::decimal(n), '.') == seq![text::decimal(n)],
        n <= u32::MAX ==> octets_in(seq![text::decimal(n)]) == seq![n],
{
    let s = text::decimal(n);
    text::law_numbers_are_read_back(n, u32::MAX as nat);
    assert(!s.contains('.')) by {
        if s.contains('.') {
            let k = choose|k: int| 0 <= k < s.len() && s[k] == '.';
            assert(text::is_digit(s[k]));
        }
    }
    text::law_split_at(s, '.', Seq::empty());
    let one = seq![s];
    assert(one.drop_last() =~= Seq::<Seq<char>>::empty());
    assert(octets_in(one.drop_last()) =~= Seq::<nat>::empty());
    if n <= u32::MAX {
        assert(octets_in(one) =~= seq![n]);
    }
}

proof fn lemma_octets_push(v: Seq<Seq<char>>, n: nat)
    requires
        n <= u32::MAX,
    ensures
        octets_in(v.push(text::decimal(n))) == octets_in(v).push(n),
{
    assert(v.push(text::decimal(n)).drop_last() =~= v);
    text::law_numbers_are_read_back(n, u32::MAX as nat);
}

proof fn lemma_dotted(a: nat, b: nat, c: nat, d: nat)
    requires
        a <= 255 && b <= 255 && c <= 255 && d <= 255,
    ensures
        octets(dotted(a, b, c, d)) == seq![a, b, c, d],
{
    let p = text::decimal(a);
    let q = text::decimal(b);
    let r = text::decimal(c);
    let s = text::decimal(d);
    lemma_number_is_whole(a);
    lemma_number_is_whole(b);
    lemma_number_is_whole(c);
    lemma_number_is_whole(d);
    let two = p.push('.') + q;
    let three = two.push('.') + r;
    text::law_split_at(p, '.', q);
    text::law_split_at(two, '.', r);
    text::law_split_at(three, '.', s);
    assert(three.push('.') + s =~= dotted(a, b, c, d));
    assert(seq![p] + seq![q] =~= seq![p].push(q));
    assert(seq![p].push(q) + seq![r] =~= seq![p].push(q).push(r));
    assert(seq![p].push(q).push(r) + seq![s] =~= seq![p].push(q).push(r).push(s));
    lemma_octets_push(seq![p], b);
    lemma_octets_push(seq![p].push(q), c);
    lemma_octets_push(seq![p].push(q).push(r), d);
    assert(seq![a].push(b).push(c).push(d) =~= seq![a, b, c, d]);
}

/// Of the hosts of four numbers those in the three private ranges are private,
/// and those that are link-local, shared or on no network are never talked to.
pub proof fn law_networks(a: nat, b: nat, c: nat, d: nat)
    requires
        a <= 255 && b <= 255 && c <= 255 && d <= 255,
    ensures
        private_network(dotted(10, b, c, d)),
        16 <= b <= 31 ==> private_network(dotted(172, b, c, d)),
        private_network(dotted(192, 168, c, d)),
        private_network(dotted(a, b, c, d)) ==> a == 10 || a == 172 || a == 192,
        private_network(dotted(172, b, c, d)) ==> 16 <= b <= 31,
        private_network(dotted(192, b, c, d)) ==> b == 168,
        forbidden(dotted(169, 254, c, d)),
        64 <= b <= 127 ==> forbidden(dotted(100, b, c, d)),
        forbidden(dotted(0, b, c, d)),
        forbidden(dotted(a, b, c, d)) && dotted(a, b, c, d) != "169.254.169.254"@ ==> a == 0 || (a
            == 169 && b == 254) || (a == 100 && 64 <= b <= 127),
        forbidden("169.254.169.254"@) && forbidden("metadata.google.internal"@) && forbidden(
            "metadata"@,
        ) && forbidden("fd00:ec2::254"@) && forbidden("[fd00:ec2::254]"@),
{
    lemma_dotted(a, b, c, d);
    lemma_dotted(10, b, c, d);
    lemma_dotted(172, b, c, d);
    lemma_dotted(192, 168, c, d);
    lemma_dotted(192, b, c, d);
    lemma_dotted(169, 254, c, d);
    lemma_dotted(100, b, c, d);
    lemma_dotted(0, b, c, d);
    let h = dotted(a, b, c, d);
    text::law_decimal(a);
    text::law_numbers_are_read_back(a, a);
    assert(h[0] == text::decimal(a)[0]);
    assert(text::is_digit(h[0]));
    reveal_strlit("fd00:ec2::254");
    reveal_strlit("[fd00:ec2::254]");
    reveal_strlit("metadata.google.internal");
    reveal_strlit("metadata");
    assert("fd00:ec2::254"@[0] == 'f' && "[fd00:ec2::254]"@[0] == '[');
    assert("metadata.google.internal"@[0] == 'm' && "metadata"@[0] == 'm');
}

/// This machine is known by its name, by its addresses, and by all that start
/// with its number.
pub proof fn law_loopback(b: Seq<char>, h: Seq<char>)
    ensures
        loopback("localhost"@) && loopback("::1"@) && loopback("::"@),
        loopback("127."@ + b),
        loopback(h) && h != "localhost"@ && h != "::1"@ && h != "::"@ ==> h.len() >= 4 && h.take(4)
            == "127."@,
{
    text::law_affixes("127."@, b, Seq::empty());
    reveal_strlit("127.");
    if loopback(h) && h != "localhost"@ && h != "::1"@ && h != "::"@ {
        assert(h.take(4) =~= h.subrange(0, 4));
    }
}

/// An endpoint on this machine or in a private network may be talked to, and one
/// that a list names or that is let in with all public ones; any other may not.
pub proof fn law_who_may_be_talked_to(u: outside::UrlText, public: bool, allow: Seq<char>, h: Seq<char>)
    requires
        u.host == Some(h),
        u.scheme == "http"@ || u.scheme == "https"@,
        !forbidden(outside::lowered(h)),
    ensures
        loopback(outside::lowered(h)) ==> url_judged(u, public, allow) is None,
        private_network(h) ==> url_judged(u, public, allow) is None,
        public ==> url_judged(u, public, allow) is None,
        listed(allow, origin(u)) ==> url_judged(u, public, allow) is None,
        !loopback(outside::lowered(h)) && !private_network(h) && !public && !listed(
            allow,
            origin(u),
        ) ==> url_judged(u, public, allow) == Some(Refusal::NotAllowed),
{
}

/// A list names an origin where one of its entries leads there, white space
/// around it aside; lists one behind the other name what either names.
pub proof fn law_lists(a: Seq<char>, b: Seq<char>, want: Seq<char>)
    ensures
        listed(a.push(',') + b, want) <==> listed(a, want) || listed(b, want),
        !a.contains(',') ==> (listed(a, want) <==> text::trimmed(a).len() > 0 && (outside::url_of(
            text::trimmed(a),
        ) matches Some(u) && origin(u) == want)),
{
    text::law_split_at(a, ',', b);
    let x = text::split(a, ',');
    let y = text::split(b, ',');
    let all = text::split(a.push(',') + b, ',');
    assert(all == x + y);
    if listed(a, want) {
        let i = choose|i: int| 0 <= i < x.len() && entry_allows(#[trigger] x[i], want);
        assert(all[i] == x[i]);
    }
    if listed(b, want) {
        let i = choose|i: int| 0 <= i < y.len() && entry_allows(#[trigger] y[i], want);
        assert(all[x.len() + i] == y[i]);
    }
    if listed(a.push(',') + b, want) {
        let i = choose|i: int| 0 <= i < all.len() && entry_allows(#[trigger] all[i], want);
        if i < x.len() {
            assert(x[i] == all[i]);
        } else {
            assert(y[i - x.len()] == all[i]);
        }
    }
    if !a.contains(',') {
        assert(x[0] == a);
        if entry_allows(a, want) {
            assert(entry_allows(x[0], want));
        }
    }
}

/// An origin is a scheme, a host and a port; what is refused is named.
pub proof fn law_origin(u: outside::UrlText, h: Seq<char>, p: u16, endpoint: Seq<char>, why: Refusal)
    requires
        u.host == Some(h),
    ensures
        u.port == Some(p) ==> origin(u) == u.scheme + "://"@ + h + ":"@ + text::decimal(p as nat),
        u.port is None ==> origin(u) == u.scheme + "://"@ + h,
        text::has(refusal_text(endpoint, why), endpoint),
{
    text::law_affixes(endpoint, "Invalid endpoint URL: "@, Seq::empty());
    text::law_affixes(endpoint, "Endpoint must use http(s): "@, Seq::empty());
    assert("Invalid endpoint URL: "@ + endpoint + Seq::<char>::empty() =~= "Invalid endpoint URL: "@
        + endpoint);
    assert("Endpoint must use http(s): "@ + endpoint + Seq::<char>::empty()
        =~= "Endpoint must use http(s): "@ + endpoint);
    text::law_affixes(
        endpoint,
        "Endpoint "@,
        " targets a metadata/link-local address; refusing."@,
    );
    text::law_affixes(
        endpoint,
        "Endpoint "@,
        " is not in LLM_ENDPOINT_ALLOWLIST and is not a private host. Set LLM_ENDPOINT_ALLOWLIST=<comma-separated origins> or LLM_ALLOW_PUBLIC_ENDPOINTS=1 to permit."@,
    );
}

} // verus!
