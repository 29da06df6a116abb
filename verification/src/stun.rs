//! Finding the external address: STUN binding requests and responses, and the replies of
//! UPnP routers.
use vstd::prelude::*;
use crate::entropy::random_twelve_bytes;
use crate::text::{chars_of, decimal, find_chars, push_decimal, first_occurrence, has_prefix, lowercase, occurs_at, string_from_range,
    trim, trim_chars};
use crate::tls_masking::be_u16;

verus! {

/// The STUN magic cookie.
pub open spec fn magic_cookie() -> Seq<u8> {
    seq![0x21u8, 0x12u8, 0xA4u8, 0x42u8]
}

/// A binding request with the transaction identifier `tid`: type 1, length 0, the magic
/// cookie, then the identifier.
pub open spec fn spec_binding_request(tid: Seq<u8>) -> Seq<u8> {
    seq![0x00u8, 0x01u8, 0x00u8, 0x00u8] + magic_cookie() + tid
}

/// A binding request with the transaction identifier `tid`.
pub fn stun_binding_request(tid: [u8; 12]) -> (res: Vec<u8>)
    ensures
        res@ == spec_binding_request(tid@),
{
    let mut packet: Vec<u8> = vec![0x00, 0x01, 0x00, 0x00, 0x21, 0x12, 0xA4, 0x42];
    let mut i: usize = 0;
    while i < 12
        invariant
            i <= 12,
            packet@ == seq![0x00u8, 0x01u8, 0x00u8, 0x00u8] + magic_cookie() + tid@.subrange(0, i as int),
        decreases 12 - i,
    {
        packet.push(tid[i]);
        i = i + 1;
        assert(packet@ =~= seq![0x00u8, 0x01u8, 0x00u8, 0x00u8] + magic_cookie() + tid@.subrange(0, i as int));
    }
    assert(tid@.subrange(0, 12) =~= tid@);
    packet
}

/// A binding request with a random transaction identifier.
pub fn create_stun_binding_request() -> (res: Vec<u8>)
    ensures
        res@.len() == 20,
        res@.subrange(0, 8) == seq![0x00u8, 0x01u8, 0x00u8, 0x00u8] + magic_cookie(),
{
    let tid = random_twelve_bytes();
    let res = stun_binding_request(tid);
    assert(res@.subrange(0, 8) =~= seq![0x00u8, 0x01u8, 0x00u8, 0x00u8] + magic_cookie());
    res
}

/// Why a STUN response gave no address.
#[derive(Debug, Clone, Copy, PartialEq, Eq, Structural)]
pub enum StunError {
    /// Shorter than a STUN header.
    TooShort,
    /// The magic cookie is missing.
    BadCookie,
    /// No IPv4 address attribute was found.
    NoAddress,
}

impl StunError {
    /// The error's message.
    pub fn message(&self) -> (res: &'static str)
        ensures
            res@ == match self {
                StunError::TooShort => "Invalid STUN response"@,
                StunError::BadCookie => "Invalid STUN magic cookie"@,
                StunError::NoAddress => "No IP address found in STUN response"@,
            },
    {
        match self {
            StunError::TooShort => "Invalid STUN response",
            StunError::BadCookie => "Invalid STUN magic cookie",
            StunError::NoAddress => "No IP address found in STUN response",
        }
    }
}

/// The length of an attribute's value rounded up to whole words.
pub open spec fn padded(len: int) -> int {
    ((len + 3) / 4) * 4
}

/// The IPv4 address of the attributes of `d` from `offset` on, up to `end`: the first
/// mapped address (type 1) or XOR-mapped address (type 0x20) of the IPv4 family, each at
/// least eight bytes long and whole.
pub open spec fn scan_attributes(d: Seq<u8>, offset: int, end: int) -> Option<Seq<u8>>
    decreases d.len() - offset,
{
    if offset < 20 || offset + 4 > d.len() || offset >= end {
        None
    } else {
        let attr_type = be_u16(d[offset], d[offset + 1]);
        let attr_len = be_u16(d[offset + 2], d[offset + 3]);
        if attr_type == 1 && attr_len >= 8 && offset + 12 <= d.len() && d[offset + 5] == 1 {
            Some(d.subrange(offset + 8, offset + 12))
        } else if attr_type == 0x20 && attr_len >= 8 && offset + 12 <= d.len() && d[offset + 5] == 1 {
            Some(seq![
                d[offset + 8] ^ 0x21u8,
                d[offset + 9] ^ 0x12u8,
                d[offset + 10] ^ 0xA4u8,
                d[offset + 11] ^ 0x42u8,
            ])
        } else if offset + 4 + padded(attr_len) >= d.len() {
            None
        } else {
            scan_attributes(d, offset + 4 + padded(attr_len), end)
        }
    }
}

/// What a STUN response `d` gives: the external IPv4 address, or why there is none.
pub open spec fn spec_parse_stun(d: Seq<u8>) -> Result<Seq<u8>, StunError> {
    if d.len() < 20 {
        Err(StunError::TooShort)
    } else if d.subrange(4, 8) != magic_cookie() {
        Err(StunError::BadCookie)
    } else {
        match scan_attributes(d, 20, 20 + be_u16(d[2], d[3])) {
            Some(ip) => Ok(ip),
            None => Err(StunError::NoAddress),
        }
    }
}

/// The external IPv4 address that the STUN response `data` reports.
pub fn parse_stun_response(data: &[u8]) -> (res: Result<[u8; 4], StunError>)
    ensures
        match spec_parse_stun(data@) {
            Ok(ip) => res matches Ok(a) && a@ == ip,
            Err(e) => res == Err::<[u8; 4], StunError>(e),
        },
{
    let n = data.len();
    if n < 20 {
        return Err(StunError::TooShort);
    }
    if !(data[4] == 0x21 && data[5] == 0x12 && data[6] == 0xA4 && data[7] == 0x42) {
        proof {
            if data@.subrange(4, 8) == magic_cookie() {
                assert(data@.subrange(4, 8)[0] == data@[4]);
                assert(data@.subrange(4, 8)[1] == data@[5]);
                assert(data@.subrange(4, 8)[2] == data@[6]);
                assert(data@.subrange(4, 8)[3] == data@[7]);
            }
        }
        return Err(StunError::BadCookie);
    }
    assert(data@.subrange(4, 8) =~= magic_cookie());
    let message_length: usize = (data[2] as usize) * 256 + (data[3] as usize);
    let end: usize = 20 + message_length;
    let ghost d = data@;
    let mut offset: usize = 20;
    while 4 <= n - offset && offset < end
        invariant
            d == data@,
            n == d.len(),
            20 <= offset <= n,
            d.subrange(4, 8) == magic_cookie(),
            end == 20 + be_u16(d[2], d[3]),
            scan_attributes(d, 20, end as int) == scan_attributes(d, offset as int, end as int),
        decreases n - offset,
    {
        let attr_type: usize = (data[offset] as usize) * 256 + (data[offset + 1] as usize);
        let attr_len: usize = (data[offset + 2] as usize) * 256 + (data[offset + 3] as usize);
        assert(attr_type == be_u16(d[offset as int], d[offset + 1]));
        assert(attr_len == be_u16(d[offset + 2], d[offset + 3]));
        if attr_type == 1 && attr_len >= 8 && 12 <= n - offset && data[offset + 5] == 1 {
            let ip: [u8; 4] = [data[offset + 8], data[offset + 9], data[offset + 10], data[offset + 11]];
            assert(ip@ =~= d.subrange(offset + 8, offset + 12));
            return Ok(ip);
        }
        if attr_type == 0x20 && attr_len >= 8 && 12 <= n - offset && data[offset + 5] == 1 {
            let ip: [u8; 4] = [
                data[offset + 8] ^ 0x21,
                data[offset + 9] ^ 0x12,
                data[offset + 10] ^ 0xA4,
                data[offset + 11] ^ 0x42,
            ];
            assert(ip@ =~= seq![
                d[offset + 8] ^ 0x21u8,
                d[offset + 9] ^ 0x12u8,
                d[offset + 10] ^ 0xA4u8,
                d[offset + 11] ^ 0x42u8,
            ]);
            return Ok(ip);
        }
        let grown: usize = attr_len + 3;
        let rounded: usize = grown & !3usize;
        assert(rounded == (grown / 4) * 4) by (bit_vector)
            requires
                grown <= 65538,
                rounded == grown & !3usize,
        ;
        if rounded >= n - offset - 4 {
            return Err(StunError::NoAddress);
        }
        offset = offset + 4 + rounded;
    }
    Err(StunError::NoAddress)
}

/// `line` without a carriage return at its end.
pub open spec fn strip_cr(line: Seq<char>) -> Seq<char> {
    if line.len() > 0 && line.last() == '\r' {
        line.drop_last()
    } else {
        line
    }
}

/// The lines of `cur + s`, where `cur` is the part of a line read so far, as `str::lines`
/// gives them: split at each line feed, a carriage return just before it dropped, and no
/// empty last line after a final line feed.
pub open spec fn lines_from(s: Seq<char>, cur: Seq<char>) -> Seq<Seq<char>>
    decreases s.len(),
{
    if s.len() == 0 {
        if cur.len() == 0 {
            Seq::empty()
        } else {
            seq![cur]
        }
    } else if s[0] == '\n' {
        seq![strip_cr(cur)] + lines_from(s.drop_first(), Seq::empty())
    } else {
        lines_from(s.drop_first(), cur.push(s[0]))
    }
}

/// The lines of `s`, as `str::lines` gives them.
pub open spec fn lines_of(s: Seq<char>) -> Seq<Seq<char>> {
    lines_from(s, Seq::empty())
}

/// The text after the first colon of `line`, empty where there is none.
pub open spec fn after_colon(line: Seq<char>) -> Seq<char> {
    if exists|i: int| 0 <= i < line.len() && line[i] == ':' {
        let i = choose|i: int| 0 <= i < line.len() && line[i] == ':' && forall|j: int| 0 <= j < i ==> line[j] != ':';
        line.subrange(i + 1, line.len() as int)
    } else {
        Seq::empty()
    }
}

/// The location a UPnP reply gives on its first line that opens with `location:`, letter
/// case aside: the text after the first colon, trimmed.
pub open spec fn upnp_location(lines: Seq<Seq<char>>) -> Option<Seq<char>>
    decreases lines.len(),
{
    if lines.len() == 0 {
        None
    } else if has_prefix(lowercase(lines[0]), "location:"@) {
        Some(trim(after_colon(lines[0])))
    } else {
        upnp_location(lines.drop_first())
    }
}

/// The lines of `text`, as `str::lines` gives them.
pub fn lines(text: &str) -> (res: Vec<String>)
    ensures
        res@.map_values(|l: String| l@) == lines_of(text@),
{
    let cs = chars_of(text);
    let ghost s = text@;
    let mut out: Vec<String> = Vec::new();
    let mut cur: Vec<char> = Vec::new();
    let mut i: usize = 0;
    assert(s.subrange(0, s.len() as int) =~= s);
    assert(out@.map_values(|l: String| l@) =~= Seq::<Seq<char>>::empty());
    assert(cur@ =~= Seq::<char>::empty());
    assert(Seq::<Seq<char>>::empty() + lines_from(s, Seq::empty()) =~= lines_of(s));
    while i < cs.len()
        invariant
            i <= cs@.len(),
            cs@ == s,
            out@.map_values(|l: String| l@) + lines_from(s.subrange(i as int, s.len() as int), cur@) == lines_of(s),
        decreases cs@.len() - i,
    {
        let ghost rest = s.subrange(i as int, s.len() as int);
        assert(rest.drop_first() =~= s.subrange(i + 1, s.len() as int));
        assert(rest[0] == cs@[i as int]);
        if cs[i] == '\n' {
            let n = cur.len();
            let line = if n > 0 && cur[n - 1] == '\r' {
                crate::text::string_from_range(cur.as_slice(), 0, n - 1)
            } else {
                crate::text::string_from_chars(cur.as_slice())
            };
            proof {
                if n > 0 && cur@[n - 1] == '\r' {
                    assert(cur@.subrange(0, n - 1) =~= cur@.drop_last());
                }
            }
            let ghost before = out@.map_values(|l: String| l@);
            out.push(line);
            assert(out@.map_values(|l: String| l@) =~= before.push(strip_cr(cur@)));
            assert(seq![strip_cr(cur@)] + lines_from(rest.drop_first(), Seq::empty()) =~= lines_from(rest, cur@));
            assert(before + lines_from(rest, cur@) =~= out@.map_values(|l: String| l@) + lines_from(
                rest.drop_first(),
                Seq::empty(),
            ));
            cur = Vec::new();
            assert(cur@ =~= Seq::<char>::empty());
        } else {
            cur.push(cs[i]);
        }
        i = i + 1;
    }
    let ghost before = out@.map_values(|l: String| l@);
    assert(s.subrange(cs@.len() as int, s.len() as int) =~= Seq::<char>::empty());
    if cur.len() > 0 {
        out.push(crate::text::string_from_chars(cur.as_slice()));
        assert(out@.map_values(|l: String| l@) =~= before + seq![cur@]);
    } else {
        assert(before + lines_from(Seq::<char>::empty(), cur@) =~= before);
    }
    out
}

/// The text after the first colon of `line`, empty where there is none.
pub fn text_after_colon(line: &str) -> (res: String)
    ensures
        res@ == after_colon(line@),
{
    let cs = chars_of(line);
    match crate::text::find_char(cs.as_slice(), ':') {
        Some(i) => {
            proof {
                let k = choose|k: int| 0 <= k < line@.len() && line@[k] == ':' && forall|j: int| 0 <= j < k ==> line@[j] != ':';
                if k < i {
                } else if k > i {
                }
                assert(k == i);
            }
            let n = cs.len();
            let after = i + 1;
            string_from_range(cs.as_slice(), after, n)
        },
        None => String::new(),
    }
}

/// The location a UPnP reply gives: the first line that opens with `location:`, letter case
/// aside, and the text after its first colon, trimmed.
pub fn parse_upnp_location(response: &str) -> (res: Option<String>)
    ensures
        match upnp_location(lines_of(response@)) {
            Some(l) => res matches Some(r) && r@ == l,
            None => res is None,
        },
{
    let ls = lines(response);
    let ghost all = lines_of(response@);
    let prefix = "location:".to_owned();
    let pc = chars_of(prefix.as_str());
    let mut i: usize = 0;
    assert(all.subrange(0, all.len() as int) =~= all);
    while i < ls.len()
        invariant
            i <= ls@.len(),
            ls@.map_values(|l: String| l@) == all,
            all == lines_of(response@),
            pc@ == "location:"@,
            upnp_location(all) == upnp_location(all.subrange(i as int, all.len() as int)),
        decreases ls@.len() - i,
    {
        let ghost rest = all.subrange(i as int, all.len() as int);
        assert(rest[0] == ls@[i as int]@);
        assert(rest.drop_first() =~= all.subrange(i + 1, all.len() as int));
        let lower = crate::text::to_lowercase(ls[i].as_str());
        let lc = chars_of(lower.as_str());
        if crate::text::starts_with_chars(lc.as_slice(), pc.as_slice()) {
            let after = text_after_colon(ls[i].as_str());
            let ac = chars_of(after.as_str());
            let t = trim_chars(ac.as_slice());
            let r = crate::text::string_from_chars(t.as_slice());
            return Some(r);
        }
        i = i + 1;
    }
    assert(all.subrange(ls@.len() as int, all.len() as int) =~= Seq::<Seq<char>>::empty());
    None
}

/// The address between the first `<ExternalIPAddress>` of a router's reply and the first
/// `</ExternalIPAddress>` after it; none where either is missing.
pub open spec fn external_ip_in(xml: Seq<char>) -> Option<Seq<char>> {
    let open = "<ExternalIPAddress>"@;
    let close = "</ExternalIPAddress>"@;
    if exists|s: int| occurs_at(xml, open, s) {
        let s = choose|s: int| first_occurrence(xml, open, s);
        let tail = xml.subrange(s, xml.len() as int);
        if exists|e: int| occurs_at(tail, close, e) {
            let e = choose|e: int| first_occurrence(tail, close, e);
            Some(xml.subrange(s + open.len(), s + e))
        } else {
            None
        }
    } else {
        None
    }
}

/// The external address in a router's reply.
pub fn extract_ip_from_xml(xml: &str) -> (res: Option<String>)
    ensures
        match external_ip_in(xml@) {
            Some(ip) => res matches Some(r) && r@ == ip,
            None => res is None,
        },
{
    let cs = chars_of(xml);
    let open = chars_of("<ExternalIPAddress>");
    let close = chars_of("</ExternalIPAddress>");
    proof {
        reveal_strlit("<ExternalIPAddress>");
        reveal_strlit("</ExternalIPAddress>");
    }
    match find_chars(cs.as_slice(), open.as_slice()) {
        None => None,
        Some(s) => {
            let tail = crate::text::slice_range(cs.as_slice(), s, cs.len());
            match find_chars(tail.as_slice(), close.as_slice()) {
                None => {
                    proof {
                        let k = choose|k: int| first_occurrence(xml@, "<ExternalIPAddress>"@, k);
                        lemma_first_unique(xml@, "<ExternalIPAddress>"@, k, s as int);
                    }
                    None
                },
                Some(e) => {
                    let start = s + open.len();
                    let stop = s + e;
                    proof {
                        let k = choose|k: int| first_occurrence(xml@, "<ExternalIPAddress>"@, k);
                        lemma_first_unique(xml@, "<ExternalIPAddress>"@, k, s as int);
                        let t = xml@.subrange(s as int, xml@.len() as int);
                        assert(t =~= tail@);
                        let m = choose|m: int| first_occurrence(t, "</ExternalIPAddress>"@, m);
                        lemma_first_unique(t, "</ExternalIPAddress>"@, m, e as int);
                        assert(tail@.subrange(0, 19) =~= "<ExternalIPAddress>"@);
                        if e < 19 {
                            assert(tail@.subrange(e as int, e + 20) == "</ExternalIPAddress>"@);
                            if e == 0 {
                                assert(tail@.subrange(0, 20)[1] == tail@[1]);
                                assert(tail@.subrange(0, 19)[1] == tail@[1]);
                            } else {
                                assert(tail@.subrange(e as int, e + 20)[0] == tail@[e as int]);
                                assert(tail@.subrange(0, 19)[e as int] == tail@[e as int]);
                                assert(forall|k: int| 1 <= k < 19 ==> "<ExternalIPAddress>"@[k] != '<');
                            }
                        }
                    }
                    Some(string_from_range(cs.as_slice(), start, stop))
                },
            }
        },
    }
}

/// Two first occurrences of `n` in `h` are one.
proof fn lemma_first_unique(h: Seq<char>, n: Seq<char>, a: int, b: int)
    requires
        first_occurrence(h, n, a),
        first_occurrence(h, n, b),
    ensures
        a == b,
{
}

/// What is known of the machine's connection.
#[derive(Debug, Clone)]
pub struct ConnectivityInfo {
    pub has_internet: bool,
    /// The external address, as text.
    pub external_ip: Option<String>,
    pub can_use_stun: bool,
    pub can_use_upnp: bool,
    pub blocked_ports: Vec<u16>,
}

/// The ports worth trying, best first.
pub open spec fn candidate_ports() -> Seq<u16> {
    seq![443u16, 80u16, 8080u16, 8443u16, 8000u16, 9000u16, 3000u16]
}

/// The numbers of `ports` separated by a comma and a space.
pub open spec fn joined_ports(ports: Seq<u16>) -> Seq<char>
    decreases ports.len(),
{
    if ports.len() == 0 {
        Seq::empty()
    } else if ports.len() == 1 {
        decimal(ports[0] as nat)
    } else {
        joined_ports(ports.drop_last()) + ", "@ + decimal(ports.last() as nat)
    }
}

/// `ports` as a list is written for the user: `[80, 443]`.
pub open spec fn port_list_text(ports: Seq<u16>) -> Seq<char> {
    "["@ + joined_ports(ports) + "]"@
}

/// The lines of the summary of `info`, as the user reads them.
pub open spec fn summary_text(info: ConnectivityInfo) -> Seq<Seq<char>> {
    let head = seq!["\n🌐 Network Connectivity Summary:"@, "================================"@];
    if !info.has_internet {
        head.push("❌ Internet connectivity: Not available"@)
    } else {
        head.push("✅ Internet connectivity: Available"@).push(
            match info.external_ip {
                Some(ip) => "🌍 External IP: "@ + ip@,
                None => "❓ External IP: Could not detect"@,
            },
        ).push(
            if info.can_use_stun {
                "📡 STUN connectivity: Working"@
            } else {
                "🚫 STUN connectivity: Blocked"@
            },
        ).push(
            if info.can_use_upnp {
                "🏠 UPnP connectivity: Working"@
            } else {
                "🚫 UPnP connectivity: Not available"@
            },
        ) + if info.blocked_ports@.len() == 0 {
            seq!["✅ Common ports: All accessible"@]
        } else {
            seq!["⚠️ Blocked ports: "@ + port_list_text(info.blocked_ports@)] + if info.blocked_ports@.len() > 4 {
                seq!["⚠️ Warning: Many ports blocked - you may be behind restrictive firewall"@]
            } else {
                Seq::empty()
            }
        }
    }
}

/// The texts of `v`.
pub open spec fn line_texts(v: Seq<String>) -> Seq<Seq<char>> {
    v.map_values(|x: String| x@)
}

/// Appends `ports` as a list is written for the user to `s`.
fn push_port_list(s: &mut String, ports: &Vec<u16>)
    ensures
        final(s)@ == old(s)@ + port_list_text(ports@),
{
    let ghost start = s@;
    s.append("[");
    let mut i: usize = 0;
    while i < ports.len()
        invariant
            i <= ports@.len(),
            s@ == start + "["@ + joined_ports(ports@.subrange(0, i as int)),
        decreases ports@.len() - i,
    {
        let ghost before = s@;
        let ghost next = ports@.subrange(0, i + 1);
        assert(next.drop_last() =~= ports@.subrange(0, i as int));
        if i > 0 {
            s.append(", ");
        }
        push_decimal(s, ports[i] as u128);
        proof {
            if i == 0 {
                assert(ports@.subrange(0, 0) =~= Seq::<u16>::empty());
                assert(s@ =~= start + "["@ + joined_ports(next));
            } else {
                assert(s@ =~= start + "["@ + joined_ports(next));
            }
        }
        i = i + 1;
    }
    assert(ports@.subrange(0, ports@.len() as int) =~= ports@);
    s.append("]");
}

impl ConnectivityInfo {
    /// The ports worth trying that are not blocked, in order.
    pub fn get_recommended_ports(&self) -> (res: Vec<u16>)
        ensures
            res@ == candidate_ports().filter(|p: u16| !self.blocked_ports@.contains(p)),
    {
        let all: Vec<u16> = vec![443, 80, 8080, 8443, 8000, 9000, 3000];
        let ghost pred = |p: u16| !self.blocked_ports@.contains(p);
        let mut res: Vec<u16> = Vec::new();
        let mut i: usize = 0;
        while i < all.len()
            invariant
                i <= all@.len(),
                all@ == candidate_ports(),
                pred == (|p: u16| !self.blocked_ports@.contains(p)),
                res@ == all@.subrange(0, i as int).filter(pred),
            decreases all@.len() - i,
        {
            let ghost next = all@.subrange(0, i + 1);
            assert(next.drop_last() =~= all@.subrange(0, i as int));
            assert(next.filter(pred) == (if pred(all@[i as int]) {
                all@.subrange(0, i as int).filter(pred).push(all@[i as int])
            } else {
                all@.subrange(0, i as int).filter(pred)
            })) by {
                reveal(Seq::filter);
            }
            let port = all[i];
            let mut blocked = false;
            let mut j: usize = 0;
            while j < self.blocked_ports.len()
                invariant
                    j <= self.blocked_ports@.len(),
                    blocked == (exists|k: int| 0 <= k < j && self.blocked_ports@[k] == port),
                decreases self.blocked_ports@.len() - j,
            {
                if self.blocked_ports[j] == port {
                    blocked = true;
                }
                j = j + 1;
            }
            if !blocked {
                res.push(port);
            }
            i = i + 1;
        }
        assert(all@.subrange(0, all@.len() as int) =~= all@);
        res
    }

    /// The lines of the summary of the connectivity, as the user reads them.
    pub fn summary_lines(&self) -> (res: Vec<String>)
        ensures
            line_texts(res@) == summary_text(*self),
    {
        let mut v: Vec<String> = Vec::new();
        v.push("\n🌐 Network Connectivity Summary:".to_string());
        v.push("================================".to_string());
        if !self.has_internet {
            v.push("❌ Internet connectivity: Not available".to_string());
            assert(line_texts(v@) =~= summary_text(*self));
            return v;
        }
        v.push("✅ Internet connectivity: Available".to_string());
        match &self.external_ip {
            Some(ip) => {
                let mut l = "🌍 External IP: ".to_string();
                l.append(ip.as_str());
                v.push(l);
            },
            None => v.push("❓ External IP: Could not detect".to_string()),
        }
        if self.can_use_stun {
            v.push("📡 STUN connectivity: Working".to_string());
        } else {
            v.push("🚫 STUN connectivity: Blocked".to_string());
        }
        if self.can_use_upnp {
            v.push("🏠 UPnP connectivity: Working".to_string());
        } else {
            v.push("🚫 UPnP connectivity: Not available".to_string());
        }
        if self.blocked_ports.len() == 0 {
            v.push("✅ Common ports: All accessible".to_string());
        } else {
            let mut l = "⚠️ Blocked ports: ".to_string();
            push_port_list(&mut l, &self.blocked_ports);
            v.push(l);
            if self.blocked_ports.len() > 4 {
                v.push("⚠️ Warning: Many ports blocked - you may be behind restrictive firewall".to_string());
            }
        }
        assert(line_texts(v@) =~= summary_text(*self));
        v
    }
}

} // verus!
