//! Reading of the kernel's socket tables: the lines of `/proc/net/udp`, and the
//! `Ip:` and `Udp:` lines of `/proc/net/snmp`.

use vstd::prelude::*;

verus! {

/// Number of fields of a line of `/proc/net/udp`.
pub const UDP_LINE_FIELDS: usize = 13;

/// Number of fields of an `Ip:` line, its label included.
pub const IP_LINE_FIELDS: usize = 20;

/// Number of fields of a `Udp:` line, its label included.
pub const UDP_STATS_FIELDS: usize = 10;

/// First of the ten UDP ports that are watched.
pub const FIRST_WATCHED_PORT: u32 = 5000;

/// Number of UDP ports that are watched.
pub const WATCHED_PORTS: usize = 10;

/// The fields that `str::split_whitespace` cuts a line into.
pub uninterp spec fn whitespace_fields(line: Seq<char>) -> Seq<Seq<char>>;

/// The parts that `str::split` cuts a text into at every colon.
pub uninterp spec fn colon_parts(text: Seq<char>) -> Seq<Seq<char>>;

/// What `str::trim_end_matches` leaves of a text when colons are trimmed.
pub uninterp spec fn without_trailing_colons(text: Seq<char>) -> Seq<char>;

/// The number that `u64::from_str` reads in a text, if it reads one.
pub uninterp spec fn decimal(text: Seq<char>) -> Option<u64>;

/// The number that `u32::from_str_radix` reads in a text in base 16, if it
/// reads one.
pub uninterp spec fn hexadecimal(text: Seq<char>) -> Option<u32>;

/// The texts of a list of strings.
pub open spec fn texts(strings: Seq<String>) -> Seq<Seq<char>> {
    Seq::new(strings.len(), |i: int| strings[i]@)
}

/// `str::split_whitespace`, its items collected as strings. Claimed of it: the
/// result depends on the line alone.
#[verifier::external_body]
fn split_fields(line: &str) -> (r: Vec<String>)
    ensures
        texts(r@) == whitespace_fields(line@),
{
    line.split_whitespace().map(|field| field.to_string()).collect()
}

/// `str::split` at colons, its items collected as strings. Claimed of it: the
/// result depends on the text alone.
#[verifier::external_body]
fn split_at_colons(text: &str) -> (r: Vec<String>)
    ensures
        texts(r@) == colon_parts(text@),
{
    text.split(':').map(|part| part.to_string()).collect()
}

/// `str::trim_end_matches` for the colon. Claimed of it: the result depends on
/// the text alone.
#[verifier::external_body]
fn trim_colons(text: &str) -> (r: String)
    ensures
        r@ == without_trailing_colons(text@),
{
    text.trim_end_matches(':').to_string()
}

/// `u64::from_str`. Claimed of it: the result depends on the text alone.
#[verifier::external_body]
fn read_decimal(text: &str) -> (r: Option<u64>)
    ensures
        r == decimal(text@),
{
    <u64 as std::str::FromStr>::from_str(text).ok()
}

/// `u32::from_str_radix` in base 16. Claimed of it: the result depends on the
/// text alone.
#[verifier::external_body]
fn read_hexadecimal(text: &str) -> (r: Option<u32>)
    ensures
        r == hexadecimal(text@),
{
    u32::from_str_radix(text, 16).ok()
}

/// `str::starts_with`: whether `prefix` stands at the head of `line`.
#[verifier::external_body]
fn starts_with(line: &str, prefix: &str) -> (r: bool)
    ensures
        r == prefix@.is_prefix_of(line@),
{
    line.starts_with(prefix)
}

/// The number read in a field, or zero when none is read or it is above `max`.
pub open spec fn number_or_zero(text: Seq<char>, max: u64) -> u64 {
    match decimal(text) {
        Some(n) => if n <= max {
            n
        } else {
            0
        },
        None => 0,
    }
}

/// Reads a number of at most `max` in a field; zero stands for anything else.
fn read_or_zero(text: &str, max: u64) -> (r: u64)
    ensures
        r == number_or_zero(text@, max),
{
    match read_decimal(text) {
        Some(n) => if n <= max {
            n
        } else {
            0
        },
        None => 0,
    }
}

/// A line of `/proc/net/udp`.
pub struct ParsedEntry {
    pub sl: u32,
    pub local_address: String,
    pub rem_address: String,
    pub st: u8,
    pub tx_rx_queue: String,
    pub tr_tm_when: String,
    pub retrnsmt: u32,
    pub uid: u32,
    pub timeout: u32,
    pub inode: u32,
    pub ref_count: u32,
    pub pointer: String,
    pub drops: u64,
}

impl ParsedEntry {
    /// True when the entry holds the fields of a line: texts as they stand,
    /// numbers as they read, zero for a number that does not read or fit.
    pub open spec fn holds(self, fields: Seq<Seq<char>>) -> bool {
        &&& self.sl == number_or_zero(without_trailing_colons(fields[0]), 0xffff_ffff)
        &&& self.local_address@ == fields[1]
        &&& self.rem_address@ == fields[2]
        &&& self.st == number_or_zero(fields[3], 0xff)
        &&& self.tx_rx_queue@ == fields[4]
        &&& self.tr_tm_when@ == fields[5]
        &&& self.retrnsmt == number_or_zero(fields[6], 0xffff_ffff)
        &&& self.uid == number_or_zero(fields[7], 0xffff_ffff)
        &&& self.timeout == number_or_zero(fields[8], 0xffff_ffff)
        &&& self.inode == number_or_zero(fields[9], 0xffff_ffff)
        &&& self.ref_count == number_or_zero(fields[10], 0xffff_ffff)
        &&& self.pointer@ == fields[11]
        &&& self.drops == number_or_zero(fields[12], 0xffff_ffff_ffff_ffff)
    }
}

/// Why a line is no entry.
#[derive(Clone, Copy, Debug, PartialEq, Eq, Structural)]
pub enum LineError {
    /// The line does not have thirteen fields.
    FieldCount,
    /// An address or a queue without colon.
    NoColon,
    /// A port or a queue length that is no hexadecimal number.
    NotHexadecimal,
}

/// Takes the string at `index` out of the list, leaving an empty one.
fn take_text(fields: &mut Vec<String>, index: usize) -> (r: String)
    requires
        index < old(fields).len(),
    ensures
        r == old(fields)[index as int],
        final(fields).len() == old(fields).len(),
        forall|k: int|
            0 <= k < old(fields).len() && k != index ==> final(fields)[k] == old(fields)[k],
{
    let mut text = String::new();
    fields.set_and_swap(index, &mut text);
    text
}

/// Reads a line of `/proc/net/udp`: thirteen fields separated by white space.
pub fn parse_line(line: &str) -> (r: Result<ParsedEntry, LineError>)
    ensures
        match r {
            Ok(entry) => whitespace_fields(line@).len() == 13 && entry.holds(
                whitespace_fields(line@),
            ),
            Err(e) => whitespace_fields(line@).len() != 13 && e == LineError::FieldCount,
        },
{
    let mut parts = split_fields(line);
    if parts.len() != UDP_LINE_FIELDS {
        return Err(LineError::FieldCount);
    }
    let ghost fields = whitespace_fields(line@);
    assert forall|k: int| 0 <= k < 13 implies (#[trigger] parts[k])@ == fields[k] by {
        assert(texts(parts@)[k] == fields[k]);
    }
    let label = trim_colons(parts[0].as_str());
    let sl: u32 = read_or_zero(label.as_str(), 0xffff_ffff) as u32;
    let st: u8 = read_or_zero(parts[3].as_str(), 0xff) as u8;
    let retrnsmt: u32 = read_or_zero(parts[6].as_str(), 0xffff_ffff) as u32;
    let uid: u32 = read_or_zero(parts[7].as_str(), 0xffff_ffff) as u32;
    let timeout: u32 = read_or_zero(parts[8].as_str(), 0xffff_ffff) as u32;
    let inode: u32 = read_or_zero(parts[9].as_str(), 0xffff_ffff) as u32;
    let ref_count: u32 = read_or_zero(parts[10].as_str(), 0xffff_ffff) as u32;
    let drops: u64 = read_or_zero(parts[12].as_str(), 0xffff_ffff_ffff_ffff);
    let local_address = take_text(&mut parts, 1);
    let rem_address = take_text(&mut parts, 2);
    let tx_rx_queue = take_text(&mut parts, 4);
    let tr_tm_when = take_text(&mut parts, 5);
    let pointer = take_text(&mut parts, 11);
    Ok(
        ParsedEntry {
            sl,
            local_address,
            rem_address,
            st,
            tx_rx_queue,
            tr_tm_when,
            retrnsmt,
            uid,
            timeout,
            inode,
            ref_count,
            pointer,
            drops,
        },
    )
}

/// The hexadecimal number after the first colon of a text.
pub open spec fn after_colon(text: Seq<char>) -> Result<u32, LineError> {
    if colon_parts(text).len() < 2 {
        Err(LineError::NoColon)
    } else {
        match hexadecimal(colon_parts(text)[1]) {
            Some(n) => Ok(n),
            None => Err(LineError::NotHexadecimal),
        }
    }
}

/// Reads the hexadecimal number after the first colon of a text: the port of
/// an address, the receive part of a pair of queue lengths.
pub fn read_after_colon(text: &str) -> (r: Result<u32, LineError>)
    ensures
        r == after_colon(text@),
{
    let parts = split_at_colons(text);
    if parts.len() < 2 {
        return Err(LineError::NoColon);
    }
    assert(texts(parts@)[1] == colon_parts(text@)[1]);
    match read_hexadecimal(parts[1].as_str()) {
        Some(n) => Ok(n),
        None => Err(LineError::NotHexadecimal),
    }
}

/// The longest receive queue seen on each watched port.
pub struct QueueWatch {
    pub max_rx: [u32; 10],
}

/// What is shown of a watched port.
#[derive(Clone, Copy, Debug, PartialEq, Eq, Structural)]
pub struct PortReport {
    pub port: u32,
    pub st: u8,
    pub rx_queue: u32,
    pub max_rx_queue: u32,
    pub retrnsmt: u32,
    pub uid: u32,
    pub timeout: u32,
    pub drops: u64,
}

/// True when the port is one of the ten that are watched.
pub open spec fn is_watched(port: u32) -> bool {
    5000 <= port < 5010
}

/// The port of an entry and the length of its receive queue, when the port is
/// a watched one.
pub open spec fn watched(entry: ParsedEntry) -> Result<Option<(u32, u32)>, LineError> {
    match after_colon(entry.local_address@) {
        Err(e) => Err(e),
        Ok(port) => if !is_watched(port) {
            Ok(None)
        } else {
            match after_colon(entry.tx_rx_queue@) {
                Err(e) => Err(e),
                Ok(rx) => Ok(Some((port, rx))),
            }
        },
    }
}

/// The larger of two lengths.
pub open spec fn larger(a: u32, b: u32) -> u32 {
    if a < b {
        b
    } else {
        a
    }
}

impl QueueWatch {
    /// A watch that has seen nothing.
    pub fn new() -> (r: QueueWatch)
        ensures
            forall|k: int| 0 <= k < 10 ==> r.max_rx@[k] == 0,
    {
        QueueWatch { max_rx: [0; 10] }
    }

    /// Takes in an entry of the socket table. For a watched port, notes the
    /// length of its receive queue when it is the longest seen, and gives what
    /// is shown of the port. Gives nothing for any other port.
    pub fn on_entry(&mut self, entry: &ParsedEntry) -> (r: Result<Option<PortReport>, LineError>)
        ensures
            match watched(*entry) {
                Err(e) => r == Err::<Option<PortReport>, LineError>(e) && final(self).max_rx@
                    == old(self).max_rx@,
                Ok(None) => r == Ok::<Option<PortReport>, LineError>(None) && final(self).max_rx@
                    == old(self).max_rx@,
                Ok(Some((port, rx))) => {
                    let longest = larger(old(self).max_rx@[port - 5000], rx);
                    &&& final(self).max_rx@ == old(self).max_rx@.update(port - 5000, longest)
                    &&& r == Ok::<Option<PortReport>, LineError>(
                        Some(
                            PortReport {
                                port,
                                st: entry.st,
                                rx_queue: rx,
                                max_rx_queue: longest,
                                retrnsmt: entry.retrnsmt,
                                uid: entry.uid,
                                timeout: entry.timeout,
                                drops: entry.drops,
                            },
                        ),
                    )
                },
            },
    {
        let port: u32 = match read_after_colon(entry.local_address.as_str()) {
            Ok(port) => port,
            Err(e) => {
                return Err(e);
            },
        };
        if port < FIRST_WATCHED_PORT || port >= FIRST_WATCHED_PORT + 10 {
            return Ok(None);
        }
        let rx: u32 = match read_after_colon(entry.tx_rx_queue.as_str()) {
            Ok(rx) => rx,
            Err(e) => {
                return Err(e);
            },
        };
        let idx: usize = (port - FIRST_WATCHED_PORT) as usize;
        if self.max_rx[idx] < rx {
            self.max_rx[idx] = rx;
        }
        Ok(
            Some(
                PortReport {
                    port,
                    st: entry.st,
                    rx_queue: rx,
                    max_rx_queue: self.max_rx[idx],
                    retrnsmt: entry.retrnsmt,
                    uid: entry.uid,
                    timeout: entry.timeout,
                    drops: entry.drops,
                },
            ),
        )
    }
}

/// The numbers of a line of counters: the fields after the label, when there
/// are `count` fields in all and every one after the label reads as a number.
pub open spec fn counters(line: Seq<char>, count: int) -> Option<Seq<u64>> {
    let fields = whitespace_fields(line);
    if fields.len() != count || exists|k: int| 1 <= k < count && decimal(#[trigger] fields[k]) is None {
        None
    } else {
        Some(Seq::new((count - 1) as nat, |k: int| decimal(fields[k + 1])->Some_0))
    }
}

/// Reads a line of `count` fields of which all but the first are numbers.
pub fn read_counters(line: &str, count: usize) -> (r: Option<Vec<u64>>)
    requires
        count >= 1,
    ensures
        match r {
            Some(values) => counters(line@, count as int) == Some(values@),
            None => counters(line@, count as int) is None,
        },
{
    let parts = split_fields(line);
    if parts.len() != count {
        return None;
    }
    let ghost fields = whitespace_fields(line@);
    let mut values: Vec<u64> = Vec::new();
    let mut k: usize = 1;
    while k < count
        invariant
            1 <= k <= count,
            parts.len() == count,
            texts(parts@) == fields,
            fields == whitespace_fields(line@),
            values.len() == k - 1,
            forall|j: int| 1 <= j < k ==> decimal(#[trigger] fields[j]) == Some(values[j - 1]),
        decreases count - k,
    {
        assert(texts(parts@)[k as int] == fields[k as int]);
        match read_decimal(parts[k].as_str()) {
            Some(n) => {
                values.push(n);
            },
            None => {
                assert(decimal(fields[k as int]) is None);
                return None;
            },
        }
        k += 1;
    }
    assert(values@ =~= Seq::new((count - 1) as nat, |j: int| decimal(fields[j + 1])->Some_0));
    Some(values)
}

/// Counters of the IP layer.
#[derive(Clone, Copy, Debug, PartialEq, Eq, Structural)]
pub struct IpStats {
    pub forwarding: u64,
    pub default_ttl: u64,
    pub in_receives: u64,
    pub in_hdr_errors: u64,
    pub in_addr_errors: u64,
    pub forw_datagrams: u64,
    pub in_unknown_protos: u64,
    pub in_discards: u64,
    pub in_delivers: u64,
    pub out_requests: u64,
    pub out_discards: u64,
    pub out_no_routes: u64,
    pub reasm_timeout: u64,
    pub reasm_reqds: u64,
    pub reasm_oks: u64,
    pub reasm_fails: u64,
    pub frag_oks: u64,
    pub frag_fails: u64,
    pub frag_creates: u64,
}

/// Counters of the UDP layer.
#[derive(Clone, Copy, Debug, PartialEq, Eq, Structural)]
pub struct UdpStats {
    pub in_datagrams: u64,
    pub no_ports: u64,
    pub in_errors: u64,
    pub out_datagrams: u64,
    pub rcvbuf_errors: u64,
    pub sndbuf_errors: u64,
    pub in_csum_errors: u64,
    pub ignored_multi: u64,
    pub mem_errors: u64,
}

/// The IP counters that nineteen numbers stand for, in the order of the line.
pub open spec fn ip_stats_of(v: Seq<u64>) -> IpStats {
    IpStats {
        forwarding: v[0],
        default_ttl: v[1],
        in_receives: v[2],
        in_hdr_errors: v[3],
        in_addr_errors: v[4],
        forw_datagrams: v[5],
        in_unknown_protos: v[6],
        in_discards: v[7],
        in_delivers: v[8],
        out_requests: v[9],
        out_discards: v[10],
        out_no_routes: v[11],
        reasm_timeout: v[12],
        reasm_reqds: v[13],
        reasm_oks: v[14],
        reasm_fails: v[15],
        frag_oks: v[16],
        frag_fails: v[17],
        frag_creates: v[18],
    }
}

/// The UDP counters that nine numbers stand for, in the order of the line.
pub open spec fn udp_stats_of(v: Seq<u64>) -> UdpStats {
    UdpStats {
        in_datagrams: v[0],
        no_ports: v[1],
        in_errors: v[2],
        out_datagrams: v[3],
        rcvbuf_errors: v[4],
        sndbuf_errors: v[5],
        in_csum_errors: v[6],
        ignored_multi: v[7],
        mem_errors: v[8],
    }
}

/// Reads the `Ip:` line that holds the values: a label and nineteen numbers.
pub fn parse_ip_stats(buffer: &str) -> (r: Option<IpStats>)
    ensures
        r == match counters(buffer@, 20) {
            Some(values) => Some(ip_stats_of(values)),
            None => None,
        },
{
    match read_counters(buffer, IP_LINE_FIELDS) {
        None => None,
        Some(v) => Some(
            IpStats {
                forwarding: v[0],
                default_ttl: v[1],
                in_receives: v[2],
                in_hdr_errors: v[3],
                in_addr_errors: v[4],
                forw_datagrams: v[5],
                in_unknown_protos: v[6],
                in_discards: v[7],
                in_delivers: v[8],
                out_requests: v[9],
                out_discards: v[10],
                out_no_routes: v[11],
                reasm_timeout: v[12],
                reasm_reqds: v[13],
                reasm_oks: v[14],
                reasm_fails: v[15],
                frag_oks: v[16],
                frag_fails: v[17],
                frag_creates: v[18],
            },
        ),
    }
}

/// Reads the `Udp:` line that holds the values: a label and nine numbers.
pub fn parse_udp_stats(buffer: &str) -> (r: Option<UdpStats>)
    ensures
        r == match counters(buffer@, 10) {
            Some(values) => Some(udp_stats_of(values)),
            None => None,
        },
{
    match read_counters(buffer, UDP_STATS_FIELDS) {
        None => None,
        Some(v) => Some(
            UdpStats {
                in_datagrams: v[0],
                no_ports: v[1],
                in_errors: v[2],
                out_datagrams: v[3],
                rcvbuf_errors: v[4],
                sndbuf_errors: v[5],
                in_csum_errors: v[6],
                ignored_multi: v[7],
                mem_errors: v[8],
            },
        ),
    }
}

/// What a line of `/proc/net/snmp` gives.
#[derive(Clone, Copy, Debug, PartialEq, Eq, Structural)]
pub enum SnmpLine {
    /// Nothing that is shown.
    Other,
    /// The values of the IP layer, unless the line does not read.
    Ip(Option<IpStats>),
    /// The values of the UDP layer, unless the line does not read.
    Udp(Option<UdpStats>),
}

/// Place in `/proc/net/snmp`: how many `Ip:` and `Udp:` lines went by. Of each
/// kind the first line holds the names and the second the values.
#[derive(Clone, Copy, Debug, PartialEq, Eq, Structural)]
pub struct SnmpScan {
    pub ip_count: usize,
    pub udp_count: usize,
}

/// True when the line is labelled `Ip:`.
pub open spec fn is_ip_line(line: Seq<char>) -> bool {
    "Ip:"@.is_prefix_of(line)
}

/// True when the line is labelled `Udp:`.
pub open spec fn is_udp_line(line: Seq<char>) -> bool {
    "Udp:"@.is_prefix_of(line)
}

impl SnmpScan {
    /// The scan at the head of the file.
    pub fn new() -> (r: SnmpScan)
        ensures
            r == (SnmpScan { ip_count: 0, udp_count: 0 }),
    {
        SnmpScan { ip_count: 0, udp_count: 0 }
    }

    /// Takes in the next line of the file. Gives the values of a layer at the
    /// second line that carries its label.
    pub fn on_line(&mut self, line: &str) -> (r: SnmpLine)
        requires
            old(self).ip_count < usize::MAX,
            old(self).udp_count < usize::MAX,
        ensures
            final(self).ip_count == old(self).ip_count + if is_ip_line(line@) {
                1int
            } else {
                0int
            },
            final(self).udp_count == old(self).udp_count + if is_udp_line(line@) {
                1int
            } else {
                0int
            },
            r == if is_ip_line(line@) && old(self).ip_count == 1 {
                SnmpLine::Ip(
                    match counters(line@, 20) {
                        Some(values) => Some(ip_stats_of(values)),
                        None => None,
                    },
                )
            } else if is_udp_line(line@) && old(self).udp_count == 1 {
                SnmpLine::Udp(
                    match counters(line@, 10) {
                        Some(values) => Some(udp_stats_of(values)),
                        None => None,
                    },
                )
            } else {
                SnmpLine::Other
            },
    {
        let mut found = SnmpLine::Other;
        if starts_with(line, "Ip:") {
            self.ip_count = self.ip_count + 1;
            if self.ip_count == 2 {
                found = SnmpLine::Ip(parse_ip_stats(line));
            }
        }
        if starts_with(line, "Udp:") {
            self.udp_count = self.udp_count + 1;
            if self.udp_count == 2 {
                proof {
                    lemma_labels_differ(line@);
                }
                found = SnmpLine::Udp(parse_udp_stats(line));
            }
        }
        found
    }
}

/// No line carries both labels.
pub proof fn lemma_labels_differ(line: Seq<char>)
    ensures
        !(is_ip_line(line) && is_udp_line(line)),
{
    reveal_strlit("Ip:");
    reveal_strlit("Udp:");
    if is_ip_line(line) && is_udp_line(line) {
        assert("Ip:"@[0] == line[0]);
        assert("Udp:"@[0] == line[0]);
    }
}

} // verus!
