//! Furuno radar discovery: the beacon request, the reading of radar
//! reports, and the record of radars found so far.

use vstd::prelude::*;
use vstd::utf8::{decode_utf8, encode_utf8, is_ascii_chars, valid_utf8};
use vstd::utf8::{encode_utf8_decode_utf8, encode_utf8_valid_utf8, is_ascii_chars_encode_utf8};
use crate::text::{ascii_lowercase, dots_to_underscores, lowercase, replace_char, text_eq, to_lowercase, utf8_str};
use crate::socket::{check_status, source_address, SocketOp, SocketType, UdpSocket};

verus! {

/// UDP port on which Furuno radars answer beacon requests.
pub const FURUNO_BEACON_PORT: u16 = 10010;

/// Broadcast address of the Furuno radar subnet.
pub const FURUNO_BEACON_ADDRESS: &'static str = "172.31.255.255";

/// The beacon request that makes Furuno radars announce themselves.
pub open spec fn beacon_packet() -> Seq<u8> {
    seq![0x01u8, 0x00, 0x00, 0x01, 0x00, 0x00, 0x00, 0x00, 0x01, 0x01, 0x00, 0x08, 0x01, 0x00, 0x00, 0x00]
}

/// The first bytes of every Furuno radar report.
pub open spec fn report_header() -> Seq<u8> {
    seq![0x01u8, 0x00, 0x00, 0x01, 0x00, 0x00, 0x00, 0x00, 0x00, 0x01, 0x00]
}

/// The beacon request, as bytes to send.
pub fn beacon_packet_bytes() -> (v: Vec<u8>)
    ensures
        v@ == beacon_packet(),
{
    let v: Vec<u8> = vec![0x01u8, 0x00, 0x00, 0x01, 0x00, 0x00, 0x00, 0x00, 0x01, 0x01, 0x00, 0x08, 0x01, 0x00, 0x00, 0x00];
    assert(v@ =~= beacon_packet());
    v
}

/// A radar that answered a beacon request.
#[derive(Debug, Clone)]
pub struct RadarInfo {
    pub brand: String,
    pub model: String,
    pub serial: String,
    pub address: String,
}

/// The text fields of a [`RadarInfo`].
pub struct RadarInfoView {
    pub brand: Seq<char>,
    pub model: Seq<char>,
    pub serial: Seq<char>,
    pub address: Seq<char>,
}

impl View for RadarInfo {
    type V = RadarInfoView;

    open spec fn view(&self) -> RadarInfoView {
        RadarInfoView {
            brand: self.brand@,
            model: self.model@,
            serial: self.serial@,
            address: self.address@,
        }
    }
}

/// The view of an optional radar.
pub open spec fn option_info_view(r: Option<RadarInfo>) -> Option<RadarInfoView> {
    match r {
        Some(info) => Some(info@),
        None => None,
    }
}

/// A byte that may stand in a model name: printable as ASCII text and not
/// the NUL that ends the name.
pub open spec fn is_model_byte(b: u8) -> bool {
    b != 0 && b < 128
}

/// The leading run of model-name bytes of `s`.
pub open spec fn model_run(s: Seq<u8>) -> Seq<u8>
    decreases s.len(),
{
    if s.len() == 0 || !is_model_byte(s[0]) {
        seq![]
    } else {
        seq![s[0]] + model_run(s.drop_first())
    }
}

/// ASCII bytes read as characters.
pub open spec fn ascii_text(b: Seq<u8>) -> Seq<char> {
    b.map_values(|x: u8| x as char)
}

/// Whether `data` is a Furuno radar report: at least 21 bytes, starting
/// with the report header, with the identity marker `R` at byte 16.
pub open spec fn is_furuno_report(data: Seq<u8>) -> bool {
    &&& data.len() >= 21
    &&& data.take(11) == report_header()
    &&& data[16] == 0x52
}

/// The model a report names: the ASCII text that starts at byte 20 and ends
/// at a NUL, a non-ASCII byte or byte 30, whichever comes first; a report of
/// at most 30 bytes names the model `DRS`.
pub open spec fn report_model(data: Seq<u8>) -> Seq<char> {
    if data.len() > 30 {
        ascii_text(model_run(data.subrange(20, 30)))
    } else {
        "DRS"@
    }
}

/// The radar that a datagram from `source` announces, if it is a Furuno
/// radar report. The sender's address identifies the radar.
pub open spec fn furuno_report(data: Seq<u8>, source: Seq<char>) -> Option<RadarInfoView> {
    if is_furuno_report(data) {
        Some(
            RadarInfoView {
                brand: "Furuno"@,
                model: report_model(data),
                serial: source,
                address: source,
            },
        )
    } else {
        None
    }
}

/// The run of model-name bytes is the prefix that ends at the first byte
/// that cannot stand in a model name.
proof fn lemma_model_run(s: Seq<u8>, k: int)
    requires
        0 <= k <= s.len(),
        forall|i: int| 0 <= i < k ==> is_model_byte(s[i]),
        k == s.len() || !is_model_byte(s[k]),
    ensures
        model_run(s) == s.take(k),
    decreases k,
{
    if k == 0 {
        assert(s.take(0) =~= seq![]);
    } else {
        lemma_model_run(s.drop_first(), k - 1);
        assert(seq![s[0]] + s.drop_first().take(k - 1) =~= s.take(k));
    }
}

/// ASCII bytes are valid UTF-8 and decode to the characters they name.
proof fn lemma_ascii_utf8(b: Seq<u8>)
    requires
        forall|i: int| 0 <= i < b.len() ==> b[i] < 128,
    ensures
        valid_utf8(b),
        decode_utf8(b) == ascii_text(b),
{
    let c = ascii_text(b);
    assert forall|i: int| 0 <= i < c.len() implies '\0' <= #[trigger] c[i] <= '\u{7f}' by {
        let x = b[i];
        assert(x < 128);
    }
    assert(is_ascii_chars(c));
    is_ascii_chars_encode_utf8(c);
    assert forall|i: int| 0 <= i < b.len() implies encode_utf8(c)[i] == b[i] by {
        assert(c[i] as u8 == encode_utf8(c)[i]);
    }
    assert(encode_utf8(c) =~= b);
    encode_utf8_valid_utf8(c);
    encode_utf8_decode_utf8(c);
}

/// The model name held in `window`: its leading run of model-name bytes.
fn model_text(window: &[u8]) -> (s: String)
    ensures
        s@ == ascii_text(model_run(window@)),
{
    let mut k: usize = 0;
    while k < window.len() && window[k] != 0 && window[k] < 128
        invariant
            k <= window@.len(),
            forall|i: int| 0 <= i < k ==> is_model_byte(window@[i]),
        decreases window@.len() - k,
    {
        k = k + 1;
    }
    proof {
        lemma_model_run(window@, k as int);
    }
    let run = vstd::slice::slice_subrange(window, 0, k);
    proof {
        lemma_ascii_utf8(run@);
    }
    match utf8_str(run) {
        Some(text) => String::from_str(text),
        None => String::new(),
    }
}

/// Whether `data` starts with the report header.
fn has_report_header(data: &[u8]) -> (b: bool)
    ensures
        b == (data@.len() >= 11 && data@.take(11) == report_header()),
{
    if data.len() < 11 {
        return false;
    }
    let header: Vec<u8> = vec![0x01u8, 0x00, 0x00, 0x01, 0x00, 0x00, 0x00, 0x00, 0x00, 0x01, 0x00];
    assert(header@ =~= report_header());
    let mut i: usize = 0;
    while i < 11
        invariant
            i <= 11,
            data@.len() >= 11,
            header@ == report_header(),
            forall|j: int| 0 <= j < i ==> data@[j] == report_header()[j],
        decreases 11 - i,
    {
        if data[i] != header[i] {
            assert(data@.take(11)[i as int] != report_header()[i as int]);
            return false;
        }
        i = i + 1;
    }
    assert(data@.take(11) =~= report_header());
    true
}

/// Reads a datagram from `source` as a Furuno radar report.
pub fn process_furuno_data(data: &[u8], source: &str) -> (r: Option<RadarInfo>)
    ensures
        option_info_view(r) == furuno_report(data@, source@),
{
    if data.len() < 21 {
        return None;
    }
    if !has_report_header(data) {
        return None;
    }
    if data[16] != 0x52 {
        return None;
    }
    let model = if data.len() > 30 {
        model_text(vstd::slice::slice_subrange(data, 20, 30))
    } else {
        String::from_str("DRS")
    };
    Some(
        RadarInfo {
            brand: String::from_str("Furuno"),
            model,
            serial: String::from_str(source),
            address: String::from_str(source),
        },
    )
}


// ---------------------------------------------------------------------------
// The SignalK delta announcing a radar
// ---------------------------------------------------------------------------

/// The text before the first radar key of a found-radar delta.
pub const DELTA_HEAD: &'static str = "{\"updates\":[{\"values\":[\n                            {\"path\":\"sensors.radar.";
/// The path tail and value prefix of the brand entry.
pub const DELTA_BRAND: &'static str = ".brand\",\"value\":\"";
/// The end of one entry and the path prefix of the next.
pub const DELTA_NEXT_PATH: &'static str = "\"},\n                            {\"path\":\"sensors.radar.";
/// The path tail and value prefix of the model entry.
pub const DELTA_MODEL: &'static str = ".model\",\"value\":\"";
/// The path tail and value prefix of the address entry.
pub const DELTA_ADDRESS: &'static str = ".address\",\"value\":\"";
/// The status entry, `found`, and the end of the delta.
pub const DELTA_FOUND_TAIL: &'static str = ".status\",\"value\":\"found\"}\n                        ]}]}";

/// The key under which a radar's values stand in the SignalK tree: its
/// serial with every `.` replaced by `_`.
pub open spec fn radar_key(serial: Seq<char>) -> Seq<char> {
    replace_char(serial, '.', '_')
}

/// The SignalK delta that announces a found radar: its brand, model and
/// address, and the status `found`, under `sensors.radar.<key>`.
pub open spec fn found_delta(r: RadarInfoView) -> Seq<char> {
    let key = radar_key(r.serial);
    DELTA_HEAD@ + key + DELTA_BRAND@ + r.brand + DELTA_NEXT_PATH@ + key + DELTA_MODEL@ + r.model
        + DELTA_NEXT_PATH@ + key + DELTA_ADDRESS@ + r.address + DELTA_NEXT_PATH@ + key
        + DELTA_FOUND_TAIL@
}

/// Writes the SignalK delta that announces `radar`.
pub fn found_delta_text(radar: &RadarInfo) -> (s: String)
    ensures
        s@ == found_delta(radar@),
{
    let key = dots_to_underscores(radar.serial.as_str());
    let mut s = String::from_str(DELTA_HEAD);
    s.append(key.as_str());
    s.append(DELTA_BRAND);
    s.append(radar.brand.as_str());
    s.append(DELTA_NEXT_PATH);
    s.append(key.as_str());
    s.append(DELTA_MODEL);
    s.append(radar.model.as_str());
    s.append(DELTA_NEXT_PATH);
    s.append(key.as_str());
    s.append(DELTA_ADDRESS);
    s.append(radar.address.as_str());
    s.append(DELTA_NEXT_PATH);
    s.append(key.as_str());
    s.append(DELTA_FOUND_TAIL);
    s
}


// ---------------------------------------------------------------------------
// The radar locator
// ---------------------------------------------------------------------------

/// Whether some radar in `radars` has the address `addr`.
pub open spec fn knows_address(radars: Seq<RadarInfoView>, addr: Seq<char>) -> bool {
    exists|i: int| 0 <= i < radars.len() && #[trigger] radars[i].address == addr
}

/// No two radars in `radars` share an address.
pub open spec fn distinct_addresses(radars: Seq<RadarInfoView>) -> bool {
    forall|i: int, j: int|
        0 <= i < radars.len() && 0 <= j < radars.len() && i != j ==> #[trigger] radars[i].address
            != #[trigger] radars[j].address
}

/// Whether `report` announces a radar at an address not yet in `radars`.
pub open spec fn is_new_radar(radars: Seq<RadarInfoView>, report: Option<RadarInfoView>) -> bool {
    match report {
        Some(r) => !knows_address(radars, r.address),
        None => false,
    }
}

/// The radars known after `report`: a radar at a new address is added at
/// the end; anything else leaves the record as it was.
pub open spec fn record_report(radars: Seq<RadarInfoView>, report: Option<RadarInfoView>) -> Seq<
    RadarInfoView,
> {
    if is_new_radar(radars, report) {
        radars.push(report->0)
    } else {
        radars
    }
}

/// What the locator reads out of a datagram: a Furuno locator reads Furuno
/// radar reports; a locator for any other brand reads nothing.
pub open spec fn brand_report(brand: Seq<char>, data: Seq<u8>, source: Seq<char>) -> Option<
    RadarInfoView,
> {
    if brand == "furuno"@ {
        furuno_report(data, source)
    } else {
        None
    }
}

/// Discovers radars of one brand through one socket.
pub struct RadarLocator {
    brand: String,
    socket: UdpSocket,
    radars_found: Vec<RadarInfo>,
    beacon_sent: bool,
}

/// The state of a [`RadarLocator`].
pub struct LocatorView {
    /// The brand, lower-cased.
    pub brand: Seq<char>,
    /// The host's handle of the locator's socket.
    pub socket: i32,
    /// The radars found so far, in the order they were found.
    pub radars: Seq<RadarInfoView>,
    /// Whether a beacon request has gone out.
    pub beacon_sent: bool,
}

impl View for RadarLocator {
    type V = LocatorView;

    closed spec fn view(&self) -> LocatorView {
        LocatorView {
            brand: self.brand@,
            socket: self.socket@,
            radars: self.radars_found@.map_values(|r: RadarInfo| r@),
            beacon_sent: self.beacon_sent,
        }
    }
}

/// What the host is asked to do next while a poll runs.
pub enum PollStep {
    /// Send `data` from the socket to `addr`:`port`, then report the status
    /// to [`RadarLocator::on_sent`].
    Send { socket: i32, data: Vec<u8>, addr: String, port: u16 },
    /// Publish `delta` if there is one, then receive on the socket and
    /// report the outcome to [`RadarLocator::on_received`].
    Receive { socket: i32, delta: Option<String> },
    /// The poll is over: the number of radars known, or the error that
    /// ended it.
    Finished(Result<usize, &'static str>),
}

/// The view of a [`PollStep`].
pub enum StepView {
    Send { socket: i32, data: Seq<u8>, addr: Seq<char>, port: u16 },
    Receive { socket: i32, delta: Option<Seq<char>> },
    Finished(Result<usize, Seq<char>>),
}

impl View for PollStep {
    type V = StepView;

    open spec fn view(&self) -> StepView {
        match self {
            PollStep::Send { socket, data, addr, port } => StepView::Send {
                socket: *socket,
                data: data@,
                addr: addr@,
                port: *port,
            },
            PollStep::Receive { socket, delta } => StepView::Receive {
                socket: *socket,
                delta: match delta {
                    Some(d) => Some(d@),
                    None => None,
                },
            },
            PollStep::Finished(r) => StepView::Finished(
                match r {
                    Ok(n) => Ok(*n),
                    Err(e) => Err(e@),
                },
            ),
        }
    }
}

/// How a poll starts: a Furuno locator asks for the beacon request to go to
/// the Furuno broadcast address; other brands cannot be discovered yet.
pub open spec fn poll_start(l: LocatorView) -> StepView {
    if l.brand == "furuno"@ {
        StepView::Send {
            socket: l.socket,
            data: beacon_packet(),
            addr: FURUNO_BEACON_ADDRESS@,
            port: FURUNO_BEACON_PORT,
        }
    } else if l.brand == "navico"@ {
        StepView::Finished(Err("Navico not yet implemented"@))
    } else if l.brand == "raymarine"@ {
        StepView::Finished(Err("Raymarine not yet implemented"@))
    } else if l.brand == "garmin"@ {
        StepView::Finished(Err("Garmin not yet implemented"@))
    } else {
        StepView::Finished(Err("Unknown radar brand"@))
    }
}

/// The state and next step after the host answered the beacon send with
/// `status`: a failure ends the poll, a success marks the beacon sent and
/// starts receiving.
pub open spec fn poll_after_send(l: LocatorView, status: i32) -> (LocatorView, StepView) {
    if status < 0 {
        (l, StepView::Finished(Err(SocketOp::Send.failure_text())))
    } else {
        (
            LocatorView { brand: l.brand, socket: l.socket, radars: l.radars, beacon_sent: true },
            StepView::Receive { socket: l.socket, delta: None },
        )
    }
}

/// The state and next step after the host answered a receive with `status`
/// and the datagram `data` from `source`: a failure ends the poll; an empty
/// socket ends it with the number of radars known; a datagram announcing a
/// radar at a new address records the radar and has its delta published;
/// any other datagram changes nothing. Receiving goes on until the socket
/// is empty.
pub open spec fn poll_after_receive(l: LocatorView, status: i32, data: Seq<u8>, source: Seq<char>) -> (
    LocatorView,
    StepView,
) {
    if status < 0 {
        (l, StepView::Finished(Err(SocketOp::Receive.failure_text())))
    } else if status == 0 {
        (l, StepView::Finished(Ok(l.radars.len() as usize)))
    } else {
        let report = brand_report(l.brand, data, source);
        (
            LocatorView {
                brand: l.brand,
                socket: l.socket,
                radars: record_report(l.radars, report),
                beacon_sent: l.beacon_sent,
            },
            StepView::Receive {
                socket: l.socket,
                delta: if is_new_radar(l.radars, report) {
                    Some(found_delta(report->0))
                } else {
                    None
                },
            },
        )
    }
}

/// Adding a radar at an address none of `radars` has keeps the addresses
/// distinct.
proof fn lemma_push_distinct(radars: Seq<RadarInfoView>, r: RadarInfoView)
    requires
        distinct_addresses(radars),
        forall|i: int| 0 <= i < radars.len() ==> #[trigger] radars[i].address != r.address,
    ensures
        distinct_addresses(radars.push(r)),
{
    let s = radars.push(r);
    assert forall|i: int, j: int|
        0 <= i < s.len() && 0 <= j < s.len() && i != j implies #[trigger] s[i].address
        != #[trigger] s[j].address by {
        if i < radars.len() && j < radars.len() {
            assert(s[i] == radars[i] && s[j] == radars[j]);
        } else if i < radars.len() {
            assert(s[i] == radars[i]);
        } else {
            assert(s[j] == radars[j]);
        }
    }
}

impl RadarLocator {
    #[verifier::type_invariant]
    spec fn addresses_distinct(self) -> bool {
        distinct_addresses(self@.radars)
    }

    /// The radars found so far.
    pub fn radars(&self) -> (r: &[RadarInfo])
        ensures
            r@.map_values(|i: RadarInfo| i@) == self@.radars,
    {
        self.radars_found.as_slice()
    }

    /// Reads a datagram from `source` as this locator's brand reads it.
    pub fn process_data(&self, data: &[u8], source: &str) -> (r: Option<RadarInfo>)
        ensures
            option_info_view(r) == brand_report(self@.brand, data@, source@),
    {
        if text_eq(self.brand.as_str(), "furuno") {
            process_furuno_data(data, source)
        } else {
            None
        }
    }

    /// Whether a radar with address `addr` has been found.
    fn knows(&self, addr: &String) -> (b: bool)
        ensures
            b == knows_address(self@.radars, addr@),
    {
        let n = self.radars_found.len();
        let mut i: usize = 0;
        while i < n
            invariant
                n == self.radars_found@.len(),
                i <= n,
                forall|j: int| 0 <= j < i ==> self.radars_found@[j].address@ != addr@,
            decreases n - i,
        {
            if self.radars_found[i].address == *addr {
                assert(self@.radars[i as int].address == addr@);
                return true;
            }
            i = i + 1;
        }
        assert forall|j: int| 0 <= j < self@.radars.len() implies #[trigger] self@.radars[j].address
            != addr@ by {
            assert(self@.radars[j] == self.radars_found@[j]@);
        }
        false
    }

    /// Starts a poll: what the host must do first.
    pub fn poll(&self) -> (step: PollStep)
        ensures
            step@ == poll_start(self@),
    {
        if text_eq(self.brand.as_str(), "furuno") {
            PollStep::Send {
                socket: self.socket.id(),
                data: beacon_packet_bytes(),
                addr: String::from_str(FURUNO_BEACON_ADDRESS),
                port: FURUNO_BEACON_PORT,
            }
        } else if text_eq(self.brand.as_str(), "navico") {
            PollStep::Finished(Err("Navico not yet implemented"))
        } else if text_eq(self.brand.as_str(), "raymarine") {
            PollStep::Finished(Err("Raymarine not yet implemented"))
        } else if text_eq(self.brand.as_str(), "garmin") {
            PollStep::Finished(Err("Garmin not yet implemented"))
        } else {
            PollStep::Finished(Err("Unknown radar brand"))
        }
    }

    /// Takes the host's answer to the beacon send.
    pub fn on_sent(&mut self, status: i32) -> (step: PollStep)
        ensures
            (final(self)@, step@) == poll_after_send(old(self)@, status),
            distinct_addresses(final(self)@.radars),
            old(self)@.radars.is_prefix_of(final(self)@.radars),
    {
        proof {
            use_type_invariant(&*self);
        }
        match check_status(SocketOp::Send, status) {
            Err(e) => PollStep::Finished(Err(e)),
            Ok(_) => {
                self.beacon_sent = true;
                PollStep::Receive { socket: self.socket.id(), delta: None }
            },
        }
    }

    /// Takes the host's answer to a receive: `status` is the length of the
    /// datagram written to `buf` (zero when nothing was waiting, negative
    /// on failure), `addr_buf` and `port` name its sender.
    pub fn on_received(&mut self, status: i32, buf: &[u8], addr_buf: &[u8; 46], port: u16) -> (step:
        PollStep)
        requires
            status <= buf@.len(),
        ensures
            (final(self)@, step@) == poll_after_receive(
                old(self)@,
                status,
                buf@.take(status as int),
                source_address(addr_buf@),
            ),
            distinct_addresses(final(self)@.radars),
            old(self)@.radars.is_prefix_of(final(self)@.radars),
    {
        proof {
            use_type_invariant(&*self);
        }
        match self.socket.recv_from(status, addr_buf, port) {
            Err(e) => PollStep::Finished(Err(e)),
            Ok(None) => PollStep::Finished(Ok(self.radars_found.len())),
            Ok(Some((len, addr, _port))) => {
                let data = vstd::slice::slice_subrange(buf, 0, len);
                match self.process_data(data, addr.as_str()) {
                    Some(radar) => {
                        if self.knows(&radar.address) {
                            PollStep::Receive { socket: self.socket.id(), delta: None }
                        } else {
                            let delta = found_delta_text(&radar);
                            let ghost before = self@.radars;
                            let mut found: Vec<RadarInfo> = Vec::new();
                            std::mem::swap(&mut found, &mut self.radars_found);
                            let ghost added = radar@;
                            found.push(radar);
                            proof {
                                assert(found@.map_values(|r: RadarInfo| r@) =~= before.push(added));
                                assert forall|i: int| 0 <= i < before.len() implies #[trigger] before[i].address != added.address by {
                                    if before[i].address == added.address {
                                        assert(knows_address(before, added.address));
                                    }
                                }
                                lemma_push_distinct(before, added);
                            }
                            self.radars_found = found;
                            assert(self@.radars =~= before.push(radar@));
                            PollStep::Receive { socket: self.socket.id(), delta: Some(delta) }
                        }
                    },
                    None => PollStep::Receive { socket: self.socket.id(), delta: None },
                }
            },
        }
    }
}


// ---------------------------------------------------------------------------
// Opening the locator's socket
// ---------------------------------------------------------------------------

/// Where the opening of a locator's socket stands.
enum SetupStage {
    /// No socket yet: one must be created.
    Create,
    /// The socket exists and must be bound to the beacon port.
    Bind(UdpSocket),
    /// The socket is bound; broadcast must be enabled on it.
    Broadcast(UdpSocket),
    /// Broadcast is on; the socket must receive the beacon address's
    /// traffic on the configured interface.
    Join(UdpSocket),
}

/// The view of a setup stage: the socket's handle once there is one.
pub enum StageView {
    Create,
    Bind(i32),
    Broadcast(i32),
    Join(i32),
}

/// A locator whose socket is being opened.
pub struct LocatorSetup {
    brand: String,
    interface: Option<String>,
    stage: SetupStage,
}

/// The state of a [`LocatorSetup`].
pub struct SetupView {
    /// The brand, as the locator will match it.
    pub brand: Seq<char>,
    /// The network interface detection is limited to; `None` for all.
    pub interface: Option<Seq<char>>,
    pub stage: StageView,
}

/// The view of an optional text.
pub open spec fn option_text_view(t: Option<String>) -> Option<Seq<char>> {
    match t {
        Some(s) => Some(s@),
        None => None,
    }
}

/// The interface detection is limited to, from the configured one: an
/// empty interface, like none, means all interfaces.
pub open spec fn configured_interface(t: Option<Seq<char>>) -> Option<Seq<char>> {
    match t {
        Some(i) => if i.len() == 0 {
            None
        } else {
            Some(i)
        },
        None => None,
    }
}

/// The view of an optional text slice.
pub open spec fn option_str_view(t: Option<&str>) -> Option<Seq<char>> {
    match t {
        Some(s) => Some(s@),
        None => None,
    }
}

impl View for LocatorSetup {
    type V = SetupView;

    closed spec fn view(&self) -> SetupView {
        SetupView {
            brand: self.brand@,
            interface: option_text_view(self.interface),
            stage: match self.stage {
                SetupStage::Create => StageView::Create,
                SetupStage::Bind(s) => StageView::Bind(s@),
                SetupStage::Broadcast(s) => StageView::Broadcast(s@),
                SetupStage::Join(s) => StageView::Join(s@),
            },
        }
    }
}

/// The socket call the host must make next while a locator is set up.
#[derive(Debug, Clone, PartialEq, Eq)]
pub enum SetupRequest {
    /// Create a socket of the family the host's create call names by `type_code`.
    CreateSocket { type_code: i32 },
    /// Bind `socket` to `port`.
    Bind { socket: i32, port: u16 },
    /// Enable or disable broadcast on `socket`.
    SetBroadcast { socket: i32, enabled: bool },
    /// Have `socket` receive the traffic of `group` on `interface`.
    JoinMulticast { socket: i32, group: &'static str, interface: String },
}

/// The view of a [`SetupRequest`].
pub enum RequestView {
    CreateSocket { type_code: i32 },
    Bind { socket: i32, port: u16 },
    SetBroadcast { socket: i32, enabled: bool },
    JoinMulticast { socket: i32, group: Seq<char>, interface: Seq<char> },
}

impl View for SetupRequest {
    type V = RequestView;

    open spec fn view(&self) -> RequestView {
        match self {
            SetupRequest::CreateSocket { type_code } => RequestView::CreateSocket {
                type_code: *type_code,
            },
            SetupRequest::Bind { socket, port } => RequestView::Bind { socket: *socket, port: *port },
            SetupRequest::SetBroadcast { socket, enabled } => RequestView::SetBroadcast {
                socket: *socket,
                enabled: *enabled,
            },
            SetupRequest::JoinMulticast { socket, group, interface } => RequestView::JoinMulticast {
                socket: *socket,
                group: group@,
                interface: interface@,
            },
        }
    }
}

/// Where a setup stands after the host's answer.
pub enum SetupProgress {
    /// More calls are needed.
    Pending(LocatorSetup),
    /// The socket is open, bound, broadcasting, and on the configured
    /// interface if one was given: the locator is ready.
    Ready(RadarLocator),
    /// The host refused a call.
    Failed(&'static str),
}

/// The view of a [`SetupProgress`].
pub enum ProgressView {
    Pending(SetupView),
    Ready(LocatorView),
    Failed(Seq<char>),
}

impl View for SetupProgress {
    type V = ProgressView;

    open spec fn view(&self) -> ProgressView {
        match self {
            SetupProgress::Pending(s) => ProgressView::Pending(s@),
            SetupProgress::Ready(l) => ProgressView::Ready(l@),
            SetupProgress::Failed(e) => ProgressView::Failed(e@),
        }
    }
}

/// The call the host must make at each stage: create an IPv4 socket, bind
/// it to the beacon port, enable broadcast on it, and, when an interface is
/// configured, have it receive the beacon address's traffic on that
/// interface (the one host call that takes an interface).
pub open spec fn setup_request(s: SetupView) -> RequestView {
    match s.stage {
        StageView::Create => RequestView::CreateSocket { type_code: SocketType::Udp4.spec_code() },
        StageView::Bind(id) => RequestView::Bind { socket: id, port: FURUNO_BEACON_PORT },
        StageView::Broadcast(id) => RequestView::SetBroadcast { socket: id, enabled: true },
        StageView::Join(id) => RequestView::JoinMulticast {
            socket: id,
            group: FURUNO_BEACON_ADDRESS@,
            interface: match s.interface {
                Some(i) => i,
                None => seq![],
            },
        },
    }
}

/// The locator a finished setup yields: it knows no radar and has sent no
/// beacon.
pub open spec fn opened_locator(brand: Seq<char>, socket: i32) -> LocatorView {
    LocatorView { brand, socket, radars: seq![], beacon_sent: false }
}

/// Where the setup stands after the host answered the current call with
/// `status`: a refusal fails the setup with that call's error; otherwise
/// the next stage. After broadcast is enabled, a configured interface still
/// has to be joined; without one, or after the join, the locator is ready.
pub open spec fn setup_advance(s: SetupView, status: i32) -> ProgressView {
    match s.stage {
        StageView::Create => if status < 0 {
            ProgressView::Failed(SocketOp::Create.failure_text())
        } else {
            ProgressView::Pending(
                SetupView { brand: s.brand, interface: s.interface, stage: StageView::Bind(status) },
            )
        },
        StageView::Bind(id) => if status < 0 {
            ProgressView::Failed(SocketOp::Bind.failure_text())
        } else {
            ProgressView::Pending(
                SetupView { brand: s.brand, interface: s.interface, stage: StageView::Broadcast(id) },
            )
        },
        StageView::Broadcast(id) => if status < 0 {
            ProgressView::Failed(SocketOp::SetBroadcast.failure_text())
        } else if s.interface is Some {
            ProgressView::Pending(
                SetupView { brand: s.brand, interface: s.interface, stage: StageView::Join(id) },
            )
        } else {
            ProgressView::Ready(opened_locator(s.brand, id))
        },
        StageView::Join(id) => if status < 0 {
            ProgressView::Failed(SocketOp::JoinMulticast.failure_text())
        } else {
            ProgressView::Ready(opened_locator(s.brand, id))
        },
    }
}

impl LocatorSetup {
    /// Starts setting up a locator for `brand`, taken as given, limited to
    /// `interface` when one is given; an empty interface means all
    /// interfaces.
    pub fn for_brand(brand: String, interface: Option<String>) -> (s: LocatorSetup)
        ensures
            s@ == (SetupView {
                brand: brand@,
                interface: configured_interface(option_text_view(interface)),
                stage: StageView::Create,
            }),
    {
        let interface = match interface {
            Some(i) => if i.as_str().is_empty() {
                None
            } else {
                Some(i)
            },
            None => None,
        };
        LocatorSetup { brand, interface, stage: SetupStage::Create }
    }

    /// The socket call the host must make next.
    pub fn request(&self) -> (r: SetupRequest)
        ensures
            r@ == setup_request(self@),
    {
        match &self.stage {
            SetupStage::Create => SetupRequest::CreateSocket { type_code: UdpSocket::new_v4().type_code() },
            SetupStage::Bind(s) => SetupRequest::Bind { socket: s.id(), port: FURUNO_BEACON_PORT },
            SetupStage::Broadcast(s) => SetupRequest::SetBroadcast { socket: s.id(), enabled: true },
            SetupStage::Join(s) => {
                let interface = match &self.interface {
                    Some(i) => i.clone(),
                    None => String::new(),
                };
                SetupRequest::JoinMulticast { socket: s.id(), group: FURUNO_BEACON_ADDRESS, interface }
            },
        }
    }

    /// Takes the host's answer to the call [`LocatorSetup::request`] named.
    pub fn advance(self, status: i32) -> (p: SetupProgress)
        ensures
            p@ == setup_advance(self@, status),
    {
        let LocatorSetup { brand, interface, stage } = self;
        match stage {
            SetupStage::Create => match UdpSocket::new_v4().complete(status) {
                Ok(socket) => SetupProgress::Pending(
                    LocatorSetup { brand, interface, stage: SetupStage::Bind(socket) },
                ),
                Err(e) => SetupProgress::Failed(e),
            },
            SetupStage::Bind(socket) => match check_status(SocketOp::Bind, status) {
                Ok(_) => SetupProgress::Pending(
                    LocatorSetup { brand, interface, stage: SetupStage::Broadcast(socket) },
                ),
                Err(e) => SetupProgress::Failed(e),
            },
            SetupStage::Broadcast(socket) => match check_status(SocketOp::SetBroadcast, status) {
                Ok(_) => {
                    if interface.is_some() {
                        SetupProgress::Pending(
                            LocatorSetup { brand, interface, stage: SetupStage::Join(socket) },
                        )
                    } else {
                        SetupProgress::Ready(RadarLocator::opened(brand, socket))
                    }
                },
                Err(e) => SetupProgress::Failed(e),
            },
            SetupStage::Join(socket) => match check_status(SocketOp::JoinMulticast, status) {
                Ok(_) => SetupProgress::Ready(RadarLocator::opened(brand, socket)),
                Err(e) => SetupProgress::Failed(e),
            },
        }
    }
}

impl RadarLocator {
    /// Starts setting up a locator for `brand`, matched without regard to
    /// case. With a non-empty interface, detection is limited to it: the
    /// setup has the socket receive the beacon address's traffic on that
    /// interface before the locator is ready; without one, or with an empty
    /// one, it listens on all interfaces.
    pub fn new(brand: &str, interface: Option<&str>) -> (s: LocatorSetup)
        ensures
            s@ == (SetupView {
                brand: lowercase(brand@),
                interface: configured_interface(option_str_view(interface)),
                stage: StageView::Create,
            }),
            interface matches Some(i) && i@.len() == 0 ==> s@.interface is None,
            is_ascii_chars(brand@) ==> s@.brand == ascii_lowercase(brand@),
    {
        let iface = match interface {
            Some(i) => Some(String::from_str(i)),
            None => None,
        };
        LocatorSetup::for_brand(to_lowercase(brand), iface)
    }

    /// A locator on an opened socket that knows no radar and has sent no
    /// beacon.
    fn opened(brand: String, socket: UdpSocket) -> (l: RadarLocator)
        ensures
            l@ == opened_locator(brand@, socket@),
    {
        let l = RadarLocator { brand, socket, radars_found: Vec::new(), beacon_sent: false };
        assert(l@.radars =~= seq![]);
        l
    }
}

// ---------------------------------------------------------------------------
// Laws of discovery
// ---------------------------------------------------------------------------

/// Receiving never records a second radar at an address already known: the
/// radars' addresses stay distinct.
pub proof fn lemma_receive_keeps_addresses_distinct(
    l: LocatorView,
    status: i32,
    data: Seq<u8>,
    source: Seq<char>,
)
    requires
        distinct_addresses(l.radars),
    ensures
        distinct_addresses(poll_after_receive(l, status, data, source).0.radars),
{
    if status > 0 {
        let report = brand_report(l.brand, data, source);
        if is_new_radar(l.radars, report) {
            let r = report->0;
            assert forall|i: int| 0 <= i < l.radars.len() implies #[trigger] l.radars[i].address
                != r.address by {
                if l.radars[i].address == r.address {
                    assert(knows_address(l.radars, r.address));
                }
            }
            lemma_push_distinct(l.radars, r);
        }
    }
}

/// A poll step never forgets a radar: the radars known before are kept, in
/// order, and at most one is added; brand and socket do not change.
pub proof fn lemma_receive_only_adds(l: LocatorView, status: i32, data: Seq<u8>, source: Seq<char>)
    ensures
        ({
            let after = poll_after_receive(l, status, data, source).0;
            &&& l.radars.is_prefix_of(after.radars)
            &&& after.radars.len() <= l.radars.len() + 1
            &&& after.brand == l.brand
            &&& after.socket == l.socket
        }),
        ({
            let after = poll_after_send(l, status).0;
            &&& after.radars == l.radars
            &&& after.brand == l.brand
            &&& after.socket == l.socket
        }),
{
    let after = poll_after_receive(l, status, data, source).0;
    assert(after.radars.take(l.radars.len() as int) =~= l.radars);
}

/// A radar is announced once: when the same datagram arrives again from the
/// same sender, nothing changes and no delta is published.
pub proof fn lemma_rediscovery_is_silent(l: LocatorView, status: i32, data: Seq<u8>, source: Seq<char>)
    requires
        status > 0,
    ensures
        ({
            let first = poll_after_receive(l, status, data, source).0;
            let again = poll_after_receive(first, status, data, source);
            &&& again.0 == first
            &&& again.1 == StepView::Receive { socket: l.socket, delta: None }
        }),
{
    let report = brand_report(l.brand, data, source);
    let first = poll_after_receive(l, status, data, source).0;
    if is_new_radar(l.radars, report) {
        let r = report->0;
        let n = l.radars.len() as int;
        assert(first.radars[n] == r);
        assert(knows_address(first.radars, r.address));
    }
}

/// A delta is published exactly when a datagram announces a radar at an
/// address not yet known; it is that radar's delta, and the radar is then
/// the last one known.
pub proof fn lemma_delta_announces_new_radar(
    l: LocatorView,
    status: i32,
    data: Seq<u8>,
    source: Seq<char>,
)
    requires
        status > 0,
    ensures
        ({
            let (after, step) = poll_after_receive(l, status, data, source);
            let report = brand_report(l.brand, data, source);
            match step {
                StepView::Receive { socket, delta } => {
                    &&& socket == l.socket
                    &&& delta is Some <==> is_new_radar(l.radars, report)
                    &&& delta is Some ==> {
                        &&& delta->0 == found_delta(report->0)
                        &&& after.radars.last() == report->0
                        &&& after.radars.len() == l.radars.len() + 1
                    }
                },
                _ => false,
            }
        }),
{
}

/// A poll ends with the number of radars found, once the socket is empty.
pub proof fn lemma_poll_reports_count(l: LocatorView, data: Seq<u8>, source: Seq<char>)
    ensures
        poll_after_receive(l, 0, data, source) == (l, StepView::Finished(Ok(l.radars.len() as usize))),
{
}

/// Only a Furuno locator discovers radars: for any other brand a poll
/// fails at once and received datagrams change nothing.
pub proof fn lemma_other_brands_find_nothing(
    l: LocatorView,
    status: i32,
    data: Seq<u8>,
    source: Seq<char>,
)
    requires
        l.brand != "furuno"@,
    ensures
        poll_start(l) is Finished,
        poll_start(l)->Finished_0 is Err,
        poll_after_receive(l, status, data, source).0 == l,
{
}

/// Without an interface, three successful host calls open a locator: the
/// socket is the created one, no radar is known and no beacon has been
/// sent; no call names an interface.
pub proof fn lemma_setup_opens_locator(brand: Seq<char>, created: i32, bound: i32, broadcast: i32)
    requires
        created >= 0,
        bound >= 0,
        broadcast >= 0,
    ensures
        ({
            let s0 = SetupView { brand, interface: None, stage: StageView::Create };
            let s1 = SetupView { brand, interface: None, stage: StageView::Bind(created) };
            let s2 = SetupView { brand, interface: None, stage: StageView::Broadcast(created) };
            &&& setup_advance(s0, created) == ProgressView::Pending(s1)
            &&& setup_advance(s1, bound) == ProgressView::Pending(s2)
            &&& setup_advance(s2, broadcast) == ProgressView::Ready(opened_locator(brand, created))
        }),
{
}

/// With an interface, the setup takes a fourth call before the locator is
/// ready: the socket is to receive the beacon address's traffic on that
/// interface. Refused, it fails the setup; the locator never listens on
/// all interfaces instead.
pub proof fn lemma_setup_joins_interface(
    brand: Seq<char>,
    iface: Seq<char>,
    created: i32,
    bound: i32,
    broadcast: i32,
    joined: i32,
)
    requires
        created >= 0,
        bound >= 0,
        broadcast >= 0,
    ensures
        ({
            let i = Some(iface);
            let s0 = SetupView { brand, interface: i, stage: StageView::Create };
            let s1 = SetupView { brand, interface: i, stage: StageView::Bind(created) };
            let s2 = SetupView { brand, interface: i, stage: StageView::Broadcast(created) };
            let s3 = SetupView { brand, interface: i, stage: StageView::Join(created) };
            &&& setup_advance(s0, created) == ProgressView::Pending(s1)
            &&& setup_advance(s1, bound) == ProgressView::Pending(s2)
            &&& setup_advance(s2, broadcast) == ProgressView::Pending(s3)
            &&& setup_request(s3) == RequestView::JoinMulticast {
                socket: created,
                group: FURUNO_BEACON_ADDRESS@,
                interface: iface,
            }
            &&& joined >= 0 ==> setup_advance(s3, joined) == ProgressView::Ready(
                opened_locator(brand, created),
            )
            &&& joined < 0 ==> setup_advance(s3, joined) == ProgressView::Failed(
                SocketOp::JoinMulticast.failure_text(),
            )
        }),
{
}

/// A radar's key in the SignalK tree holds no `.`, so it is a single path
/// segment, and it is as long as the radar's serial.
pub proof fn lemma_radar_key_is_one_segment(serial: Seq<char>)
    ensures
        radar_key(serial).len() == serial.len(),
        forall|i: int| 0 <= i < serial.len() ==> #[trigger] radar_key(serial)[i] != '.',
{
}


/// The locator listens on the port it broadcasts its beacon to, so it hears
/// its own beacon; the beacon is no radar report and records nothing.
pub proof fn lemma_own_beacon_is_not_a_report(source: Seq<char>)
    ensures
        furuno_report(beacon_packet(), source) is None,
{
}


/// One receive answer of the host, as the locator reads it: the status,
/// the datagram's bytes and its sender.
pub struct ReceivedView {
    pub status: i32,
    pub data: Seq<u8>,
    pub source: Seq<char>,
}

/// The locator's state after taking `answers` one after another.
pub open spec fn receive_all(l: LocatorView, answers: Seq<ReceivedView>) -> LocatorView
    decreases answers.len(),
{
    if answers.len() == 0 {
        l
    } else {
        let a = answers[0];
        receive_all(poll_after_receive(l, a.status, a.data, a.source).0, answers.drop_first())
    }
}

/// Across a whole poll — the beacon send and then any receive answers —
/// radar addresses stay distinct and the radars known before stay known,
/// unchanged and in order.
pub proof fn lemma_poll_keeps_record(l: LocatorView, sent: i32, answers: Seq<ReceivedView>)
    requires
        distinct_addresses(l.radars),
    ensures
        ({
            let after = receive_all(poll_after_send(l, sent).0, answers);
            &&& distinct_addresses(after.radars)
            &&& l.radars.is_prefix_of(after.radars)
        }),
{
    lemma_receive_all_keeps_record(poll_after_send(l, sent).0, answers);
}

/// Receive answers keep addresses distinct and keep the radars known.
proof fn lemma_receive_all_keeps_record(l: LocatorView, answers: Seq<ReceivedView>)
    requires
        distinct_addresses(l.radars),
    ensures
        distinct_addresses(receive_all(l, answers).radars),
        l.radars.is_prefix_of(receive_all(l, answers).radars),
    decreases answers.len(),
{
    if answers.len() > 0 {
        let a = answers[0];
        let next = poll_after_receive(l, a.status, a.data, a.source).0;
        lemma_receive_keeps_addresses_distinct(l, a.status, a.data, a.source);
        lemma_receive_only_adds(l, a.status, a.data, a.source);
        lemma_receive_all_keeps_record(next, answers.drop_first());
        let end = receive_all(l, answers).radars;
        assert(end.take(l.radars.len() as int) =~= l.radars) by {
            assert forall|i: int| 0 <= i < l.radars.len() implies end[i] == l.radars[i] by {
                assert(next.radars[i] == l.radars[i]);
                assert(end[i] == next.radars[i]);
            }
        }
    }
}


// ---------------------------------------------------------------------------
// Laws stated over the raw inputs
// ---------------------------------------------------------------------------

/// Properties of the leading run of model-name bytes: it is a prefix of
/// `s` made of model-name bytes, ended by the end of `s` or by a byte that
/// cannot stand in a model name.
proof fn lemma_model_run_shape(s: Seq<u8>)
    ensures
        model_run(s).len() <= s.len(),
        forall|i: int| 0 <= i < model_run(s).len() ==> #[trigger] model_run(s)[i] == s[i]
            && s[i] != 0 && s[i] < 128,
        model_run(s).len() == s.len() || s[model_run(s).len() as int] == 0
            || s[model_run(s).len() as int] >= 128,
    decreases s.len(),
{
    if s.len() > 0 && is_model_byte(s[0]) {
        let t = s.drop_first();
        lemma_model_run_shape(t);
        assert forall|i: int| 0 <= i < model_run(s).len() implies #[trigger] model_run(s)[i] == s[i]
            && s[i] != 0 && s[i] < 128 by {
            if i > 0 {
                assert(model_run(s)[i] == model_run(t)[i - 1]);
                assert(t[i - 1] == s[i]);
            }
        }
    }
}

/// How a datagram is read as a Furuno radar report. It is one exactly when
/// it has at least 21 bytes, starts with the 11-byte report header and has
/// `R` at byte 16. The radar is then a Furuno known by the sender's address.
/// A report of more than 30 bytes names the model written at byte 20: the
/// ASCII characters up to the first NUL or non-ASCII byte, at most 10 of
/// them; a shorter report names the model `DRS`.
pub proof fn lemma_report_reading(data: Seq<u8>, source: Seq<char>)
    ensures
        furuno_report(data, source) is Some <==> {
            &&& data.len() >= 21
            &&& data.subrange(0, 11) == seq![0x01u8, 0x00, 0x00, 0x01, 0x00, 0x00, 0x00, 0x00, 0x00, 0x01, 0x00]
            &&& data[16] == 0x52
        },
        furuno_report(data, source) matches Some(r) ==> {
            &&& r.brand == "Furuno"@
            &&& r.serial == source
            &&& r.address == source
            &&& data.len() <= 30 ==> r.model == "DRS"@
            &&& data.len() > 30 ==> {
                &&& r.model.len() <= 10
                &&& forall|i: int| 0 <= i < r.model.len() ==> {
                    &&& #[trigger] r.model[i] == data[20 + i] as char
                    &&& data[20 + i] != 0
                    &&& data[20 + i] < 128
                }
                &&& r.model.len() == 10 || data[20 + r.model.len() as int] == 0 || data[20
                    + r.model.len() as int] >= 128
            }
        },
{
    assert(report_header() =~= seq![0x01u8, 0x00, 0x00, 0x01, 0x00, 0x00, 0x00, 0x00, 0x00, 0x01, 0x00]);
    if data.len() >= 11 {
        assert(data.take(11) =~= data.subrange(0, 11));
    }
    if data.len() > 30 {
        let w = data.subrange(20, 30);
        lemma_model_run_shape(w);
        let m = ascii_text(model_run(w));
        assert forall|i: int| 0 <= i < m.len() implies {
            &&& #[trigger] m[i] == data[20 + i] as char
            &&& data[20 + i] != 0
            &&& data[20 + i] < 128
        } by {
            assert(model_run(w)[i] == w[i]);
            assert(w[i] == data[20 + i]);
        }
        let k = model_run(w).len() as int;
        if k < 10 {
            assert(w[k] == data[20 + k]);
        }
    }
}

/// Every poll of a Furuno locator starts by sending the 16-byte beacon
/// request from its socket to 172.31.255.255 port 10010, whatever radars it
/// already knows and whether a beacon went out before.
pub proof fn lemma_furuno_poll_sends_beacon(l: LocatorView)
    requires
        l.brand == "furuno"@,
    ensures
        poll_start(l) == (StepView::Send {
            socket: l.socket,
            data: seq![0x01u8, 0x00, 0x00, 0x01, 0x00, 0x00, 0x00, 0x00, 0x01, 0x01, 0x00, 0x08, 0x01, 0x00, 0x00, 0x00],
            addr: "172.31.255.255"@,
            port: 10010u16,
        }),
{
    assert(beacon_packet() =~= seq![0x01u8, 0x00, 0x00, 0x01, 0x00, 0x00, 0x00, 0x00, 0x01, 0x01, 0x00, 0x08, 0x01, 0x00, 0x00, 0x00]);
}

/// Each setup stage asks for its one call, whatever interface is
/// configured: create an IPv4 socket (family code 0), bind it to port
/// 10010, enable broadcast, and join 172.31.255.255 on the configured
/// interface.
pub proof fn lemma_setup_calls(s: SetupView)
    ensures
        s.stage is Create ==> setup_request(s) == (RequestView::CreateSocket { type_code: 0 }),
        s.stage matches StageView::Bind(id) ==> setup_request(s) == (RequestView::Bind {
            socket: id,
            port: 10010u16,
        }),
        s.stage matches StageView::Broadcast(id) ==> setup_request(s) == (RequestView::SetBroadcast {
            socket: id,
            enabled: true,
        }),
        s.stage matches StageView::Join(id) ==> (s.interface matches Some(i) ==> setup_request(s) == (
        RequestView::JoinMulticast { socket: id, group: "172.31.255.255"@, interface: i })),
{
}

/// A Furuno report from a sender that no known radar has is always
/// recorded and announced, whatever model it names: the radar is added at
/// the end as a Furuno known by the sender's address, the radars known
/// before stay, its delta is published, and an empty socket then ends the
/// poll with one more radar than before.
pub proof fn lemma_new_sender_is_recorded(l: LocatorView, status: i32, data: Seq<u8>, source: Seq<char>)
    requires
        l.brand == "furuno"@,
        status > 0,
        data.len() >= 21,
        data.subrange(0, 11) == seq![0x01u8, 0x00, 0x00, 0x01, 0x00, 0x00, 0x00, 0x00, 0x00, 0x01, 0x00],
        data[16] == 0x52,
        forall|i: int| 0 <= i < l.radars.len() ==> #[trigger] l.radars[i].address != source,
    ensures
        ({
            let (after, step) = poll_after_receive(l, status, data, source);
            let r = after.radars.last();
            &&& after.radars.len() == l.radars.len() + 1
            &&& after.radars.subrange(0, l.radars.len() as int) == l.radars
            &&& r.brand == "Furuno"@
            &&& r.serial == source
            &&& r.address == source
            &&& step == (StepView::Receive { socket: l.socket, delta: Some(found_delta(r)) })
            &&& poll_after_receive(after, 0, data, source).1 == StepView::Finished(
                Ok((l.radars.len() + 1) as usize),
            )
        }),
{
    lemma_report_reading(data, source);
    let report = brand_report(l.brand, data, source);
    assert(!knows_address(l.radars, source));
    let after = poll_after_receive(l, status, data, source).0;
    assert(after.radars.subrange(0, l.radars.len() as int) =~= l.radars);
}

/// A datagram from a sender some known radar has changes nothing and
/// publishes nothing.
pub proof fn lemma_known_sender_is_silent(l: LocatorView, status: i32, data: Seq<u8>, source: Seq<char>)
    requires
        status > 0,
        exists|i: int| 0 <= i < l.radars.len() && #[trigger] l.radars[i].address == source,
    ensures
        poll_after_receive(l, status, data, source) == (l, StepView::Receive {
            socket: l.socket,
            delta: None,
        }),
{
    let report = brand_report(l.brand, data, source);
    if report is Some {
        assert(report->0.address == source);
        assert(knows_address(l.radars, source));
    }
}


/// Whether `x` stands somewhere in `s` as a contiguous piece.
pub open spec fn occurs_in(s: Seq<char>, x: Seq<char>) -> bool {
    exists|p: int| 0 <= p && p + x.len() <= s.len() && #[trigger] s.subrange(p, p + x.len()) == x
}

/// A piece between two others occurs in their concatenation.
proof fn lemma_occurs_between(a: Seq<char>, x: Seq<char>, b: Seq<char>)
    ensures
        occurs_in(a + x + b, x),
{
    let s = a + x + b;
    assert(s.subrange(a.len() as int, (a.len() + x.len()) as int) =~= x);
}

/// A piece that a sequence holds is held by any longer sequence that
/// starts with it.
proof fn lemma_occurs_extend(s: Seq<char>, t: Seq<char>, x: Seq<char>)
    requires
        occurs_in(s, x),
    ensures
        occurs_in(s + t, x),
{
    let p = choose|p: int| 0 <= p && p + x.len() <= s.len() && #[trigger] s.subrange(p, p + x.len()) == x;
    assert((s + t).subrange(p, p + x.len()) =~= s.subrange(p, p + x.len()));
}

/// A sequence holds its own tail.
proof fn lemma_occurs_tail(z: Seq<char>, x: Seq<char>)
    ensures
        occurs_in(z + x, x),
{
    assert((z + x).subrange(z.len() as int, (z.len() + x.len()) as int) =~= x);
}

/// How the delta's fixed texts split at the entries' boundaries.
proof fn lemma_delta_texts()
    ensures
        DELTA_HEAD@ == "{\"updates\":[{\"values\":[\n                            "@ + "{\"path\":\"sensors.radar."@,
        DELTA_NEXT_PATH@ == "\"}"@ + ",\n                            "@ + "{\"path\":\"sensors.radar."@,
        DELTA_FOUND_TAIL@ == ".status\",\"value\":\"found\"}"@ + "\n                        ]}]}"@,
        DELTA_BRAND@ == ".brand\",\"value\":\""@,
        DELTA_MODEL@ == ".model\",\"value\":\""@,
        DELTA_ADDRESS@ == ".address\",\"value\":\""@,
        "{\"updates\":[{\"values\":["@.is_prefix_of("{\"updates\":[{\"values\":[\n                            "@),
        "\n                        ]}]}"@.len() >= 4,
        "]}]}"@.len() == 4,
        "\n                        ]}]}"@.subrange("\n                        ]}]}"@.len() - 4, "\n                        ]}]}"@.len() as int) == "]}]}"@,
{
    reveal_strlit("{\"updates\":[{\"values\":[\n                            {\"path\":\"sensors.radar.");
    reveal_strlit("{\"updates\":[{\"values\":[\n                            ");
    reveal_strlit("{\"path\":\"sensors.radar.");
    reveal_strlit("\"},\n                            {\"path\":\"sensors.radar.");
    reveal_strlit("\"}");
    reveal_strlit(",\n                            ");
    reveal_strlit(".status\",\"value\":\"found\"}\n                        ]}]}");
    reveal_strlit(".status\",\"value\":\"found\"}");
    reveal_strlit("\n                        ]}]}");
    reveal_strlit("{\"updates\":[{\"values\":[");
    reveal_strlit("]}]}");
    assert(DELTA_HEAD@ =~= "{\"updates\":[{\"values\":[\n                            "@ + "{\"path\":\"sensors.radar."@);
    assert(DELTA_NEXT_PATH@ =~= "\"}"@ + ",\n                            "@ + "{\"path\":\"sensors.radar."@);
    assert(DELTA_FOUND_TAIL@ =~= ".status\",\"value\":\"found\"}"@ + "\n                        ]}]}"@);

    assert("\n                        ]}]}"@.subrange("\n                        ]}]}"@.len() - 4, "\n                        ]}]}"@.len() as int) =~= "]}]}"@);
}

/// A text that starts with `x` still does once more is appended.
proof fn lemma_starts_extend(s: Seq<char>, t: Seq<char>, x: Seq<char>)
    requires
        x.is_prefix_of(s),
    ensures
        x.is_prefix_of(s + t),
{
    assert forall|i: int| 0 <= i < x.len() implies #[trigger] (s + t)[i] == x[i] by {
        assert(s[i] == x[i]);
    }
}

/// A text ends as its last part does.
proof fn lemma_ends_with(a: Seq<char>, b: Seq<char>, x: Seq<char>)
    requires
        x.len() <= b.len(),
        b.subrange(b.len() - x.len(), b.len() as int) == x,
    ensures
        (a + b).subrange((a + b).len() - x.len(), (a + b).len() as int) == x,
{
    assert((a + b).subrange((a + b).len() - x.len(), (a + b).len() as int) =~= b.subrange(
        b.len() - x.len(),
        b.len() as int,
    ));
}

/// A chain of texts laid out as the found-radar delta is starts as its
/// first text does.
proof fn lemma_chain_starts(
    u2: Seq<char>,
    p: Seq<char>,
    key: Seq<char>,
    db: Seq<char>,
    brand: Seq<char>,
    dn: Seq<char>,
    dm: Seq<char>,
    model: Seq<char>,
    da: Seq<char>,
    addr: Seq<char>,
    tail: Seq<char>,
    x: Seq<char>,
)
    requires
        x.is_prefix_of(u2),
    ensures
        x.is_prefix_of(
            u2 + p + key + db + brand + dn + key + dm + model + dn + key + da + addr + dn + key + tail,
        ),
{
    let s = u2;
    lemma_starts_extend(s, p, x);
    lemma_starts_extend(s + p, key, x);
    lemma_starts_extend(s + p + key, db, x);
    lemma_starts_extend(s + p + key + db, brand, x);
    lemma_starts_extend(s + p + key + db + brand, dn, x);
    lemma_starts_extend(s + p + key + db + brand + dn, key, x);
    lemma_starts_extend(s + p + key + db + brand + dn + key, dm, x);
    lemma_starts_extend(s + p + key + db + brand + dn + key + dm, model, x);
    lemma_starts_extend(s + p + key + db + brand + dn + key + dm + model, dn, x);
    lemma_starts_extend(s + p + key + db + brand + dn + key + dm + model + dn, key, x);
    lemma_starts_extend(s + p + key + db + brand + dn + key + dm + model + dn + key, da, x);
    lemma_starts_extend(s + p + key + db + brand + dn + key + dm + model + dn + key + da, addr, x);
    lemma_starts_extend(s + p + key + db + brand + dn + key + dm + model + dn + key + da + addr, dn, x);
    lemma_starts_extend(
        s + p + key + db + brand + dn + key + dm + model + dn + key + da + addr + dn,
        key,
        x,
    );
    lemma_starts_extend(
        s + p + key + db + brand + dn + key + dm + model + dn + key + da + addr + dn + key,
        tail,
        x,
    );
}

/// In a chain of texts laid out as the found-radar delta is, each value's
/// entry stands whole: from the path prefix before the key to the `"}`
/// after the value.
proof fn lemma_chain_entries(
    u2: Seq<char>,
    p: Seq<char>,
    key: Seq<char>,
    db: Seq<char>,
    brand: Seq<char>,
    e: Seq<char>,
    c: Seq<char>,
    dm: Seq<char>,
    model: Seq<char>,
    da: Seq<char>,
    addr: Seq<char>,
    sf: Seq<char>,
    t2: Seq<char>,
)
    ensures
        ({
            let dn = e + c + p;
            let d = u2 + p + key + db + brand + dn + key + dm + model + dn + key + da + addr + dn + key
                + (sf + t2);
            &&& occurs_in(d, p + key + db + brand + e)
            &&& occurs_in(d, p + key + dm + model + e)
            &&& occurs_in(d, p + key + da + addr + e)
            &&& occurs_in(d, p + key + sf)
        }),
{
    let dn = e + c + p;
    let q4 = u2 + p + key + db + brand;
    let q8 = q4 + dn + key + dm + model;
    let q12 = q8 + dn + key + da + addr;
    let q13 = q12 + dn + key;
    let d = q13 + (sf + t2);
    assert(d =~= q13 + sf + t2);
    // The brand entry.
    let x = p + key + db + brand + e;
    assert(q4 + e =~= u2 + x);
    lemma_occurs_tail(u2, x);
    lemma_occurs_extend(q4 + e, c, x);
    lemma_occurs_extend(q4 + e + c, p, x);
    assert(q4 + e + c + p =~= q4 + dn);
    lemma_chain_tail_from_q4(q4, dn, key, dm, model, da, addr, sf, t2, x);
    // The model entry.
    let x = p + key + dm + model + e;
    assert(q8 + e =~= (q4 + (e + c)) + x);
    lemma_occurs_tail(q4 + (e + c), x);
    lemma_occurs_extend(q8 + e, c, x);
    lemma_occurs_extend(q8 + e + c, p, x);
    assert(q8 + e + c + p =~= q8 + dn);
    lemma_occurs_extend(q8 + dn, key, x);
    lemma_occurs_extend(q8 + dn + key, da, x);
    lemma_occurs_extend(q8 + dn + key + da, addr, x);
    lemma_occurs_extend(q12, dn, x);
    lemma_occurs_extend(q12 + dn, key, x);
    lemma_occurs_extend(q13, sf, x);
    lemma_occurs_extend(q13 + sf, t2, x);
    // The address entry.
    let x = p + key + da + addr + e;
    assert(q12 + e =~= (q8 + (e + c)) + x);
    lemma_occurs_tail(q8 + (e + c), x);
    lemma_occurs_extend(q12 + e, c, x);
    lemma_occurs_extend(q12 + e + c, p, x);
    assert(q12 + e + c + p =~= q12 + dn);
    lemma_occurs_extend(q12 + dn, key, x);
    lemma_occurs_extend(q13, sf, x);
    lemma_occurs_extend(q13 + sf, t2, x);
    // The status entry.
    let x = p + key + sf;
    assert(q13 + sf =~= (q12 + (e + c)) + x);
    lemma_occurs_tail(q12 + (e + c), x);
    lemma_occurs_extend(q13 + sf, t2, x);
}

/// What follows the separator after the brand entry keeps that entry.
proof fn lemma_chain_tail_from_q4(
    q4: Seq<char>,
    dn: Seq<char>,
    key: Seq<char>,
    dm: Seq<char>,
    model: Seq<char>,
    da: Seq<char>,
    addr: Seq<char>,
    sf: Seq<char>,
    t2: Seq<char>,
    x: Seq<char>,
)
    requires
        occurs_in(q4 + dn, x),
    ensures
        occurs_in(q4 + dn + key + dm + model + dn + key + da + addr + dn + key + sf + t2, x),
{
    let s = q4 + dn;
    lemma_occurs_extend(s, key, x);
    lemma_occurs_extend(s + key, dm, x);
    lemma_occurs_extend(s + key + dm, model, x);
    lemma_occurs_extend(s + key + dm + model, dn, x);
    lemma_occurs_extend(s + key + dm + model + dn, key, x);
    lemma_occurs_extend(s + key + dm + model + dn + key, da, x);
    lemma_occurs_extend(s + key + dm + model + dn + key + da, addr, x);
    lemma_occurs_extend(s + key + dm + model + dn + key + da + addr, dn, x);
    lemma_occurs_extend(s + key + dm + model + dn + key + da + addr + dn, key, x);
    lemma_occurs_extend(s + key + dm + model + dn + key + da + addr + dn + key, sf, x);
    lemma_occurs_extend(s + key + dm + model + dn + key + da + addr + dn + key + sf, t2, x);
}

/// The delta that announces a radar holds, for the radar's key (its serial
/// with every `.` turned into `_`), one entry per value, each with the
/// value in full: the brand, the model, the address, and the status
/// `found`. It is one JSON update: it opens the update's value list first
/// and closes it last.
pub proof fn lemma_found_delta_entries(r: RadarInfoView, key: Seq<char>)
    requires
        key.len() == r.serial.len(),
        forall|i: int| 0 <= i < key.len() ==> #[trigger] key[i] == if r.serial[i] == '.' {
            '_'
        } else {
            r.serial[i]
        },
    ensures
        occurs_in(found_delta(r), "{\"path\":\"sensors.radar."@ + key + ".brand\",\"value\":\""@ + r.brand + "\"}"@),
        occurs_in(found_delta(r), "{\"path\":\"sensors.radar."@ + key + ".model\",\"value\":\""@ + r.model + "\"}"@),
        occurs_in(found_delta(r), "{\"path\":\"sensors.radar."@ + key + ".address\",\"value\":\""@ + r.address + "\"}"@),
        occurs_in(found_delta(r), "{\"path\":\"sensors.radar."@ + key + ".status\",\"value\":\"found\"}"@),
        "{\"updates\":[{\"values\":["@.is_prefix_of(found_delta(r)),
        found_delta(r).subrange(found_delta(r).len() - 4, found_delta(r).len() as int) == "]}]}"@,
{
    lemma_delta_texts();
    assert(radar_key(r.serial) =~= key);
    let u2 = "{\"updates\":[{\"values\":[\n                            "@;
    let p = "{\"path\":\"sensors.radar."@;
    let e = "\"}"@;
    let c = ",\n                            "@;
    let t2 = "\n                        ]}]}"@;
    let sf = ".status\",\"value\":\"found\"}"@;
    let dn = e + c + p;
    let d = u2 + p + key + DELTA_BRAND@ + r.brand + dn + key + DELTA_MODEL@ + r.model + dn + key
        + DELTA_ADDRESS@ + r.address + dn + key + (sf + t2);
    assert(found_delta(r) == d);
    lemma_chain_entries(
        u2,
        p,
        key,
        DELTA_BRAND@,
        r.brand,
        e,
        c,
        DELTA_MODEL@,
        r.model,
        DELTA_ADDRESS@,
        r.address,
        sf,
        t2,
    );
    lemma_chain_starts(
        u2,
        p,
        key,
        DELTA_BRAND@,
        r.brand,
        dn,
        DELTA_MODEL@,
        r.model,
        DELTA_ADDRESS@,
        r.address,
        sf + t2,
        "{\"updates\":[{\"values\":["@,
    );
    lemma_ends_with(sf, t2, "]}]}"@);
    let front = u2 + p + key + DELTA_BRAND@ + r.brand + dn + key + DELTA_MODEL@ + r.model + dn + key
        + DELTA_ADDRESS@ + r.address + dn + key;
    lemma_ends_with(front, sf + t2, "]}]}"@);
}

} // verus!
