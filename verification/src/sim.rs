//! A simulated serial device: an AT modem that answers commands after short delays and
//! reports its status every five seconds.
//!
//! Time is counted in milliseconds by the caller; `SimConnection::tick` returns the events
//! that fell due, and the caller hands them on.
use vstd::prelude::*;
use vstd::slice::slice_to_vec;
use vstd::utf8::encode_utf8;

use crate::serial::detector::PortInfo;
use crate::text::{ascii_upper, chars_of, decode_lossy, decoded, push_decimal, push_str, seq_starts_with, starts_with, trim_str, trimmed};

verus! {

/// Name of the port the AT modem profile exposes.
pub open spec fn at_modem_port() -> Seq<char> {
    "sim://at-modem"@
}

/// Interval between status reports, in milliseconds.
pub const PERIODIC_STATUS_INTERVAL_MS: u64 = 5000;

/// A simulated device profile.
#[derive(Clone, Copy, Debug, PartialEq, Eq, Structural)]
pub enum SimProfile {
    AtModem,
}

impl SimProfile {
    /// The profile with the given name, if any.
    pub fn from_name(name: &str) -> (p: Option<Self>)
        ensures
            p == if name@ == "at-modem"@ {
                Some(SimProfile::AtModem)
            } else {
                None
            },
    {
        if same_chars(&chars_of(name), "at-modem") {
            Some(SimProfile::AtModem)
        } else {
            None
        }
    }

    pub fn name(self) -> (s: &'static str)
        ensures
            s@ == "at-modem"@,
    {
        "at-modem"
    }

    pub fn port_name(self) -> (s: &'static str)
        ensures
            s@ == at_modem_port(),
    {
        "sim://at-modem"
    }

    pub fn description(self) -> (s: &'static str)
        ensures
            s@ == "Simulated AT modem"@,
    {
        "Simulated AT modem"
    }
}

/// A transport whose only port is the simulated device of its profile.
#[derive(Clone, Debug)]
pub struct SimTransport {
    pub profile: SimProfile,
}

impl SimTransport {
    pub fn new(profile: SimProfile) -> (t: Self)
        ensures
            t.profile == profile,
    {
        SimTransport { profile }
    }

    pub fn default_port(&self) -> (s: &'static str)
        ensures
            s@ == at_modem_port(),
    {
        self.profile.port_name()
    }

    /// The one port of the profile, with its description.
    pub fn available_ports(&self) -> (v: Vec<PortInfo>)
        ensures
            v@.len() == 1,
            v@[0].name@ == at_modem_port(),
            v@[0].description@ == "Simulated AT modem"@,
    {
        let mut v = Vec::new();
        v.push(
            PortInfo {
                name: String::from_str(self.profile.port_name()),
                description: String::from_str(self.profile.description()),
            },
        );
        v
    }

    /// Opens the profile's port; any other port name is refused with a message naming the
    /// profile and the port.
    pub fn open(&self, port_name: &str, now_ms: u64) -> (r: Result<SimConnection, String>)
        ensures
            port_name@ == at_modem_port() ==> (r matches Ok(c) && c@ == new_connection_view(now_ms)),
            port_name@ != at_modem_port() ==> (r matches Err(e) && e@ == "simulated profile "@
                + "at-modem"@ + " does not expose port "@ + port_name@),
    {
        let a = chars_of(port_name);
        let b = chars_of(self.profile.port_name());
        if a.len() == b.len() && starts_with(&a, &b) {
            assert(a@ =~= a@.take(b@.len() as int));
            Ok(SimConnection::new(self.profile, now_ms))
        } else {
            proof {
                if port_name@ == at_modem_port() {
                    assert(a@.take(b@.len() as int) =~= a@);
                }
            }
            let mut e = String::from_str("simulated profile ");
            push_str(&mut e, self.profile.name());
            push_str(&mut e, " does not expose port ");
            push_str(&mut e, port_name);
            Err(e)
        }
    }

    /// The simulated port always runs at 115200 baud; other ports cannot be detected.
    pub fn auto_detect_baud(&self, port_name: &str) -> (r: Option<u32>)
        ensures
            r == if port_name@ == at_modem_port() {
                Some(115200u32)
            } else {
                None
            },
    {
        let a = chars_of(port_name);
        let b = chars_of(self.profile.port_name());
        if a.len() == b.len() && starts_with(&a, &b) {
            assert(a@ =~= a@.take(b@.len() as int));
            Some(115200)
        } else {
            proof {
                if port_name@ == at_modem_port() {
                    assert(a@.take(b@.len() as int) =~= a@);
                }
            }
            None
        }
    }
}

/// What the device sends.
pub enum SimEvent {
    Data(Vec<u8>),
    Error(String),
    Disconnected,
}

/// What the device sends, as plain values.
pub ghost enum EventView {
    Data(Seq<u8>),
    Error(Seq<char>),
    Disconnected,
}

impl View for SimEvent {
    type V = EventView;

    open spec fn view(&self) -> EventView {
        match self {
            SimEvent::Data(d) => EventView::Data(d@),
            SimEvent::Error(m) => EventView::Error(m@),
            SimEvent::Disconnected => EventView::Disconnected,
        }
    }
}

/// An event waiting to be sent, with the time left before it is due.
pub struct PendingEvent {
    pub remaining_ms: u64,
    pub event: SimEvent,
}

/// A pending event as plain values.
pub ghost struct PendingView {
    pub remaining: nat,
    pub event: EventView,
}

impl View for PendingEvent {
    type V = PendingView;

    open spec fn view(&self) -> PendingView {
        PendingView { remaining: self.remaining_ms as nat, event: self.event@ }
    }
}

/// Pending events as plain values.
pub open spec fn pending_view(v: Seq<PendingEvent>) -> Seq<PendingView> {
    v.map_values(|p: PendingEvent| p@)
}

/// Text sent after `delay` milliseconds, as UTF-8 bytes.
pub open spec fn data_after(delay: nat, text: Seq<char>) -> PendingView {
    PendingView { remaining: delay, event: EventView::Data(encode_utf8(text)) }
}

/// Abstract state of the simulated AT modem.
pub ghost struct DeviceView {
    /// Bytes of the command being typed.
    pub input: Seq<u8>,
    /// The last byte was a carriage return.
    pub saw_cr: bool,
    pub boot_count: nat,
    pub wifi_mode: bool,
    pub wifi_connected: bool,
}

/// The boot banner, due 50 and 100 ms after boot; boot counts one more.
pub open spec fn boot(d: DeviceView) -> (DeviceView, Seq<PendingView>) {
    (
        DeviceView { boot_count: d.boot_count + 1, ..d },
        seq![
            data_after(50, "BOOT: yapper simulated AT modem\r\n"@),
            data_after(100, "READY\r\n"@),
        ],
    )
}

/// `events` each delayed by a further `extra` milliseconds.
pub open spec fn delayed(events: Seq<PendingView>, extra: nat) -> Seq<PendingView> {
    events.map_values(|e: PendingView| PendingView { remaining: e.remaining + extra, ..e })
}

/// The reply to a non-empty command, and the device state after it.
pub open spec fn respond(d: DeviceView, command: Seq<char>) -> (DeviceView, Seq<PendingView>) {
    let upper = ascii_upper(command);
    if upper == "AT"@ {
        (d, seq![data_after(20, "OK\r\n"@)])
    } else if upper == "AT+GMR"@ {
        (d, seq![data_after(20, "yapper-sim 0.1.0\r\n"@), data_after(25, "OK\r\n"@)])
    } else if upper == "AT+RST"@ {
        let (d2, b) = boot(DeviceView { wifi_connected: false, ..d });
        (d2, seq![data_after(20, "OK\r\n"@)] + delayed(b, 50))
    } else if upper == "AT+CWMODE=1"@ {
        (
            DeviceView { wifi_mode: true, ..d },
            seq![data_after(30, "WIFI MODE: STA\r\n"@), data_after(35, "OK\r\n"@)],
        )
    } else if upper == "AT+CWQAP"@ {
        (
            DeviceView { wifi_connected: false, ..d },
            seq![data_after(30, "WIFI DISCONNECT\r\n"@), data_after(35, "OK\r\n"@)],
        )
    } else if upper == "AT+SIMDISCONNECT"@ {
        (d, seq![PendingView { remaining: 20, event: EventView::Disconnected }])
    } else if upper == "AT+SIMERROR"@ {
        (
            d,
            seq![
                PendingView {
                    remaining: 20,
                    event: EventView::Error("simulated device error"@),
                },
            ],
        )
    } else if seq_starts_with(upper, "AT+CWJAP="@) {
        (
            DeviceView { wifi_mode: true, wifi_connected: true, ..d },
            seq![
                data_after(50, "WIFI CONNECTED\r\n"@),
                data_after(75, "WIFI GOT IP\r\n"@),
                data_after(80, "OK\r\n"@),
            ],
        )
    } else {
        (d, seq![data_after(20, "ERROR\r\n"@)])
    }
}

/// Ends the command being typed: it is decoded, trimmed and answered unless it is empty.
pub open spec fn commit(d: DeviceView) -> (DeviceView, Seq<PendingView>) {
    let command = trimmed(decoded(d.input));
    let cleared = DeviceView { input: Seq::empty(), ..d };
    if command.len() == 0 {
        (cleared, Seq::empty())
    } else {
        respond(cleared, command)
    }
}

/// One received byte: CR ends a command; LF ends one too unless it directly follows a CR;
/// any other byte is added to the command.
pub open spec fn step(d: DeviceView, b: u8) -> (DeviceView, Seq<PendingView>) {
    if b == 13 {
        let (d2, e) = commit(d);
        (DeviceView { saw_cr: true, ..d2 }, e)
    } else if b == 10 && d.saw_cr {
        (DeviceView { saw_cr: false, ..d }, Seq::empty())
    } else if b == 10 {
        commit(d)
    } else {
        (DeviceView { saw_cr: false, input: d.input.push(b), ..d }, Seq::empty())
    }
}

/// The bytes received in order, with every reply they cause.
pub open spec fn accept(d: DeviceView, data: Seq<u8>) -> (DeviceView, Seq<PendingView>)
    decreases data.len(),
{
    if data.len() == 0 {
        (d, Seq::empty())
    } else {
        let (d1, e1) = accept(d, data.drop_last());
        let (d2, e2) = step(d1, data.last());
        (d2, e1 + e2)
    }
}

/// The `+STATUS` report: the WiFi state and the boot count.
pub open spec fn status_report(d: DeviceView) -> PendingView {
    let wifi = if d.wifi_connected {
        "CONNECTED"@
    } else if d.wifi_mode {
        "IDLE"@
    } else {
        "OFF"@
    };
    PendingView {
        remaining: 0,
        event: EventView::Data(
            encode_utf8("+STATUS: WIFI="@ + wifi + ",BOOT="@ + crate::text::dec_digits(d.boot_count) + "\r\n"@),
        ),
    }
}

/// What the WiFi and reset commands do to the device, in any ASCII case: joining a network
/// (`AT+CWJAP=...`) marks WiFi on and connected, so that the next status report reads
/// `WIFI=CONNECTED`, and it is answered with `OK` after the connection messages; `AT+CWQAP`
/// leaves the network; `AT+CWMODE=1` turns WiFi on; `AT+RST` drops the connection and boots
/// once more. None of them touches anything else, and `AT` and `AT+GMR` change nothing.
pub proof fn law_wifi_and_reset_commands(d: DeviceView, cmd: Seq<char>)
    ensures
        ({
            let (d1, replies) = respond(d, cmd);
            let u = ascii_upper(cmd);
            &&& seq_starts_with(u, "AT+CWJAP="@) ==> {
                &&& d1 == (DeviceView { wifi_mode: true, wifi_connected: true, ..d })
                &&& status_report(d1) == (PendingView {
                    remaining: 0,
                    event: EventView::Data(
                        encode_utf8(
                            "+STATUS: WIFI=CONNECTED,BOOT="@ + crate::text::dec_digits(d.boot_count) + "\r\n"@,
                        ),
                    ),
                })
                &&& replies.len() == 3 && replies.last() == data_after(80, "OK\r\n"@)
            }
            &&& u == "AT+CWQAP"@ ==> d1 == (DeviceView { wifi_connected: false, ..d })
            &&& u == "AT+CWMODE=1"@ ==> d1 == (DeviceView { wifi_mode: true, ..d })
            &&& u == "AT+RST"@ ==> d1 == (DeviceView {
                wifi_connected: false,
                boot_count: d.boot_count + 1,
                ..d
            })
            &&& (u == "AT"@ || u == "AT+GMR"@) ==> d1 == d && replies.last() == data_after(
                if u == "AT"@ { 20 } else { 25 },
                "OK\r\n"@,
            )
        }),
{
    reveal_strlit("AT");
    reveal_strlit("AT+GMR");
    reveal_strlit("AT+RST");
    reveal_strlit("AT+CWMODE=1");
    reveal_strlit("AT+CWQAP");
    reveal_strlit("AT+SIMDISCONNECT");
    reveal_strlit("AT+SIMERROR");
    reveal_strlit("AT+CWJAP=");
    reveal_strlit("CONNECTED");
    reveal_strlit("+STATUS: WIFI=");
    reveal_strlit(",BOOT=");
    reveal_strlit("+STATUS: WIFI=CONNECTED,BOOT=");
    assert("+STATUS: WIFI="@ + "CONNECTED"@ + ",BOOT="@ =~= "+STATUS: WIFI=CONNECTED,BOOT="@);
    let u = ascii_upper(cmd);
    let p = "AT+CWJAP="@;
    if seq_starts_with(u, p) {
        assert(u[3] == p[3] && u[5] == p[5] && u.len() >= 9);
        assert(u != "AT"@ && u != "AT+GMR"@ && u != "AT+RST"@ && u != "AT+CWQAP"@);
        assert(u != "AT+CWMODE=1"@) by {
            assert("AT+CWMODE=1"@[5] != p[5]);
        }
        assert(u != "AT+SIMDISCONNECT"@ && u != "AT+SIMERROR"@) by {
            assert("AT+SIMDISCONNECT"@[3] != p[3]);
            assert("AT+SIMERROR"@[3] != p[3]);
        }
    }
    assert("AT+GMR"@ != "AT+RST"@) by {
        assert("AT+GMR"@[3] != "AT+RST"@[3]);
    }
    assert("AT"@.len() == 2 && "AT+GMR"@.len() == 6 && "AT+RST"@.len() == 6 && "AT+CWMODE=1"@.len() == 11
        && "AT+CWQAP"@.len() == 8);
    if u == "AT+CWQAP"@ || u == "AT+CWMODE=1"@ || u == "AT+RST"@ || u == "AT"@ || u == "AT+GMR"@ {
        assert(!seq_starts_with(u, p)) by {
            if u.len() >= 9 {
                assert(u == "AT+CWMODE=1"@);
                assert(u[5] != p[5]);
            }
        }
    }
}

/// The commands that only answer leave the device as it was: `AT+SIMDISCONNECT` drops the
/// link after 20 ms, `AT+SIMERROR` reports a device error, and any command the modem does not
/// know is answered `ERROR`.
pub proof fn law_answer_only_commands(d: DeviceView, cmd: Seq<char>)
    ensures
        ({
            let u = ascii_upper(cmd);
            &&& u == "AT+SIMDISCONNECT"@ ==> respond(d, cmd) == (d, seq![
                PendingView { remaining: 20, event: EventView::Disconnected },
            ])
            &&& u == "AT+SIMERROR"@ ==> respond(d, cmd).0 == d && respond(d, cmd).1.len() == 1
                && respond(d, cmd).1[0].event is Error
            &&& (u != "AT"@ && u != "AT+GMR"@ && u != "AT+RST"@ && u != "AT+CWMODE=1"@ && u
                != "AT+CWQAP"@ && u != "AT+SIMDISCONNECT"@ && u != "AT+SIMERROR"@ && !seq_starts_with(
                u,
                "AT+CWJAP="@,
            )) ==> respond(d, cmd) == (d, seq![data_after(20, "ERROR\r\n"@)])
        }),
{
    reveal_strlit("AT");
    reveal_strlit("AT+GMR");
    reveal_strlit("AT+RST");
    reveal_strlit("AT+CWMODE=1");
    reveal_strlit("AT+CWQAP");
    reveal_strlit("AT+SIMDISCONNECT");
    reveal_strlit("AT+SIMERROR");
    reveal_strlit("AT+CWJAP=");
    assert("AT"@.len() == 2 && "AT+GMR"@.len() == 6 && "AT+RST"@.len() == 6 && "AT+CWMODE=1"@.len() == 11
        && "AT+CWQAP"@.len() == 8 && "AT+SIMDISCONNECT"@.len() == 16 && "AT+SIMERROR"@.len() == 11);
    assert("AT+SIMERROR"@[3] != "AT+CWMODE=1"@[3]);
    let u = ascii_upper(cmd);
    if u == "AT+SIMDISCONNECT"@ || u == "AT+SIMERROR"@ {
        assert(!seq_starts_with(u, "AT+CWJAP="@)) by {
            assert(u[3] != "AT+CWJAP="@[3]);
        }
    }
}

/// Input may arrive in pieces: taking in `a` and then `b` leaves the device in the same state,
/// with the same replies in the same order, as taking in `a` followed by `b` at once.
pub proof fn law_accept_split(d: DeviceView, a: Seq<u8>, b: Seq<u8>)
    ensures
        accept(accept(d, a).0, b).0 == accept(d, a + b).0,
        accept(d, a).1 + accept(accept(d, a).0, b).1 == accept(d, a + b).1,
    decreases b.len(),
{
    if b.len() == 0 {
        assert(a + b =~= a);
    } else {
        law_accept_split(d, a, b.drop_last());
        assert((a + b).drop_last() =~= a + b.drop_last());
        assert((a + b).last() == b.last());
        let (d1, e1) = accept(accept(d, a).0, b.drop_last());
        let (d2, e2) = step(d1, b.last());
        assert(accept(d, a).1 + (e1 + e2) =~= (accept(d, a).1 + e1) + e2);
    }
}

/// A line feed right after a carriage return ends nothing more: CR LF answers exactly like CR.
pub proof fn law_crlf_is_one_line_end(d: DeviceView)
    ensures
        step(step(d, 13).0, 10).1 == Seq::<PendingView>::empty(),
        step(step(d, 13).0, 10).0 == (DeviceView { saw_cr: false, ..step(d, 13).0 }),
{
}

proof fn lemma_accept_boot_bound(d: DeviceView, data: Seq<u8>)
    ensures
        accept(d, data).0.boot_count <= d.boot_count + data.len(),
    decreases data.len(),
{
    if data.len() > 0 {
        lemma_accept_boot_bound(d, data.drop_last());
    }
}

/// The simulated AT modem.
pub struct AtModemDevice {
    input: Vec<u8>,
    saw_cr: bool,
    boot_count: u32,
    wifi_mode: bool,
    wifi_connected: bool,
}

impl View for AtModemDevice {
    type V = DeviceView;

    closed spec fn view(&self) -> DeviceView {
        DeviceView {
            input: self.input@,
            saw_cr: self.saw_cr,
            boot_count: self.boot_count as nat,
            wifi_mode: self.wifi_mode,
            wifi_connected: self.wifi_connected,
        }
    }
}

/// The UTF-8 bytes of `s`.
fn text_bytes(s: &str) -> (v: Vec<u8>)
    ensures
        v@ == encode_utf8(s@),
{
    slice_to_vec(s.as_bytes())
}

/// A data event due after `delay_ms`.
fn data_event(delay_ms: u64, s: &str) -> (p: PendingEvent)
    ensures
        p@ == data_after(delay_ms as nat, s@),
{
    PendingEvent { remaining_ms: delay_ms, event: SimEvent::Data(text_bytes(s)) }
}

/// Whether `a` holds exactly the characters of `b`.
fn same_chars(a: &Vec<char>, b: &str) -> (r: bool)
    ensures
        r == (a@ == b@),
{
    let bv = chars_of(b);
    if a.len() == bv.len() && starts_with(a, &bv) {
        assert(a@ =~= a@.take(bv@.len() as int));
        true
    } else {
        proof {
            if a@ == b@ {
                assert(a@.take(bv@.len() as int) =~= a@);
            }
        }
        false
    }
}

impl AtModemDevice {
    pub fn new() -> (d: Self)
        ensures
            d@ == (DeviceView {
                input: Seq::empty(),
                saw_cr: false,
                boot_count: 0,
                wifi_mode: false,
                wifi_connected: false,
            }),
    {
        AtModemDevice {
            input: Vec::new(),
            saw_cr: false,
            boot_count: 0,
            wifi_mode: false,
            wifi_connected: false,
        }
    }

    /// Boots: the banner and `READY` fall due after 50 and 100 ms.
    pub fn boot_events(&mut self) -> (e: Vec<PendingEvent>)
        requires
            old(self)@.boot_count < u32::MAX,
        ensures
            (final(self)@, pending_view(e@)) == boot(old(self)@),
    {
        self.boot_count = self.boot_count + 1;
        let mut v = Vec::new();
        v.push(data_event(50, "BOOT: yapper simulated AT modem\r\n"));
        v.push(data_event(100, "READY\r\n"));
        assert(pending_view(v@) =~= boot(old(self)@).1);
        v
    }

    /// The status report, due at once.
    pub fn periodic_status(&self) -> (e: Vec<PendingEvent>)
        ensures
            pending_view(e@) == seq![status_report(self@)],
    {
        let wifi = if self.wifi_connected {
            "CONNECTED"
        } else if self.wifi_mode {
            "IDLE"
        } else {
            "OFF"
        };
        let mut s = String::from_str("+STATUS: WIFI=");
        push_str(&mut s, wifi);
        push_str(&mut s, ",BOOT=");
        push_decimal(&mut s, self.boot_count as u64);
        push_str(&mut s, "\r\n");
        let mut v = Vec::new();
        v.push(PendingEvent { remaining_ms: 0, event: SimEvent::Data(text_bytes(s.as_str())) });
        assert(pending_view(v@) =~= seq![status_report(self@)]);
        v
    }

    /// Takes in received bytes and returns the replies they cause.
    pub fn accept_bytes(&mut self, data: &[u8]) -> (e: Vec<PendingEvent>)
        requires
            old(self)@.boot_count + data@.len() <= u32::MAX,
        ensures
            (final(self)@, pending_view(e@)) == accept(old(self)@, data@),
    {
        let mut events: Vec<PendingEvent> = Vec::new();
        let mut i: usize = 0;
        let ghost start = self@;
        proof {
            assert(data@.take(0) =~= Seq::<u8>::empty());
        }
        while i < data.len()
            invariant
                i <= data@.len(),
                start.boot_count + data@.len() <= u32::MAX,
                (self@, pending_view(events@)) == accept(start, data@.take(i as int)),
            decreases data.len() - i,
        {
            let byte = data[i];
            proof {
                assert(data@.take(i + 1).drop_last() =~= data@.take(i as int));
                lemma_accept_boot_bound(start, data@.take(i as int));
            }
            let ghost before = pending_view(events@);
            let ghost d1 = self@;
            let mut more = if byte == 13 {
                let e = self.commit_command();
                self.saw_cr = true;
                e
            } else if byte == 10 && self.saw_cr {
                self.saw_cr = false;
                Vec::new()
            } else if byte == 10 {
                self.commit_command()
            } else {
                self.saw_cr = false;
                self.input.push(byte);
                Vec::new()
            };
            proof {
                assert(pending_view(more@) == step(d1, byte).1);
                assert(self@ == step(d1, byte).0);
            }
            let ghost more_view = pending_view(more@);
            events.append(&mut more);
            proof {
                assert(pending_view(events@) =~= before + more_view);
            }
            i = i + 1;
        }
        proof {
            assert(data@.take(data@.len() as int) =~= data@);
        }
        events
    }

    /// Ends the command being typed and answers it.
    fn commit_command(&mut self) -> (e: Vec<PendingEvent>)
        requires
            old(self)@.boot_count < u32::MAX,
        ensures
            (final(self)@, pending_view(e@)) == commit(old(self)@),
    {
        let mut raw: Vec<u8> = Vec::new();
        std::mem::swap(&mut raw, &mut self.input);
        let text = decode_lossy(raw.as_slice());
        let command = trim_str(text.as_str());
        if command.as_str().unicode_len() == 0 {
            let v: Vec<PendingEvent> = Vec::new();
            assert(pending_view(v@) =~= Seq::<PendingView>::empty());
            return v;
        }
        self.handle_command(command.as_str())
    }

    /// Answers a non-empty command.
    fn handle_command(&mut self, command: &str) -> (e: Vec<PendingEvent>)
        requires
            old(self)@.boot_count < u32::MAX,
        ensures
            (final(self)@, pending_view(e@)) == respond(old(self)@, command@),
    {
        let upper = ascii_uppercase(command);
        let ghost u = ascii_upper(command@);
        let mut v: Vec<PendingEvent> = Vec::new();
        if same_chars(&upper, "AT") {
            v.push(data_event(20, "OK\r\n"));
        } else if same_chars(&upper, "AT+GMR") {
            v.push(data_event(20, "yapper-sim 0.1.0\r\n"));
            v.push(data_event(25, "OK\r\n"));
        } else if same_chars(&upper, "AT+RST") {
            self.wifi_connected = false;
            v.push(data_event(20, "OK\r\n"));
            let ghost mid = self@;
            let booted = self.boot_events();
            assert(booted@.len() == pending_view(booted@).len());
            assert(booted@[0]@ == pending_view(booted@)[0]);
            assert(booted@[1]@ == pending_view(booted@)[1]);
            let mut k: usize = 0;
            while k < booted.len()
                invariant
                    k <= booted@.len(),
                    v@.len() == 1 + k,
                    pending_view(v@) == seq![data_after(20, "OK\r\n"@)] + delayed(
                        pending_view(booted@).take(k as int),
                        50,
                    ),
                    forall|j: int| 0 <= j < booted@.len() ==> #[trigger] booted@[j].remaining_ms <= 100,
                decreases booted.len() - k,
            {
                let ev = match &booted[k].event {
                    SimEvent::Data(d) => SimEvent::Data(d.clone()),
                    SimEvent::Error(m) => SimEvent::Error(m.clone()),
                    SimEvent::Disconnected => SimEvent::Disconnected,
                };
                let ghost before = pending_view(v@);
                v.push(PendingEvent { remaining_ms: booted[k].remaining_ms + 50, event: ev });
                proof {
                    assert(pending_view(booted@).take(k + 1) =~= pending_view(booted@).take(k as int).push(
                        booted@[k as int]@,
                    ));
                    assert(pending_view(v@) =~= before.push(v@[k + 1]@));
                    assert(delayed(pending_view(booted@).take(k + 1), 50) =~= delayed(
                        pending_view(booted@).take(k as int),
                        50,
                    ).push(PendingView { remaining: booted@[k as int]@.remaining + 50, ..booted@[k as int]@ }));
                }
                k = k + 1;
            }
            proof {
                assert(pending_view(booted@).take(booted@.len() as int) =~= pending_view(booted@));
            }
        } else if same_chars(&upper, "AT+CWMODE=1") {
            self.wifi_mode = true;
            v.push(data_event(30, "WIFI MODE: STA\r\n"));
            v.push(data_event(35, "OK\r\n"));
        } else if same_chars(&upper, "AT+CWQAP") {
            self.wifi_connected = false;
            v.push(data_event(30, "WIFI DISCONNECT\r\n"));
            v.push(data_event(35, "OK\r\n"));
        } else if same_chars(&upper, "AT+SIMDISCONNECT") {
            v.push(PendingEvent { remaining_ms: 20, event: SimEvent::Disconnected });
        } else if same_chars(&upper, "AT+SIMERROR") {
            v.push(
                PendingEvent {
                    remaining_ms: 20,
                    event: SimEvent::Error(String::from_str("simulated device error")),
                },
            );
        } else if starts_with(&upper, &chars_of("AT+CWJAP=")) {
            self.wifi_mode = true;
            self.wifi_connected = true;
            v.push(data_event(50, "WIFI CONNECTED\r\n"));
            v.push(data_event(75, "WIFI GOT IP\r\n"));
            v.push(data_event(80, "OK\r\n"));
        } else {
            v.push(data_event(20, "ERROR\r\n"));
        }
        assert(pending_view(v@) =~= respond(old(self)@, command@).1);
        v
    }
}

/// The characters of `s` with ASCII letters upper-cased.
fn ascii_uppercase(s: &str) -> (v: Vec<char>)
    ensures
        v@ == ascii_upper(s@),
{
    let chars = chars_of(s);
    let mut v: Vec<char> = Vec::new();
    let mut i: usize = 0;
    while i < chars.len()
        invariant
            chars@ == s@,
            i <= chars@.len(),
            v@ == ascii_upper(chars@.take(i as int)),
        decreases chars.len() - i,
    {
        let c = chars[i];
        let u = if 'a' <= c && c <= 'z' {
            ((c as u8) - 32) as char
        } else {
            c
        };
        proof {
            assert(ascii_upper(chars@.take(i + 1)) =~= ascii_upper(chars@.take(i as int)).push(
                if 'a' <= c && c <= 'z' {
                    ((c as u32) - 32) as char
                } else {
                    c
                },
            ));
        }
        v.push(u);
        i = i + 1;
    }
    proof {
        assert(chars@.take(chars@.len() as int) =~= chars@);
    }
    v
}

/// The events due after `delta` ms, in order.
pub open spec fn due_events(pending: Seq<PendingView>, delta: nat) -> Seq<EventView>
    decreases pending.len(),
{
    if pending.len() == 0 {
        Seq::empty()
    } else {
        let rest = due_events(pending.drop_last(), delta);
        if delta >= pending.last().remaining {
            rest.push(pending.last().event)
        } else {
            rest
        }
    }
}

/// The events still waiting after `delta` ms, with `delta` taken off their delays.
pub open spec fn waiting_events(pending: Seq<PendingView>, delta: nat) -> Seq<PendingView>
    decreases pending.len(),
{
    if pending.len() == 0 {
        Seq::empty()
    } else {
        let rest = waiting_events(pending.drop_last(), delta);
        let p = pending.last();
        if delta >= p.remaining {
            rest
        } else {
            rest.push(PendingView { remaining: (p.remaining - delta) as nat, ..p })
        }
    }
}

/// A tick loses and duplicates nothing: every pending event is either emitted or still waiting.
pub proof fn law_tick_partitions_pending(pending: Seq<PendingView>, delta: nat)
    ensures
        due_events(pending, delta).len() + waiting_events(pending, delta).len() == pending.len(),
    decreases pending.len(),
{
    if pending.len() > 0 {
        law_tick_partitions_pending(pending.drop_last(), delta);
    }
}

/// Abstract state of a simulated connection.
pub ghost struct ConnectionView {
    pub device: DeviceView,
    pub pending: Seq<PendingView>,
    pub tx_bytes: nat,
    pub last_tick_ms: nat,
    pub periodic_remaining_ms: nat,
    pub closed: bool,
}

/// A freshly opened connection at time `now`: the boot banner is pending.
pub open spec fn new_connection_view(now: u64) -> ConnectionView {
    let d0 = DeviceView {
        input: Seq::empty(),
        saw_cr: false,
        boot_count: 0,
        wifi_mode: false,
        wifi_connected: false,
    };
    ConnectionView {
        device: boot(d0).0,
        pending: boot(d0).1,
        tx_bytes: 0,
        last_tick_ms: now as nat,
        periodic_remaining_ms: PERIODIC_STATUS_INTERVAL_MS as nat,
        closed: false,
    }
}

/// The pending events after the periodic check of a tick `delta` ms long.
pub open spec fn pending_after_status(c: ConnectionView, delta: nat) -> Seq<PendingView> {
    if delta >= c.periodic_remaining_ms {
        c.pending.push(status_report(c.device))
    } else {
        c.pending
    }
}

/// State after a tick at time `now`.
pub open spec fn tick_view(c: ConnectionView, now: nat) -> ConnectionView {
    if c.closed {
        c
    } else {
        let delta: nat = if now >= c.last_tick_ms {
            (now - c.last_tick_ms) as nat
        } else {
            0
        };
        ConnectionView {
            pending: waiting_events(pending_after_status(c, delta), delta),
            last_tick_ms: now,
            periodic_remaining_ms: if delta >= c.periodic_remaining_ms {
                PERIODIC_STATUS_INTERVAL_MS as nat
            } else {
                (c.periodic_remaining_ms - delta) as nat
            },
            ..c
        }
    }
}

/// Events emitted by a tick at time `now`.
pub open spec fn tick_events(c: ConnectionView, now: nat) -> Seq<EventView> {
    if c.closed {
        Seq::empty()
    } else {
        let delta: nat = if now >= c.last_tick_ms {
            (now - c.last_tick_ms) as nat
        } else {
            0
        };
        due_events(pending_after_status(c, delta), delta)
    }
}

/// A connection to the simulated device.
pub struct SimConnection {
    port_name: String,
    device: AtModemDevice,
    pending: Vec<PendingEvent>,
    tx_bytes: u64,
    last_tick_ms: u64,
    periodic_remaining_ms: u64,
    closed: bool,
}

impl View for SimConnection {
    type V = ConnectionView;

    closed spec fn view(&self) -> ConnectionView {
        ConnectionView {
            device: self.device@,
            pending: pending_view(self.pending@),
            tx_bytes: self.tx_bytes as nat,
            last_tick_ms: self.last_tick_ms as nat,
            periodic_remaining_ms: self.periodic_remaining_ms as nat,
            closed: self.closed,
        }
    }
}

impl SimConnection {
    /// Opens a connection at time `now_ms`; the device boots at once.
    pub fn new(profile: SimProfile, now_ms: u64) -> (c: Self)
        ensures
            c@ == new_connection_view(now_ms),
            c.spec_port_name() == at_modem_port(),
    {
        let mut device = AtModemDevice::new();
        let pending = device.boot_events();
        SimConnection {
            port_name: String::from_str(profile.port_name()),
            device,
            pending,
            tx_bytes: 0,
            last_tick_ms: now_ms,
            periodic_remaining_ms: PERIODIC_STATUS_INTERVAL_MS,
            closed: false,
        }
    }

    pub closed spec fn spec_port_name(&self) -> Seq<char> {
        self.port_name@
    }

    /// The device takes in the bytes, which count as sent; refused once closed.
    pub fn write(&mut self, data: &[u8]) -> (r: Result<usize, String>)
        requires
            old(self)@.tx_bytes + data@.len() <= u64::MAX,
            old(self)@.device.boot_count + data@.len() <= u32::MAX,
        ensures
            old(self)@.closed ==> (r matches Err(e) && e@ == "simulated connection is closed"@
                && final(self)@ == old(self)@),
            !old(self)@.closed ==> r == Ok::<usize, String>(data@.len() as usize) && final(self)@
                == (ConnectionView {
                tx_bytes: old(self)@.tx_bytes + data@.len(),
                device: accept(old(self)@.device, data@).0,
                pending: old(self)@.pending + accept(old(self)@.device, data@).1,
                ..old(self)@
            }),
            final(self).spec_port_name() == old(self).spec_port_name(),
    {
        if self.closed {
            return Err(String::from_str("simulated connection is closed"));
        }
        self.tx_bytes = self.tx_bytes + data.len() as u64;
        let mut events = self.device.accept_bytes(data);
        let ghost before = pending_view(self.pending@);
        let ghost added = pending_view(events@);
        self.pending.append(&mut events);
        assert(pending_view(self.pending@) =~= before + added);
        Ok(data.len())
    }

    pub fn tx_bytes(&self) -> (n: u64)
        ensures
            n == self@.tx_bytes,
    {
        self.tx_bytes
    }

    /// The simulated device counts no received bytes.
    pub fn rx_bytes(&self) -> (n: u64)
        ensures
            n == 0,
    {
        0
    }

    pub fn port_name(&self) -> (s: &str)
        ensures
            s@ == self.spec_port_name(),
    {
        self.port_name.as_str()
    }

    /// Advances the clock to `now_ms` and returns the events that fell due, in order; queues
    /// a status report every five seconds. Nothing happens once closed.
    pub fn tick(&mut self, now_ms: u64) -> (due: Vec<SimEvent>)
        ensures
            final(self)@ == tick_view(old(self)@, now_ms as nat),
            due@.map_values(|e: SimEvent| e@) == tick_events(old(self)@, now_ms as nat),
            final(self).spec_port_name() == old(self).spec_port_name(),
    {
        if self.closed {
            let v: Vec<SimEvent> = Vec::new();
            assert(v@.map_values(|e: SimEvent| e@) =~= Seq::<EventView>::empty());
            return v;
        }
        let delta = if now_ms >= self.last_tick_ms {
            now_ms - self.last_tick_ms
        } else {
            0
        };
        self.last_tick_ms = now_ms;
        let ghost c = old(self)@;
        if delta >= self.periodic_remaining_ms {
            let mut status = self.device.periodic_status();
            let ghost sv = pending_view(status@);
            let ghost before = pending_view(self.pending@);
            self.pending.append(&mut status);
            assert(pending_view(self.pending@) =~= before + sv);
            self.periodic_remaining_ms = PERIODIC_STATUS_INTERVAL_MS;
        } else {
            self.periodic_remaining_ms = self.periodic_remaining_ms - delta;
        }
        let ghost all = pending_view(self.pending@);
        assert(all == pending_after_status(c, delta as nat));
        let mut queued: Vec<PendingEvent> = Vec::new();
        std::mem::swap(&mut queued, &mut self.pending);
        let qlen = queued.len();
        assert(pending_view(queued@).len() == qlen);
        let mut due: Vec<SimEvent> = Vec::new();
        let mut i: usize = 0;
        let mut rest = queued;
        let mut waiting: Vec<PendingEvent> = Vec::new();
        proof {
            assert(all.take(0) =~= Seq::<PendingView>::empty());
        }
        // Walk the queue in order, keeping the events not yet due.
        while rest.len() > 0
            invariant
                i + rest@.len() == all.len(),
                all.len() <= usize::MAX,
                pending_view(rest@) == all.skip(i as int),
                due@.map_values(|e: SimEvent| e@) == due_events(all.take(i as int), delta as nat),
                pending_view(waiting@) == waiting_events(all.take(i as int), delta as nat),
            decreases rest.len(),
        {
            let ghost rest_before = pending_view(rest@);
            let p = rest.remove(0);
            proof {
                assert(pending_view(rest@) =~= rest_before.drop_first());
                assert(all.skip(i as int)[0] == p@);
                assert(pending_view(rest@) =~= all.skip(i + 1));
                assert(all.take(i + 1).drop_last() =~= all.take(i as int));
                assert(all.take(i + 1).last() == p@);
            }
            if delta >= p.remaining_ms {
                let ghost before = due@.map_values(|e: SimEvent| e@);
                let ghost ev = p.event@;
                due.push(p.event);
                assert(due@.map_values(|e: SimEvent| e@) =~= before.push(ev));
            } else {
                let ghost before = pending_view(waiting@);
                waiting.push(PendingEvent { remaining_ms: p.remaining_ms - delta, event: p.event });
                assert(pending_view(waiting@) =~= before.push(
                    PendingView { remaining: (p@.remaining - delta) as nat, ..p@ },
                ));
            }
            i = i + 1;
        }
        proof {
            assert(all.take(all.len() as int) =~= all);
        }
        self.pending = waiting;
        due
    }

    /// Closes the connection: writes are refused and ticks do nothing from now on.
    pub fn close(&mut self)
        ensures
            final(self)@ == (ConnectionView { closed: true, ..old(self)@ }),
            final(self).spec_port_name() == old(self).spec_port_name(),
    {
        self.closed = true;
    }
}

} // verus!
