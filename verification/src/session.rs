//! The state of a terminal session that is not the screen: which mode keys go to and where an
//! overlay returns, the connection state, reconnect back-off and queued macro commands.
//!
//! Times are milliseconds on a monotonic clock that the caller reads.
use vstd::prelude::*;

use crate::macros::MacroCommand;

verus! {

/// The application mode determines how keyboard input is handled.
#[derive(Clone, Copy, PartialEq, Eq, Structural, Debug)]
pub enum Mode {
    /// Normal mode: scroll, search, toggle settings.
    Normal,
    /// Input mode: typing commands to send.
    Input,
    /// Search mode: typing search query.
    Search,
    /// Port selector popup is open.
    PortSelect,
    /// UART settings popup is open.
    Settings,
    /// Help overlay is shown.
    Help,
    /// Macro selector popup is open.
    MacroSelect,
    /// Filter manager popup is open.
    Filter,
}

/// Every mode but Normal and Input is an overlay.
pub open spec fn overlay(m: Mode) -> bool {
    !(m == Mode::Normal || m == Mode::Input)
}

impl Mode {
    /// Whether this mode is drawn over another one, to which it returns when closed.
    pub fn is_overlay(self) -> (b: bool)
        ensures
            b == overlay(self),
    {
        match self {
            Mode::Search | Mode::PortSelect | Mode::Settings | Mode::Help | Mode::MacroSelect
            | Mode::Filter => true,
            _ => false,
        }
    }
}

/// The current mode and the mode to restore when the current overlay closes.
#[derive(Clone, Copy, PartialEq, Eq, Structural, Debug)]
pub struct ModeState {
    pub mode: Mode,
    pub return_mode: Mode,
}

impl ModeState {
    /// Starts in `mode`, returning to it.
    pub fn new(mode: Mode) -> (s: Self)
        ensures
            s.mode == mode,
            s.return_mode == mode,
    {
        ModeState { mode, return_mode: mode }
    }

    /// Opens an overlay. The mode to return to is the current one, unless an overlay is
    /// already open, in which case it is kept.
    pub fn open_overlay(&mut self, overlay_mode: Mode)
        ensures
            final(self).mode == overlay_mode,
            final(self).return_mode == if overlay(old(self).mode) {
                old(self).return_mode
            } else {
                old(self).mode
            },
    {
        self.return_mode = if self.mode.is_overlay() {
            self.return_mode
        } else {
            self.mode
        };
        self.mode = overlay_mode;
    }

    /// Closes the overlay: back to the mode it was opened from.
    pub fn restore_mode(&mut self)
        ensures
            final(self).mode == old(self).return_mode,
            final(self).return_mode == old(self).return_mode,
    {
        self.mode = self.return_mode;
    }
}

/// Opening any number of overlays, one over another, from Normal or Input, and closing the
/// last, returns to the mode the first was opened from.
pub proof fn law_overlay_returns(start: Mode, overlays: Seq<Mode>)
    requires
        !overlay(start),
        overlays.len() > 0,
        forall|i: int| 0 <= i < overlays.len() ==> overlay(#[trigger] overlays[i]),
    ensures
        open_all(ModeState { mode: start, return_mode: start }, overlays).return_mode == start,
    decreases overlays.len(),
{
    let s = ModeState { mode: start, return_mode: start };
    if overlays.len() > 1 {
        let d = overlays.drop_last();
        law_overlay_returns(start, d);
        assert(open_all(s, d).mode == d.last());
        assert(overlay(overlays[overlays.len() - 2]));
    } else {
        assert(open_all(s, overlays.drop_last()) == s);
    }
}

/// The state after opening each overlay of `overlays` in turn.
pub open spec fn open_all(s: ModeState, overlays: Seq<Mode>) -> ModeState
    decreases overlays.len(),
{
    if overlays.len() == 0 {
        s
    } else {
        let before = open_all(s, overlays.drop_last());
        ModeState {
            mode: overlays.last(),
            return_mode: if overlay(before.mode) {
                before.return_mode
            } else {
                before.mode
            },
        }
    }
}

/// Connection state for display purposes.
#[derive(Clone, Debug, PartialEq)]
pub enum ConnectionState {
    Disconnected,
    Connected(String),
    Reconnecting(String),
    Error(String),
}

impl ConnectionState {
    /// Connected to a port.
    pub fn is_connected(&self) -> (b: bool)
        ensures
            b == self is Connected,
    {
        match self {
            ConnectionState::Connected(_) => true,
            _ => false,
        }
    }

    /// Waiting to reconnect to a port.
    pub fn is_reconnecting(&self) -> (b: bool)
        ensures
            b == self is Reconnecting,
    {
        match self {
            ConnectionState::Reconnecting(_) => true,
            _ => false,
        }
    }

    /// The port connected to or being reconnected to; empty otherwise.
    pub fn current_port(&self) -> (p: String)
        ensures
            p@ == match self {
                ConnectionState::Connected(port) => port@,
                ConnectionState::Reconnecting(port) => port@,
                _ => Seq::<char>::empty(),
            },
    {
        match self {
            ConnectionState::Connected(port) => port.clone(),
            ConnectionState::Reconnecting(port) => port.clone(),
            _ => String::new(),
        }
    }
}

/// Reconnect back-off: after each failed attempt the wait doubles, up to a maximum.
pub struct Reconnect {
    /// Port to reconnect to, when reconnecting.
    pub port: Option<String>,
    /// Configured first delay.
    pub base_delay_ms: u64,
    /// Longest delay between attempts.
    pub max_delay_ms: u64,
    /// Delay before the next attempt.
    pub current_delay_ms: u64,
    /// When the next attempt is due.
    pub next_attempt_ms: Option<u64>,
    /// Failed attempts so far.
    pub attempts: usize,
}

/// The smaller of two numbers.
pub open spec fn min_u64(a: u64, b: u64) -> u64 {
    if a <= b {
        a
    } else {
        b
    }
}

impl Reconnect {
    /// Not reconnecting; the delay starts at `base_delay_ms`, capped by `max_delay_ms`.
    pub fn new(base_delay_ms: u64, max_delay_ms: u64) -> (r: Self)
        ensures
            r.port is None,
            r.base_delay_ms == base_delay_ms,
            r.max_delay_ms == max_delay_ms,
            r.current_delay_ms == min_u64(base_delay_ms, max_delay_ms),
            r.next_attempt_ms is None,
            r.attempts == 0,
    {
        Reconnect {
            port: None,
            base_delay_ms,
            max_delay_ms,
            current_delay_ms: if base_delay_ms <= max_delay_ms {
                base_delay_ms
            } else {
                max_delay_ms
            },
            next_attempt_ms: None,
            attempts: 0,
        }
    }

    /// Stops reconnecting and starts the back-off over.
    pub fn reset(&mut self)
        ensures
            final(self).port is None,
            final(self).base_delay_ms == old(self).base_delay_ms,
            final(self).max_delay_ms == old(self).max_delay_ms,
            final(self).current_delay_ms == min_u64(old(self).base_delay_ms, old(self).max_delay_ms),
            final(self).next_attempt_ms is None,
            final(self).attempts == 0,
    {
        self.port = None;
        self.current_delay_ms = if self.base_delay_ms <= self.max_delay_ms {
            self.base_delay_ms
        } else {
            self.max_delay_ms
        };
        self.next_attempt_ms = None;
        self.attempts = 0;
    }

    /// Starts reconnecting to `port`: the first attempt is one (capped) base delay from `now`.
    pub fn schedule(&mut self, port: String, now_ms: u64)
        requires
            now_ms + min_u64(old(self).base_delay_ms, old(self).max_delay_ms) <= u64::MAX,
        ensures
            final(self).port == Some(port),
            final(self).base_delay_ms == old(self).base_delay_ms,
            final(self).max_delay_ms == old(self).max_delay_ms,
            final(self).current_delay_ms == min_u64(old(self).base_delay_ms, old(self).max_delay_ms),
            final(self).next_attempt_ms == Some((now_ms + final(self).current_delay_ms) as u64),
            final(self).attempts == 0,
    {
        self.port = Some(port);
        self.current_delay_ms = if self.base_delay_ms <= self.max_delay_ms {
            self.base_delay_ms
        } else {
            self.max_delay_ms
        };
        self.next_attempt_ms = Some(now_ms + self.current_delay_ms);
        self.attempts = 0;
    }

    /// Whether an attempt is due: reconnecting, and its time has come.
    pub fn is_due(&self, now_ms: u64) -> (b: bool)
        ensures
            b == (self.port is Some && (self.next_attempt_ms matches Some(t) && t <= now_ms)),
    {
        match (&self.port, self.next_attempt_ms) {
            (Some(_), Some(t)) => t <= now_ms,
            _ => false,
        }
    }

    /// After a failed attempt: one more attempt counted, the delay doubled (at most the
    /// maximum), the next attempt that long after `now`.
    pub fn record_failure(&mut self, now_ms: u64)
        requires
            old(self).attempts < usize::MAX,
            now_ms + old(self).max_delay_ms <= u64::MAX,
        ensures
            final(self).port == old(self).port,
            final(self).base_delay_ms == old(self).base_delay_ms,
            final(self).max_delay_ms == old(self).max_delay_ms,
            final(self).attempts == old(self).attempts + 1,
            final(self).current_delay_ms == if 2 * old(self).current_delay_ms <= old(self).max_delay_ms {
                2 * old(self).current_delay_ms
            } else {
                old(self).max_delay_ms as int
            },
            final(self).next_attempt_ms == Some((now_ms + final(self).current_delay_ms) as u64),
    {
        self.attempts = self.attempts + 1;
        let doubled: u64 = if self.current_delay_ms <= u64::MAX / 2 {
            self.current_delay_ms * 2
        } else {
            u64::MAX
        };
        self.current_delay_ms = if doubled <= self.max_delay_ms {
            doubled
        } else {
            self.max_delay_ms
        };
        self.next_attempt_ms = Some(now_ms + self.current_delay_ms);
    }

    /// The number of the coming attempt and the time left until it, while reconnecting.
    pub fn status(&self, reconnecting: bool, now_ms: u64) -> (r: Option<(usize, u64)>)
        requires
            self.attempts < usize::MAX,
        ensures
            match r {
                Some((n, left)) => {
                    &&& reconnecting
                    &&& self.next_attempt_ms matches Some(t)
                    &&& n == self.attempts + 1
                    &&& left == (if t >= now_ms {
                        t - now_ms
                    } else {
                        0
                    })
                },
                None => !reconnecting || self.next_attempt_ms is None,
            },
    {
        if !reconnecting {
            return None;
        }
        match self.next_attempt_ms {
            Some(t) => Some((self.attempts + 1, t.saturating_sub(now_ms))),
            None => None,
        }
    }
}

/// The back-off never waits longer than its maximum once it has started.
pub proof fn law_backoff_capped(delay: u64, max: u64)
    requires
        delay <= max,
    ensures
        (if 2 * delay <= max { 2 * delay } else { max as int }) <= max,
        (if 2 * delay <= max { 2 * delay } else { max as int }) >= delay,
{
}

/// What a lost connection leads to: reconnecting to the port when auto-reconnect is on and
/// a port was in use, otherwise an error with the message.
pub open spec fn after_loss(port: Seq<char>, auto_reconnect: bool, message: Seq<char>) -> (bool, Seq<char>) {
    if auto_reconnect && port.len() > 0 {
        (true, port)
    } else {
        (false, message)
    }
}

/// The connection state after the connection to `port` was lost with `message`.
pub fn connection_after_loss(port: String, auto_reconnect: bool, message: String) -> (s: ConnectionState)
    ensures
        after_loss(port@, auto_reconnect, message@).0 ==> s == ConnectionState::Reconnecting(port),
        !after_loss(port@, auto_reconnect, message@).0 ==> s == ConnectionState::Error(message),
{
    if auto_reconnect && crate::display::char_count(port.as_str()) > 0 {
        ConnectionState::Reconnecting(port)
    } else {
        ConnectionState::Error(message)
    }
}

/// A macro command waiting for its time.
#[derive(Debug)]
pub struct PendingCommand {
    pub text: String,
    pub ready_at_ms: u64,
}

/// Running times: each command is ready the sum of its own and all earlier delays after the
/// start.
pub open spec fn ready_times(start: u64, delays: Seq<u64>) -> Seq<int>
    decreases delays.len(),
{
    if delays.len() == 0 {
        Seq::empty()
    } else {
        let before = ready_times(start, delays.drop_last());
        before.push(
            if delays.len() == 1 {
                start + delays.last()
            } else {
                before.last() + delays.last()
            },
        )
    }
}

/// The commands of a running macro, sent when their time comes.
pub struct MacroQueue {
    pending: Vec<PendingCommand>,
    active: Option<String>,
}

/// What a tick of the macro queue did: the texts to send now, in order, and the name of the
/// macro that finished with them, if one did.
pub struct Drained {
    pub to_send: Vec<String>,
    pub finished: Option<String>,
}

impl MacroQueue {
    /// The pending commands, text and time.
    pub closed spec fn pending_view(&self) -> Seq<(Seq<char>, u64)> {
        self.pending@.map_values(|p: PendingCommand| (p.text@, p.ready_at_ms))
    }

    /// The macro being run.
    pub closed spec fn running(&self) -> Option<String> {
        self.active
    }

    /// The name of the macro being run.
    pub fn active(&self) -> (a: Option<&String>)
        ensures
            match a {
                Some(n) => self.running() == Some(*n),
                None => self.running() is None,
            },
    {
        self.active.as_ref()
    }

    pub fn new() -> (q: Self)
        ensures
            q.pending_view() == Seq::<(Seq<char>, u64)>::empty(),
            q.running() is None,
    {
        let q = MacroQueue { pending: Vec::new(), active: None };
        assert(q.pending_view() =~= Seq::<(Seq<char>, u64)>::empty());
        q
    }

    /// Number of commands still waiting.
    pub fn len(&self) -> (n: usize)
        ensures
            n == self.pending_view().len(),
    {
        self.pending.len()
    }

    /// When the next command is due.
    pub fn next_ready(&self) -> (t: Option<u64>)
        ensures
            self.pending_view().len() == 0 ==> t is None,
            self.pending_view().len() > 0 ==> t == Some(self.pending_view()[0].1),
    {
        if self.pending.len() == 0 {
            None
        } else {
            Some(self.pending[0].ready_at_ms)
        }
    }

    /// Queues the commands of macro `name`, started at `now`: each is due once its delay and
    /// those of the commands before it have passed.
    pub fn start(&mut self, name: String, commands: &Vec<MacroCommand>, now_ms: u64)
        requires
            now_ms + total_delay(commands@.map_values(|c: MacroCommand| c.delay_ms)) <= u64::MAX,
        ensures
            final(self).running() == Some(name),
            final(self).pending_view().len() == commands@.len(),
            forall|i: int| 0 <= i < commands@.len() ==> (#[trigger] final(self).pending_view()[i]).0
                == commands@[i].text@ && final(self).pending_view()[i].1 == ready_times(
                now_ms,
                commands@.map_values(|c: MacroCommand| c.delay_ms),
            )[i],
    {
        let ghost delays = commands@.map_values(|c: MacroCommand| c.delay_ms);
        let mut pending: Vec<PendingCommand> = Vec::new();
        let mut ready_at: u64 = now_ms;
        let mut i: usize = 0;
        while i < commands.len()
            invariant
                i <= commands@.len(),
                delays == commands@.map_values(|c: MacroCommand| c.delay_ms),
                now_ms + total_delay(delays) <= u64::MAX,
                pending@.len() == i,
                ready_at == now_ms + total_delay(delays.take(i as int)),
                ready_times(now_ms, delays.take(i as int)).len() == i,
                i > 0 ==> ready_times(now_ms, delays.take(i as int)).last() == ready_at,
                forall|j: int| 0 <= j < i ==> (#[trigger] pending@[j]).text@ == commands@[j].text@
                    && pending@[j].ready_at_ms == ready_times(now_ms, delays.take(i as int))[j],
            decreases commands.len() - i,
        {
            proof {
                assert(delays.take(i + 1).drop_last() =~= delays.take(i as int));
                lemma_total_delay_prefix(delays, i as int);
            }
            let ghost rt0 = ready_times(now_ms, delays.take(i as int));
            ready_at = ready_at + commands[i].delay_ms;
            pending.push(PendingCommand { text: commands[i].text.clone(), ready_at_ms: ready_at });
            proof {
                let rt1 = ready_times(now_ms, delays.take(i + 1));
                assert(delays.take(i + 1).last() == delays[i as int]);
                assert(rt1 == rt0.push(
                    if i == 0 {
                        now_ms + delays[i as int]
                    } else {
                        rt0.last() + delays[i as int]
                    },
                ));
                assert forall|j: int| 0 <= j < i + 1 implies (#[trigger] pending@[j]).text@ == commands@[j].text@
                    && pending@[j].ready_at_ms == rt1[j] by {
                    if j < i {
                        assert(rt1[j] == rt0[j]);
                    }
                }
            }
            i = i + 1;
        }
        proof {
            assert(delays.take(commands.len() as int) =~= delays);
        }
        self.pending = pending;
        self.active = Some(name);
    }

    /// Takes every command that is due at `now`, from the front, in order. When that empties
    /// the queue, the macro has finished.
    pub fn drain(&mut self, now_ms: u64) -> (d: Drained)
        ensures
            d.to_send@.len() == due_count(old(self).pending_view(), now_ms),
            forall|i: int| 0 <= i < d.to_send@.len() ==> #[trigger] d.to_send@[i]@ == old(
                self,
            ).pending_view()[i].0,
            final(self).pending_view() == old(self).pending_view().skip(d.to_send@.len() as int),
            d.to_send@.len() > 0 && final(self).pending_view().len() == 0 ==> d.finished == old(
                self,
            ).running() && final(self).running() is None,
            !(d.to_send@.len() > 0 && final(self).pending_view().len() == 0) ==> d.finished is None
                && final(self).running() == old(self).running(),
    {
        let ghost before = self.pending_view();
        let mut k: usize = 0;
        while k < self.pending.len() && self.pending[k].ready_at_ms <= now_ms
            invariant
                self.pending_view() == before,
                k <= before.len(),
                forall|j: int| 0 <= j < k ==> (#[trigger] before[j]).1 <= now_ms,
            decreases self.pending.len() - k,
        {
            k = k + 1;
        }
        proof {
            lemma_due_count(before, now_ms, k as int);
        }
        let mut to_send: Vec<String> = Vec::new();
        let mut rest: Vec<PendingCommand> = Vec::new();
        for i in 0..self.pending.len()
            invariant
                self.pending_view() == before,
                k <= before.len(),
                to_send@.len() == if i < k { i as int } else { k as int },
                rest@.len() == if i < k { 0 } else { i - k },
                forall|j: int| 0 <= j < to_send@.len() ==> #[trigger] to_send@[j]@ == before[j].0,
                forall|j: int| 0 <= j < rest@.len() ==> (#[trigger] rest@[j]).text@ == before[k + j].0
                    && rest@[j].ready_at_ms == before[k + j].1,
        {
            if i < k {
                to_send.push(self.pending[i].text.clone());
            } else {
                rest.push(PendingCommand {
                    text: self.pending[i].text.clone(),
                    ready_at_ms: self.pending[i].ready_at_ms,
                });
            }
        }
        self.pending = rest;
        assert(self.pending_view() =~= before.skip(k as int));
        let finished = if k > 0 && self.pending.len() == 0 {
            let f = self.active.clone();
            self.active = None;
            f
        } else {
            None
        };
        Drained { to_send, finished }
    }
}

/// Sum of the delays.
pub open spec fn total_delay(delays: Seq<u64>) -> int
    decreases delays.len(),
{
    if delays.len() == 0 {
        0
    } else {
        total_delay(delays.drop_last()) + delays.last()
    }
}

proof fn lemma_total_delay_prefix(delays: Seq<u64>, i: int)
    requires
        0 <= i < delays.len(),
    ensures
        total_delay(delays.take(i)) + delays[i] == total_delay(delays.take(i + 1)),
        total_delay(delays.take(i + 1)) <= total_delay(delays),
    decreases delays.len() - i,
{
    assert(delays.take(i + 1).drop_last() =~= delays.take(i));
    if i + 1 < delays.len() {
        lemma_total_delay_prefix(delays, i + 1);
    } else {
        assert(delays.take(i + 1) =~= delays);
    }
}

/// Number of leading commands that are due at `now`.
pub open spec fn due_count(pending: Seq<(Seq<char>, u64)>, now: u64) -> int
    decreases pending.len(),
{
    if pending.len() == 0 || pending[0].1 > now {
        0
    } else {
        1 + due_count(pending.drop_first(), now)
    }
}

proof fn lemma_due_count(pending: Seq<(Seq<char>, u64)>, now: u64, k: int)
    requires
        0 <= k <= pending.len(),
        forall|j: int| 0 <= j < k ==> (#[trigger] pending[j]).1 <= now,
        k == pending.len() || pending[k].1 > now,
    ensures
        due_count(pending, now) == k,
    decreases k,
{
    if k > 0 {
        lemma_due_count(pending.drop_first(), now, k - 1);
    }
}

/// A macro's commands fall due in their order, none before the start: the times at which
/// they are due never decrease.
pub proof fn law_ready_times_ordered(start: u64, delays: Seq<u64>)
    ensures
        ready_times(start, delays).len() == delays.len(),
        forall|i: int| 0 <= i < delays.len() ==> #[trigger] ready_times(start, delays)[i] >= start,
        forall|i: int, j: int| 0 <= i <= j < delays.len() ==> #[trigger] ready_times(start, delays)[i]
            <= #[trigger] ready_times(start, delays)[j],
    decreases delays.len(),
{
    if delays.len() > 0 {
        let d = delays.drop_last();
        law_ready_times_ordered(start, d);
        let rt = ready_times(start, delays);
        let rd = ready_times(start, d);
        assert forall|i: int| 0 <= i < delays.len() implies #[trigger] rt[i] >= start by {
            if i < d.len() {
                assert(rt[i] == rd[i]);
            }
        }
        assert forall|i: int, j: int| 0 <= i <= j < delays.len() implies #[trigger] rt[i] <= #[trigger] rt[j] by {
            if j < d.len() {
                assert(rt[i] == rd[i] && rt[j] == rd[j]);
            } else if i < d.len() {
                assert(rt[i] == rd[i]);
                if d.len() > 0 {
                    assert(rd[i] <= rd[d.len() - 1]);
                }
            }
        }
    }
}

} // verus!
