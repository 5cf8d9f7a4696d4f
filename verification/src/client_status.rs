//! The line in which the client shows what is going on.
//!
//! Each operation gives the text that is to be written to the terminal. Times
//! are in milliseconds, from any fixed moment.

use vstd::prelude::*;

use crate::human;
use crate::human::human_bytes;
use crate::text;
use crate::text::{chars_of, concat2, concat3, concat4, decimal_string, parse_unsigned, string_of};
use vstd::slice::slice_subrange;

verus! {

/// What takes a line off the terminal.
pub const CLEAR_LINE: &'static str = "\r\x1b[2K";

/// How long a line stands at least while bytes come in, in milliseconds.
pub const REDRAW_MILLIS: u64 = 100;

// ---------------------------------------------------------------------------
// What a line says
// ---------------------------------------------------------------------------

pub open spec fn two_digits(n: nat) -> Seq<char> {
    if n < 10 {
        "0"@ + text::decimal(n)
    } else {
        text::decimal(n)
    }
}

pub fn two_digit_text(n: u64) -> (r: String)
    ensures
        r@ == two_digits(n as nat),
{
    if n < 10 {
        concat2("0", decimal_string(n).as_str())
    } else {
        decimal_string(n)
    }
}

/// A number of seconds as a clock shows it.
pub open spec fn elapsed_text(seconds: nat) -> Seq<char> {
    if seconds >= 3600 {
        text::decimal(seconds / 3600) + ":"@ + two_digits(seconds % 3600 / 60) + ":"@ + two_digits(
            seconds % 60,
        )
    } else {
        two_digits(seconds / 60) + ":"@ + two_digits(seconds % 60)
    }
}

pub fn format_elapsed(seconds: u64) -> (r: String)
    ensures
        r@ == elapsed_text(seconds as nat),
{
    let hours: u64 = seconds / 3600;
    let minutes: u64 = (seconds % 3600) / 60;
    let rest: u64 = seconds % 60;
    if hours > 0 {
        let head: String = concat4(
            decimal_string(hours).as_str(),
            ":",
            two_digit_text(minutes).as_str(),
            ":",
        );
        concat2(head.as_str(), two_digit_text(rest).as_str())
    } else {
        concat3(two_digit_text(minutes).as_str(), ":", two_digit_text(rest).as_str())
    }
}

/// How many columns a line may take: one less than the terminal has, which is
/// as wide as `COLUMNS` says, or 80 wide where that says nothing.
pub open spec fn line_width(columns: Option<Seq<char>>) -> int {
    let width = match columns {
        Some(value) => match text::unsigned_value(value, usize::MAX as int) {
            Some(width) => width,
            None => 80,
        },
        None => 80,
    };
    if width > 0 {
        width - 1
    } else {
        0
    }
}

/// A line that fits: cut, and marked as such, where it is too long.
pub open spec fn fitted(line: Seq<char>, width: int) -> Seq<char> {
    if line.len() <= width {
        line
    } else if width > 0 {
        line.take(width - 1) + "…"@
    } else {
        "…"@
    }
}

/// Cuts a line to the width of the terminal, as `COLUMNS` gives it.
pub fn fit_line(line: &str, columns: Option<&str>) -> (r: String)
    ensures
        r@ == fitted(
            line@,
            line_width(
                match columns {
                    Some(value) => Some(value@),
                    None => None,
                },
            ),
        ),
{
    let stated: Option<u64> = match columns {
        Some(value) => {
            let chars: Vec<char> = chars_of(value);
            parse_unsigned(chars.as_slice(), usize::MAX as u64)
        },
        None => None,
    };
    let width: u64 = match stated {
        Some(width) => width,
        None => 80,
    };
    let width: usize = if width > 0 {
        (width - 1) as usize
    } else {
        0
    };
    let chars: Vec<char> = chars_of(line);
    if chars.len() <= width {
        return line.to_string();
    }
    if width == 0 {
        return "…".to_string();
    }
    let kept: &[char] = slice_subrange(chars.as_slice(), 0, width - 1);
    assert(kept@ =~= line@.take(width - 1));
    concat2(string_of(kept).as_str(), "…")
}

/// What is shown: a phase of the build, or a transfer.
pub enum Status {
    Phase { message: String, started: u64 },
    Transfer { message: String, started: u64, transfer: usize },
}

/// The view of what is shown.
pub enum StatusView {
    Phase { message: Seq<char>, started: u64 },
    Transfer { message: Seq<char>, started: u64, transfer: nat },
}

impl View for Status {
    type V = StatusView;

    open spec fn view(&self) -> StatusView {
        match *self {
            Status::Phase { message, started } => StatusView::Phase { message: message@, started },
            Status::Transfer { message, started, transfer } => StatusView::Transfer {
                message: message@,
                started,
                transfer: transfer as nat,
            },
        }
    }
}

/// How many seconds have passed.
pub open spec fn seconds_since(started: u64, now: u64) -> nat {
    if now >= started {
        ((now - started) / 1000) as nat
    } else {
        0
    }
}

/// How many bytes a transfer has moved.
pub open spec fn moved(counters: Seq<u64>, transfer: nat) -> u64 {
    if transfer < counters.len() {
        counters[transfer as int]
    } else {
        0
    }
}

/// How many bytes a second that is, on average.
pub open spec fn rate_of(bytes: u64, seconds: nat) -> u64 {
    if seconds == 0 {
        bytes
    } else {
        (bytes as nat / seconds) as u64
    }
}

/// The text of a line on a transfer, whose bytes and rate are written so.
pub open spec fn transfer_text(
    message: Seq<char>,
    bytes: Seq<char>,
    rate: Seq<char>,
    seconds: nat,
) -> Seq<char> {
    "drv-thru: "@ + message + ": "@ + bytes + " ("@ + rate + "/s) "@ + elapsed_text(seconds)
}

/// The text of a line.
pub open spec fn rendered(status: StatusView, counters: Seq<u64>, now: u64) -> Seq<char> {
    match status {
        StatusView::Phase { message, started } => "drv-thru: "@ + message + " ["@ + elapsed_text(
            seconds_since(started, now),
        ) + "]"@,
        StatusView::Transfer { message, started, transfer } => {
            let bytes = moved(counters, transfer);
            let seconds = seconds_since(started, now);
            transfer_text(
                message,
                human::human_bytes_text(bytes),
                human::human_bytes_text(rate_of(bytes, seconds)),
                seconds,
            )
        },
    }
}

fn seconds_between(started: u64, now: u64) -> (r: u64)
    ensures
        r == seconds_since(started, now),
{
    if now >= started {
        (now - started) / 1000
    } else {
        0
    }
}

/// A line on a transfer.
pub fn transfer_line(message: &str, bytes: &str, rate: &str, seconds: u64) -> (r: String)
    ensures
        r@ == transfer_text(message@, bytes@, rate@, seconds as nat),
{
    let mut line: String = concat3("drv-thru: ", message, ": ");
    line.append(bytes);
    line.append(" (");
    line.append(rate);
    line.append("/s) ");
    line.append(format_elapsed(seconds).as_str());
    line
}

fn render(status: &Status, counters: &[u64], now: u64) -> (r: String)
    ensures
        r@ == rendered(status@, counters@, now),
{
    match status {
        Status::Phase { message, started } => {
            let elapsed: String = format_elapsed(seconds_between(*started, now));
            let head: String = concat3("drv-thru: ", message.as_str(), " [");
            concat3(head.as_str(), elapsed.as_str(), "]")
        },
        Status::Transfer { message, started, transfer } => {
            let bytes: u64 = if *transfer < counters.len() {
                counters[*transfer]
            } else {
                0
            };
            let seconds: u64 = seconds_between(*started, now);
            let rate: u64 = if seconds == 0 {
                bytes
            } else {
                bytes / seconds
            };
            transfer_line(
                message.as_str(),
                human_bytes(bytes).as_str(),
                human_bytes(rate).as_str(),
                seconds,
            )
        },
    }
}

// ---------------------------------------------------------------------------
// The line
// ---------------------------------------------------------------------------

/// What the client shows, and how many bytes its transfers have moved.
pub struct ClientStatus {
    interactive: bool,
    visible: bool,
    current: Option<Status>,
    last_draw: u64,
    counters: Vec<u64>,
}

/// The view of what the client shows.
pub struct ClientStatusView {
    pub interactive: bool,
    /// Whether a line stands on the terminal.
    pub visible: bool,
    pub current: Option<StatusView>,
    pub last_draw: u64,
    pub counters: Seq<u64>,
}

impl View for ClientStatus {
    type V = ClientStatusView;

    closed spec fn view(&self) -> ClientStatusView {
        ClientStatusView {
            interactive: self.interactive,
            visible: self.visible,
            current: match self.current {
                Some(status) => Some(status@),
                None => None,
            },
            last_draw: self.last_draw,
            counters: self.counters@,
        }
    }
}

/// Where and when a line is drawn.
pub struct Moment<'a> {
    pub now: u64,
    /// What `COLUMNS` says.
    pub columns: Option<&'a str>,
}

impl<'a> Moment<'a> {
    pub open spec fn width(self) -> int {
        line_width(
            match self.columns {
                Some(value) => Some(value@),
                None => None,
            },
        )
    }
}

/// What takes the line off: nothing where none stands.
pub open spec fn cleared(s: ClientStatusView) -> (ClientStatusView, Seq<char>) {
    if s.interactive && s.visible {
        (ClientStatusView { visible: false, ..s }, CLEAR_LINE@)
    } else {
        (s, Seq::empty())
    }
}

/// What draws the line anew. Where nobody looks nothing is drawn.
pub open spec fn drawn(s: ClientStatusView, now: u64, width: int) -> (ClientStatusView, Seq<char>) {
    if !s.interactive {
        (s, Seq::empty())
    } else {
        let (off, written) = cleared(s);
        match s.current {
            None => (off, written),
            Some(current) => (
                ClientStatusView { visible: true, last_draw: now, ..off },
                written + "\r"@ + fitted(rendered(current, s.counters, now), width),
            ),
        }
    }
}

/// The line shows nothing any more.
pub open spec fn emptied(s: ClientStatusView) -> (ClientStatusView, Seq<char>) {
    cleared(ClientStatusView { current: None, ..s })
}

pub open spec fn in_phase(s: ClientStatusView, message: Seq<char>, now: u64) -> ClientStatusView {
    ClientStatusView { current: Some(StatusView::Phase { message, started: now }), ..s }
}

/// A transfer has begun, with nothing moved yet.
pub open spec fn in_transfer(s: ClientStatusView, message: Seq<char>, now: u64) -> ClientStatusView {
    ClientStatusView {
        current: Some(
            StatusView::Transfer { message, started: now, transfer: s.counters.len() },
        ),
        counters: s.counters.push(0),
        ..s
    }
}

/// What a message for the transfer that is shown does.
pub open spec fn with_message(
    s: ClientStatusView,
    message: Seq<char>,
    now: u64,
    width: int,
) -> (ClientStatusView, Seq<char>) {
    match s.current {
        Some(StatusView::Transfer { started, transfer, .. }) => drawn(
            ClientStatusView {
                current: Some(StatusView::Transfer { message, started, transfer }),
                ..s
            },
            now,
            width,
        ),
        _ => (s, Seq::empty()),
    }
}

/// A transfer has moved more bytes.
pub open spec fn counted(s: ClientStatusView, transfer: nat, bytes: u64) -> ClientStatusView {
    if transfer < s.counters.len() {
        ClientStatusView {
            counters: s.counters.update(
                transfer as int,
                s.counters[transfer as int].wrapping_add(bytes),
            ),
            ..s
        }
    } else {
        s
    }
}

/// What more bytes do: the line is drawn anew, but not all the time.
pub open spec fn with_bytes(
    s: ClientStatusView,
    transfer: nat,
    bytes: u64,
    now: u64,
    width: int,
) -> (ClientStatusView, Seq<char>) {
    let counted = counted(s, transfer, bytes);
    if bytes == 0 || now < s.last_draw || now - s.last_draw < REDRAW_MILLIS {
        (counted, Seq::empty())
    } else {
        drawn(counted, now, width)
    }
}

fn no_text() -> (r: String)
    ensures
        r@ == Seq::<char>::empty(),
{
    let none: Vec<char> = Vec::new();
    string_of(none.as_slice())
}

impl ClientStatus {
    /// Shows nothing yet. `interactive` says whether somebody looks.
    pub fn new(interactive: bool, now: u64) -> (status: Self)
        ensures
            status@ == (ClientStatusView {
                interactive,
                visible: false,
                current: None,
                last_draw: now,
                counters: Seq::empty(),
            }),
    {
        ClientStatus {
            interactive,
            visible: false,
            current: None,
            last_draw: now,
            counters: Vec::new(),
        }
    }

    fn clear_line(&mut self) -> (written: String)
        ensures
            (final(self)@, written@) == cleared(old(self)@),
    {
        if !self.interactive || !self.visible {
            return no_text();
        }
        self.visible = false;
        CLEAR_LINE.to_string()
    }

    /// Draws the line anew.
    pub fn draw(&mut self, moment: &Moment<'_>) -> (written: String)
        ensures
            (final(self)@, written@) == drawn(old(self)@, moment.now, moment.width()),
    {
        if !self.interactive {
            return no_text();
        }
        let written: String = self.clear_line();
        match &self.current {
            None => written,
            Some(current) => {
                let line: String = render(current, self.counters.as_slice(), moment.now);
                let line: String = fit_line(line.as_str(), moment.columns);
                self.visible = true;
                self.last_draw = moment.now;
                concat3(written.as_str(), "\r", line.as_str())
            },
        }
    }

    /// Shows a phase of the build.
    pub fn phase(&mut self, message: String, moment: &Moment<'_>) -> (written: String)
        ensures
            (final(self)@, written@) == drawn(
                in_phase(old(self)@, message@, moment.now),
                moment.now,
                moment.width(),
            ),
    {
        self.current = Some(Status::Phase { message, started: moment.now });
        self.draw(moment)
    }

    /// Shows nothing any more.
    pub fn clear_phase(&mut self) -> (written: String)
        ensures
            (final(self)@, written@) == emptied(old(self)@),
    {
        self.current = None;
        self.clear_line()
    }

    /// Shows a transfer.
    pub fn transfer(&mut self, message: String, moment: &Moment<'_>) -> (r: (
        TransferProgress,
        String,
    ))
        ensures
            r.0@ == old(self)@.counters.len(),
            (final(self)@, r.1@) == drawn(
                in_transfer(old(self)@, message@, moment.now),
                moment.now,
                moment.width(),
            ),
    {
        let transfer: usize = self.counters.len();
        self.counters.push(0);
        self.current = Some(Status::Transfer { message, started: moment.now, transfer });
        let written: String = self.draw(moment);
        (TransferProgress { transfer }, written)
    }

    /// Takes the line off for a while, so that other text can be written. It is
    /// drawn anew after that.
    pub fn suspend(&mut self) -> (written: String)
        ensures
            (final(self)@, written@) == cleared(old(self)@),
    {
        self.clear_line()
    }
}

/// A transfer, by which its bytes are counted.
#[derive(Clone, Copy, Debug)]
pub struct TransferProgress {
    transfer: usize,
}

impl View for TransferProgress {
    type V = nat;

    closed spec fn view(&self) -> nat {
        self.transfer as nat
    }
}

impl TransferProgress {
    /// Says something else of the transfer that is shown.
    pub fn message(&self, status: &mut ClientStatus, message: String, moment: &Moment<'_>) -> (written:
        String)
        ensures
            (final(status)@, written@) == with_message(
                old(status)@,
                message@,
                moment.now,
                moment.width(),
            ),
    {
        let mut current: Option<Status> = None;
        std::mem::swap(&mut current, &mut status.current);
        match current {
            Some(Status::Transfer { started, transfer, .. }) => {
                status.current = Some(Status::Transfer { message, started, transfer });
                status.draw(moment)
            },
            other => {
                status.current = other;
                no_text()
            },
        }
    }

    /// Counts bytes.
    pub fn add_bytes(&self, status: &mut ClientStatus, bytes: u64, moment: &Moment<'_>) -> (written:
        String)
        ensures
            (final(status)@, written@) == with_bytes(
                old(status)@,
                self@,
                bytes,
                moment.now,
                moment.width(),
            ),
    {
        if self.transfer < status.counters.len() {
            let sum: u64 = status.counters[self.transfer].wrapping_add(bytes);
            status.counters.set(self.transfer, sum);
        }
        if bytes == 0 || moment.now < status.last_draw || moment.now - status.last_draw
            < REDRAW_MILLIS {
            return no_text();
        }
        status.draw(moment)
    }

    /// How many bytes were counted.
    pub fn bytes(&self, status: &ClientStatus) -> (r: u64)
        ensures
            r == moved(status@.counters, self@),
    {
        if self.transfer < status.counters.len() {
            status.counters[self.transfer]
        } else {
            0
        }
    }

    /// The transfer is over.
    pub fn finish_and_clear(self, status: &mut ClientStatus) -> (written: String)
        ensures
            (final(status)@, written@) == emptied(old(status)@),
    {
        status.clear_phase()
    }
}

// ---------------------------------------------------------------------------
// Laws
// ---------------------------------------------------------------------------

/// A line never takes more than the terminal has, but for the mark of a cut on
/// a terminal that has no columns.
pub proof fn law_lines_fit(line: Seq<char>, width: int)
    requires
        width >= 0,
    ensures
        fitted(line, width).len() <= (if width > 0 {
            width
        } else {
            1
        }),
        line.len() <= width ==> fitted(line, width) == line,
{
    reveal_strlit("…");
}

/// Where nobody looks, nothing is ever written.
pub proof fn law_nothing_is_drawn_for_nobody(
    s: ClientStatusView,
    message: Seq<char>,
    transfer: nat,
    bytes: u64,
    now: u64,
    width: int,
)
    requires
        !s.interactive,
    ensures
        drawn(in_phase(s, message, now), now, width).1 == Seq::<char>::empty(),
        drawn(in_transfer(s, message, now), now, width).1 == Seq::<char>::empty(),
        with_message(s, message, now, width).1 == Seq::<char>::empty(),
        with_bytes(s, transfer, bytes, now, width).1 == Seq::<char>::empty(),
        emptied(s).1 == Seq::<char>::empty(),
{
}

/// A phase that was cleared leaves no line, and clearing it again writes
/// nothing.
pub proof fn law_cleared_is_cleared(s: ClientStatusView)
    requires
        s.visible ==> s.interactive,
    ensures
        !emptied(s).0.visible,
        emptied(s).0.current is None,
        emptied(emptied(s).0) == (emptied(s).0, Seq::<char>::empty()),
{
}

/// Bytes that are counted for a transfer are there when it is asked, whatever
/// is shown meanwhile.
pub proof fn law_bytes_are_counted(
    s: ClientStatusView,
    transfer: nat,
    bytes: u64,
    now: u64,
    width: int,
)
    requires
        transfer < s.counters.len(),
        s.counters[transfer as int] + bytes <= u64::MAX,
    ensures
        moved(with_bytes(s, transfer, bytes, now, width).0.counters, transfer)
            == s.counters[transfer as int] + bytes,
        forall|message: Seq<char>|
            (#[trigger] drawn(in_phase(s, message, now), now, width)).0.counters == s.counters,
        emptied(s).0.counters == s.counters,
{
}

/// A number below a hundred has two digits, the tens first.
pub proof fn law_two_digits(n: nat)
    requires
        n < 100,
    ensures
        two_digits(n).len() == 2,
        two_digits(n)[0] as int == '0' as int + n / 10,
        two_digits(n)[1] as int == '0' as int + n % 10,
{
    reveal_with_fuel(text::decimal, 2);
    reveal_strlit("0");
}

/// A time is shown as minutes and seconds, and as hours before these once there
/// are any.
pub proof fn law_clocks_show_the_time(hours: nat, minutes: nat, seconds: nat)
    requires
        minutes < 60,
        seconds < 60,
    ensures
        hours == 0 ==> elapsed_text(hours * 3600 + minutes * 60 + seconds) == two_digits(minutes)
            + ":"@ + two_digits(seconds),
        hours > 0 ==> elapsed_text(hours * 3600 + minutes * 60 + seconds) == text::decimal(hours)
            + ":"@ + two_digits(minutes) + ":"@ + two_digits(seconds),
{
    let n = hours * 3600 + minutes * 60 + seconds;
    assert(n / 3600 == hours);
    assert(n % 3600 == minutes * 60 + seconds);
    assert(n % 3600 / 60 == minutes);
    assert(n % 60 == seconds) by {
        assert(n == (hours * 60 + minutes) * 60 + seconds);
    }
    if hours == 0 {
        assert(n / 60 == minutes);
    }
}

/// A terminal is eighty columns wide unless it says another number, and a line
/// leaves one of them free.
pub proof fn law_lines_leave_a_column_free(n: nat, said: Seq<char>)
    requires
        n <= usize::MAX,
        text::unsigned_value(said, usize::MAX as int) is None,
    ensures
        line_width(None) == 79,
        line_width(Some(said)) == 79,
        n > 0 ==> line_width(Some(text::decimal(n))) == n - 1,
        line_width(Some(text::decimal(0))) == 0,
{
    text::law_decimal_names_its_number(n);
    text::law_decimal_names_its_number(0);
}

/// A line that is too long is cut to the width, and its last character shows
/// that it was.
pub proof fn law_long_lines_are_marked(line: Seq<char>, width: int)
    requires
        0 < width < line.len(),
    ensures
        fitted(line, width).len() == width,
        fitted(line, width).take(width - 1) == line.take(width - 1),
        fitted(line, width).last() == '…',
        fitted(line, 0) == "…"@,
{
    reveal_strlit("…");
    assert(fitted(line, width).take(width - 1) =~= line.take(width - 1));
}

/// The rate of a transfer is the bytes of one second on average, without the
/// part that is no whole byte. In the first second it is all there is.
pub proof fn law_rates_are_averages(bytes: u64, seconds: nat)
    ensures
        rate_of(bytes, 0) == bytes,
        seconds > 0 ==> rate_of(bytes, seconds) * seconds <= bytes < (rate_of(bytes, seconds) + 1)
            * seconds,
{
    if seconds > 0 {
        let b = bytes as int;
        let s = seconds as int;
        vstd::arithmetic::div_mod::lemma_fundamental_div_mod(b, s);
        vstd::arithmetic::div_mod::lemma_mod_bound(b, s);
        vstd::arithmetic::div_mod::lemma_div_is_ordered_by_denominator(b, 1, s);
        assert(b / 1 == b);
        vstd::arithmetic::div_mod::lemma_div_pos_is_pos(b, s);
        let rate = rate_of(bytes, seconds) as int;
        assert(rate == b / s);
        assert(rate * s == s * (b / s)) by (nonlinear_arith)
            requires
                rate == b / s,
        ;
        assert((rate + 1) * s == rate * s + s) by (nonlinear_arith);
    }
}

/// A phase is shown with its message and the whole seconds since it began.
pub proof fn law_phases_are_shown(message: Seq<char>, started: u64, now: u64, counters: Seq<u64>)
    ensures
        rendered(StatusView::Phase { message, started }, counters, now) == "drv-thru: "@ + message
            + " ["@ + elapsed_text(seconds_since(started, now)) + "]"@,
        started <= now ==> seconds_since(started, now) * 1000 <= now - started < (seconds_since(
            started,
            now,
        ) + 1) * 1000,
        now < started ==> seconds_since(started, now) == 0,
{
}

/// A transfer is shown with its message, the bytes of its own counter, their
/// rate, and the time since it began.
pub proof fn law_transfers_are_shown(
    message: Seq<char>,
    started: u64,
    transfer: nat,
    now: u64,
    counters: Seq<u64>,
)
    requires
        transfer < counters.len(),
    ensures
        rendered(StatusView::Transfer { message, started, transfer }, counters, now)
            == "drv-thru: "@ + message + ": "@ + human::human_bytes_text(counters[transfer as int])
            + " ("@ + human::human_bytes_text(
            rate_of(counters[transfer as int], seconds_since(started, now)),
        ) + "/s) "@ + elapsed_text(seconds_since(started, now)),
{
}

/// Whoever looks sees what is going on: the line that stands is taken off, and
/// the new one is written from the start of the line, cut to the width.
pub proof fn law_what_goes_on_is_drawn(s: ClientStatusView, now: u64, width: int)
    requires
        s.interactive,
        s.current is Some,
    ensures
        drawn(s, now, width).0.visible,
        drawn(s, now, width).0.last_draw == now,
        drawn(s, now, width).0.current == s.current,
        drawn(s, now, width).0.counters == s.counters,
        drawn(s, now, width).0.interactive,
        s.visible ==> drawn(s, now, width).1 == "\r\x1b[2K"@ + "\r"@ + fitted(
            rendered(s.current->0, s.counters, now),
            width,
        ),
        !s.visible ==> drawn(s, now, width).1 == "\r"@ + fitted(
            rendered(s.current->0, s.counters, now),
            width,
        ),
{
    if !s.visible {
        assert(drawn(s, now, width).1 =~= "\r"@ + fitted(
            rendered(s.current->0, s.counters, now),
            width,
        ));
    }
}

/// A line that stands is taken off when all is done, and whoever sees none has
/// none taken off.
pub proof fn law_lines_are_taken_off(s: ClientStatusView)
    ensures
        s.interactive && s.visible ==> emptied(s).1 == "\r\x1b[2K"@,
        !s.visible ==> emptied(s).1.len() == 0,
        emptied(s).0.current is None,
        emptied(s).0.last_draw == s.last_draw,
        emptied(s).0.interactive == s.interactive,
{
}

/// A phase begins when it is told, with its message. A transfer begins then
/// too, with nothing moved, and a message for it leaves when it began and what
/// it moved.
pub proof fn law_phases_and_transfers_begin(
    s: ClientStatusView,
    message: Seq<char>,
    other: Seq<char>,
    now: u64,
    later: u64,
    width: int,
    i: int,
)
    ensures
        in_phase(s, message, now).current == Some(StatusView::Phase { message, started: now }),
        in_phase(s, message, now).counters == s.counters,
        in_phase(s, message, now).visible == s.visible,
        in_phase(s, message, now).interactive == s.interactive,
        ({
            let t = in_transfer(s, message, now);
            let told = with_message(t, other, later, width);
            &&& t.current == Some(
                StatusView::Transfer { message, started: now, transfer: s.counters.len() },
            )
            &&& moved(t.counters, s.counters.len()) == 0
            &&& 0 <= i < s.counters.len() ==> t.counters[i] == s.counters[i]
            &&& t.visible == s.visible
            &&& t.interactive == s.interactive
            &&& told.0.current == Some(
                StatusView::Transfer { message: other, started: now, transfer: s.counters.len() },
            )
            &&& told.0.counters == t.counters
            &&& s.interactive ==> told.0.visible
        }),
        with_message(in_phase(s, message, now), other, later, width) == (
            in_phase(s, message, now),
            Seq::<char>::empty(),
        ),
{
}

/// Bytes count for their own transfer only. The line is drawn anew with them
/// once a tenth of a second has passed, and not before.
pub proof fn law_lines_are_drawn_now_and_then(
    s: ClientStatusView,
    transfer: nat,
    bytes: u64,
    now: u64,
    width: int,
    i: int,
)
    requires
        transfer < s.counters.len(),
    ensures
        0 <= i < s.counters.len() && i != transfer ==> with_bytes(
            s,
            transfer,
            bytes,
            now,
            width,
        ).0.counters[i] == s.counters[i],
        now < s.last_draw + 100 ==> with_bytes(s, transfer, bytes, now, width).1.len() == 0,
        with_bytes(s, transfer, 0, now, width).1.len() == 0,
        bytes > 0 && s.last_draw + 100 <= now && s.interactive && s.current is Some ==> {
            let after = with_bytes(s, transfer, bytes, now, width);
            &&& after.0.last_draw == now
            &&& after.0.visible
            &&& fitted(rendered(s.current->0, after.0.counters, now), width).is_suffix_of(after.1)
        },
{
    let after = with_bytes(s, transfer, bytes, now, width);
    if bytes > 0 && s.last_draw + 100 <= now && s.interactive && s.current is Some {
        let shown = fitted(rendered(s.current->0, after.0.counters, now), width);
        assert(shown =~= after.1.subrange(after.1.len() - shown.len(), after.1.len() as int));
    }
}

/// How often a line is drawn, and what takes one off.
pub proof fn law_how_lines_are_drawn()
    ensures
        REDRAW_MILLIS == 100,
        CLEAR_LINE@ == "\r\x1b[2K"@,
{
}

} // verus!
