//! What the terminal view shows: per-resolver cells and map dots, the
//! propagation gauge, the header, the map panel's text and the footer.
//! Every function here decides text and colour from plain values; drawing
//! is left to the caller.

use vstd::prelude::*;
use vstd::string::*;

use crate::answer_set::texts;
use crate::dns::{record_type_name, record_type_text, QueryResult, ResultView};
use crate::text::{
    decimal, decimal_text, join, joined, lemma_joined_holds_every_element, occurs_at, occurs_in,
};

verus! {

/// A colour of the view's palette.
#[derive(PartialEq, Eq, Structural, Clone, Copy, Debug)]
pub enum Tone {
    /// The terminal's default colour.
    Plain,
    /// The accent colour (cyan).
    Accent,
    /// Dimmed text (dark grey).
    Dim,
    Green,
    Yellow,
    Red,
    Magenta,
}

/// How a piece of text is drawn.
#[derive(PartialEq, Eq, Structural, Clone, Copy, Debug)]
pub struct TextStyle {
    pub tone: Tone,
    pub bold: bool,
    pub italic: bool,
}

/// A style with the given colour and no emphasis.
pub open spec fn plain(tone: Tone) -> TextStyle {
    TextStyle { tone, bold: false, italic: false }
}

/// A bold style with the given colour.
pub open spec fn bold(tone: Tone) -> TextStyle {
    TextStyle { tone, bold: true, italic: false }
}

fn style(tone: Tone, is_bold: bool, is_italic: bool) -> (s: TextStyle)
    ensures
        s == (TextStyle { tone, bold: is_bold, italic: is_italic }),
{
    TextStyle { tone, bold: is_bold, italic: is_italic }
}

/// Where one resolver's query stands in the current round.
pub enum RowState {
    /// Not queried yet.
    Idle,
    /// Query in flight.
    Pending,
    /// Answered, after `elapsed_ms` milliseconds.
    Done { result: QueryResult, elapsed_ms: u128 },
}

/// The cells of one resolver's row in the results table.
pub struct RowCells {
    pub time: String,
    pub time_style: TextStyle,
    pub ttl: String,
    pub status: String,
    pub status_style: TextStyle,
    pub answer: String,
    pub answer_style: TextStyle,
}

/// The text content and styles of [`RowCells`].
pub struct RowCellsView {
    pub time: Seq<char>,
    pub time_style: TextStyle,
    pub ttl: Seq<char>,
    pub status: Seq<char>,
    pub status_style: TextStyle,
    pub answer: Seq<char>,
    pub answer_style: TextStyle,
}

impl View for RowCells {
    type V = RowCellsView;

    open spec fn view(&self) -> RowCellsView {
        RowCellsView {
            time: self.time@,
            time_style: self.time_style,
            ttl: self.ttl@,
            status: self.status@,
            status_style: self.status_style,
            answer: self.answer@,
            answer_style: self.answer_style,
        }
    }
}

/// Colour of a response time: fast under 100 ms, slow from 400 ms.
pub open spec fn time_tone(elapsed_ms: u128) -> Tone {
    if elapsed_ms < 100 {
        Tone::Green
    } else if elapsed_ms < 400 {
        Tone::Yellow
    } else {
        Tone::Red
    }
}

/// Whether a resolver with records is shown as agreeing: always while the
/// round is still running (so rows do not flap as the majority shifts),
/// afterwards only when it belongs to the majority answer group.
pub open spec fn shown_agreeing(complete: bool, in_majority: bool) -> bool {
    !complete || in_majority
}

/// The cells of a row, by the state of its query.
pub open spec fn row_cells_view(
    state: RowState,
    spinner: Seq<char>,
    complete: bool,
    in_majority: bool,
) -> RowCellsView {
    match state {
        RowState::Idle => RowCellsView {
            time: "—"@,
            time_style: plain(Tone::Plain),
            ttl: Seq::empty(),
            status: "idle"@,
            status_style: plain(Tone::Dim),
            answer: Seq::empty(),
            answer_style: plain(Tone::Plain),
        },
        RowState::Pending => RowCellsView {
            time: "…"@,
            time_style: plain(Tone::Plain),
            ttl: Seq::empty(),
            status: spinner + " query"@,
            status_style: plain(Tone::Yellow),
            answer: Seq::empty(),
            answer_style: plain(Tone::Plain),
        },
        RowState::Done { result, elapsed_ms } => {
            let time = decimal_text(elapsed_ms as nat) + "ms"@;
            let time_style = plain(time_tone(elapsed_ms));
            match result@ {
                ResultView::Records { values, min_ttl } => {
                    let agreeing = shown_agreeing(complete, in_majority);
                    RowCellsView {
                        time,
                        time_style,
                        ttl: decimal_text(min_ttl as nat),
                        status: if agreeing { "✓ OK"@ } else { "≠ DIFFERS"@ },
                        status_style: if agreeing { bold(Tone::Green) } else { bold(Tone::Magenta) },
                        answer: joined(values, ", "@),
                        answer_style: if agreeing { plain(Tone::Plain) } else { plain(Tone::Magenta) },
                    }
                },
                ResultView::NoRecords(code) => RowCellsView {
                    time,
                    time_style,
                    ttl: Seq::empty(),
                    status: "∅ NONE"@,
                    status_style: bold(Tone::Red),
                    answer: code,
                    answer_style: plain(Tone::Red),
                },
                ResultView::Error(message) => RowCellsView {
                    time,
                    time_style,
                    ttl: Seq::empty(),
                    status: "✗ ERR"@,
                    status_style: bold(Tone::Red),
                    answer: message,
                    answer_style: TextStyle { tone: Tone::Red, bold: false, italic: true },
                },
            }
        },
    }
}

/// The cells of one resolver's row: response time, TTL, status and answer.
/// `spinner` is the current spinner frame, `complete` whether every
/// resolver of the round has answered, `in_majority` whether this row's
/// answer is in the majority group.
pub fn row_cells(state: &RowState, spinner: &str, complete: bool, in_majority: bool) -> (r:
    RowCells)
    ensures
        r@ == row_cells_view(*state, spinner@, complete, in_majority),
{
    match state {
        RowState::Idle => RowCells {
            time: String::from_str("—"),
            time_style: style(Tone::Plain, false, false),
            ttl: String::new(),
            status: String::from_str("idle"),
            status_style: style(Tone::Dim, false, false),
            answer: String::new(),
            answer_style: style(Tone::Plain, false, false),
        },
        RowState::Pending => {
            let mut status = String::from_str(spinner);
            status.append(" query");
            RowCells {
                time: String::from_str("…"),
                time_style: style(Tone::Plain, false, false),
                ttl: String::new(),
                status,
                status_style: style(Tone::Yellow, false, false),
                answer: String::new(),
                answer_style: style(Tone::Plain, false, false),
            }
        },
        RowState::Done { result, elapsed_ms } => {
            let ms = *elapsed_ms;
            let mut time = decimal(ms);
            time.append("ms");
            let time_tone = if ms < 100 {
                Tone::Green
            } else if ms < 400 {
                Tone::Yellow
            } else {
                Tone::Red
            };
            let time_style = style(time_tone, false, false);
            match result {
                QueryResult::Records { values, min_ttl } => {
                    let agreeing = !complete || in_majority;
                    let answer = join(values, ", ");
                    assert(values@.map_values(|v: String| v@) == texts(values@));
                    if agreeing {
                        RowCells {
                            time,
                            time_style,
                            ttl: decimal(*min_ttl as u128),
                            status: String::from_str("✓ OK"),
                            status_style: style(Tone::Green, true, false),
                            answer,
                            answer_style: style(Tone::Plain, false, false),
                        }
                    } else {
                        RowCells {
                            time,
                            time_style,
                            ttl: decimal(*min_ttl as u128),
                            status: String::from_str("≠ DIFFERS"),
                            status_style: style(Tone::Magenta, true, false),
                            answer,
                            answer_style: style(Tone::Magenta, false, false),
                        }
                    }
                },
                QueryResult::NoRecords(code) => RowCells {
                    time,
                    time_style,
                    ttl: String::new(),
                    status: String::from_str("∅ NONE"),
                    status_style: style(Tone::Red, true, false),
                    answer: code.clone(),
                    answer_style: style(Tone::Red, false, false),
                },
                QueryResult::Error(message) => RowCells {
                    time,
                    time_style,
                    ttl: String::new(),
                    status: String::from_str("✗ ERR"),
                    status_style: style(Tone::Red, true, false),
                    answer: message.clone(),
                    answer_style: style(Tone::Red, false, true),
                },
            }
        },
    }
}

/// The colour of a resolver's dot on the world map.
pub open spec fn dot_tone_of(state: RowState, complete: bool, in_majority: bool) -> Tone {
    match state {
        RowState::Idle => Tone::Dim,
        RowState::Pending => Tone::Yellow,
        RowState::Done { result, .. } => match result@ {
            ResultView::Records { .. } => if shown_agreeing(complete, in_majority) {
                Tone::Green
            } else {
                Tone::Magenta
            },
            _ => Tone::Red,
        },
    }
}

/// The colour of a resolver's dot on the world map: green agrees, magenta
/// differs, red error or no record, yellow in flight, grey idle.
pub fn dot_tone(state: &RowState, complete: bool, in_majority: bool) -> (t: Tone)
    ensures
        t == dot_tone_of(*state, complete, in_majority),
{
    match state {
        RowState::Idle => Tone::Dim,
        RowState::Pending => Tone::Yellow,
        RowState::Done { result, .. } => match result {
            QueryResult::Records { .. } => if !complete || in_majority {
                Tone::Green
            } else {
                Tone::Magenta
            },
            _ => Tone::Red,
        },
    }
}

/// A row's status and its map dot always carry the same colour.
pub proof fn lemma_status_matches_dot(
    state: RowState,
    spinner: Seq<char>,
    complete: bool,
    in_majority: bool,
)
    ensures
        row_cells_view(state, spinner, complete, in_majority).status_style.tone
            == dot_tone_of(state, complete, in_majority),
{
}

/// While a round is still running no row is flagged as differing: the
/// comparison settles only once every result is in.
pub proof fn lemma_no_outlier_before_completion(state: RowState, spinner: Seq<char>, in_majority: bool)
    ensures
        row_cells_view(state, spinner, false, in_majority).status != "≠ DIFFERS"@,
        dot_tone_of(state, false, in_majority) != Tone::Magenta,
{
    reveal_strlit("≠ DIFFERS");
    reveal_strlit("✓ OK");
    reveal_strlit("idle");
    reveal_strlit("∅ NONE");
    reveal_strlit("✗ ERR");
    reveal_strlit(" query");
    let st = row_cells_view(state, spinner, false, in_majority).status;
    assert("≠ DIFFERS"@.len() == 9);
    match state {
        RowState::Pending => {
            let s = spinner + " query"@;
            assert(st == s);
            assert(s.last() == 'y');
            assert("≠ DIFFERS"@.last() == 'S');
            if st == "≠ DIFFERS"@ {
                assert(st.last() == "≠ DIFFERS"@.last());
            }
        },
        RowState::Idle => {
            assert(st.len() == 4);
        },
        RowState::Done { result, elapsed_ms } => {
            match result@ {
                ResultView::Records { .. } => {
                    assert(st.len() == 4);
                },
                ResultView::NoRecords(_) => {
                    assert(st.len() == 6);
                },
                ResultView::Error(_) => {
                    assert(st.len() == 5);
                },
            }
        },
    }
}

} // verus!

verus! {

/// Body width from which the world map is shown beside the table.
pub const MIN_WIDTH_FOR_MAP: u16 = 150;

/// Width the results table keeps when the map is shown.
pub const TABLE_WIDTH: u16 = 96;

/// Widest the map panel grows.
pub const MAP_MAX_WIDTH: u16 = 170;

/// Rows of the table area taken by its borders and header row.
pub const TABLE_CHROME_ROWS: u16 = 3;

/// The width of the map panel for a body of the given width, or `None`
/// when the body is too narrow for both table and map.
pub open spec fn map_panel_width_of(body_width: u16) -> Option<u16> {
    if body_width >= MIN_WIDTH_FOR_MAP {
        let room = (body_width - TABLE_WIDTH) as u16;
        Some(if room < MAP_MAX_WIDTH { room } else { MAP_MAX_WIDTH })
    } else {
        None
    }
}

/// Decides whether the map is shown and how wide its panel is.
pub fn map_panel_width(body_width: u16) -> (r: Option<u16>)
    ensures
        r == map_panel_width_of(body_width),
{
    if body_width >= MIN_WIDTH_FOR_MAP {
        let room = body_width - TABLE_WIDTH;
        Some(if room < MAP_MAX_WIDTH { room } else { MAP_MAX_WIDTH })
    } else {
        None
    }
}

/// The map is only shown when the table keeps its full width beside it.
pub proof fn lemma_map_leaves_room_for_table(body_width: u16)
    ensures
        map_panel_width_of(body_width) matches Some(w) ==> w + TABLE_WIDTH <= body_width
            && w <= MAP_MAX_WIDTH,
{
}

/// Table rows visible in a table area of the given height.
pub open spec fn visible_rows(table_height: u16) -> int {
    if table_height >= TABLE_CHROME_ROWS {
        table_height - TABLE_CHROME_ROWS
    } else {
        0
    }
}

/// The largest scroll offset that still shows a full last page.
pub open spec fn max_scroll(total: usize, table_height: u16) -> int {
    if total >= visible_rows(table_height) {
        total - visible_rows(table_height)
    } else {
        0
    }
}

/// The scroll offset, clamped so that the last page stays full.
pub open spec fn clamped_scroll(scroll: usize, total: usize, table_height: u16) -> int {
    if scroll <= max_scroll(total, table_height) {
        scroll as int
    } else {
        max_scroll(total, table_height)
    }
}

/// Clamps the table's scroll offset for `total` rows in a table area of
/// the given height.
pub fn clamp_scroll(scroll: usize, total: usize, table_height: u16) -> (r: usize)
    ensures
        r == clamped_scroll(scroll, total, table_height),
{
    let visible = table_height.saturating_sub(TABLE_CHROME_ROWS) as usize;
    let limit = total.saturating_sub(visible);
    if scroll <= limit {
        scroll
    } else {
        limit
    }
}

/// Clamping never scrolls further down, keeps the last page full whenever
/// there are enough rows to fill one, and changes nothing a second time.
pub proof fn lemma_clamp_scroll(scroll: usize, total: usize, table_height: u16)
    ensures
        clamped_scroll(scroll, total, table_height) <= scroll,
        0 <= clamped_scroll(scroll, total, table_height) <= total,
        total >= visible_rows(table_height) ==> total - clamped_scroll(scroll, total, table_height)
            >= visible_rows(table_height),
        clamped_scroll(
            clamped_scroll(scroll, total, table_height) as usize,
            total,
            table_height,
        ) == clamped_scroll(scroll, total, table_height),
{
}

/// A round is settled once some resolver has answered and none is still
/// in flight; only then are answers compared against the majority.
pub open spec fn round_settled(done: usize, in_flight: bool) -> bool {
    done > 0 && !in_flight
}

/// Whether the round is settled.
pub fn is_round_settled(done: usize, in_flight: bool) -> (r: bool)
    ensures
        r == round_settled(done, in_flight),
{
    done > 0 && !in_flight
}

/// Every responding resolver agrees (errors carry no signal and do not
/// count): propagation has reached 100%.
pub open spec fn fully_propagated(agree: usize, responding: usize) -> bool {
    responding > 0 && agree == responding
}

/// Whether propagation has reached 100%.
pub fn is_fully_propagated(agree: usize, responding: usize) -> (r: bool)
    ensures
        r == fully_propagated(agree, responding),
{
    responding > 0 && agree == responding
}

/// Colour of the propagation gauge: green from 90% agreement, yellow from
/// 50%, red below; the share is `agree / max(responding, 1)`, compared
/// exactly.
pub open spec fn propagation_tone_of(agree: usize, responding: usize) -> Tone {
    let denominator: int = if responding > 0 { responding as int } else { 1 };
    if 10 * agree >= 9 * denominator {
        Tone::Green
    } else if 2 * agree >= denominator {
        Tone::Yellow
    } else {
        Tone::Red
    }
}

/// The colour of the settled propagation gauge.
pub fn propagation_tone(agree: usize, responding: usize) -> (t: Tone)
    ensures
        t == propagation_tone_of(agree, responding),
{
    let denominator: u128 = if responding > 0 { responding as u128 } else { 1 };
    let agree_wide: u128 = agree as u128;
    if 10 * agree_wide >= 9 * denominator {
        Tone::Green
    } else if 2 * agree_wide >= denominator {
        Tone::Yellow
    } else {
        Tone::Red
    }
}

/// Full propagation always shows as a green gauge.
pub proof fn lemma_full_propagation_is_green(agree: usize, responding: usize)
    requires
        fully_propagated(agree, responding),
    ensures
        propagation_tone_of(agree, responding) == Tone::Green,
{
}

/// The text that follows the settled gauge's percentage: how many
/// resolvers were unreachable, then whether propagation is complete, when
/// the next poll is due, or that watching is off.
pub open spec fn gauge_tail_text(
    agree: usize,
    responding: usize,
    errors: usize,
    next_poll_secs: Option<u64>,
) -> Seq<char> {
    let unreachable = if errors > 0 {
        " · "@ + decimal_text(errors as nat) + " unreachable"@
    } else {
        Seq::empty()
    };
    let state = if fully_propagated(agree, responding) {
        " · complete "@
    } else {
        match next_poll_secs {
            Some(secs) => " · next poll in "@ + decimal_text(secs as nat) + "s (Ctrl+R stops) "@,
            None => " · watch off (Ctrl+R resumes) "@,
        }
    };
    unreachable + state
}

/// What the propagation gauge shows.
pub enum GaugeView {
    /// Nothing queried yet: an invitation to type a domain.
    Hint,
    /// A round is in flight; the gauge fills with `done / total`.
    Checking { label: String },
    /// The round is settled; the gauge fills with the agreeing share.
    /// Its label is `head`, the percentage, `"%)"`, then `tail`.
    Settled { tone: Tone, head: String, tail: String },
}

/// The mathematical content of a [`GaugeView`].
pub enum GaugeSpec {
    Hint,
    Checking { label: Seq<char> },
    Settled { tone: Tone, head: Seq<char>, tail: Seq<char> },
}

impl View for GaugeView {
    type V = GaugeSpec;

    open spec fn view(&self) -> GaugeSpec {
        match self {
            GaugeView::Hint => GaugeSpec::Hint,
            GaugeView::Checking { label } => GaugeSpec::Checking { label: label@ },
            GaugeView::Settled { tone, head, tail } => GaugeSpec::Settled {
                tone: *tone,
                head: head@,
                tail: tail@,
            },
        }
    }
}

/// The gauge for the given round state.
pub open spec fn gauge_spec(
    queried: bool,
    in_flight: bool,
    spinner: Seq<char>,
    done: usize,
    total: usize,
    agree: usize,
    responding: usize,
    errors: usize,
    next_poll_secs: Option<u64>,
) -> GaugeSpec {
    if !queried {
        GaugeSpec::Hint
    } else if in_flight {
        GaugeSpec::Checking {
            label: spinner + " checking… "@ + decimal_text(done as nat) + "/"@ + decimal_text(
                total as nat,
            ) + " "@,
        }
    } else {
        GaugeSpec::Settled {
            tone: propagation_tone_of(agree, responding),
            head: " propagation "@ + decimal_text(agree as nat) + "/"@ + decimal_text(
                responding as nat,
            ) + " ("@,
            tail: gauge_tail_text(agree, responding, errors, next_poll_secs),
        }
    }
}

/// Decides what the propagation gauge shows. `queried` tells whether a
/// check was started, `spinner` is the current spinner frame, `total` the
/// number of resolvers, and `next_poll_secs` the seconds until the next
/// poll when watching.
pub fn gauge_view(
    queried: bool,
    in_flight: bool,
    spinner: &str,
    done: usize,
    total: usize,
    agree: usize,
    responding: usize,
    errors: usize,
    next_poll_secs: Option<u64>,
) -> (g: GaugeView)
    ensures
        g@ == gauge_spec(
            queried,
            in_flight,
            spinner@,
            done,
            total,
            agree,
            responding,
            errors,
            next_poll_secs,
        ),
{
    if !queried {
        GaugeView::Hint
    } else if in_flight {
        let mut label = String::from_str(spinner);
        label.append(" checking… ");
        label.append(decimal(done as u128).as_str());
        label.append("/");
        label.append(decimal(total as u128).as_str());
        label.append(" ");
        GaugeView::Checking { label }
    } else {
        let mut head = String::from_str(" propagation ");
        head.append(decimal(agree as u128).as_str());
        head.append("/");
        head.append(decimal(responding as u128).as_str());
        head.append(" (");
        let mut tail = String::new();
        if errors > 0 {
            tail.append(" · ");
            tail.append(decimal(errors as u128).as_str());
            tail.append(" unreachable");
        }
        if is_fully_propagated(agree, responding) {
            tail.append(" · complete ");
        } else {
            match next_poll_secs {
                Some(secs) => {
                    tail.append(" · next poll in ");
                    tail.append(decimal(secs as u128).as_str());
                    tail.append("s (Ctrl+R stops) ");
                },
                None => {
                    tail.append(" · watch off (Ctrl+R resumes) ");
                },
            }
        }
        assert(tail@ =~= gauge_tail_text(agree, responding, errors, next_poll_secs));
        GaugeView::Settled { tone: propagation_tone(agree, responding), head, tail }
    }
}

} // verus!

verus! {

/// The domain input split at the cursor (the cursor is clamped to the end).
pub open spec fn split_at_cursor_spec(domain: Seq<char>, cursor: usize) -> (Seq<char>, Seq<char>) {
    let at: int = if cursor < domain.len() { cursor as int } else { domain.len() as int };
    (domain.take(at), domain.skip(at))
}

/// Splits the domain input at the cursor, for drawing the caret between
/// the two halves. The input only holds ASCII (byte index and character
/// index coincide).
pub fn split_at_cursor(domain: &str, cursor: usize) -> (r: (String, String))
    requires
        is_ascii(domain),
    ensures
        (r.0@, r.1@) == split_at_cursor_spec(domain@, cursor),
{
    let n = domain.unicode_len();
    let at = if cursor < n { cursor } else { n };
    let before = domain.substring_ascii(0, at).to_owned();
    let after = domain.substring_ascii(at, n).to_owned();
    (before, after)
}

} // verus!

verus! {

/// One record-type tab of the header.
pub struct TypeTab {
    pub label: String,
    pub selected: bool,
}

/// The header's record-type tabs: each type name padded by a space on both
/// sides, the one at `selected` highlighted.
pub fn type_tabs(names: &Vec<String>, selected: usize) -> (tabs: Vec<TypeTab>)
    ensures
        tabs.len() == names.len(),
        forall|i: int|
            0 <= i < names.len() ==> (#[trigger] tabs[i]).label@ == " "@ + names[i]@ + " "@
                && tabs[i].selected == (i == selected),
{
    let mut tabs: Vec<TypeTab> = Vec::new();
    let mut i: usize = 0;
    while i < names.len()
        invariant
            i <= names.len(),
            tabs.len() == i,
            forall|k: int|
                0 <= k < i ==> (#[trigger] tabs[k]).label@ == " "@ + names[k]@ + " "@
                    && tabs[k].selected == (k == selected),
        decreases names.len() - i,
    {
        let mut label = String::from_str(" ");
        label.append(names[i].as_str());
        label.append(" ");
        tabs.push(TypeTab { label, selected: i == selected });
        i = i + 1;
    }
    tabs
}

/// The title under the results table.
pub fn resolver_count_title(total: usize) -> (title: String)
    ensures
        title@ == " "@ + decimal_text(total as nat) + " resolvers (↑/↓ scroll) "@,
{
    let mut title = String::from_str(" ");
    title.append(decimal(total as u128).as_str());
    title.append(" resolvers (↑/↓ scroll) ");
    title
}

/// Height from which the panel below the map holds text.
pub const MAP_INFO_MIN_HEIGHT: u16 = 3;

/// What the panel below the map shows.
pub enum MapInfo {
    /// Too little room: the panel is left empty.
    Hidden,
    /// The colour legend only.
    Legend,
    /// The legend, then a heading over the majority answer's values.
    Majority { heading: String },
    /// The legend, then a note that answers are still coming in.
    Waiting,
}

/// The mathematical content of a [`MapInfo`].
pub enum MapInfoSpec {
    Hidden,
    Legend,
    Majority { heading: Seq<char> },
    Waiting,
}

impl View for MapInfo {
    type V = MapInfoSpec;

    open spec fn view(&self) -> MapInfoSpec {
        match self {
            MapInfo::Hidden => MapInfoSpec::Hidden,
            MapInfo::Legend => MapInfoSpec::Legend,
            MapInfo::Majority { heading } => MapInfoSpec::Majority { heading: heading@ },
            MapInfo::Waiting => MapInfoSpec::Waiting,
        }
    }
}

/// The panel below the map, by its height and the round's state.
pub open spec fn map_info_spec(
    height: u16,
    complete: bool,
    majority_count: usize,
    agree: usize,
    total: usize,
    queried: bool,
    in_flight: bool,
) -> MapInfoSpec {
    if height < MAP_INFO_MIN_HEIGHT {
        MapInfoSpec::Hidden
    } else if complete && majority_count > 0 {
        MapInfoSpec::Majority {
            heading: "Majority answer ("@ + decimal_text(agree as nat) + "/"@ + decimal_text(
                total as nat,
            ) + " resolvers):"@,
        }
    } else if queried && in_flight {
        MapInfoSpec::Waiting
    } else {
        MapInfoSpec::Legend
    }
}

/// Decides what the panel below the map shows. `majority_count` is the
/// number of values in the majority answer; the caller lists them under
/// the heading.
pub fn map_info(
    height: u16,
    complete: bool,
    majority_count: usize,
    agree: usize,
    total: usize,
    queried: bool,
    in_flight: bool,
) -> (m: MapInfo)
    ensures
        m@ == map_info_spec(height, complete, majority_count, agree, total, queried, in_flight),
{
    if height < MAP_INFO_MIN_HEIGHT {
        MapInfo::Hidden
    } else if complete && majority_count > 0 {
        let mut heading = String::from_str("Majority answer (");
        heading.append(decimal(agree as u128).as_str());
        heading.append("/");
        heading.append(decimal(total as u128).as_str());
        heading.append(" resolvers):");
        MapInfo::Majority { heading }
    } else if queried && in_flight {
        MapInfo::Waiting
    } else {
        MapInfo::Legend
    }
}

/// The footer's status line for a query that was started.
pub struct FooterStatus {
    pub heading: String,
    pub ok: String,
    pub none: String,
    pub err: String,
    pub groups: String,
    pub groups_tone: Tone,
}

/// Builds the footer's status line for the query of `domain` with record
/// type code `rtype`: the counts of resolvers with records, without
/// records and with errors, and the number of distinct answer groups
/// (highlighted when answers disagree).
pub fn footer_status(
    domain: &str,
    rtype: u16,
    ok: usize,
    no_records: usize,
    errors: usize,
    groups: usize,
) -> (f: FooterStatus)
    ensures
        f.heading@ == " "@ + domain@ + " "@ + record_type_text(rtype) + ": "@,
        f.ok@ == decimal_text(ok as nat) + " ok"@,
        f.none@ == decimal_text(no_records as nat) + " none"@,
        f.err@ == decimal_text(errors as nat) + " err"@,
        f.groups@ == decimal_text(groups as nat) + " answer group(s)"@,
        f.groups_tone == (if groups > 1 { Tone::Magenta } else { Tone::Dim }),
{
    let mut heading = String::from_str(" ");
    heading.append(domain);
    heading.append(" ");
    heading.append(record_type_name(rtype).as_str());
    heading.append(": ");
    let mut ok_text = decimal(ok as u128);
    ok_text.append(" ok");
    let mut none_text = decimal(no_records as u128);
    none_text.append(" none");
    let mut err_text = decimal(errors as u128);
    err_text.append(" err");
    let mut groups_text = decimal(groups as u128);
    groups_text.append(" answer group(s)");
    FooterStatus {
        heading,
        ok: ok_text,
        none: none_text,
        err: err_text,
        groups: groups_text,
        groups_tone: if groups > 1 { Tone::Magenta } else { Tone::Dim },
    }
}

} // verus!

verus! {

/// `s` ends with `suffix`.
pub open spec fn ends_with(s: Seq<char>, suffix: Seq<char>) -> bool {
    s.len() >= suffix.len() && s.subrange(s.len() - suffix.len(), s.len() as int) == suffix
}

/// The settled gauge reports completion exactly when every responding
/// resolver agrees; otherwise it tells when the next poll is due or that
/// watching is off.
pub proof fn lemma_gauge_complete_iff_full(
    agree: usize,
    responding: usize,
    errors: usize,
    next_poll_secs: Option<u64>,
)
    ensures
        ends_with(gauge_tail_text(agree, responding, errors, next_poll_secs), " · complete "@)
            <==> fully_propagated(agree, responding),
{
    reveal_strlit(" · complete ");
    reveal_strlit("s (Ctrl+R stops) ");
    reveal_strlit(" · watch off (Ctrl+R resumes) ");
    let t = gauge_tail_text(agree, responding, errors, next_poll_secs);
    let c = " · complete "@;
    if fully_propagated(agree, responding) {
        let unreachable = if errors > 0 {
            " · "@ + decimal_text(errors as nat) + " unreachable"@
        } else {
            Seq::empty()
        };
        assert(t == unreachable + c);
        assert(t.subrange(t.len() - c.len(), t.len() as int) =~= c);
    } else {
        let last = if next_poll_secs is Some {
            "s (Ctrl+R stops) "@
        } else {
            " · watch off (Ctrl+R resumes) "@
        };
        assert(t.len() >= last.len());
        assert(t[t.len() - 2] == last[last.len() - 2]);
        assert(last[last.len() - 2] == ')');
        assert(c[c.len() - 2] == 'e');
        if ends_with(t, c) {
            assert(t.subrange(t.len() - c.len(), t.len() as int)[c.len() - 2] == t[t.len() - 2]);
        }
    }
}

} // verus!

verus! {

/// A finished row with records always shows all of its values, joined by
/// ", ", whether or not it agrees with the majority and whether or not the
/// round is complete; every value occurs in the cell.
pub proof fn lemma_answer_cell_lists_all_values(
    result: QueryResult,
    elapsed_ms: u128,
    spinner: Seq<char>,
    complete: bool,
    in_majority: bool,
)
    requires
        result@ is Records,
    ensures
        row_cells_view(RowState::Done { result, elapsed_ms }, spinner, complete, in_majority).answer
            == joined(result@->Records_values, ", "@),
        row_cells_view(RowState::Done { result, elapsed_ms }, spinner, complete, in_majority).answer
            == row_cells_view(RowState::Done { result, elapsed_ms }, spinner, true, true).answer,
        forall|k: int|
            0 <= k < result@->Records_values.len() ==> occurs_in(
                row_cells_view(
                    RowState::Done { result, elapsed_ms },
                    spinner,
                    complete,
                    in_majority,
                ).answer,
                #[trigger] result@->Records_values[k],
            ),
{
    lemma_joined_holds_every_element(result@->Records_values, ", "@);
}

/// A resolver that answered with an error or with "no such record" gets a
/// red map dot and a red status, however the round and the majority stand;
/// the error text or response phrase is the answer cell, in red.
pub proof fn lemma_failures_are_red(
    result: QueryResult,
    elapsed_ms: u128,
    spinner: Seq<char>,
    complete: bool,
    in_majority: bool,
)
    requires
        result@ is Error || result@ is NoRecords,
    ensures
        dot_tone_of(RowState::Done { result, elapsed_ms }, complete, in_majority) == Tone::Red,
        row_cells_view(RowState::Done { result, elapsed_ms }, spinner, complete, in_majority).status_style.tone
            == Tone::Red,
        row_cells_view(RowState::Done { result, elapsed_ms }, spinner, complete, in_majority).answer_style.tone
            == Tone::Red,
        result@ matches ResultView::Error(m) ==> row_cells_view(
            RowState::Done { result, elapsed_ms },
            spinner,
            complete,
            in_majority,
        ).answer == m,
        result@ matches ResultView::NoRecords(c) ==> row_cells_view(
            RowState::Done { result, elapsed_ms },
            spinner,
            complete,
            in_majority,
        ).answer == c,
{
}

/// The settled gauge begins with the unreachable count exactly when some
/// resolver was unreachable, whatever the agreement: `" · "`, the count in
/// decimal, `" unreachable"`.
pub proof fn lemma_gauge_reports_unreachable(
    agree: usize,
    responding: usize,
    errors: usize,
    next_poll_secs: Option<u64>,
)
    ensures
        errors > 0 ==> gauge_tail_text(agree, responding, errors, next_poll_secs).len() >= (" · "@
            + decimal_text(errors as nat) + " unreachable"@).len()
            && gauge_tail_text(agree, responding, errors, next_poll_secs).subrange(
            0,
            (" · "@ + decimal_text(errors as nat) + " unreachable"@).len() as int,
        ) == " · "@ + decimal_text(errors as nat) + " unreachable"@,
        forall|e: nat|
            errors == 0 ==> !occurs_at(
                gauge_tail_text(agree, responding, errors, next_poll_secs),
                " · "@ + decimal_text(e) + " unreachable"@,
                0,
            ),
{
    let t = gauge_tail_text(agree, responding, errors, next_poll_secs);
    reveal_strlit(" · ");
    reveal_strlit(" · complete ");
    reveal_strlit(" · next poll in ");
    reveal_strlit(" · watch off (Ctrl+R resumes) ");
    if errors > 0 {
        let p = " · "@ + decimal_text(errors as nat) + " unreachable"@;
        assert(t.subrange(0, p.len() as int) =~= p);
    } else {
        assert forall|e: nat| !occurs_at(t, " · "@ + decimal_text(e) + " unreachable"@, 0) by {
            let p = " · "@ + decimal_text(e) + " unreachable"@;
            lemma_decimal_starts_with_digit(e);
            if occurs_at(t, p, 0) {
                assert(t.subrange(0, p.len() as int)[3] == p[3]);
                assert(p[3] == decimal_text(e)[0]);
                assert(t[3] == 'c' || t[3] == 'n' || t[3] == 'w');
            }
        }
    }
}

proof fn lemma_decimal_starts_with_digit(n: nat)
    ensures
        decimal_text(n).len() >= 1,
        '0' <= decimal_text(n)[0] <= '9',
    decreases n,
{
    if n >= 10 {
        lemma_decimal_starts_with_digit(n / 10);
    }
}

/// Once the round is settled, the panel under the map lists the majority
/// answer, headed by the agreeing and total counts, whenever there is room
/// and the majority holds at least one value; it lists it at no other time.
pub proof fn lemma_majority_listed(
    height: u16,
    complete: bool,
    majority_count: usize,
    agree: usize,
    total: usize,
    queried: bool,
    in_flight: bool,
)
    ensures
        height >= 3 && complete && majority_count >= 1 ==> map_info_spec(
            height,
            complete,
            majority_count,
            agree,
            total,
            queried,
            in_flight,
        ) == (MapInfoSpec::Majority {
            heading: "Majority answer ("@ + decimal_text(agree as nat) + "/"@ + decimal_text(
                total as nat,
            ) + " resolvers):"@,
        }),
        map_info_spec(height, complete, majority_count, agree, total, queried, in_flight) is Majority
            ==> height >= 3 && complete && majority_count >= 1,
        height < 3 ==> map_info_spec(
            height,
            complete,
            majority_count,
            agree,
            total,
            queried,
            in_flight,
        ) is Hidden,
{
}

} // verus!

verus! {

/// How bad a traffic-light colour is: green, then yellow, then red.
pub open spec fn severity(tone: Tone) -> int {
    match tone {
        Tone::Green => 0,
        Tone::Yellow => 1,
        _ => 2,
    }
}

/// A slower response never gets a better colour than a faster one; under
/// 100 ms is always green and from 400 ms always red.
pub proof fn lemma_time_tone_monotone(fast: u128, slow: u128)
    requires
        fast <= slow,
    ensures
        severity(time_tone(fast)) <= severity(time_tone(slow)),
        fast < 100 ==> time_tone(fast) == Tone::Green,
        slow >= 400 ==> time_tone(slow) == Tone::Red,
{
}

/// More agreement never gives the gauge a worse colour; at least 90% of
/// the responders agreeing is green, under half is red.
pub proof fn lemma_propagation_tone_monotone(fewer: usize, more: usize, responding: usize)
    requires
        fewer <= more,
    ensures
        severity(propagation_tone_of(more, responding)) <= severity(
            propagation_tone_of(fewer, responding),
        ),
        responding > 0 && 10 * more >= 9 * responding ==> propagation_tone_of(more, responding)
            == Tone::Green,
        responding > 0 && 2 * fewer < responding ==> propagation_tone_of(fewer, responding)
            == Tone::Red,
{
}

} // verus!
