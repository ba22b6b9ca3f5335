//! What the game looks like on a terminal: the lines of the main window and
//! of the result popup, each with the place where it is written.

use crate::engine::{shown_dealer_cards, shown_dealer_value, GameState, GameUI, GameView};
use crate::hand::{display_of, hand_value};
use crate::text::{decimal, lemma_repeated_space, repeat_str, repeated, spaces, u32_to_string};
use crate::width::{display_width, str_width};
use vstd::prelude::*;

verus! {

/// `content` followed by the spaces that fill it up to `total` columns, given
/// that it takes `width` columns itself. Content that is already as wide, or
/// wider, stays as it is.
pub open spec fn padded(content: Seq<char>, width: nat, total: nat) -> Seq<char> {
    content + spaces(
        if total > width {
            (total - width) as nat
        } else {
            0
        },
    )
}

/// How far from the start of a span a text of the given width begins when it
/// is centred in it; an odd column goes to the right.
pub open spec fn centered_offset(span: nat, width: nat) -> nat {
    if span >= width {
        ((span - width) / 2) as nat
    } else {
        0
    }
}

/// Where a window of the given size begins when it is centred in the space
/// there is; at 0 where the space is too small.
pub open spec fn spec_origin(space: u16, size: u16) -> u16 {
    if space >= size {
        ((space - size) / 2) as u16
    } else {
        0
    }
}

/// Fills `content` up to `total_width` columns with spaces, given the columns
/// it takes itself.
pub fn pad_to(content: &str, content_width: usize, total_width: usize) -> (s: String)
    ensures
        s@ == padded(content@, content_width as nat, total_width as nat),
{
    let padding: usize = if total_width > content_width {
        total_width - content_width
    } else {
        0
    };
    let fill = repeat_str(" ", padding);
    let mut s = String::from_str(content);
    s.append(fill.as_str());
    proof {
        reveal_strlit(" ");
        assert(" "@ =~= seq![' ']);
        lemma_repeated_space(padding as nat);
    }
    s
}

/// Fills `content` up to `total_width` columns with spaces, by the columns
/// that it takes on a terminal.
pub fn pad_line(content: &str, total_width: usize) -> (s: String)
    ensures
        s@ == padded(content@, display_width(content@), total_width as nat),
{
    let width = str_width(content);
    pad_to(content, width, total_width)
}

/// Where a window of the given size begins when it is centred in the space
/// there is.
pub fn origin(space: u16, size: u16) -> (start: u16)
    ensures
        start == spec_origin(space, size),
        start + size <= u16::MAX,
{
    if space >= size {
        (space - size) / 2
    } else {
        0
    }
}

/// The column at which a text of the given width begins when it is centred in
/// the span that starts at `start`; `None` where the text is wider than the
/// span or the column is beyond what a terminal can address.
pub fn centered(start: u16, span: u16, width: usize) -> (x: Option<u16>)
    ensures
        x is Some <==> width <= span && start + centered_offset(span as nat, width as nat)
            <= u16::MAX,
        x matches Some(x) ==> x == start + centered_offset(span as nat, width as nat),
{
    if width > span as usize {
        return None;
    }
    let offset: u16 = (span - width as u16) / 2;
    if offset > u16::MAX - start {
        None
    } else {
        Some(start + offset)
    }
}

/// How many columns the main window takes.
pub const WINDOW_WIDTH: u16 = 60;

/// How many rows are set aside for the main window when it is centred.
pub const WINDOW_HEIGHT: u16 = 20;

/// How many columns the result popup takes.
pub const POPUP_WIDTH: u16 = 50;

/// How many rows the result popup takes.
pub const POPUP_HEIGHT: u16 = 7;

/// A piece of text and the place on the terminal where it is written.
#[derive(Debug, PartialEq, Eq)]
pub struct Placed {
    pub x: u16,
    pub y: u16,
    pub text: String,
}

impl Clone for Placed {
    /// The same text at the same place.
    fn clone(&self) -> (p: Placed)
        ensures
            p@ == self@,
    {
        Placed { x: self.x, y: self.y, text: self.text.clone() }
    }
}

/// A placed text, seen from outside.
pub struct PlacedView {
    pub x: u16,
    pub y: u16,
    pub text: Seq<char>,
}

impl View for Placed {
    type V = PlacedView;

    open spec fn view(&self) -> PlacedView {
        PlacedView { x: self.x, y: self.y, text: self.text@ }
    }
}

/// The placed texts of a list, each seen from outside.
pub open spec fn views(rows: Seq<Placed>) -> Seq<PlacedView> {
    Seq::new(rows.len(), |k: int| rows[k]@)
}

/// A text placed at a column and a row.
pub open spec fn at(x: int, y: int, text: Seq<char>) -> PlacedView {
    PlacedView { x: x as u16, y: y as u16, text }
}

/// The top edge of a box with `inner` columns between its corners.
pub open spec fn edge_top(inner: nat) -> Seq<char> {
    "┌"@ + repeated("─"@, inner) + "┐\r"@
}

/// A rule across a box with `inner` columns between its sides.
pub open spec fn edge_rule(inner: nat) -> Seq<char> {
    "├"@ + repeated("─"@, inner) + "┤\r"@
}

/// The bottom edge of a box with `inner` columns between its corners.
pub open spec fn edge_bottom(inner: nat) -> Seq<char> {
    "└"@ + repeated("─"@, inner) + "┘\r"@
}

/// An empty line of a box with `inner` columns between its sides.
pub open spec fn edge_blank(inner: nat) -> Seq<char> {
    "│"@ + repeated(" "@, inner) + "│\r"@
}

/// A line of a box that holds `content`, filled up to `inner` columns.
pub open spec fn boxed(content: Seq<char>, inner: nat) -> Seq<char> {
    "│"@ + padded(content, display_width(content), inner) + "│\r"@
}

/// The heading of the main window.
pub open spec fn title_text() -> Seq<char> {
    " ♠ BLACKJACK ♥ "@
}

/// What the popup asks of the player.
pub open spec fn prompt_text() -> Seq<char> {
    "Press [N] for new round or [Q] to quit"@
}

/// The line that shows the dealer's cards, as far as they are shown.
pub open spec fn dealer_cards_text(v: GameView) -> Seq<char> {
    "  Cards: "@ + shown_dealer_cards(v)
}

/// The line that shows the dealer's score, or that it is not known yet.
pub open spec fn dealer_value_text(v: GameView) -> Seq<char> {
    match shown_dealer_value(v) {
        Some(n) => "  Value: "@ + decimal(n as nat),
        None => "  Value: ???"@,
    }
}

/// The line that shows the player's cards.
pub open spec fn player_cards_text(v: GameView) -> Seq<char> {
    "  Cards: "@ + display_of(v.player)
}

/// The line that shows the player's score.
pub open spec fn player_value_text(v: GameView) -> Seq<char> {
    "  Value: "@ + decimal(hand_value(v.player))
}

/// The line that says which keys do something in a phase.
pub open spec fn controls_text(state: GameState) -> Seq<char> {
    match state {
        GameState::PlayerTurn => "  [H] Hit  │  [S] Stand  │  [Q] Quit"@,
        GameState::RoundEnd => "  [N] New Round  │  [Q] Quit"@,
        _ => "  [Q] Quit"@,
    }
}

/// The outcome in words, empty while there is none.
pub open spec fn result_text(v: GameView) -> Seq<char> {
    match v.outcome {
        Some(o) => o.spec_message(),
        None => Seq::empty(),
    }
}

/// The main window with its top left corner at column `x` and row `y`, in the
/// order in which it is written: the top edge, the heading over it, then line
/// by line the dealer's part, the player's part and the keys.
pub open spec fn main_window(v: GameView, x: u16, y: u16) -> Seq<PlacedView> {
    seq![
        at(x as int, y as int, edge_top(58)),
        at(x + centered_offset(60, display_width(title_text())), y as int, title_text() + "\r"@),
        at(x as int, y + 1, edge_blank(58)),
        at(x as int, y + 2, edge_rule(58)),
        at(x as int, y + 3, boxed("  DEALER"@, 58)),
        at(x as int, y + 4, edge_rule(58)),
        at(x as int, y + 5, boxed(dealer_cards_text(v), 58)),
        at(x as int, y + 6, boxed(dealer_value_text(v), 58)),
        at(x as int, y + 7, edge_blank(58)),
        at(x as int, y + 8, edge_rule(58)),
        at(x as int, y + 9, boxed("  PLAYER"@, 58)),
        at(x as int, y + 10, edge_rule(58)),
        at(x as int, y + 11, boxed(player_cards_text(v), 58)),
        at(x as int, y + 12, boxed(player_value_text(v), 58)),
        at(x as int, y + 13, edge_blank(58)),
        at(x as int, y + 14, edge_rule(58)),
        at(x as int, y + 15, boxed(controls_text(v.state), 58)),
        at(x as int, y + 16, edge_blank(58)),
        at(x as int, y + 17, edge_bottom(58)),
    ]
}

/// The result popup with its top left corner at column `x` and row `y`, in
/// the order in which it is written: seven lines of shadow one column and one
/// row off, the empty box over them, then its heading, a rule, the outcome
/// and the prompt, both centred.
pub open spec fn popup_window(message: Seq<char>, x: u16, y: u16) -> Seq<PlacedView> {
    seq![
        at(x + 1, y + 1, repeated(" "@, 50)),
        at(x + 1, y + 2, repeated(" "@, 50)),
        at(x + 1, y + 3, repeated(" "@, 50)),
        at(x + 1, y + 4, repeated(" "@, 50)),
        at(x + 1, y + 5, repeated(" "@, 50)),
        at(x + 1, y + 6, repeated(" "@, 50)),
        at(x + 1, y + 7, repeated(" "@, 50)),
        at(x as int, y as int, edge_top(48)),
        at(x as int, y + 1, edge_blank(48)),
        at(x as int, y + 2, edge_blank(48)),
        at(x as int, y + 3, edge_blank(48)),
        at(x as int, y + 4, edge_blank(48)),
        at(x as int, y + 5, edge_blank(48)),
        at(x as int, y + 6, edge_bottom(48)),
        at(x + 2, y + 1, "ROUND RESULT\r"@),
        at(x as int, y + 2, edge_rule(48)),
        at(x + centered_offset(50, display_width(message)), y + 3, message + "\r"@),
        at(x + centered_offset(50, display_width(prompt_text())), y + 5, prompt_text() + "\r"@),
    ]
}

/// Whether the heading fits into the main window.
pub open spec fn title_fits() -> bool {
    display_width(title_text()) <= 60
}

/// Whether a message and the prompt both fit into the popup.
pub open spec fn popup_fits(message: Seq<char>) -> bool {
    display_width(message) <= 50 && display_width(prompt_text()) <= 50
}

/// Everything that is written for one picture of the game on a terminal of
/// the given size: the main window, centred, and over it the popup, centred
/// too, once the round has an outcome.
pub open spec fn screen(v: GameView, term_width: u16, term_height: u16) -> Seq<PlacedView> {
    let window = main_window(
        v,
        spec_origin(term_width, WINDOW_WIDTH),
        spec_origin(term_height, WINDOW_HEIGHT),
    );
    if v.outcome is Some {
        window + popup_window(
            result_text(v),
            spec_origin(term_width, POPUP_WIDTH),
            spec_origin(term_height, POPUP_HEIGHT),
        )
    } else {
        window
    }
}

/// Whether everything that `screen` centres fits where it goes.
pub open spec fn screen_fits(v: GameView) -> bool {
    title_fits() && (v.outcome is Some ==> popup_fits(result_text(v)))
}

/// The top edge of a box with `inner` columns between its corners.
pub fn top_line(inner: usize) -> (s: String)
    ensures
        s@ == edge_top(inner as nat),
{
    let mut s = String::from_str("┌");
    s.append(repeat_str("─", inner).as_str());
    s.append("┐\r");
    s
}

/// A rule across a box with `inner` columns between its sides.
pub fn rule_line(inner: usize) -> (s: String)
    ensures
        s@ == edge_rule(inner as nat),
{
    let mut s = String::from_str("├");
    s.append(repeat_str("─", inner).as_str());
    s.append("┤\r");
    s
}

/// The bottom edge of a box with `inner` columns between its corners.
pub fn bottom_line(inner: usize) -> (s: String)
    ensures
        s@ == edge_bottom(inner as nat),
{
    let mut s = String::from_str("└");
    s.append(repeat_str("─", inner).as_str());
    s.append("┘\r");
    s
}

/// An empty line of a box with `inner` columns between its sides.
pub fn blank_line(inner: usize) -> (s: String)
    ensures
        s@ == edge_blank(inner as nat),
{
    let mut s = String::from_str("│");
    s.append(repeat_str(" ", inner).as_str());
    s.append("│\r");
    s
}

/// A line of a box that holds `content`, filled up to `inner` columns.
pub fn text_line(content: &str, inner: usize) -> (s: String)
    ensures
        s@ == boxed(content@, inner as nat),
{
    let mut s = String::from_str("│");
    s.append(pad_line(content, inner).as_str());
    s.append("│\r");
    s
}

/// Adds a text and its place to what is to be written.
fn put(rows: &mut Vec<Placed>, x: u16, y: u16, text: String)
    ensures
        views(final(rows)@) == views(old(rows)@).push(at(x as int, y as int, text@)),
{
    rows.push(Placed { x, y, text });
}

impl GameUI {
    /// The main window with its top left corner at the given column and row;
    /// `None` where the heading does not fit into it.
    pub fn draw_main_window(&self, start_x: u16, start_y: u16) -> (r: Option<Vec<Placed>>)
        requires
            self.wf(),
            start_x + WINDOW_WIDTH <= u16::MAX,
            start_y + WINDOW_HEIGHT <= u16::MAX,
        ensures
            r is Some <==> title_fits(),
            r matches Some(rows) ==> views(rows@) == main_window(self@, start_x, start_y),
    {
        let inner: usize = 58;
        let title = " ♠ BLACKJACK ♥ ";
        let title_x: u16 = match centered(start_x, WINDOW_WIDTH, str_width(title)) {
            Some(x) => x,
            None => {
                return None;
            },
        };
        let mut heading = String::from_str(title);
        heading.append("\r");

        let mut dealer_cards = String::from_str("  Cards: ");
        dealer_cards.append(self.dealer_display().as_str());
        let dealer_value = match self.dealer_value() {
            Some(n) => {
                let mut s = String::from_str("  Value: ");
                s.append(u32_to_string(n).as_str());
                s
            },
            None => String::from_str("  Value: ???"),
        };
        let mut player_cards = String::from_str("  Cards: ");
        player_cards.append(self.player_display().as_str());
        let mut player_value = String::from_str("  Value: ");
        player_value.append(u32_to_string(self.player_value()).as_str());
        let controls = match self.state() {
            GameState::PlayerTurn => "  [H] Hit  │  [S] Stand  │  [Q] Quit",
            GameState::RoundEnd => "  [N] New Round  │  [Q] Quit",
            _ => "  [Q] Quit",
        };

        let mut rows: Vec<Placed> = Vec::new();
        put(&mut rows, start_x, start_y, top_line(inner));
        put(&mut rows, title_x, start_y, heading);
        put(&mut rows, start_x, start_y + 1, blank_line(inner));
        put(&mut rows, start_x, start_y + 2, rule_line(inner));
        put(&mut rows, start_x, start_y + 3, text_line("  DEALER", inner));
        put(&mut rows, start_x, start_y + 4, rule_line(inner));
        put(&mut rows, start_x, start_y + 5, text_line(dealer_cards.as_str(), inner));
        put(&mut rows, start_x, start_y + 6, text_line(dealer_value.as_str(), inner));
        put(&mut rows, start_x, start_y + 7, blank_line(inner));
        put(&mut rows, start_x, start_y + 8, rule_line(inner));
        put(&mut rows, start_x, start_y + 9, text_line("  PLAYER", inner));
        put(&mut rows, start_x, start_y + 10, rule_line(inner));
        put(&mut rows, start_x, start_y + 11, text_line(player_cards.as_str(), inner));
        put(&mut rows, start_x, start_y + 12, text_line(player_value.as_str(), inner));
        put(&mut rows, start_x, start_y + 13, blank_line(inner));
        put(&mut rows, start_x, start_y + 14, rule_line(inner));
        put(&mut rows, start_x, start_y + 15, text_line(controls, inner));
        put(&mut rows, start_x, start_y + 16, blank_line(inner));
        put(&mut rows, start_x, start_y + 17, bottom_line(inner));
        Some(rows)
    }

    /// The result popup, centred on a terminal of the given size; `None`
    /// where the outcome or the prompt does not fit into it.
    pub fn draw_popup(&self, term_width: u16, term_height: u16) -> (r: Option<Vec<Placed>>)
        ensures
            r is Some <==> popup_fits(result_text(self@)),
            r matches Some(rows) ==> views(rows@) == popup_window(
                result_text(self@),
                spec_origin(term_width, POPUP_WIDTH),
                spec_origin(term_height, POPUP_HEIGHT),
            ),
    {
        let inner: usize = 48;
        let start_x = origin(term_width, POPUP_WIDTH);
        let start_y = origin(term_height, POPUP_HEIGHT);
        let mut message = self.round_result();
        let prompt = "Press [N] for new round or [Q] to quit";
        let result_x: u16 = match centered(start_x, POPUP_WIDTH, str_width(message.as_str())) {
            Some(x) => x,
            None => {
                return None;
            },
        };
        let prompt_x: u16 = match centered(start_x, POPUP_WIDTH, str_width(prompt)) {
            Some(x) => x,
            None => {
                return None;
            },
        };
        message.append("\r");
        let mut asking = String::from_str(prompt);
        asking.append("\r");

        let mut rows: Vec<Placed> = Vec::new();
        let mut i: u16 = 0;
        while i < POPUP_HEIGHT
            invariant
                i <= POPUP_HEIGHT,
                start_x + POPUP_WIDTH <= u16::MAX,
                start_y + POPUP_HEIGHT <= u16::MAX,
                views(rows@) == Seq::new(
                    i as nat,
                    |k: int| at(start_x + 1, start_y + k + 1, repeated(" "@, 50)),
                ),
            decreases POPUP_HEIGHT - i,
        {
            put(&mut rows, start_x + 1, start_y + i + 1, repeat_str(" ", 50));
            i = i + 1;
        }
        put(&mut rows, start_x, start_y, top_line(inner));
        let mut j: u16 = 1;
        while j < POPUP_HEIGHT - 1
            invariant
                1 <= j <= POPUP_HEIGHT - 1,
                inner == 48,
                start_x + POPUP_WIDTH <= u16::MAX,
                start_y + POPUP_HEIGHT <= u16::MAX,
                views(rows@) == Seq::new(
                    7,
                    |k: int| at(start_x + 1, start_y + k + 1, repeated(" "@, 50)),
                ).push(at(start_x as int, start_y as int, edge_top(48))) + Seq::new(
                    (j - 1) as nat,
                    |k: int| at(start_x as int, start_y + k + 1, edge_blank(48)),
                ),
            decreases POPUP_HEIGHT - j,
        {
            put(&mut rows, start_x, start_y + j, blank_line(inner));
            j = j + 1;
        }
        put(&mut rows, start_x, start_y + POPUP_HEIGHT - 1, bottom_line(inner));
        put(&mut rows, start_x + 2, start_y + 1, String::from_str("ROUND RESULT\r"));
        put(&mut rows, start_x, start_y + 2, rule_line(inner));
        put(&mut rows, result_x, start_y + 3, message);
        put(&mut rows, prompt_x, start_y + 5, asking);
        Some(rows)
    }

    /// Everything that is written for one picture of the game on a terminal
    /// of the given size, in the order in which it is written; `None` where
    /// something that is centred does not fit where it goes.
    pub fn render(&self, term_width: u16, term_height: u16) -> (r: Option<Vec<Placed>>)
        requires
            self.wf(),
        ensures
            r is Some <==> screen_fits(self@),
            r matches Some(rows) ==> views(rows@) == screen(self@, term_width, term_height),
    {
        let start_x = origin(term_width, WINDOW_WIDTH);
        let start_y = origin(term_height, WINDOW_HEIGHT);
        let mut rows = match self.draw_main_window(start_x, start_y) {
            Some(rows) => rows,
            None => {
                return None;
            },
        };
        if self.outcome().is_some() {
            let mut over = match self.draw_popup(term_width, term_height) {
                Some(over) => over,
                None => {
                    return None;
                },
            };
            rows.append(&mut over);
        }
        Some(rows)
    }
}

} // verus!
