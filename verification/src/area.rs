//! Rectangles of the terminal grid, and the split of the terminal into the
//! chat pane, the input pane and the hint line.

use vstd::prelude::*;
use ratatui::layout::{Constraint, Direction, Layout, Rect};

verus! {

/// A rectangle of terminal cells.
#[derive(Clone, Copy, Debug, PartialEq, Eq, Structural)]
pub struct Area {
    pub x: u16,
    pub y: u16,
    pub width: u16,
    pub height: u16,
}

/// The least height of the chat pane.
pub const CHAT_MIN_HEIGHT: u16 = 3;

/// The height of the input pane.
pub const INPUT_HEIGHT: u16 = 7;

/// The height of the hint line.
pub const HINT_HEIGHT: u16 = 1;

impl Area {
    /// The rectangle lies within the grid that 16-bit coordinates address.
    pub open spec fn fits(&self) -> bool {
        self.x + self.width <= u16::MAX && self.y + self.height <= u16::MAX
    }
}

/// How tall a row of the layout is to be.
#[derive(Clone, Copy, Debug, PartialEq, Eq, Structural)]
pub enum RowRule {
    /// At least so many lines.
    Min(u16),
    /// Exactly so many lines.
    Length(u16),
}

/// Whether `pane` spans the columns of `area` and lies within its rows.
pub open spec fn row_of(pane: Area, area: Area) -> bool {
    &&& pane.x == area.x
    &&& pane.width == area.width
    &&& area.y <= pane.y
    &&& pane.y + pane.height <= area.y + area.height
}

/// `Layout::split` of ratatui, for a vertical layout with one row per rule.
/// ratatui's constraint solver places the rows. The contract claims what
/// holds of every placing: there is one rectangle per rule; each has the
/// column and the width of `area`, which the conversion of the solver's
/// result copies; and each lies within the rows of `area`, which the
/// solver's required constraints demand. How the rules share the rows is
/// the solver's choice among soft constraints, and no contract says.
#[verifier::external_body]
fn split_rows(area: Area, rules: &Vec<RowRule>) -> (out: Vec<Area>)
    ensures
        out@.len() == rules@.len(),
        forall|i: int| 0 <= i < out@.len() ==> row_of(#[trigger] out@[i], area),
{
    let rect = Rect { x: area.x, y: area.y, width: area.width, height: area.height };
    let rows = rules.iter().map(|r| match r {
        RowRule::Min(n) => Constraint::Min(*n),
        RowRule::Length(n) => Constraint::Length(*n),
    });
    let chunks = Layout::default().direction(Direction::Vertical).constraints(rows).split(rect);
    chunks.iter().map(|r| Area { x: r.x, y: r.y, width: r.width, height: r.height }).collect()
}

/// Splits the terminal into the chat pane, the input pane and the hint
/// line. Each pane spans the width of the terminal and lies within its
/// rows.
pub fn compute_layout(area: Area) -> (panes: Vec<Area>)
    ensures
        panes@.len() == 3,
        forall|i: int| 0 <= i < 3 ==> row_of(#[trigger] panes@[i], area),
{
    let mut rules: Vec<RowRule> = Vec::new();
    rules.push(RowRule::Min(CHAT_MIN_HEIGHT));
    rules.push(RowRule::Length(INPUT_HEIGHT));
    rules.push(RowRule::Length(HINT_HEIGHT));
    split_rows(area, &rules)
}

} // verus!
