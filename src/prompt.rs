use vstd::prelude::*;

verus! {

/// An input event, reduced to what the two-option prompt reads.
#[derive(PartialEq, Eq, Structural, Clone, Copy, Debug)]
pub enum PromptEvent {
    /// The left mouse button went up at this cell.
    LeftRelease { row: u16, column: u16 },
    /// The cancel chord (control and `q`).
    Cancel,
    /// Anything else.
    Other,
}

/// Where the prompt's two options lie on its row, both ends included.
#[derive(PartialEq, Eq, Structural, Clone, Copy, Debug)]
pub struct Spans {
    pub row: u16,
    pub l1: u64,
    pub r1: u64,
    pub l2: u64,
    pub r2: u64,
}

/// The spans of `[first] [second]` on `row`, for labels of `len1` and `len2`
/// characters: the first from column 1, the second three columns after it ends.
pub open spec fn spans_spec(row: u16, len1: u64, len2: u64) -> Spans {
    Spans { row, l1: 1, r1: (1 + len1) as u64, l2: (4 + len1) as u64, r2: (4 + len1 + len2) as u64 }
}

pub fn spans(row: u16, len1: u32, len2: u32) -> (s: Spans)
    ensures
        s == spans_spec(row, len1 as u64, len2 as u64),
{
    let a = len1 as u64;
    let b = len2 as u64;
    Spans { row, l1: 1, r1: 1 + a, l2: 4 + a, r2: 4 + a + b }
}

/// The answer an event gives: `Some(1)` or `Some(2)` for a release on the first or
/// second option, `Some(0)` for the cancel chord, `None` to keep waiting.
pub open spec fn answer(ev: PromptEvent, s: Spans) -> Option<i8> {
    match ev {
        PromptEvent::LeftRelease { row, column } => {
            if row == s.row && s.l1 <= column <= s.r1 {
                Some(1i8)
            } else if row == s.row && s.l2 <= column <= s.r2 {
                Some(2i8)
            } else {
                None
            }
        },
        PromptEvent::Cancel => Some(0i8),
        PromptEvent::Other => None,
    }
}

/// Decides what one event means for the prompt.
pub fn handle_button(ev: PromptEvent, s: Spans) -> (r: Option<i8>)
    ensures
        r == answer(ev, s),
{
    match ev {
        PromptEvent::LeftRelease { row, column } => {
            let col = column as u64;
            if row == s.row && s.l1 <= col && col <= s.r1 {
                Some(1)
            } else if row == s.row && s.l2 <= col && col <= s.r2 {
                Some(2)
            } else {
                None
            }
        },
        PromptEvent::Cancel => Some(0),
        PromptEvent::Other => None,
    }
}

} // verus!
