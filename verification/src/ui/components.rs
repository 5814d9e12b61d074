//! The texts of the mapping rows and the status line, and the window's choices
//! on closing and at start.
use vstd::prelude::*;

use crate::text::{push_zero_padded, zero_padded};
use vstd::string::StringExecFns;

verus! {

/// The sort key of the row of control `cc`: `cc-` and three digits.
pub open spec fn row_name_text(cc: u8) -> Seq<char> {
    "cc-"@ + zero_padded(cc as nat, 3)
}

/// The text of the row of control `cc`: `CC` and at least two digits.
pub open spec fn cc_label_text(cc: u8) -> Seq<char> {
    "CC"@ + zero_padded(cc as nat, 2)
}

/// The sort key of the row of control `cc` (`format!("cc-{:03}", cc)`).
pub fn row_name(cc: u8) -> (r: String)
    ensures
        r@ == row_name_text(cc),
{
    let mut s = String::from_str("cc-");
    push_zero_padded(&mut s, cc as u32, 3);
    s
}

/// The text of the row of control `cc` (`format!("CC{:02}", cc)`).
pub fn cc_label(cc: u8) -> (r: String)
    ensures
        r@ == cc_label_text(cc),
{
    let mut s = String::from_str("CC");
    push_zero_padded(&mut s, cc as u32, 2);
    s
}

/// `a` comes before `b` in the order strings are compared in (character by
/// character; a proper prefix first).
pub open spec fn text_before(a: Seq<char>, b: Seq<char>) -> bool
    decreases a.len(),
{
    if a.len() == 0 {
        b.len() > 0
    } else if b.len() == 0 {
        false
    } else if a[0] != b[0] {
        (a[0] as u32) < (b[0] as u32)
    } else {
        text_before(a.drop_first(), b.drop_first())
    }
}

proof fn lemma_three_digits(n: nat)
    requires
        n < 1000,
    ensures
        zero_padded(n, 3) == seq![
            crate::text::digit_char(n / 100),
            crate::text::digit_char((n / 10) % 10),
            crate::text::digit_char(n % 10),
        ],
{
    reveal_with_fuel(crate::text::decimal, 3);
    if n < 10 {
        assert(zero_padded(n, 3) =~= seq!['0', '0', crate::text::digit_char(n)]);
    } else if n < 100 {
        assert(zero_padded(n, 3) =~= seq![
            '0',
            crate::text::digit_char(n / 10),
            crate::text::digit_char(n % 10),
        ]);
    } else {
        assert(zero_padded(n, 3) =~= seq![
            crate::text::digit_char(n / 100),
            crate::text::digit_char((n / 10) % 10),
            crate::text::digit_char(n % 10),
        ]);
    }
}

/// Sorting the rows by their names sorts them by controller number.
pub proof fn lemma_row_order(a: u8, b: u8)
    ensures
        text_before(row_name_text(a), row_name_text(b)) <==> a < b,
{
    lemma_three_digits(a as nat);
    lemma_three_digits(b as nat);
    reveal_strlit("cc-");
    let x = row_name_text(a);
    let y = row_name_text(b);
    reveal_with_fuel(text_before, 7);
    assert(x.drop_first().drop_first().drop_first() =~= zero_padded(a as nat, 3));
    assert(y.drop_first().drop_first().drop_first() =~= zero_padded(b as nat, 3));
    assert(x[0] == y[0] && x[1] == y[1] && x[2] == y[2]);
    let p = zero_padded(a as nat, 3);
    let q = zero_padded(b as nat, 3);
    assert(p.drop_first().drop_first() =~= seq![p[2]]);
    assert(q.drop_first().drop_first() =~= seq![q[2]]);
    assert(p.drop_first() =~= seq![p[1], p[2]]);
    assert(q.drop_first() =~= seq![q[1], q[2]]);
}

/// What a request to close the window does.
#[derive(Debug, Clone, Copy, PartialEq, Eq, Structural)]
pub enum CloseOutcome {
    /// The window is hidden and the mappings stay active.
    Hide,
    /// The program quits.
    Quit,
}

/// Closing the window hides it while the background switch is on, and quits otherwise.
pub fn close_request(background_enabled: bool) -> (r: CloseOutcome)
    ensures
        r == (if background_enabled { CloseOutcome::Hide } else { CloseOutcome::Quit }),
{
    if background_enabled {
        CloseOutcome::Hide
    } else {
        CloseOutcome::Quit
    }
}

/// Whether the window starts minimized: only when asked to start in the
/// background and the background switch is on.
pub fn start_minimized(start_in_background: bool, background_enabled: bool) -> (r: bool)
    ensures
        r == (start_in_background && background_enabled),
{
    start_in_background && background_enabled
}

/// The status line after trying to connect to `device`: a check mark and the
/// device, or a cross and the reason it failed.
pub fn connection_status(device: &str, outcome: &Result<(), String>) -> (r: String)
    ensures
        match outcome {
            Ok(()) => r@ == "\u{2713} Connected to "@ + device@,
            Err(e) => r@ == "\u{d7} "@ + e@,
        },
{
    match outcome {
        Ok(()) => {
            let mut s = String::from_str("\u{2713} Connected to ");
            s.append(device);
            s
        },
        Err(e) => {
            let mut s = String::from_str("\u{d7} ");
            s.append(e.as_str());
            s
        },
    }
}

/// The control whose row the mapping list gains when the MIDI thread reports an
/// event for control `received`: that control, when it has no row among the
/// `shown` ones yet.
pub fn row_to_add(received: Option<u8>, shown: &Vec<u8>) -> (r: Option<u8>)
    ensures
        received is None ==> r is None,
        received is Some ==> r == (if shown@.contains(received->0) {
            None
        } else {
            received
        }),
{
    match received {
        None => None,
        Some(cc) => {
            let mut i: usize = 0;
            while i < shown.len()
                invariant
                    received == Some(cc),
                    i <= shown.len(),
                    forall|k: int| 0 <= k < i ==> shown@[k] != cc,
                decreases shown.len() - i,
            {
                if shown[i] == cc {
                    assert(shown@[i as int] == cc);
                    assert(shown@.contains(cc));
                    return None;
                }
                i = i + 1;
            }
            Some(cc)
        },
    }
}

} // verus!
