//! The interactive result navigator, modeled as a pure state machine.
//! The terminal loop around it reads one key at a time, feeds it to
//! `nav_step`, and performs the returned action: keep going, dispatch the
//! chosen file and line to an external editor, or quit.  A two-stage
//! choice is composed digit by digit: first a file from the result list,
//! then a matching line within it.

use vstd::prelude::*;

use crate::search::SearchResult;

verus! {

/// The navigator's state: the file and line indices being composed (0
/// means unset) and whether each has been confirmed.
#[derive(Clone, Copy, Debug, PartialEq, Eq, Structural)]
pub struct NavigatorState {
    pub file_index: usize,
    pub file_selected: bool,
    pub line_index: usize,
    pub line_selected: bool,
}

/// One keypress, abstracted: a decimal digit, Enter, Backspace or Delete,
/// the quit key, or anything else.
#[derive(Clone, Copy, Debug, PartialEq, Eq, Structural)]
pub enum NavEvent {
    Digit(u8),
    Confirm,
    Erase,
    Quit,
    Other,
}

/// What the loop must do after a step: keep reading keys, dispatch the
/// chosen file and line to the editor and stop, or stop without dispatch.
#[derive(Clone, Copy, Debug, PartialEq, Eq, Structural)]
pub enum NavAction {
    Continue,
    Dispatch,
    Quit,
}

/// A digit is appended to whichever index is being composed: the line
/// index once a file is selected, the file index before that.
pub open spec fn spec_compose_digit(s: NavigatorState, d: u8) -> NavigatorState {
    if s.file_selected {
        NavigatorState { line_index: (s.line_index * 10 + d) as usize, ..s }
    } else {
        NavigatorState { file_index: (s.file_index * 10 + d) as usize, ..s }
    }
}

/// Erasing drops the last digit of the index being composed.  A line
/// index is being composed when a file is selected and the line index is
/// set; dropping its only digit resets it and clears the line selection.
/// Otherwise the file index loses a digit, and the file selection is
/// cleared when the index becomes 0.
pub open spec fn spec_erase(s: NavigatorState) -> NavigatorState {
    if s.file_selected && s.line_index != 0 {
        NavigatorState {
            line_index: (s.line_index as int / 10) as usize,
            line_selected: if s.line_index <= 9 {
                false
            } else {
                s.line_selected
            },
            ..s
        }
    } else {
        let nf = (s.file_index as int / 10) as usize;
        NavigatorState {
            file_index: nf,
            file_selected: if nf == 0 {
                false
            } else {
                s.file_selected
            },
            ..s
        }
    }
}

/// The navigator's transition function.  Confirm selects the file when one
/// is composed and none is selected yet; with a file selected and a line
/// composed, it selects the line, which triggers the dispatch.  Quit stops
/// the loop; any other key changes nothing.
pub open spec fn spec_nav_step(s: NavigatorState, event: NavEvent) -> (NavigatorState, NavAction) {
    match event {
        NavEvent::Digit(d) => (spec_compose_digit(s, d), NavAction::Continue),
        NavEvent::Confirm => if !s.file_selected && s.file_index != 0 {
            (NavigatorState { file_selected: true, ..s }, NavAction::Continue)
        } else if s.file_selected && s.line_index != 0 {
            (NavigatorState { line_selected: true, ..s }, NavAction::Dispatch)
        } else {
            (s, NavAction::Continue)
        },
        NavEvent::Erase => (spec_erase(s), NavAction::Continue),
        NavEvent::Quit => (s, NavAction::Quit),
        NavEvent::Other => (s, NavAction::Continue),
    }
}

impl NavigatorState {
    /// The navigator's start state: nothing composed, nothing selected.
    pub fn new() -> (s: NavigatorState)
        ensures
            s == (NavigatorState {
                file_index: 0usize,
                file_selected: false,
                line_index: 0usize,
                line_selected: false,
            }),
    {
        NavigatorState { file_index: 0, file_selected: false, line_index: 0, line_selected: false }
    }
}

/// Runs one navigator transition, matching `spec_nav_step`.
pub fn nav_step(s: NavigatorState, event: NavEvent) -> (r: (NavigatorState, NavAction))
    requires
        (event matches NavEvent::Digit(d) ==> (if s.file_selected {
            s.line_index
        } else {
            s.file_index
        }) * 10 + d <= usize::MAX),
    ensures
        r == spec_nav_step(s, event),
{
    match event {
        NavEvent::Digit(d) => {
            let next = if s.file_selected {
                NavigatorState { line_index: s.line_index * 10 + (d as usize), ..s }
            } else {
                NavigatorState { file_index: s.file_index * 10 + (d as usize), ..s }
            };
            (next, NavAction::Continue)
        },
        NavEvent::Confirm => {
            if !s.file_selected && s.file_index != 0 {
                (NavigatorState { file_selected: true, ..s }, NavAction::Continue)
            } else if s.file_selected && s.line_index != 0 {
                (NavigatorState { line_selected: true, ..s }, NavAction::Dispatch)
            } else {
                (s, NavAction::Continue)
            }
        },
        NavEvent::Erase => {
            let next = if s.file_selected && s.line_index != 0 {
                NavigatorState {
                    line_index: s.line_index / 10,
                    line_selected: if s.line_index <= 9 {
                        false
                    } else {
                        s.line_selected
                    },
                    ..s
                }
            } else {
                let nf = s.file_index / 10;
                NavigatorState {
                    file_index: nf,
                    file_selected: if nf == 0 {
                        false
                    } else {
                        s.file_selected
                    },
                    ..s
                }
            };
            (next, NavAction::Continue)
        },
        NavEvent::Quit => (s, NavAction::Quit),
        NavEvent::Other => (s, NavAction::Continue),
    }
}

/// The decimal digit character of a value between 0 and 9.
pub open spec fn dec_digit(d: int) -> char {
    if d == 0 {
        '0'
    } else if d == 1 {
        '1'
    } else if d == 2 {
        '2'
    } else if d == 3 {
        '3'
    } else if d == 4 {
        '4'
    } else if d == 5 {
        '5'
    } else if d == 6 {
        '6'
    } else if d == 7 {
        '7'
    } else if d == 8 {
        '8'
    } else {
        '9'
    }
}

/// The decimal form of a number, most significant digit first.
pub open spec fn dec_rep(n: nat) -> Seq<char>
    decreases n,
    via dec_rep_decreases
{
    if n < 10 {
        seq![dec_digit(n as int)]
    } else {
        dec_rep(n / 10).push(dec_digit((n % 10) as int))
    }
}

/// Division by ten brings a two-digit number strictly down.
proof fn lemma_div10_decreases(n: nat)
    requires
        n >= 10,
    ensures
        1 <= n / 10 < n,
        n / 10 <= n - 9,
{
    assert(10 * (n / 10) + n % 10 == n) by {
        vstd::arithmetic::div_mod::lemma_fundamental_div_mod(n as int, 10);
    }
}

#[via_fn]
proof fn dec_rep_decreases(n: nat) {
    if n >= 10 {
        lemma_div10_decreases(n);
    }
}

/// A decimal form has at least one digit, and never more digits than the
/// number has units once it has two or more digits.
proof fn lemma_dec_rep_len(n: nat)
    ensures
        1 <= dec_rep(n).len(),
        n >= 10 ==> dec_rep(n).len() <= n,
    decreases n,
{
    if n >= 10 {
        lemma_div10_decreases(n);
        lemma_dec_rep_len(n / 10);
    }
}

/// Two numbers with the same decimal form are the same number.
proof fn lemma_dec_rep_inj(a: nat, b: nat)
    requires
        dec_rep(a) == dec_rep(b),
    ensures
        a == b,
    decreases a,
{
    lemma_dec_rep_len(a / 10);
    lemma_dec_rep_len(b / 10);
    if a < 10 && b < 10 {
        assert(dec_rep(a)[0] == dec_digit(a as int));
        assert(dec_rep(b)[0] == dec_digit(b as int));
    } else if a >= 10 && b >= 10 {
        lemma_div10_decreases(a);
        lemma_div10_decreases(b);
        assert(dec_rep(a).last() == dec_digit((a % 10) as int));
        assert(dec_rep(b).last() == dec_digit((b % 10) as int));
        assert(a % 10 == b % 10);
        assert(dec_rep(a).drop_last() == dec_rep(a / 10));
        assert(dec_rep(b).drop_last() == dec_rep(b / 10));
        lemma_dec_rep_inj(a / 10, b / 10);
        assert(10 * (a / 10) + a % 10 == a) by {
            vstd::arithmetic::div_mod::lemma_fundamental_div_mod(a as int, 10);
        }
        assert(10 * (b / 10) + b % 10 == b) by {
            vstd::arithmetic::div_mod::lemma_fundamental_div_mod(b as int, 10);
        }
    } else {
        assert(dec_rep(a).len() == dec_rep(b).len());
    }
}

/// While an index is being composed, an entry stays on the screen when
/// its 1-based position, written in decimal, starts with the digits
/// composed so far.
pub open spec fn dec_prefix(composed: nat, pos: nat) -> bool {
    dec_rep(composed).len() <= dec_rep(pos).len() && dec_rep(pos).take(
        dec_rep(composed).len() as int,
    ) == dec_rep(composed)
}

/// The number of decimal digits of `n`, that is, the length of `dec_rep`.
fn num_digits(n: usize) -> (r: usize)
    ensures
        r == dec_rep(n as nat).len(),
{
    let mut d: usize = 1;
    let mut m: usize = n;
    proof {
        lemma_dec_rep_len(n as nat);
    }
    while m >= 10
        invariant
            dec_rep(n as nat).len() == d - 1 + dec_rep(m as nat).len(),
            m <= n,
            1 <= d,
        decreases m,
    {
        proof {
            lemma_div10_decreases(m as nat);
            lemma_dec_rep_len(n as nat);
            lemma_dec_rep_len((m / 10) as nat);
        }
        m = m / 10;
        d += 1;
    }
    d
}

/// Whether the 1-based position `pos`, written in decimal, starts with
/// the digits composed so far, matching `dec_prefix`.
pub fn position_matches(composed: usize, pos: usize) -> (r: bool)
    ensures
        r == dec_prefix(composed as nat, pos as nat),
{
    let dc = num_digits(composed);
    let dp = num_digits(pos);
    if dp < dc {
        return false;
    }
    // Strip digits off the end of `pos` until as many are left as were
    // composed; the prefix relation holds exactly when what is left is the
    // composed index itself.
    let mut p: usize = pos;
    let mut k: usize = dp;
    proof {
        assert(dec_rep(pos as nat).take(k as int) =~= dec_rep(pos as nat));
    }
    while k > dc
        invariant
            dc <= k,
            k <= dec_rep(pos as nat).len(),
            dec_rep(p as nat).len() == k,
            dec_rep(p as nat) == dec_rep(pos as nat).take(k as int),
            dc == dec_rep(composed as nat).len(),
        decreases k,
    {
        proof {
            lemma_dec_rep_len(p as nat);
            if p < 10 {
                assert(dec_rep(p as nat).len() == 1);
            }
            lemma_div10_decreases(p as nat);
            assert(dec_rep((p / 10) as nat) == dec_rep(p as nat).drop_last());
            assert(dec_rep(pos as nat).take(k as int).drop_last() =~= dec_rep(pos as nat).take(
                k - 1,
            ));
        }
        p = p / 10;
        k -= 1;
    }
    if p == composed {
        true
    } else {
        proof {
            if dec_prefix(composed as nat, pos as nat) {
                assert(dec_rep(p as nat) == dec_rep(composed as nat));
                lemma_dec_rep_inj(p as nat, composed as nat);
            }
        }
        false
    }
}

/// Total number of matches across all results, as the status line of the
/// display reports it.
pub open spec fn spec_total_matches(list: Seq<SearchResult>) -> int
    decreases list.len(),
{
    if list.len() == 0 {
        0
    } else {
        spec_total_matches(list.drop_last()) + list.last().lines@.len()
    }
}

/// A prefix of the list never holds more matches than the whole list.
proof fn lemma_total_matches_mono(list: Seq<SearchResult>, i: int)
    requires
        0 <= i <= list.len(),
    ensures
        spec_total_matches(list.take(i)) <= spec_total_matches(list),
    decreases list.len(),
{
    if i == list.len() {
        assert(list.take(i) =~= list);
    } else {
        assert(list.drop_last().take(i) =~= list.take(i));
        lemma_total_matches_mono(list.drop_last(), i);
    }
}

/// Counts the matches across all results, matching `spec_total_matches`.
pub fn total_matches(list: &Vec<SearchResult>) -> (r: usize)
    requires
        spec_total_matches(list@) <= usize::MAX,
    ensures
        r == spec_total_matches(list@),
{
    let n = list.len();
    let mut total: usize = 0;
    let mut i: usize = 0;
    proof {
        assert(list@.take(0) =~= Seq::<SearchResult>::empty());
    }
    while i < n
        invariant
            n == list@.len(),
            0 <= i <= n,
            spec_total_matches(list@) <= usize::MAX,
            total == spec_total_matches(list@.take(i as int)),
        decreases n - i,
    {
        proof {
            assert(list@.take(i + 1).drop_last() =~= list@.take(i as int));
            assert(list@.take(i + 1).last() == list@[i as int]);
            lemma_total_matches_mono(list@, i + 1);
        }
        total = total + list[i].lines.len();
        i += 1;
    }
    proof {
        assert(list@.take(n as int) =~= list@);
    }
    total
}

} // verus!
