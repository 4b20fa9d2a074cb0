//! Keyboard handling of the terminal dashboard: quitting, refreshing, and editing the two
//! currency amounts; and the layout of the CPU bar graph.

use vstd::prelude::*;
use crate::format::is_amount_char;
use crate::text::{pop_char, push_char};

verus! {

/// A key press, as far as the dashboard distinguishes keys.
#[derive(Clone, Copy, Debug, PartialEq, Eq, Structural)]
pub enum Key {
    Char(char),
    Tab,
    Up,
    Down,
    Backspace,
    Other,
}

/// What the dashboard does after a key press.
#[derive(Clone, Copy, Debug, PartialEq, Eq, Structural)]
pub enum KeyAction {
    /// Leave the dashboard (`q`).
    Quit,
    /// Reset the URL statuses and ask every worker for fresh data (`r`).
    Refresh,
    /// Keep running.
    Continue,
}

/// The two typed currency amounts and which of them receives key presses.
pub struct CurrencyInputs {
    first: String,
    second: String,
    active: usize,
}

/// Abstract state: both amounts and the index (0 or 1) of the one being edited.
pub struct InputsView {
    pub first: Seq<char>,
    pub second: Seq<char>,
    pub active: nat,
}

impl View for CurrencyInputs {
    type V = InputsView;

    closed spec fn view(&self) -> InputsView {
        InputsView { first: self.first@, second: self.second@, active: self.active as nat }
    }
}

/// The edited amount after a key: backspace drops its last character (if any), and a digit
/// or `.` is appended; other keys leave it.
pub open spec fn edited(amount: Seq<char>, key: Key) -> Seq<char> {
    match key {
        Key::Backspace => if amount.len() > 0 {
            amount.drop_last()
        } else {
            amount
        },
        Key::Char(c) => if is_amount_char(c) {
            amount.push(c)
        } else {
            amount
        },
        _ => amount,
    }
}

/// The action a key triggers.
pub open spec fn key_action(key: Key) -> KeyAction {
    match key {
        Key::Char(c) => if c == 'q' {
            KeyAction::Quit
        } else if c == 'r' {
            KeyAction::Refresh
        } else {
            KeyAction::Continue
        },
        _ => KeyAction::Continue,
    }
}

/// The input state after a key: Tab, Up and Down switch to the other amount; other keys
/// edit the active amount as `edited` says.
pub open spec fn after_key(s: InputsView, key: Key) -> InputsView {
    match key {
        Key::Tab | Key::Up | Key::Down => InputsView {
            first: s.first,
            second: s.second,
            active: ((s.active + 1) % 2) as nat,
        },
        _ => if s.active == 0 {
            InputsView { first: edited(s.first, key), second: s.second, active: s.active }
        } else {
            InputsView { first: s.first, second: edited(s.second, key), active: s.active }
        },
    }
}

impl CurrencyInputs {
    #[verifier::type_invariant]
    spec fn well_formed(self) -> bool {
        self.active < 2
    }

    /// Both amounts start at `1`, with the first one active.
    pub fn new() -> (r: Self)
        ensures
            r@.first == "1"@,
            r@.second == "1"@,
            r@.active == 0,
    {
        CurrencyInputs { first: String::from_str("1"), second: String::from_str("1"), active: 0 }
    }

    /// The amount at `index` (0 or 1).
    pub fn amount(&self, index: usize) -> (r: &String)
        requires
            index < 2,
        ensures
            index == 0 ==> r@ == self@.first,
            index == 1 ==> r@ == self@.second,
    {
        if index == 0 {
            &self.first
        } else {
            &self.second
        }
    }

    /// Index of the amount being edited.
    pub fn active(&self) -> (r: usize)
        ensures
            r == self@.active,
            r < 2,
    {
        proof {
            use_type_invariant(self);
        }
        self.active
    }

    /// Handles a key press: `q` quits, `r` refreshes, Tab/Up/Down switch amounts,
    /// Backspace deletes the last character of the active amount, and a digit or `.` is
    /// typed into it.
    pub fn handle_key(&mut self, key: Key) -> (r: KeyAction)
        ensures
            r == key_action(key),
            final(self)@ == after_key(old(self)@, key),
            final(self)@.active < 2,
    {
        proof {
            use_type_invariant(&*self);
        }
        match key {
            Key::Char('q') => KeyAction::Quit,
            Key::Char('r') => KeyAction::Refresh,
            Key::Tab | Key::Up | Key::Down => {
                self.active = (self.active + 1) % 2;
                KeyAction::Continue
            },
            Key::Backspace => {
                if self.active == 0 {
                    let mut amount = self.first.clone();
                    pop_char(&mut amount);
                    self.first = amount;
                } else {
                    let mut amount = self.second.clone();
                    pop_char(&mut amount);
                    self.second = amount;
                }
                KeyAction::Continue
            },
            Key::Char(c) => {
                if ('0' <= c && c <= '9') || c == '.' {
                    if self.active == 0 {
                        let mut amount = self.first.clone();
                        push_char(&mut amount, c);
                        self.first = amount;
                    } else {
                        let mut amount = self.second.clone();
                        push_char(&mut amount, c);
                        self.second = amount;
                    }
                }
                KeyAction::Continue
            },
            Key::Other => KeyAction::Continue,
        }
    }
}

/// Typing a digit or `.` and then pressing Backspace leaves the amounts as they were.
pub proof fn lemma_type_then_backspace(s: InputsView, c: char)
    requires
        is_amount_char(c),
        s.active < 2,
    ensures
        after_key(after_key(s, Key::Char(c)), Key::Backspace) == s,
{
    assert(s.first.push(c).drop_last() =~= s.first);
    assert(s.second.push(c).drop_last() =~= s.second);
}

/// Switching amounts twice returns to the amount being edited, with both amounts kept.
pub proof fn lemma_switch_twice(s: InputsView, k1: Key, k2: Key)
    requires
        s.active < 2,
        k1 is Tab || k1 is Up || k1 is Down,
        k2 is Tab || k2 is Up || k2 is Down,
    ensures
        after_key(after_key(s, k1), k2) == s,
{
}

/// Width of each bar of the CPU history graph and the part of it that is filled: the graph's
/// `width` shared among `history_len` bars (at least one), at least one column each, with a
/// one-column gap between bars wider than one column.
pub open spec fn bar_layout(width: nat, history_len: nat) -> (nat, nat) {
    let slots: nat = if history_len >= 1 {
        history_len
    } else {
        1
    };
    let q = width / slots;
    let bar = if q >= 1 {
        q
    } else {
        1
    };
    let gap: nat = if bar > 1 {
        1
    } else {
        0
    };
    (bar, (bar - gap) as nat)
}

/// The bar width and filled width of the CPU history graph.
pub fn cpu_bar_layout(width: usize, history_len: usize) -> (r: (usize, usize))
    ensures
        (r.0 as nat, r.1 as nat) == bar_layout(width as nat, history_len as nat),
        r.0 >= 1,
        r.1 <= r.0,
{
    let slots = if history_len >= 1 {
        history_len
    } else {
        1
    };
    let q = width / slots;
    let bar = if q >= 1 {
        q
    } else {
        1
    };
    let gap = if bar > 1 {
        1
    } else {
        0
    };
    (bar, bar - gap)
}

/// Typing a character: an ASCII digit (`0` to `9`) or `.` is appended to the amount being
/// edited, leaving the other amount and the selection; any other character changes neither
/// amount. `q` quits, `r` refreshes, and every other character keeps the dashboard running.
pub proof fn lemma_typing_characters(s: InputsView, c: char)
    requires
        s.active < 2,
    ensures
        ('0' <= c && c <= '9') || c == '.' ==> {
            let t = after_key(s, Key::Char(c));
            &&& t.active == s.active
            &&& s.active == 0 ==> t.first == s.first.push(c) && t.second == s.second
            &&& s.active == 1 ==> t.second == s.second.push(c) && t.first == s.first
        },
        !(('0' <= c && c <= '9') || c == '.') ==> after_key(s, Key::Char(c)) == s,
        key_action(Key::Char(c)) == KeyAction::Quit <==> c == 'q',
        key_action(Key::Char(c)) == KeyAction::Refresh <==> c == 'r',
{
}

} // verus!
