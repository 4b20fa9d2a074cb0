use std::collections::VecDeque;
use tc_tui::history::record_sample;
use tc_tui::input::{cpu_bar_layout, CurrencyInputs, Key, KeyAction};

fn amounts(inputs: &CurrencyInputs) -> (String, String) {
    (inputs.amount(0).clone(), inputs.amount(1).clone())
}

#[test]
fn inputs_start_at_one_with_first_active() {
    let inputs = CurrencyInputs::new();
    assert_eq!(amounts(&inputs), ("1".to_string(), "1".to_string()));
    assert_eq!(inputs.active(), 0);
}

#[test]
fn keys_quit_refresh_and_edit() {
    let mut inputs = CurrencyInputs::new();
    assert_eq!(inputs.handle_key(Key::Char('q')), KeyAction::Quit);
    assert_eq!(inputs.handle_key(Key::Char('r')), KeyAction::Refresh);
    assert_eq!(inputs.handle_key(Key::Char('2')), KeyAction::Continue);
    assert_eq!(inputs.handle_key(Key::Char('.')), KeyAction::Continue);
    assert_eq!(inputs.handle_key(Key::Char('x')), KeyAction::Continue);
    assert_eq!(amounts(&inputs), ("12.".to_string(), "1".to_string()));
    inputs.handle_key(Key::Tab);
    assert_eq!(inputs.active(), 1);
    inputs.handle_key(Key::Backspace);
    inputs.handle_key(Key::Backspace);
    inputs.handle_key(Key::Char('5'));
    assert_eq!(amounts(&inputs), ("12.".to_string(), "5".to_string()));
    inputs.handle_key(Key::Up);
    assert_eq!(inputs.active(), 0);
    inputs.handle_key(Key::Down);
    assert_eq!(inputs.active(), 1);
    inputs.handle_key(Key::Other);
    assert_eq!(amounts(&inputs), ("12.".to_string(), "5".to_string()));
}

#[test]
fn type_then_backspace_restores_amount() {
    let mut inputs = CurrencyInputs::new();
    inputs.handle_key(Key::Char('7'));
    inputs.handle_key(Key::Backspace);
    assert_eq!(amounts(&inputs), ("1".to_string(), "1".to_string()));
}

#[test]
fn cpu_bar_layout_shares_width() {
    assert_eq!(cpu_bar_layout(48, 24), (2, 1));
    assert_eq!(cpu_bar_layout(10, 24), (1, 1));
    assert_eq!(cpu_bar_layout(100, 24), (4, 3));
    assert_eq!(cpu_bar_layout(0, 5), (1, 1));
    assert_eq!(cpu_bar_layout(10, 0), (10, 9));
}

#[test]
fn record_sample_keeps_capacity() {
    let mut h: VecDeque<u32> = VecDeque::new();
    record_sample(&mut h, 3, 1);
    record_sample(&mut h, 3, 2);
    record_sample(&mut h, 3, 3);
    record_sample(&mut h, 3, 4);
    assert_eq!(h, VecDeque::from(vec![2, 3, 4]));
    let mut z: VecDeque<u32> = VecDeque::new();
    record_sample(&mut z, 0, 9);
    assert!(z.is_empty());
}

#[test]
fn switching_twice_returns_to_the_same_amount() {
    let mut inputs = CurrencyInputs::new();
    inputs.handle_key(Key::Char('3'));
    inputs.handle_key(Key::Tab);
    inputs.handle_key(Key::Down);
    assert_eq!(inputs.active(), 0);
    assert_eq!(amounts(&inputs), ("13".to_string(), "1".to_string()));
}

#[test]
fn backspace_on_empty_amount_keeps_it_empty() {
    let mut inputs = CurrencyInputs::new();
    inputs.handle_key(Key::Backspace);
    inputs.handle_key(Key::Backspace);
    assert_eq!(amounts(&inputs), (String::new(), "1".to_string()));
}

#[test]
fn history_holds_the_latest_samples() {
    let mut h: VecDeque<u32> = VecDeque::new();
    for sample in 1..=10 {
        record_sample(&mut h, 4, sample);
    }
    assert_eq!(h, VecDeque::from(vec![7, 8, 9, 10]));
    let mut short: VecDeque<u32> = VecDeque::new();
    for sample in 1..=2 {
        record_sample(&mut short, 4, sample);
    }
    assert_eq!(short, VecDeque::from(vec![1, 2]));
}
