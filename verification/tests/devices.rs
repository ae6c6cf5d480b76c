use rust16vm::devices::keyboard::InnerKeyboard;
use rust16vm::devices::screen::{Inbox, InstructionsPane, ScreenOptions, ScreenState};
use rust16vm::devices::terminal::{Key, Terminal256, TerminalAction, TerminalOutput};
use rust16vm::devices::Device;

#[test]
fn terminal_registers() {
    let mut term = Terminal256::new();
    assert_eq!(term.read(0x103), 1);
    assert_eq!(term.read(0), 0);
    term.write(0, b'h');
    term.write(255, b'!');
    term.write(0x100, 7);
    term.write(0x101, 9);
    assert_eq!(term.read(0), b'h');
    assert_eq!(term.read(255), b'!');
    assert_eq!(term.read(0x100), 7);
    assert_eq!(term.read(0x101), 9);
    assert_eq!(term.read(0x102), 0);
    term.write(0x103, 0x80);
    assert_eq!(term.read(0x103), 0x80);
    term.write(0x104, 1);
    assert_eq!(term.read(0x104), 0);
    assert_eq!(term.read(usize::MAX), 0);
    assert!(term.take_outputs().is_empty());
}

#[test]
fn terminal_flush_prints_the_text_at_the_cursor() {
    let mut term = Terminal256::new();
    for (i, b) in "héllo".bytes().enumerate() {
        term.write(i, b);
    }
    term.write(6, 3);
    term.write(7, b'x');
    term.write(0x100, 4);
    term.write(0x101, 2);
    term.write(0x102, 2);
    assert_eq!(
        term.take_outputs(),
        vec![TerminalOutput::Print(4, 2, "héllo".as_bytes().to_vec())]
    );
    assert!(term.take_outputs().is_empty());
    assert_eq!(term.read(0), 0);
    assert_eq!(term.read(7), 0);
    assert_eq!(term.read(0x103), 1);
    assert_eq!(term.read(0x100), 4);
}

#[test]
fn terminal_flush_of_bad_text_raises_the_error_flag() {
    let mut term = Terminal256::new();
    term.write(0, 0xFF);
    term.write(1, 3);
    term.write(0x102, 2);
    assert!(term.take_outputs().is_empty());
    assert_eq!(term.read(0x103), 0b11);
    assert_eq!(term.read(0), 0xFF);
    // without an end-of-text byte the whole buffer is the text
    let mut full = Terminal256::new();
    for i in 0..256 {
        full.write(i, b'a');
    }
    full.write(0x102, 2);
    assert_eq!(full.take_outputs(), vec![TerminalOutput::Print(0, 0, vec![b'a'; 256])]);
}

#[test]
fn terminal_commands() {
    let mut term = Terminal256::new();
    term.write(3, b'z');
    term.write(0x100, 5);
    term.write(0x101, 6);
    term.write(0x102, 4);
    term.write(0x102, 3);
    term.write(0x102, 1);
    term.execute_command(2);
    assert_eq!(
        term.take_outputs(),
        vec![
            TerminalOutput::MoveTo(5, 6),
            TerminalOutput::MoveTo(0, 0),
            TerminalOutput::Clear,
            TerminalOutput::Print(0, 0, vec![0; 256]),
        ]
    );
    assert_eq!(term.read(3), 0);
    assert_eq!(term.read(0x100), 0);
    assert_eq!(term.read(0x101), 0);
    assert_eq!(term.read(0x103), 1);
    term.write(0x102, 0);
    assert_eq!(term.read(0x103), 0b11);
    term.write(0x103, 0);
    term.write(0x102, 5);
    assert_eq!(term.read(0x103), 0b10);
    assert!(term.take_outputs().is_empty());
}

#[test]
fn keys_become_actions() {
    assert_eq!(TerminalAction::from_key(Key::Char('0')), TerminalAction::NumberPressed('0'));
    assert_eq!(TerminalAction::from_key(Key::Char('9')), TerminalAction::NumberPressed('9'));
    assert_eq!(TerminalAction::from_key(Key::Char('/')), TerminalAction::KeyPressed('/'));
    assert_eq!(TerminalAction::from_key(Key::Char(':')), TerminalAction::KeyPressed(':'));
    assert_eq!(TerminalAction::from_key(Key::Char('q')), TerminalAction::KeyPressed('q'));
    assert_eq!(TerminalAction::from_key(Key::Enter), TerminalAction::KeyPressedEnter);
    assert_eq!(TerminalAction::from_key(Key::Backspace), TerminalAction::KeyPressedBackspace);
    assert_eq!(TerminalAction::from_key(Key::Other), TerminalAction::Unknown);
    assert_eq!(TerminalAction::from_key(Key::Left), TerminalAction::Unknown);
    assert_eq!(TerminalAction::from_key(Key::Right), TerminalAction::Unknown);
}

#[test]
fn keyboard_hands_out_keys_in_order() {
    let mut kb = InnerKeyboard::new();
    assert_eq!(kb.read(0), 0);
    assert_eq!(kb.read(1), 0);
    kb.key_pressed(b'a');
    assert_eq!(kb.read(0), 1);
    kb.key_pressed(b'b');
    kb.write(1, 9);
    assert_eq!(kb.read(1), b'a');
    assert_eq!(kb.read(1), b'a');
    assert_eq!(kb.read(2), 0);
    assert_eq!(kb.read(0), 1);
    assert_eq!(kb.read(1), b'b');
    assert_eq!(kb.read(0), 1);
    assert_eq!(kb.read(1), b'b');
    assert_eq!(kb.read(0), 0);
    assert_eq!(kb.read(1), 0);
}

#[test]
fn window_of_instructions() {
    let code: Vec<u16> = (100..120).collect();
    let pane = InstructionsPane::new(code.clone(), 0);
    let shown = pane.window();
    assert_eq!(shown.len(), 10);
    assert_eq!(shown[0], (100, true));
    assert_eq!(shown[9], (109, false));
    let pane = InstructionsPane::new(code.clone(), 3);
    assert_eq!(pane.window()[3], (103, true));
    assert_eq!(pane.window().iter().filter(|(_, marked)| *marked).count(), 1);
    let pane = InstructionsPane::new(code.clone(), 4);
    let shown = pane.window();
    assert_eq!(shown.len(), 10);
    assert_eq!(shown[0], (102, false));
    assert_eq!(shown[2], (104, true));
    assert_eq!(shown[9], (111, false));
    let pane = InstructionsPane::new(code.clone(), 19);
    assert_eq!(pane.window(), vec![(117, false), (118, false), (119, true)]);
    let pane = InstructionsPane::new(code.clone(), 23);
    assert!(pane.window().is_empty());
    let pane = InstructionsPane::new(vec![1, 2, 3], 1);
    assert_eq!(pane.window(), vec![(1, false), (2, true), (3, false)]);
    assert!(InstructionsPane::new(vec![], 0).window().is_empty());
}

#[test]
fn pane_moves_within_the_program() {
    let mut pane = InstructionsPane::new(vec![7, 8, 9], 0);
    pane.previous();
    assert_eq!(pane.window()[0], (7, true));
    pane.next();
    pane.next();
    pane.next();
    assert_eq!(pane.window(), vec![(7, false), (8, false), (9, true)]);
    pane.previous();
    assert_eq!(pane.window()[1], (8, true));
    let mut empty = InstructionsPane::new(vec![], 0);
    empty.next();
    empty.previous();
    assert!(empty.window().is_empty());
}

#[test]
fn screen_options() {
    let mut opts = ScreenOptions::default();
    opts.debug_instructions(vec![1, 2], 1).debug_instructions(vec![5, 6, 7], 2);
    let pane = opts.instructions_pane().unwrap();
    assert_eq!(pane.window(), vec![(5, false), (6, false), (7, true)]);
    assert!(ScreenOptions::default().instructions_pane().is_none());
}

#[test]
fn listing_of_instructions() {
    let pane = InstructionsPane::new(vec![0x0401, 0x000a, 0b000_0_111_000_0111, 0, 0b1_1011], 1);
    assert_eq!(
        pane.listing(),
        vec![
            (String::from("MOV A, #8"), false),
            (String::from("unexpected instruction: 0x000a"), true),
            (String::from("invalid compare opcode: 7"), false),
            (String::from("NOOP"), false),
            (String::from("RET"), false),
        ]
    );
}

#[test]
fn screen_reacts_to_keys_and_to_its_inbox() {
    let mut opts = ScreenOptions::default();
    opts.debug_instructions(vec![7, 8, 9], 1);
    let mut screen = ScreenState::new(opts);
    assert!(!screen.is_closing());
    screen.handle_key_press(Key::Right);
    assert_eq!(screen.instructions().unwrap().window()[2], (9, true));
    screen.handle_key_press(Key::Right);
    screen.handle_key_press(Key::Left);
    screen.handle_key_press(Key::Char('x'));
    screen.handle_key_press(Key::Enter);
    assert_eq!(screen.instructions().unwrap().window()[1], (8, true));
    assert!(screen.inbox(Inbox::Empty));
    assert!(screen.inbox(Inbox::Message));
    assert!(!screen.is_closing());
    screen.handle_key_press(Key::Char('q'));
    assert!(screen.is_closing());

    let mut bare = ScreenState::new(ScreenOptions::default());
    assert!(bare.instructions().is_none());
    bare.handle_key_press(Key::Left);
    assert!(!bare.inbox(Inbox::Closed));
    assert!(bare.is_closing());
}
