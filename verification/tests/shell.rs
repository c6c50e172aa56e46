use xv0::shell::{
    command_table, commands, dispatch, find_command, help, is_white_space_char, parse_command_line,
    split_whitespace, str_equal, CommandKind, ShellAction, HELP_TEXT,
};
use xv0::vga::{Writer, COLOR_BG};

fn same_screen(a: &Writer, b: &Writer) -> bool {
    a.col() == b.col() && a.row() == b.row() && a.pixels() == b.pixels()
}

#[test]
fn splitting_matches_std() {
    for s in ["", "   ", "help", "  clear  now ", "a\tb\nc", "x\u{3000}y\u{a0}z", "\u{2003}w\u{85}"] {
        let ours = split_whitespace(s);
        let std_words: Vec<String> = s.split_whitespace().map(|w| w.to_string()).collect();
        assert_eq!(ours, std_words, "input {:?}", s);
    }
}

#[test]
fn white_space_matches_std() {
    for u in 0u32..0x3100 {
        if let Some(c) = char::from_u32(u) {
            assert_eq!(is_white_space_char(c), c.is_whitespace(), "char {:#x}", u);
        }
    }
}

#[test]
fn command_line_splits_into_name_and_arguments() {
    assert!(parse_command_line("   ").is_none());
    let (name, args) = parse_command_line(" clear a  b ").unwrap();
    assert_eq!(name, "clear");
    assert_eq!(args.as_slice(), &["a".to_string(), "b".to_string()]);
    let (name, args) = parse_command_line("help").unwrap();
    assert_eq!(name, "help");
    assert!(args.is_empty());
}

#[test]
fn sixteen_arguments_fit() {
    let line = format!("cmd{}", " x".repeat(16));
    let (_, args) = parse_command_line(&line).unwrap();
    assert_eq!(args.len(), 16);
}

#[test]
fn table_and_lookup() {
    let t = command_table();
    let names: Vec<&str> = t.iter().map(|c| c.name).collect();
    assert_eq!(names, vec!["clear", "help", "commands", "doom", "echo"]);
    assert_eq!(find_command("clear"), Some(CommandKind::Clear));
    assert_eq!(find_command("help"), Some(CommandKind::Help));
    assert_eq!(find_command("commands"), Some(CommandKind::Commands));
    assert_eq!(find_command("doom"), Some(CommandKind::Doom));
    assert_eq!(find_command("echo"), Some(CommandKind::Echo));
    assert_eq!(find_command("shutdown"), None);
    assert_eq!(find_command("hel"), None);
    assert_eq!(find_command(""), None);
}

#[test]
fn string_equality() {
    assert!(str_equal("abc", "abc"));
    assert!(!str_equal("abc", "abd"));
    assert!(!str_equal("abc", "ab"));
    assert!(str_equal("", ""));
}

#[test]
fn help_prints_the_help_text() {
    let mut a = Writer::new();
    help(&mut a);
    let mut b = Writer::new();
    b.write_str(HELP_TEXT);
    assert!(same_screen(&a, &b));
    assert_eq!(a.row(), 7);
    assert_eq!(a.col(), 0);
}

#[test]
fn commands_lists_names() {
    let mut a = Writer::new();
    commands(&mut a);
    let mut b = Writer::new();
    b.write_str("clear\nhelp\ncommands\ndoom\necho\n");
    assert!(same_screen(&a, &b));
}

#[test]
fn dispatch_runs_known_commands() {
    let mut a = Writer::new();
    dispatch(&mut a, "  help ");
    let mut b = Writer::new();
    help(&mut b);
    assert!(same_screen(&a, &b));
}

#[test]
fn dispatch_clear_blanks_the_screen() {
    let mut w = Writer::new();
    w.write_str("some text\nmore");
    dispatch(&mut w, "clear");
    assert_eq!((w.col(), w.row()), (0, 0));
    assert!(w.pixels().iter().all(|&p| p == COLOR_BG));
}

#[test]
fn dispatch_clear_with_arguments_shows_usage() {
    let mut a = Writer::new();
    dispatch(&mut a, "clear now");
    let mut b = Writer::new();
    b.write_str("Usage: clear\n");
    assert!(same_screen(&a, &b));
}

#[test]
fn dispatch_unknown_command() {
    let mut a = Writer::new();
    assert_eq!(dispatch(&mut a, "quake e1m1"), ShellAction::Prompt);
    let mut b = Writer::new();
    b.write_str("Unknown command: quake\n");
    assert!(same_screen(&a, &b));
}

#[test]
fn dispatch_empty_line_does_nothing() {
    let mut a = Writer::new();
    a.write_str("> ");
    let before_col = a.col();
    dispatch(&mut a, "   ");
    assert_eq!(a.col(), before_col);
    assert_eq!(a.row(), 0);
}

#[test]
fn dispatch_doom_starts_the_game() {
    let mut a = Writer::new();
    a.write_str("> ");
    assert_eq!(dispatch(&mut a, " doom "), ShellAction::StartDoom);
    let mut b = Writer::new();
    b.write_str("> ");
    assert!(same_screen(&a, &b));
    assert_eq!(dispatch(&mut a, "help"), ShellAction::Prompt);
}

#[test]
fn dispatch_echo_writes_its_arguments() {
    let mut a = Writer::new();
    assert_eq!(dispatch(&mut a, "echo  hello   world "), ShellAction::Prompt);
    let mut b = Writer::new();
    b.write_str("hello world\n");
    assert!(same_screen(&a, &b));
}

#[test]
fn echo_without_arguments_writes_a_line_feed() {
    let mut a = Writer::new();
    dispatch(&mut a, "echo");
    assert_eq!((a.col(), a.row()), (0, 1));
}
