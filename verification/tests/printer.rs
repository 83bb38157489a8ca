use llledit::printer::Printer;

#[test]
fn ansi_printer_gives_escape_codes() {
    let p = Printer::ansi();
    assert_eq!(p.enable_alternate_screen(), "\x1b[?1049h");
    assert_eq!(p.disable_alternate_screen(), "\x1b[?1049l");
    assert_eq!(p.clear(), "\x1b[2J");
    assert_eq!(p.move_home(), "\x1b[H");
}

#[test]
fn default_printer_gives_nothing() {
    let p = Printer::default();
    assert_eq!(p.enable_alternate_screen(), "");
    assert_eq!(p.disable_alternate_screen(), "");
    assert_eq!(p.clear(), "");
    assert_eq!(p.move_home(), "");
}
