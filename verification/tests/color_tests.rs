use git_shell_info::color::TerminalColor;

#[test]
fn enum_to_output() {
    assert_eq!(TerminalColor::BoldRed.to_ansi(), "\x1b[1;31m");

    assert_eq!(
        TerminalColor::TrueColor(255, 0, 255).to_ansi(),
        "\x1b[38;2;255;0;255m"
    );
}

#[test]
fn input_to_enum() {
    assert_eq!(TerminalColor::convert("black"), Some(TerminalColor::Black));
}

#[test]
fn reset_name_is_known() {
    assert_eq!(TerminalColor::convert("reset"), Some(TerminalColor::Reset));
    assert_eq!(TerminalColor::Reset.to_ansi(), "\x1b[0m");
}

#[test]
fn unknown_name_is_rejected() {
    assert_eq!(TerminalColor::convert("chartreuse"), None);
    assert_eq!(TerminalColor::convert(""), None);
}

#[test]
fn every_named_color_output() {
    assert_eq!(TerminalColor::Black.to_ansi(), "\x1b[0;30m");
    assert_eq!(TerminalColor::Red.to_ansi(), "\x1b[0;31m");
    assert_eq!(TerminalColor::Green.to_ansi(), "\x1b[0;32m");
    assert_eq!(TerminalColor::Yellow.to_ansi(), "\x1b[0;33m");
    assert_eq!(TerminalColor::Blue.to_ansi(), "\x1b[0;34m");
    assert_eq!(TerminalColor::Magenta.to_ansi(), "\x1b[0;35m");
    assert_eq!(TerminalColor::Cyan.to_ansi(), "\x1b[0;36m");
    assert_eq!(TerminalColor::White.to_ansi(), "\x1b[0;37m");
    assert_eq!(TerminalColor::BoldBlack.to_ansi(), "\x1b[1;30m");
    assert_eq!(TerminalColor::BoldGreen.to_ansi(), "\x1b[1;32m");
    assert_eq!(TerminalColor::BoldYellow.to_ansi(), "\x1b[1;33m");
    assert_eq!(TerminalColor::BoldBlue.to_ansi(), "\x1b[1;34m");
    assert_eq!(TerminalColor::BoldMagenta.to_ansi(), "\x1b[1;35m");
    assert_eq!(TerminalColor::BoldCyan.to_ansi(), "\x1b[1;36m");
    assert_eq!(TerminalColor::BoldWhite.to_ansi(), "\x1b[1;37m");
}
