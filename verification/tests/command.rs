use touch_fish::app::command::{parse, Command};

#[test]
fn parses_known_commands() {
    assert_eq!(parse("/zhihu"), Command::Zhihu);
    assert_eq!(parse("/hot"), Command::Hot);
    assert_eq!(parse("/refresh"), Command::Refresh);
    assert_eq!(parse("/login"), Command::Login);
    assert_eq!(parse("/help"), Command::Help);
    assert_eq!(parse("/?"), Command::Help);
    assert_eq!(parse("/back"), Command::Back);
    assert_eq!(parse("/quit"), Command::Quit);
    assert_eq!(parse("/search 程序员 摸鱼"), Command::Search("程序员 摸鱼".into()));
}

#[test]
fn unknown_and_whitespace() {
    assert_eq!(parse("  /zhihu  "), Command::Zhihu);
    assert_eq!(parse("/foo"), Command::Unknown("/foo".into()));
    assert_eq!(parse("/search"), Command::Unknown("/search".into()));
}

#[test]
fn forum_commands_and_help_aliases() {
    assert_eq!(parse("/v2ex"), Command::V2ex);
    assert_eq!(parse("/hupu"), Command::Hupu);
    assert_eq!(parse("/nga"), Command::Nga);
    assert_eq!(parse("/linuxdo"), Command::LinuxDo);
    assert_eq!(parse("/h"), Command::Help);
}

#[test]
fn search_argument_is_trimmed_and_cut_at_first_whitespace() {
    assert_eq!(parse("/search\t  rust  "), Command::Search("rust".into()));
    assert_eq!(parse("/search    "), Command::Unknown("/search".into()));
    assert_eq!(parse("/zhihu extra"), Command::Zhihu);
    assert_eq!(parse(""), Command::Unknown(String::new()));
    // U+3000 (ideographic space) is whitespace too.
    assert_eq!(parse("\u{3000}/hot\u{3000}"), Command::Hot);
}

#[test]
fn parsing_ignores_surrounding_whitespace() {
    for line in ["  /search  rust verus \t", "\t/hot\n", "  hello world  ", "/search", " /unknown x "] {
        assert_eq!(parse(line), parse(line.trim()));
    }
    assert_eq!(parse("  hello world  "), Command::Unknown("hello world".to_string()));
    assert_eq!(parse(" /search   a b  "), Command::Search("a b".to_string()));
}

#[test]
fn stock_commands() {
    assert_eq!(parse("/stock"), Command::Stock);
    assert_eq!(parse("/add 159941"), Command::AddStock("159941".to_string()));
    assert_eq!(parse(" /add  SPCX "), Command::AddStock("SPCX".to_string()));
    assert_eq!(parse("/delete SPCX"), Command::DeleteStock("SPCX".to_string()));
    assert_eq!(parse("/add"), Command::Unknown("/add".to_string()));
    assert_eq!(parse("/delete   "), Command::Unknown("/delete".to_string()));
}
