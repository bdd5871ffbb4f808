use stacking::command::{get_args, oracle_command, oracle_stops, split_command};
use stacking::text::{decimal_text, split, trim};

#[test]
fn split_keeps_empty_pieces() {
    assert_eq!(split("a b", ' '), vec!["a", "b"]);
    assert_eq!(split("", ' '), vec![""]);
    assert_eq!(split(" ", ' '), vec!["", ""]);
    assert_eq!(split("a  b ", ' '), vec!["a", "", "b", ""]);
    assert_eq!(split("abc", ' '), vec!["abc"]);
}

#[test]
fn split_agrees_with_the_standard_library() {
    for text in ["", "a", " a", "a ", "a b c", "  ", "\u{e9} \u{1f600} x", "line\nline\n"] {
        for separator in [' ', '\n', 'a'] {
            let expected: Vec<String> = text.split(separator).map(String::from).collect();
            assert_eq!(split(text, separator), expected);
        }
    }
}

#[test]
fn joined_pieces_are_the_text() {
    for text in ["", "x", "x y", " x  y "] {
        assert_eq!(split(text, ' ').join(" "), text);
    }
}

#[test]
fn trim_agrees_with_the_standard_library() {
    let cases = [
        "",
        " ",
        "a",
        "  a b  ",
        "\t\r\n a \u{b}\u{c}\n",
        "\u{a0}\u{1680}\u{2000}\u{200a}\u{2028}\u{2029}\u{202f}\u{205f}\u{3000}x\u{85}",
        "\u{200b}x\u{feff}",
        "\u{180e}x",
        " \u{1f600} ",
    ];
    for text in cases {
        assert_eq!(trim(text), text.trim());
    }
}

#[test]
fn decimal_texts() {
    for n in [0usize, 1, 9, 10, 19, 99, 100, 12345, 4294967295, usize::MAX] {
        assert_eq!(decimal_text(n), format!("{}", n));
    }
    assert_eq!(decimal_text(7042), "7042");
}

#[test]
fn decimal_texts_differ() {
    let texts: Vec<String> = (0usize..300).map(decimal_text).collect();
    for i in 0..texts.len() {
        for j in 0..i {
            assert_ne!(texts[i], texts[j]);
        }
    }
}

#[test]
fn commands_are_split_at_spaces() {
    assert_eq!(split_command("bash size.sh"), vec!["bash", "size.sh"]);
    assert_eq!(split_command(""), vec![""]);
}

#[test]
fn generated_arguments() {
    assert_eq!(
        get_args("  1 2\n3\n\n"),
        vec![vec!["first", "1", "2"], vec!["first", "3"]]
    );
    assert_eq!(get_args(""), vec![vec!["first", ""]]);
    assert_eq!(
        get_args("a\n\nb  c"),
        vec![vec!["first", "a"], vec!["first", ""], vec!["first", "b", "", "c"]]
    );
}

#[test]
fn generated_arguments_keep_the_line() {
    for line in ["", "a", "a b", "a  b"] {
        for list in get_args(line) {
            assert_eq!(list[0], "first");
            assert_eq!(list[1..].join(" "), line);
        }
    }
}

#[test]
fn oracle_commands() {
    assert_eq!(
        oracle_command("bash size.sh", "o.3.wasm"),
        vec!["bash", "size.sh", "o.3.wasm"]
    );
}

#[test]
fn only_exit_code_one_stops() {
    assert!(oracle_stops(1));
    assert!(!oracle_stops(0));
    assert!(!oracle_stops(2));
    assert!(!oracle_stops(-1));
}
