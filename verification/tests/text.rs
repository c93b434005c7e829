use things_api::escape::esc;
use things_api::text::{chars_of, lines_of, split_on_char, splitn_char, trimmed};

fn s(v: &[char]) -> String {
    v.iter().collect()
}

#[test]
fn esc_doubles_backslashes_and_quotes() {
    assert_eq!(esc(r#"say "hi" \ bye"#), r#"say \"hi\" \\ bye"#);
    assert_eq!(esc(""), "");
    assert_eq!(esc("plain"), "plain");
}

#[test]
fn esc_agrees_with_std_replace() {
    for input in ["", "\\", "\"", "\\\"", "a\\\\b\"\"c", "héllo \"wörld\"", "\\n"] {
        let expected = input.replace('\\', "\\\\").replace('"', "\\\"");
        assert_eq!(esc(input), expected);
    }
}

#[test]
fn escaped_text_reads_back_as_applescript_literal() {
    // Reading an AppleScript literal body: `\x` stands for `x` for `\` and `"`.
    fn read(t: &str) -> Option<String> {
        let mut out = String::new();
        let mut it = t.chars();
        while let Some(c) = it.next() {
            match c {
                '"' => return None,
                '\\' => match it.next()? {
                    '\\' => out.push('\\'),
                    '"' => out.push('"'),
                    'n' => out.push('\n'),
                    't' => out.push('\t'),
                    'r' => out.push('\r'),
                    _ => return None,
                },
                c => out.push(c),
            }
        }
        Some(out)
    }
    for input in ["", "a\"b", "back\\slash", "\\n is not a newline", "\"\"\\\\"] {
        assert_eq!(read(&esc(input)).as_deref(), Some(input));
    }
}

#[test]
fn trim_agrees_with_std() {
    for input in ["", "   ", " a ", "\t\n a b \r\n", "\u{3000}x\u{a0}", "\u{200b}x", "x\u{85}"] {
        let v = chars_of(input);
        assert_eq!(s(&trimmed(&v)), input.trim());
    }
}

#[test]
fn lines_agree_with_std() {
    for input in ["", "\n", "a", "a\n", "a\nb", "a\r\nb\r\n", "a\r", "\n\nx\n\n", "x\ry\n"] {
        let v = chars_of(input);
        let got: Vec<String> = lines_of(&v).iter().map(|l| s(l)).collect();
        let want: Vec<String> = input.lines().map(|l| l.to_string()).collect();
        assert_eq!(got, want, "input {:?}", input);
    }
}

#[test]
fn split_agrees_with_std() {
    for input in ["", ",", "a", "a,b", "a,,b,", ",x"] {
        let v = chars_of(input);
        let got: Vec<String> = split_on_char(&v, ',').iter().map(|l| s(l)).collect();
        let want: Vec<String> = input.split(',').map(|l| l.to_string()).collect();
        assert_eq!(got, want);
    }
}

#[test]
fn splitn_agrees_with_std() {
    for n in 1..5usize {
        for input in ["", "|", "a|b|c|d|e", "a||b", "|||||"] {
            let v = chars_of(input);
            let got: Vec<String> = splitn_char(&v, n, '|').iter().map(|l| s(l)).collect();
            let want: Vec<String> = input.splitn(n, '|').map(|l| l.to_string()).collect();
            assert_eq!(got, want, "n {} input {:?}", n, input);
        }
    }
}

#[test]
fn escaping_adds_one_character_per_backslash_and_quote() {
    for input in ["", "abc", "\\\"", "a\"b\\c\"", "\"\"\""] {
        let extra = input.chars().filter(|c| *c == '\\' || *c == '"').count();
        assert_eq!(esc(input).chars().count(), input.chars().count() + extra);
    }
}

#[test]
fn escaped_quotes_follow_odd_backslash_runs() {
    for input in ["\\\"", "x\\\\\"y", "\"", "\\"] {
        let out: Vec<char> = esc(input).chars().collect();
        for (i, c) in out.iter().enumerate() {
            if *c == '"' {
                let run = out[..i].iter().rev().take_while(|c| **c == '\\').count();
                assert_eq!(run % 2, 1, "input {:?}", input);
            }
        }
    }
}
