use paper_cli::line_reader::line::{get_prompt_len, Line};

fn line_with(text: &str) -> Line {
    let mut line = Line::new();
    line.set(text);
    line
}

#[test]
fn new_line_is_empty_with_cursor_at_start() {
    let line = Line::new();
    assert!(line.is_empty());
    assert_eq!(line.buf(), "");
    assert_eq!(line.position(), 0);
}

#[test]
fn insert_puts_character_at_cursor_and_advances() {
    let mut line = Line::new();
    line.insert('a');
    line.insert('c');
    assert_eq!(line.buf(), "ac");
    assert_eq!(line.position(), 2);
    line.move_left();
    line.insert('b');
    assert_eq!(line.buf(), "abc");
    assert_eq!(line.position(), 2);
    assert!(!line.is_empty());
}

#[test]
fn erase_left_removes_character_before_cursor() {
    let mut line = line_with("abc");
    line.move_left();
    line.erase_left();
    assert_eq!(line.buf(), "ac");
    assert_eq!(line.position(), 1);
}

#[test]
fn erase_left_at_start_changes_nothing() {
    let mut line = line_with("abc");
    line.move_start();
    line.erase_left();
    assert_eq!(line.buf(), "abc");
    assert_eq!(line.position(), 0);
}

#[test]
fn erase_right_removes_character_after_cursor() {
    let mut line = line_with("abc");
    line.move_start();
    line.erase_right();
    assert_eq!(line.buf(), "bc");
    assert_eq!(line.position(), 0);
}

#[test]
fn erase_right_at_end_changes_nothing() {
    let mut line = line_with("abc");
    line.erase_right();
    assert_eq!(line.buf(), "abc");
    assert_eq!(line.position(), 3);
}

#[test]
fn erasing_in_an_empty_line_changes_nothing() {
    let mut line = Line::new();
    line.erase_left();
    line.erase_right();
    assert_eq!(line.buf(), "");
    assert_eq!(line.position(), 0);
}

#[test]
fn cursor_moves_stop_at_both_ends() {
    let mut line = line_with("ab");
    line.move_right();
    assert_eq!(line.position(), 2);
    line.move_left();
    line.move_left();
    line.move_left();
    assert_eq!(line.position(), 0);
    line.move_end();
    assert_eq!(line.position(), 2);
    line.move_start();
    assert_eq!(line.position(), 0);
    line.move_right();
    assert_eq!(line.position(), 1);
    assert_eq!(line.buf(), "ab");
}

#[test]
fn set_replaces_text_and_puts_cursor_at_end() {
    let mut line = line_with("old text");
    line.move_start();
    line.set("get a");
    assert_eq!(line.buf(), "get a");
    assert_eq!(line.position(), 5);
}

#[test]
fn clear_empties_line() {
    let mut line = line_with("abc");
    line.clear();
    assert!(line.is_empty());
    assert_eq!(line.position(), 0);
}

#[test]
fn concat_inserts_text_at_cursor() {
    let mut line = line_with("ad");
    line.move_left();
    line.concat("bc");
    assert_eq!(line.buf(), "abcd");
    assert_eq!(line.position(), 3);
    line.concat("");
    assert_eq!(line.buf(), "abcd");
    assert_eq!(line.position(), 3);
}

#[test]
fn complete_appends_completion_and_space() {
    let mut line = line_with("ge");
    line.move_start();
    line.complete("t");
    assert_eq!(line.buf(), "get ");
    assert_eq!(line.position(), 4);
}

#[test]
fn cursor_counts_characters_not_bytes() {
    let mut line = Line::new();
    line.insert('é');
    line.insert('ß');
    assert_eq!(line.buf(), "éß");
    assert_eq!(line.position(), 2);
    line.move_left();
    line.insert('x');
    assert_eq!(line.buf(), "éxß");
    line.erase_right();
    assert_eq!(line.buf(), "éx");
    line.erase_left();
    line.erase_left();
    assert_eq!(line.buf(), "");
    line.set("日本");
    assert_eq!(line.position(), 2);
}

#[test]
fn cursor_stays_within_text_through_a_long_run_of_edits() {
    let mut line = Line::new();
    let mut seed: u32 = 12345;
    for _ in 0..2000 {
        seed = seed.wrapping_mul(1103515245).wrapping_add(12345);
        match (seed >> 16) % 7 {
            0 => line.insert('k'),
            1 => line.erase_left(),
            2 => line.erase_right(),
            3 => line.move_left(),
            4 => line.move_right(),
            5 => line.move_start(),
            _ => line.move_end(),
        }
        assert!(line.position() <= line.buf().chars().count());
    }
}

#[test]
fn prev_char_uppercase_looks_left_of_cursor() {
    let mut line = line_with("aB");
    assert!(line.is_prev_char_uppercase());
    line.move_left();
    assert!(!line.is_prev_char_uppercase());
    line.move_left();
    assert!(!line.is_prev_char_uppercase());
    line.set("É");
    assert!(line.is_prev_char_uppercase());
    line.set("7");
    assert!(!line.is_prev_char_uppercase());
}

#[test]
fn into_string_hands_over_text() {
    let line = line_with("set k v");
    assert_eq!(line.into_string(), "set k v".to_string());
}

#[test]
fn write_draws_prompt_text_hint_and_cursor_column() {
    let mut line = line_with("ge");
    assert_eq!(
        line.write("> ", Some("t <key>")),
        "\r\x1B[K> ge\x1B[90mt <key>\x1B[0m\x1B[5G"
    );
    line.move_start();
    assert_eq!(line.write("> ", None), "\r\x1B[K> ge\x1B[90m\x1B[0m\x1B[3G");
}

#[test]
fn write_leaves_colour_codes_out_of_cursor_column() {
    let line = line_with("ping");
    let prompt = "\x1B[32mhost:3145\x1B[0m> ";
    assert_eq!(
        line.write(prompt, None),
        format!("\r\x1B[K{}ping\x1B[90m\x1B[0m\x1B[16G", prompt)
    );
}

#[test]
fn prompt_len_counts_what_is_shown() {
    assert_eq!(get_prompt_len(""), 0);
    assert_eq!(get_prompt_len("> "), 2);
    assert_eq!(get_prompt_len("\x1B[32m127.0.0.1:3145\x1B[0m> "), 16);
    assert_eq!(get_prompt_len("\x1B[1;2m"), 6);
    assert_eq!(get_prompt_len("\x1B[m"), 3);
    assert_eq!(get_prompt_len("\x1B[12"), 4);
    assert_eq!(get_prompt_len("a\x1B[0mb\x1B[90mc"), 3);
    assert_eq!(get_prompt_len("\x1B\x1B[7mx"), 2);
}

#[test]
fn prompt_len_agrees_with_colour_code_pattern() {
    let pattern = regex::Regex::new("\x1B\\[[0-9]+m").unwrap();
    let alphabet = ['\x1B', '[', '3', 'm', 'a'];
    let mut texts: Vec<String> = vec![String::new()];
    let mut from = 0;
    for _ in 0..6 {
        let until = texts.len();
        for i in from..until {
            for c in alphabet {
                let mut text = texts[i].clone();
                text.push(c);
                texts.push(text);
            }
        }
        from = until;
    }
    for text in &texts {
        let shown = pattern.replace_all(text, "").chars().count();
        assert_eq!(get_prompt_len(text), shown, "for {:?}", text);
    }
}
