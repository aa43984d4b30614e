use applauncher::program::ProgramResult;
use applauncher::ranking::{find_offset, normalize, rank_chars, rank_normalized};

fn program(name: &str) -> ProgramResult {
    ProgramResult::new(name, "", "UTILITY", None, "true", None, None)
}

#[test]
fn prefix_of_two_letters_scores_twenty() {
    assert_eq!(rank_normalized("chrome", "ch"), 20);
    assert_eq!(program("chrome").get_ranking("ch"), 20);
}

#[test]
fn gap_of_one_costs_one_point() {
    assert_eq!(rank_normalized("chrome", "cr"), 19);
    assert_eq!(program("chrome").get_ranking("cr"), 19);
}

#[test]
fn gap_of_two_costs_two_points() {
    assert_eq!(rank_normalized("chrome", "co"), 18);
    assert_eq!(program("chrome").get_ranking("co"), 18);
}

#[test]
fn single_letter_scores_less_than_its_extension() {
    assert_eq!(rank_normalized("chrome", "c"), 10);
    assert!(rank_normalized("chrome", "ch") > rank_normalized("chrome", "c"));
}

#[test]
fn empty_query_scores_zero() {
    assert_eq!(rank_normalized("chrome", ""), 0);
    assert_eq!(rank_normalized("", ""), 0);
    assert_eq!(program("Visual Studio Code").get_ranking(""), 0);
}

#[test]
fn empty_name_scores_zero() {
    assert_eq!(rank_normalized("", "abc"), 0);
}

#[test]
fn absent_character_leaves_cursor_in_place() {
    assert_eq!(rank_normalized("chrome", "cxh"), 20);
    assert_eq!(rank_normalized("chrome", "xch"), 20);
    assert_eq!(rank_normalized("chrome", "x"), 0);
}

#[test]
fn order_of_the_query_matters() {
    let p = program("visual studio code");
    assert_eq!(p.get_ranking("vsc"), 20);
    assert_eq!(p.get_ranking("csv"), 0);
}

#[test]
fn far_match_adds_nothing_but_moves_the_cursor() {
    assert_eq!(rank_normalized("abcdefghijklm", "k"), 0);
    assert_eq!(rank_normalized("abcdefghijklm", "j"), 1);
    assert_eq!(rank_normalized("abcdefghijklm", "ka"), 0);
    assert_eq!(rank_normalized("abcdefghijklm", "kl"), 10);
}

#[test]
fn name_is_matched_without_case_and_whitespace() {
    let p = program("Fire Fox\tWeb");
    assert_eq!(p.get_ranking("firefoxweb"), 100);
    assert_eq!(p.get_ranking("fw"), 14);
}

#[test]
fn query_is_matched_literally() {
    let p = program("Chrome");
    assert_eq!(p.get_ranking("ch"), 20);
    assert_eq!(p.get_ranking("CH"), 0);
    assert_eq!(p.get_ranking("c h"), 20);
    assert_eq!(rank_normalized("chrome", "c h"), 20);
}

#[test]
fn ranking_is_repeatable_and_bounded() {
    let p = program("GNU Image Manipulation Program");
    let queries = ["", "g", "gimp", "image", "zzz", "program"];
    for q in queries {
        let first = p.get_ranking(q);
        assert_eq!(first, p.get_ranking(q));
        assert!(first <= 10 * q.chars().count());
    }
}

#[test]
fn normalize_lowers_and_strips() {
    let n: String = normalize(" Visual  Studio\nCode ").into_iter().collect();
    assert_eq!(n, "visualstudiocode");
}

#[test]
fn find_offset_counts_from_the_cursor() {
    let name: Vec<char> = "chrome".chars().collect();
    assert_eq!(find_offset(&name, 0, 'c'), Some(0));
    assert_eq!(find_offset(&name, 1, 'r'), Some(1));
    assert_eq!(find_offset(&name, 1, 'c'), None);
    assert_eq!(find_offset(&name, 6, 'e'), None);
}

#[test]
fn rank_chars_agrees_with_rank_normalized() {
    let name: Vec<char> = "terminal".chars().collect();
    let query: Vec<char> = "tml".chars().collect();
    assert_eq!(rank_chars(&name, &query), rank_normalized("terminal", "tml"));
    assert_eq!(rank_chars(&name, &query), 10 + 8 + 7);
}

#[test]
fn absent_character_can_stand_anywhere() {
    let base = rank_normalized("terminal", "tml");
    assert_eq!(rank_normalized("terminal", "xtml"), base);
    assert_eq!(rank_normalized("terminal", "txml"), base);
    assert_eq!(rank_normalized("terminal", "tmxl"), base);
    assert_eq!(rank_normalized("terminal", "tmlx"), base);
}

#[test]
fn try_ranking_agrees_with_get_ranking() {
    let p = program("Terminal Emulator");
    assert_eq!(p.try_ranking("term"), Some(40));
    assert_eq!(p.try_ranking("te"), Some(p.get_ranking("te")));
    assert_eq!(p.try_ranking(""), Some(0));
}

fn has_white_space(c: char) -> bool {
    matches!(
        c,
        '\u{9}'..='\u{d}'
            | ' '
            | '\u{85}'
            | '\u{a0}'
            | '\u{1680}'
            | '\u{2000}'..='\u{200a}'
            | '\u{2028}'
            | '\u{2029}'
            | '\u{202f}'
            | '\u{205f}'
            | '\u{3000}'
    )
}

#[test]
fn exactly_the_whitespace_characters_are_stripped() {
    let mut code: u32 = 0;
    while code <= 0x10ffff {
        if let Some(c) = char::from_u32(code) {
            let mut name = String::from("a");
            name.push(c);
            name.push('b');
            let stripped = normalize(&name).len() == 2;
            assert_eq!(stripped, has_white_space(c), "U+{:04X}", code);
        }
        code += 1;
    }
}

#[test]
fn spaces_in_a_name_do_not_count() {
    assert_eq!(program("a b").get_ranking("ab"), 20);
    assert_eq!(program("a\u{a0}\u{3000}\tb").get_ranking("ab"), 20);
    assert_eq!(program("a\u{200b}b").get_ranking("ab"), 19);
}

#[test]
fn records_of_one_name_rank_alike() {
    let a = ProgramResult::new("Files", "Browse", "UTILITY", Some("1"), "files %U", Some("f"), None);
    let b = ProgramResult::new("Files", "", "SYSTEM", None, "nautilus", None, None);
    for q in ["", "f", "fil", "files", "sel", "x"] {
        assert_eq!(a.get_ranking(q), b.get_ranking(q));
        assert_eq!(a.try_ranking(q), b.try_ranking(q));
    }
}
