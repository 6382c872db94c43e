use humanizer::confirm::{answer_of, confirm_answer, Answer};
use humanizer::generator::{
    extend_pool, generate_lines, generate_passwords, special_tokens, year_tokens,
};
use humanizer::injection::{add_elements, inject_token};
use humanizer::substitution::{human_alternatives, if_contains_replace, special_chars, substitute};
use humanizer::text::{chars_of, decimal_text, string_of};
use humanizer::variation::{case_variation, case_variations, variation_count};
use humanizer::years::{gen_years, YearRangeError};

fn strings(v: &[&str]) -> Vec<String> {
    v.iter().map(|s| s.to_string()).collect()
}

#[test]
fn years_cover_the_closed_interval_in_order() {
    assert_eq!(gen_years(1990, 1993), Ok(vec![1990, 1991, 1992, 1993]));
    assert_eq!(gen_years(2000, 2000), Ok(vec![2000]));
    let all = gen_years(1990, 2025).unwrap();
    assert_eq!(all.len(), 36);
    assert_eq!(all[0], 1990);
    assert_eq!(all[35], 2025);
    assert!(all.windows(2).all(|w| w[0] < w[1]));
}

#[test]
fn years_reversed_interval_is_refused() {
    assert_eq!(gen_years(2025, 1990), Err(YearRangeError { from: 2025, to: 1990 }));
    assert_eq!(gen_years(1, 0), Err(YearRangeError { from: 1, to: 0 }));
}

#[test]
fn years_at_the_type_bounds() {
    let top = gen_years(65534, 65535).unwrap();
    assert_eq!(top, vec![65534, 65535]);
    assert_eq!(gen_years(0, 0), Ok(vec![0]));
}

#[test]
fn special_set_keeps_its_duplicate_comma() {
    let s = special_chars();
    assert_eq!(s, vec!['!', '?', ',', ';', ',', '-', '_']);
    assert_eq!(s.iter().filter(|&&c| c == ',').count(), 2);
}

#[test]
fn substitution_table_is_ordered() {
    let t = human_alternatives();
    assert_eq!(t.len(), 11);
    assert_eq!(t[0], ('@', 'a'));
    assert_eq!(t[3], ('!', '1'));
    assert_eq!(t[10], ('8', 'B'));
}

#[test]
fn replace_only_where_present() {
    let mut k = String::from("banana");
    if_contains_replace(&mut k, 'a', '@');
    assert_eq!(k, "b@n@n@");
    let mut k = String::from("xyz");
    if_contains_replace(&mut k, 'a', '@');
    assert_eq!(k, "xyz");
}

#[test]
fn substitution_applies_passes_in_order() {
    // the classic `a` is replaced by its alternative `@`
    assert_eq!(substitute("ab"), "@b");
    assert_eq!(substitute("xy"), "xy");
    assert_eq!(substitute("password"), "p@ssw0rd");
    assert_eq!(substitute("tree"), "tr33");
    // `i` becomes `1` in the first pass, and `1` becomes `!` in a later one.
    assert_eq!(substitute("hi"), "h!");
    assert_eq!(substitute("TIE"), "7!3");
    assert_eq!(substitute(""), "");
}

#[test]
fn decimal_rendering() {
    assert_eq!(decimal_text(0), "0");
    assert_eq!(decimal_text(7), "7");
    assert_eq!(decimal_text(2000), "2000");
    assert_eq!(decimal_text(65535), "65535");
}

#[test]
fn chars_and_strings_round_trip() {
    let v = chars_of("héllo");
    assert_eq!(v, vec!['h', 'é', 'l', 'l', 'o']);
    assert_eq!(string_of(&v), "héllo");
    assert_eq!(string_of(&vec![]), "");
}

#[test]
fn variation_counts_are_powers_of_two() {
    assert_eq!(variation_count(0), 1);
    assert_eq!(variation_count(10), 1024);
    assert_eq!(variation_count(63), 1u64 << 63);
}

#[test]
fn case_variation_follows_mask_bits() {
    let chars = vec!['a', 'b', 'c'];
    assert_eq!(case_variation(&chars, 0), "abc");
    assert_eq!(case_variation(&chars, 1), "Abc");
    assert_eq!(case_variation(&chars, 2), "aBc");
    assert_eq!(case_variation(&chars, 5), "AbC");
    assert_eq!(case_variation(&chars, 7), "ABC");
}

#[test]
fn case_variations_of_two_letters() {
    assert_eq!(case_variations("ab"), strings(&["ab", "Ab", "aB", "AB"]));
    assert_eq!(case_variations(""), strings(&[""]));
}

#[test]
fn case_variations_are_all_distinct_for_letters() {
    let v = case_variations("abcde");
    assert_eq!(v.len(), 32);
    for i in 0..v.len() {
        for j in (i + 1)..v.len() {
            assert_ne!(v[i], v[j]);
        }
    }
}

#[test]
fn case_variations_of_digits_repeat() {
    let v = case_variations("1a");
    assert_eq!(v, strings(&["1a", "1a", "1A", "1A"]));
}

#[test]
fn injecting_a_year_token() {
    let mut pool = Vec::new();
    inject_token("ab", "2000", &mut pool);
    assert_eq!(pool, strings(&["ab2000", "2000ab", "a2000b"]));
    for e in &pool {
        assert_eq!(e.chars().count(), 2 + 4);
    }
}

#[test]
fn injecting_into_an_empty_variation() {
    let mut pool = Vec::new();
    inject_token("", "!", &mut pool);
    assert_eq!(pool, strings(&["!"]));
}

#[test]
fn injecting_counts_characters_not_bytes() {
    let mut pool = Vec::new();
    inject_token("éa", "1", &mut pool);
    assert_eq!(pool, strings(&["éa1", "1éa", "é1a"]));
}

#[test]
fn add_elements_keeps_earlier_entries() {
    let mut pool = strings(&["old"]);
    add_elements(&strings(&["1", "!"]), &mut pool, "xy");
    assert_eq!(pool, strings(&["old", "xy1", "1xy", "x1y", "xy!", "!xy", "x!y"]));
}

#[test]
fn tokens_from_years_and_specials() {
    assert_eq!(year_tokens(&vec![1999, 2000]), strings(&["1999", "2000"]));
    assert_eq!(special_tokens(&vec!['!', ',', ',']), strings(&["!", ",", ","]));
}

#[test]
fn extend_pool_appends_after_existing_entries() {
    let mut pool = strings(&["kept"]);
    extend_pool(&mut pool, "ab", &strings(&["2000"]), &strings(&["!"]));
    assert_eq!(pool.len(), 25);
    assert_eq!(pool[0], "kept");
    assert_eq!(&pool[1..7], &strings(&["@b2000", "2000@b", "@2000b", "@b!", "!@b", "@!b"])[..]);
    assert_eq!(pool[24], "@!B");
}

#[test]
fn single_keyword_run() {
    // "ab" is substituted to "@b"; uppercasing leaves `@` as it is, so the
    // four variations are "@b", "@b", "@B", "@B"
    let lines = generate_lines(&strings(&["ab"]), &vec![2000], &vec!['!']);
    assert_eq!(lines.len(), 25);
    assert_eq!(lines[0], "ab");
    let expected = strings(&[
        "ab", "@b2000", "2000@b", "@2000b", "@b!", "!@b", "@!b", "@b2000", "2000@b", "@2000b",
        "@b!", "!@b", "@!b", "@B2000", "2000@B", "@2000B", "@B!", "!@B", "@!B", "@B2000",
        "2000@B", "@2000B", "@B!", "!@B", "@!B",
    ]);
    assert_eq!(lines, expected);
}

#[test]
fn single_unsubstituted_keyword_run() {
    let lines = generate_lines(&strings(&["xy"]), &vec![2000], &vec!['!']);
    assert_eq!(lines.len(), 25);
    let expected = strings(&[
        "xy", "xy2000", "2000xy", "x2000y", "xy!", "!xy", "x!y", "Xy2000", "2000Xy", "X2000y",
        "Xy!", "!Xy", "X!y", "xY2000", "2000xY", "x2000Y", "xY!", "!xY", "x!Y", "XY2000",
        "2000XY", "X2000Y", "XY!", "!XY", "X!Y",
    ]);
    assert_eq!(lines, expected);
}

#[test]
fn two_keyword_run_keeps_the_pool() {
    let lines = generate_lines(&strings(&["ab", "cd"]), &vec![2000], &vec!['!']);
    assert_eq!(lines.len(), 74);
    assert_eq!(lines[0], "ab");
    // the second block starts with the first keyword again, then re-emits
    // the entries of "ab" before those of "cd"
    assert_eq!(lines[25], "ab");
    assert_eq!(&lines[26..50], &lines[1..25]);
    assert_eq!(lines[50], "cd2000");
    assert_eq!(lines[73], "C!D");
}

#[test]
fn full_run_keeps_duplicate_special_entries() {
    let lines = generate_passwords(&strings(&["xy"]), 2000, 2000).unwrap();
    // 4 variations, each with one year and seven specials, 3 entries each
    assert_eq!(lines.len(), 1 + 4 * 8 * 3);
    assert_eq!(lines.iter().filter(|l| l.as_str() == "xy,").count(), 2);
    assert_eq!(lines.iter().filter(|l| l.as_str() == ",XY").count(), 2);
    assert_eq!(lines.iter().filter(|l| l.as_str() == "xy;").count(), 1);
}

#[test]
fn full_run_substitutes_keywords() {
    let lines = generate_passwords(&strings(&["hi", "zz"]), 1990, 1991).unwrap();
    assert_eq!(lines[0], "hi");
    assert!(lines.iter().any(|l| l == "h!1990"));
    assert!(!lines.iter().any(|l| l == "hi1990"));
}

#[test]
fn full_run_refuses_reversed_years() {
    assert_eq!(
        generate_passwords(&strings(&["ab"]), 2001, 2000),
        Err(YearRangeError { from: 2001, to: 2000 })
    );
}

#[test]
fn confirmation_replies() {
    assert_eq!(confirm_answer("y\n"), Answer::Continue);
    assert_eq!(confirm_answer("  Y \r\n"), Answer::Continue);
    assert_eq!(confirm_answer("n\n"), Answer::Quit);
    assert_eq!(confirm_answer("N"), Answer::Quit);
    assert_eq!(confirm_answer("\n"), Answer::Quit);
    assert_eq!(confirm_answer(""), Answer::Quit);
    assert_eq!(confirm_answer("yes\n"), Answer::Invalid);
    assert_eq!(confirm_answer("x"), Answer::Invalid);
}

#[test]
fn normalized_answers() {
    assert_eq!(answer_of("y"), Answer::Continue);
    assert_eq!(answer_of("n"), Answer::Quit);
    assert_eq!(answer_of(""), Answer::Quit);
    assert_eq!(answer_of("Y"), Answer::Invalid);
    assert_eq!(answer_of(" y"), Answer::Invalid);
    assert_eq!(answer_of("ny"), Answer::Invalid);
}

#[test]
fn keyword_entry_count_formula() {
    let mut pool = Vec::new();
    extend_pool(&mut pool, "xyz", &strings(&["1990", "1991"]), &strings(&["!", "?", ","]));
    // 2^3 variations, 4 injection points, 5 tokens
    assert_eq!(pool.len(), 8 * 4 * 5);
    let lines = generate_passwords(&strings(&["xy", "xyz"]), 1990, 2025).unwrap();
    let first = 4 * 3 * (36 + 7);
    let second = 8 * 4 * (36 + 7);
    assert_eq!(lines.len(), (1 + first) + (1 + first + second));
}
