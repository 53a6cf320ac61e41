use ltengine::formatting::{
    align_punctuation, clean_model_output, is_shouting, is_terminal, match_source_style,
    replace_initial,
};

#[test]
fn cleanup_only_removes_control_markers_at_the_edges() {
    assert_eq!(
        clean_model_output("literal <channel|> content"),
        "literal <channel|> content"
    );
    assert_eq!(clean_model_output("a <end_of_turn> b"), "a <end_of_turn> b");
    assert_eq!(
        clean_model_output(" translation<end_of_turn>\n"),
        "translation"
    );
    assert_eq!(
        clean_model_output("<|channel>thought\nreasoning<channel|>answer"),
        "answer"
    );
    assert_eq!(clean_model_output("<|channel>thought answer"), "answer");
}

#[test]
fn cleaning_again_changes_nothing() {
    for output in [
        " translation<end_of_turn>\n",
        "<|channel>thought\nreasoning<channel|>answer",
        "x<end_of_turn><end_of_turn>",
        "  plain  ",
        "",
    ] {
        let once = clean_model_output(output);
        assert_eq!(clean_model_output(once), once);
    }
}

#[test]
fn trailing_punctuation_follows_source() {
    assert_eq!(
        match_source_style("Hallo Welt", "Hello world."),
        "Hello world"
    );
    assert_eq!(
        match_source_style("Hallo Welt!", "Hello world"),
        "Hello world!"
    );
    assert_eq!(
        match_source_style("Wie geht's?", "How are you?"),
        "How are you?"
    );
    // Different but valid punctuation is left alone.
    assert_eq!(match_source_style("你好。", "Hello."), "Hello.");
}

#[test]
fn keeps_german_noun_capitalisation_for_lowercase_input() {
    assert_eq!(
        match_source_style("the house is big", "Das Haus ist groß"),
        "Das Haus ist groß"
    );
    assert_eq!(match_source_style("ich gehe", "I'm going"), "I'm going");
}

#[test]
fn preserves_all_caps_across_spaces_and_punctuation() {
    assert_eq!(
        match_source_style("HELLO WORLD!", "Hallo Welt."),
        "HALLO WELT!"
    );
    assert_eq!(match_source_style("OK 123", "Добре 123"), "ДОБРЕ 123");
    assert_eq!(match_source_style("123", "123"), "123");
}

#[test]
fn capitalises_first_letter_like_source() {
    assert_eq!(match_source_style("Hallo", "привіт"), "Привіт");
}

#[test]
fn an_upper_case_initial_may_be_longer() {
    assert_eq!(match_source_style("Hallo", "ßtest"), "SStest");
    assert_eq!(match_source_style("STRASSE 1", "straße"), "STRASSE");
    assert_eq!(replace_initial("ßtest", "SS"), "SStest");
}

#[test]
fn terminal_marks_follow_the_source() {
    assert!(is_terminal('.'));
    assert!(is_terminal('!'));
    assert!(is_terminal('?'));
    assert!(!is_terminal('a'));
    assert_eq!(align_punctuation("Hi", "Hallo."), "Hallo");
    assert_eq!(align_punctuation("Hi.", "Hallo"), "Hallo.");
    assert_eq!(align_punctuation("Hi.", "Hallo!"), "Hallo.");
}

#[test]
fn shouting_needs_capitals_and_no_small_letters() {
    assert!(is_shouting(&vec![true, true, false], &vec![false, false, false]));
    assert!(!is_shouting(&vec![true, true], &vec![false, true]));
    assert!(!is_shouting(&vec![false, false], &vec![false, false]));
}

#[test]
fn style_ignores_surrounding_space() {
    for (source, translation, styled) in [
        ("Hi", "hallo.", "Hallo"),
        ("HELLO THERE!", "hallo", "HALLO!"),
        ("", "hallo.", "hallo."),
        ("Hi", "", ""),
    ] {
        assert_eq!(match_source_style(source, translation), styled);
        assert_eq!(
            match_source_style(&format!("\n {source}\t"), &format!("\u{3000}{translation} \n")),
            styled
        );
    }
    assert_eq!(match_source_style(" \n", " hallo. "), "hallo.");
    assert_eq!(match_source_style("Hi", " \t "), "");
}

#[test]
fn aligned_text_is_trimmed() {
    assert_eq!(match_source_style("hi", " hallo  . "), "hallo");
    assert_eq!(match_source_style("hi!", " ."), "!");
    assert_eq!(match_source_style("hi", " ."), "");
}
