//! Post-processing of generated text.
//!
//! Kept deliberately conservative: a valid translation comes out unchanged apart from the white
//! space around it.

use vstd::prelude::*;
use vstd::string::*;

use crate::text;
use crate::text::{
    first_match, right_trimmed, trimmed, without_leading,
};

verus! {

/// What a model that thinks aloud puts in front of its thoughts.
pub const THOUGHT_PREFIX: &'static str = "<|channel>thought";

/// What closes the thoughts.
pub const THOUGHT_END: &'static str = "<channel|>";

/// What ends a turn of the conversation.
pub const END_OF_TURN: &'static str = "<end_of_turn>";

/// What ends the whole text.
pub const END_OF_TEXT: &'static str = "<eos>";

/// Generated text without the thoughts in front of the answer.
pub open spec fn answer(output: Seq<char>) -> Seq<char> {
    if THOUGHT_PREFIX@.is_prefix_of(output) {
        let rest = output.skip(THOUGHT_PREFIX@.len() as int);
        match first_match(rest, THOUGHT_END@) {
            Some(at) => rest.skip(at + THOUGHT_END@.len()),
            None => without_leading(rest, seq!['\n', ' ']),
        }
    } else {
        output
    }
}

/// `s` ends with one of the markers that end a turn or the text.
pub open spec fn ends_with_marker(s: Seq<char>) -> bool {
    END_OF_TURN@.is_suffix_of(s) || END_OF_TEXT@.is_suffix_of(s)
}

/// `s` without the markers at its end and the white space in front of each.
pub open spec fn without_end_markers(s: Seq<char>) -> Seq<char>
    decreases s.len(),
{
    if END_OF_TURN@.is_suffix_of(s) {
        proof {
            reveal_strlit("<end_of_turn>");
            text::lemma_right_trimmed(s.take(s.len() - END_OF_TURN@.len()));
        }
        without_end_markers(right_trimmed(s.take(s.len() - END_OF_TURN@.len())))
    } else if END_OF_TEXT@.is_suffix_of(s) {
        proof {
            reveal_strlit("<eos>");
            text::lemma_right_trimmed(s.take(s.len() - END_OF_TEXT@.len()));
        }
        without_end_markers(right_trimmed(s.take(s.len() - END_OF_TEXT@.len())))
    } else {
        s
    }
}

/// Generated text without the control markers at its edges.
pub open spec fn cleaned(output: Seq<char>) -> Seq<char> {
    without_end_markers(trimmed(answer(output)))
}

/// Strip model control markers from raw generated text.
///
/// Only removes markers in the positions where models emit them (thoughts in front of the
/// answer, end markers behind it), so that literal occurrences inside a translation survive.
pub fn clean_model_output(output: &str) -> (r: &str)
    ensures
        r@ == cleaned(output@),
{
    let mut kept = output;
    if let Some(rest) = text::strip_prefix(output, THOUGHT_PREFIX) {
        kept = match text::find(rest, THOUGHT_END) {
            Some(at) => {
                let to = rest.unicode_len();
                let from = at + THOUGHT_END.unicode_len();
                rest.substring_char(from, to)
            },
            None => {
                let set = ['\n', ' '];
                assert(set@ =~= seq!['\n', ' ']);
                text::trim_leading(rest, &set)
            },
        };
    }
    let mut kept = text::trim(kept);
    loop
        invariant
            without_end_markers(kept@) == cleaned(output@),
        decreases kept@.len(),
    {
        proof {
            reveal_strlit("<end_of_turn>");
            reveal_strlit("<eos>");
        }
        if let Some(rest) = text::strip_suffix(kept, END_OF_TURN) {
            proof {
                text::lemma_right_trimmed(rest@);
            }
            kept = text::trim_end(rest);
        } else if let Some(rest) = text::strip_suffix(kept, END_OF_TEXT) {
            proof {
                text::lemma_right_trimmed(rest@);
            }
            kept = text::trim_end(rest);
        } else {
            return kept;
        }
    }
}

/// Law: a text that carries none of the markers at its edges loses nothing but the white space
/// around it; what looks like a marker inside it stays.
pub proof fn law_clean_text_is_only_trimmed(output: Seq<char>)
    requires
        !THOUGHT_PREFIX@.is_prefix_of(output),
        !ends_with_marker(trimmed(output)),
    ensures
        cleaned(output) == trimmed(output),
{
}

/// Law: the thoughts in front of an answer go, up to the first marker that closes them, and the
/// answer is cleaned as if it stood alone. Where nothing closes them, what follows the marker that
/// opens them is the answer, behind line feeds and spaces.
pub proof fn law_thoughts_are_taken_off(thoughts: Seq<char>, answer: Seq<char>, space: Seq<char>)
    requires
        !"<|channel>thought"@.is_prefix_of(answer),
    ensures
        first_match(thoughts + "<channel|>"@ + answer, "<channel|>"@) == Some(
            thoughts.len() as int,
        ) ==> cleaned("<|channel>thought"@ + thoughts + "<channel|>"@ + answer) == cleaned(answer),
        first_match(space + answer, "<channel|>"@) is None && (forall|i: int|
            0 <= i < space.len() ==> (#[trigger] space[i] == '\n' || space[i] == ' '))
            ==> cleaned("<|channel>thought"@ + space + answer) == cleaned(answer),
{
    reveal_strlit("<|channel>thought");
    let open = "<|channel>thought"@;
    let closed = thoughts + "<channel|>"@ + answer;
    let whole = open + thoughts + "<channel|>"@ + answer;
    assert(whole =~= open + closed);
    assert(open =~= whole.subrange(0, open.len() as int));
    assert(whole.skip(open.len() as int) =~= closed);
    assert(closed.skip(thoughts.len() as int + "<channel|>"@.len()) =~= answer);
    let unclosed = space + answer;
    let all = open + space + answer;
    assert(all =~= open + unclosed);
    assert(open =~= all.subrange(0, open.len() as int));
    assert(all.skip(open.len() as int) =~= unclosed);
    if forall|i: int| 0 <= i < space.len() ==> (#[trigger] space[i] == '\n' || space[i] == ' ') {
        lemma_leading_space(space, answer);
        lemma_leading_is_trimmed(unclosed);
        lemma_leading_is_trimmed(answer);
    }
}

/// Line feeds and spaces in front of a text are left out of it.
pub proof fn lemma_leading_space(space: Seq<char>, rest: Seq<char>)
    requires
        forall|i: int| 0 <= i < space.len() ==> (#[trigger] space[i] == '\n' || space[i] == ' '),
    ensures
        without_leading(space + rest, seq!['\n', ' ']) == without_leading(rest, seq!['\n', ' ']),
    decreases space.len(),
{
    let all = space + rest;
    if space.len() == 0 {
        assert(all =~= rest);
    } else {
        assert(all.drop_first() =~= space.drop_first() + rest);
        assert(all[0] == space[0]);
        let set = seq!['\n', ' '];
        assert(set[0] == '\n' && set[1] == ' ');
        assert(set.contains(all[0]));
        assert forall|i: int| 0 <= i < space.drop_first().len() implies (
        #[trigger] space.drop_first()[i] == '\n' || space.drop_first()[i] == ' ') by {
            assert(space.drop_first()[i] == space[i + 1]);
        }
        lemma_leading_space(space.drop_first(), rest);
    }
}

/// Trimming makes no difference between a text and what is left of it behind line feeds and
/// spaces.
proof fn lemma_leading_is_trimmed(s: Seq<char>)
    ensures
        trimmed(without_leading(s, seq!['\n', ' '])) == trimmed(s),
    decreases s.len(),
{
    let set = seq!['\n', ' '];
    if s.len() > 0 && set.contains(s[0]) {
        lemma_leading_is_trimmed(s.drop_first());
        assert(text::white_space(s[0]));
    }
}

/// Law: a marker that ends a turn or the text goes from the end of an answer, with the white space
/// on both sides of it, and the answer is cleaned as if it had not been there.
pub proof fn law_end_marker_is_taken_off(
    answer: Seq<char>,
    before: Seq<char>,
    marker: Seq<char>,
    after: Seq<char>,
)
    requires
        marker == "<end_of_turn>"@ || marker == "<eos>"@,
        text::all_white(before),
        text::all_white(after),
        !"<|channel>thought"@.is_prefix_of(answer),
        !"<|channel>thought"@.is_prefix_of(answer + before + marker + after),
        trimmed(answer).len() > 0,
    ensures
        cleaned(answer + before + marker + after) == cleaned(answer),
{
    reveal_strlit("<end_of_turn>");
    reveal_strlit("<eos>");
    let output = answer + before + marker + after;
    let left = text::left_trimmed(answer);
    text::lemma_left_trimmed_of_sum(answer, before + marker + after);
    assert(output =~= answer + (before + marker + after));
    assert(text::left_trimmed(output) =~= left + before + marker + after);
    let body = left + before + marker;
    assert(body.last() == '>');
    text::lemma_right_padding_is_trimmed(body, after);
    assert(trimmed(output) == body);
    assert(marker =~= body.subrange(body.len() - marker.len(), body.len() as int));
    assert(body.take(body.len() - marker.len()) =~= left + before);
    text::lemma_right_white_is_trimmed(left, before);
    if marker == "<eos>"@ {
        assert(body[body.len() - 2] == 's');
        assert(!"<end_of_turn>"@.is_suffix_of(body)) by {
            if "<end_of_turn>"@.is_suffix_of(body) {
                assert("<end_of_turn>"@[11] == body[body.len() - 2]);
            }
        }
    }
}

/// Law: cleaned text ends with no marker and has no white space at either end.
pub proof fn law_cleaned_text_has_clean_edges(output: Seq<char>)
    ensures
        !ends_with_marker(cleaned(output)),
        text::is_trimmed(cleaned(output)),
{
    text::lemma_trimmed(answer(output));
    lemma_without_end_markers(trimmed(answer(output)));
}

/// Law: cleaning text that was cleaned changes nothing, unless what was left begins with the
/// marker of thoughts.
pub proof fn law_cleaning_twice_is_cleaning_once(output: Seq<char>)
    requires
        !THOUGHT_PREFIX@.is_prefix_of(cleaned(output)),
    ensures
        cleaned(cleaned(output)) == cleaned(output),
{
    law_cleaned_text_has_clean_edges(output);
}

/// Removing end markers keeps trimmed text trimmed and leaves no marker.
proof fn lemma_without_end_markers(s: Seq<char>)
    requires
        text::is_trimmed(s),
    ensures
        !ends_with_marker(without_end_markers(s)),
        text::is_trimmed(without_end_markers(s)),
    decreases s.len(),
{
    reveal_strlit("<end_of_turn>");
    reveal_strlit("<eos>");
    if END_OF_TURN@.is_suffix_of(s) {
        let rest = s.take(s.len() - END_OF_TURN@.len());
        text::lemma_right_trimmed(rest);
        lemma_without_end_markers(right_trimmed(rest));
    } else if END_OF_TEXT@.is_suffix_of(s) {
        let rest = s.take(s.len() - END_OF_TEXT@.len());
        text::lemma_right_trimmed(rest);
        lemma_without_end_markers(right_trimmed(rest));
    }
}

/// Whether a character has the Unicode property Uppercase.
pub uninterp spec fn upper_case(c: char) -> bool;

/// Whether a character has the Unicode property Lowercase.
pub uninterp spec fn lower_case(c: char) -> bool;

/// The Unicode uppercase mapping of a character, which may be several characters.
pub uninterp spec fn char_uppercased(c: char) -> Seq<char>;

/// The Unicode uppercase mapping of a text.
pub uninterp spec fn uppercased(s: Seq<char>) -> Seq<char>;

/// `char::is_uppercase` tells, of the character alone, whether it has the property Uppercase.
pub assume_specification[ char::is_uppercase ](c: char) -> (r: bool)
    ensures
        r == upper_case(c),
;

/// `char::is_lowercase` tells, of the character alone, whether it has the property Lowercase.
pub assume_specification[ char::is_lowercase ](c: char) -> (r: bool)
    ensures
        r == lower_case(c),
;

/// `str::to_uppercase` gives the uppercase mapping of the text, which depends on the text alone.
pub assume_specification[ str::to_uppercase ](s: &str) -> (r: String)
    ensures
        r@ == uppercased(s@),
;

/// `char::to_uppercase` gives the uppercase mapping of the character, here as a string.
#[verifier::external_body]
fn uppercase_char(c: char) -> (r: String)
    ensures
        r@ == char_uppercased(c),
{
    c.to_uppercase().collect()
}

/// `c` is one of the marks that end a sentence or a clause.
pub open spec fn terminal(c: char) -> bool {
    c == '!' || c == '?' || c == '.' || c == ',' || c == ';' || c == '。'
}

/// `c` is an ASCII character.
pub open spec fn ascii(c: char) -> bool {
    c <= '\u{7f}'
}

/// `result` with its last mark aligned to that of `source`; where either is empty, as it is.
pub open spec fn punctuated(source: Seq<char>, result: Seq<char>) -> Seq<char> {
    if source.len() == 0 || result.len() == 0 {
        result
    } else {
        let wanted = source.last();
        let given = result.last();
        if terminal(wanted) && !terminal(given) {
            result.push(wanted)
        } else if !terminal(wanted) && terminal(given) {
            right_trimmed(result.drop_last())
        } else if terminal(wanted) && wanted != given && ascii(wanted) && ascii(given) {
            result.drop_last().push(wanted)
        } else {
            result
        }
    }
}

/// How many of `flags` are set.
pub open spec fn count_set(flags: Seq<bool>) -> nat
    decreases flags.len(),
{
    if flags.len() == 0 {
        0
    } else {
        count_set(flags.drop_last()) + if flags.last() {
            1nat
        } else {
            0nat
        }
    }
}

/// Two or more capitals and no small letter.
pub open spec fn shouted(upper: Seq<bool>, lower: Seq<bool>) -> bool {
    count_set(upper) >= 2 && !lower.contains(true)
}

/// `source` is written in capitals.
pub open spec fn shouting(source: Seq<char>) -> bool {
    shouted(source.map_values(|c: char| upper_case(c)), source.map_values(|c: char| lower_case(c)))
}

/// `text` with its first character replaced by `initial`.
pub open spec fn with_initial(text: Seq<char>, initial: Seq<char>) -> Seq<char> {
    initial + text.drop_first()
}

/// `translation` in the style of `source`, both without white space around them.
pub open spec fn styled(source: Seq<char>, translation: Seq<char>) -> Seq<char> {
    if source.len() == 0 || translation.len() == 0 {
        translation
    } else {
        let aligned = punctuated(source, translation);
        let cased = if shouting(source) {
            uppercased(aligned)
        } else {
            aligned
        };
        if cased.len() > 0 && upper_case(source[0]) && lower_case(cased[0]) {
            with_initial(cased, char_uppercased(cased[0]))
        } else {
            cased
        }
    }
}

/// `translation` in the style of `source`, with the white space around both left out.
pub open spec fn style_matched(source: Seq<char>, translation: Seq<char>) -> Seq<char> {
    styled(trimmed(source), trimmed(translation))
}

/// Whether `c` is one of the marks that end a sentence or a clause.
pub fn is_terminal(c: char) -> (r: bool)
    ensures
        r == terminal(c),
{
    c == '!' || c == '?' || c == '.' || c == ',' || c == ';' || c == '。'
}

/// Align the last mark of `result` with that of `source`. Chat messages often omit a final full
/// stop, and models tend to add one.
pub fn align_punctuation(source: &str, result: &str) -> (r: String)
    ensures
        r@ == punctuated(source@, result@),
{
    let n = source.unicode_len();
    let m = result.unicode_len();
    if n == 0 || m == 0 {
        return result.to_owned();
    }
    let wanted = source.get_char(n - 1);
    let given = result.get_char(m - 1);
    let wanted_terminal = is_terminal(wanted);
    let given_terminal = is_terminal(given);
    if wanted_terminal && !given_terminal {
        let mut r = result.to_owned();
        r.push(wanted);
        r
    } else if !wanted_terminal && given_terminal {
        text::trim_end(result.substring_char(0, m - 1)).to_owned()
    } else if wanted_terminal && wanted != given && wanted <= '\u{7f}' && given <= '\u{7f}' {
        // "!" flattened to ".", say; marks of one script like "。" are left alone.
        let mut r = result.substring_char(0, m - 1).to_owned();
        r.push(wanted);
        r
    } else {
        result.to_owned()
    }
}

/// Whether a text with these upper-case and lower-case characters is written in capitals.
pub fn is_shouting(upper: &Vec<bool>, lower: &Vec<bool>) -> (r: bool)
    ensures
        r == shouted(upper@, lower@),
{
    let mut count: usize = 0;
    let mut i: usize = 0;
    while i < upper.len()
        invariant
            i <= upper.len(),
            count <= i,
            count == count_set(upper@.take(i as int)),
        decreases upper.len() - i,
    {
        assert(upper@.take(i + 1).drop_last() == upper@.take(i as int));
        if upper[i] {
            count = count + 1;
        }
        i = i + 1;
    }
    assert(upper@.take(i as int) == upper@);
    let mut k: usize = 0;
    while k < lower.len()
        invariant
            k <= lower.len(),
            forall|j: int| 0 <= j < k ==> !lower@[j],
        decreases lower.len() - k,
    {
        if lower[k] {
            assert(lower@[k as int]);
            return false;
        }
        k = k + 1;
    }
    count >= 2
}

/// `text` with its first character replaced by `initial`.
pub fn replace_initial(text: &str, initial: &str) -> (r: String)
    requires
        text@.len() > 0,
    ensures
        r@ == with_initial(text@, initial@),
{
    let n = text.unicode_len();
    let mut r = initial.to_owned();
    r.append(text.substring_char(1, n));
    assert(text@.subrange(1, n as int) == text@.drop_first());
    r
}

/// Which characters of `s` are upper case, and which are lower case.
fn letter_cases(s: &str) -> (r: (Vec<bool>, Vec<bool>))
    ensures
        r.0@ == s@.map_values(|c: char| upper_case(c)),
        r.1@ == s@.map_values(|c: char| lower_case(c)),
{
    let cs = text::chars(s);
    let mut upper: Vec<bool> = Vec::new();
    let mut lower: Vec<bool> = Vec::new();
    let mut i: usize = 0;
    while i < cs.len()
        invariant
            i <= cs.len(),
            upper@ == cs@.take(i as int).map_values(|c: char| upper_case(c)),
            lower@ == cs@.take(i as int).map_values(|c: char| lower_case(c)),
        decreases cs.len() - i,
    {
        upper.push(cs[i].is_uppercase());
        lower.push(cs[i].is_lowercase());
        i = i + 1;
        assert(upper@ =~= cs@.take(i as int).map_values(|c: char| upper_case(c)));
        assert(lower@ =~= cs@.take(i as int).map_values(|c: char| lower_case(c)));
    }
    assert(cs@.take(i as int) == s@);
    (upper, lower)
}

/// Align trailing punctuation and letter case of `translation` with the source text.
///
/// Capitals throughout are kept. Small letters throughout are deliberately not forced onto the
/// output: that would break German nouns and the English "I". A capital at the start is only
/// ever added, never taken away.
pub fn match_source_style(source: &str, translation: &str) -> (r: String)
    ensures
        r@ == style_matched(source@, translation@),
{
    let source = text::trim(source);
    let translation = text::trim(translation);
    if source.is_empty() || translation.is_empty() {
        return translation.to_owned();
    }
    let aligned = align_punctuation(source, translation);
    let (upper, lower) = letter_cases(source);
    let cased = if is_shouting(&upper, &lower) {
        aligned.as_str().to_uppercase()
    } else {
        aligned
    };
    if cased.as_str().is_empty() {
        return cased;
    }
    let first = cased.as_str().get_char(0);
    if source.get_char(0).is_uppercase() && first.is_lowercase() {
        let initial = uppercase_char(first);
        replace_initial(cased.as_str(), initial.as_str())
    } else {
        cased
    }
}

/// Law: where the source ends as the translation does, with the same mark or both with none,
/// the punctuation of the translation stays.
pub proof fn law_matching_punctuation_stays(source: Seq<char>, translation: Seq<char>)
    requires
        source.len() > 0,
        translation.len() > 0,
        source.last() == translation.last() || (!terminal(source.last()) && !terminal(
            translation.last(),
        )),
    ensures
        punctuated(source, translation) == translation,
{
}

/// Law: the marks that are aligned are these six.
pub proof fn law_terminal_marks(c: char)
    ensures
        terminal(c) <==> "!?.,;。"@.contains(c),
{
    reveal_strlit("!?.,;。");
    let marks = "!?.,;。"@;
    assert(marks =~= seq!['!', '?', '.', ',', ';', '。']);
    if terminal(c) {
        assert(marks[0] == '!' && marks[1] == '?' && marks[2] == '.' && marks[3] == ',' && marks[4]
            == ';' && marks[5] == '。');
    }
}

/// Law: where the source ends with no mark, a mark at the end of the translation is taken off,
/// with the white space in front of it and nothing else: all that stood before stays, whatever
/// marks there are in it.
pub proof fn law_added_mark_is_taken_off(
    source: Seq<char>,
    kept: Seq<char>,
    space: Seq<char>,
    mark: char,
)
    requires
        source.len() > 0,
        !terminal(source.last()),
        terminal(mark),
        text::all_white(space),
        kept.len() > 0 ==> !text::white_space(kept.last()),
    ensures
        punctuated(source, kept + space + seq![mark]) == kept,
{
    let translation = kept + space + seq![mark];
    assert(translation.drop_last() =~= kept + space);
    text::lemma_right_padding_is_trimmed(kept, space);
}

/// Law: where the source ends with a mark and the translation with none, the mark of the source is
/// put behind the whole translation.
pub proof fn law_missing_mark_is_added(source: Seq<char>, translation: Seq<char>)
    requires
        source.len() > 0,
        translation.len() > 0,
        terminal(source.last()),
        !terminal(translation.last()),
    ensures
        punctuated(source, translation) == translation + seq![source.last()],
{
    assert(translation.push(source.last()) =~= translation + seq![source.last()]);
}

/// Law: where both end with a mark, the mark of the translation gives way to that of the source,
/// and nothing else changes; but where one of the two is not ASCII, the translation stays.
pub proof fn law_other_mark_gives_way(source: Seq<char>, kept: Seq<char>, mark: char)
    requires
        source.len() > 0,
        terminal(source.last()),
        terminal(mark),
    ensures
        source.last() <= '\u{7f}' && mark <= '\u{7f}' ==> punctuated(source, kept + seq![mark])
            == kept + seq![source.last()],
        !(source.last() <= '\u{7f}' && mark <= '\u{7f}') ==> punctuated(source, kept + seq![mark])
            == kept + seq![mark],
{
    let translation = kept + seq![mark];
    assert(translation.drop_last() =~= kept);
    assert(kept.push(source.last()) =~= kept + seq![source.last()]);
}

/// Law: a source is written in capitals exactly where it holds at least two capitals and no small
/// letter.
pub proof fn law_shouting_has_capitals_only(source: Seq<char>)
    ensures
        shouting(source) <==> (exists|i: int, j: int|
            0 <= i < j < source.len() && upper_case(#[trigger] source[i]) && upper_case(
                #[trigger] source[j],
            )) && (forall|k: int| 0 <= k < source.len() ==> !lower_case(#[trigger] source[k])),
{
    let upper = source.map_values(|c: char| upper_case(c));
    let lower = source.map_values(|c: char| lower_case(c));
    lemma_count_two(upper);
    if count_set(upper) >= 2 {
        let (i, j) = choose|i: int, j: int|
            0 <= i < j < upper.len() && #[trigger] upper[i] && #[trigger] upper[j];
        assert(upper_case(source[i]) && upper_case(source[j]));
    }
    if exists|i: int, j: int|
        0 <= i < j < source.len() && upper_case(#[trigger] source[i]) && upper_case(
            #[trigger] source[j],
        ) {
        let (i, j) = choose|i: int, j: int|
            0 <= i < j < source.len() && upper_case(#[trigger] source[i]) && upper_case(
                #[trigger] source[j],
            );
        assert(upper[i] && upper[j]);
    }
    if lower.contains(true) {
        let k = lower.index_of(true);
        assert(lower_case(source[k]));
    }
    if !lower.contains(true) {
        assert forall|k: int| 0 <= k < source.len() implies !lower_case(#[trigger] source[k]) by {
            assert(lower[k] == lower_case(source[k]));
        }
    }
}

/// At least two flags are set exactly where there are two places that are.
proof fn lemma_count_two(flags: Seq<bool>)
    ensures
        count_set(flags) >= 1 <==> exists|i: int| 0 <= i < flags.len() && #[trigger] flags[i],
        count_set(flags) >= 2 <==> exists|i: int, j: int|
            0 <= i < j < flags.len() && #[trigger] flags[i] && #[trigger] flags[j],
    decreases flags.len(),
{
    if flags.len() > 0 {
        let before = flags.drop_last();
        let last = flags.len() - 1;
        lemma_count_two(before);
        assert forall|i: int| 0 <= i < last implies before[i] == flags[i] by {}
        if count_set(before) >= 1 {
            let i = choose|i: int| 0 <= i < before.len() && #[trigger] before[i];
            assert(flags[i]);
        }
        if count_set(before) >= 2 {
            let (i, j) = choose|i: int, j: int|
                0 <= i < j < before.len() && #[trigger] before[i] && #[trigger] before[j];
            assert(flags[i] && flags[j]);
        }
        if exists|i: int| 0 <= i < flags.len() && #[trigger] flags[i] {
            let i = choose|i: int| 0 <= i < flags.len() && #[trigger] flags[i];
            if i < last {
                assert(before[i]);
            }
        }
        if exists|i: int, j: int|
            0 <= i < j < flags.len() && #[trigger] flags[i] && #[trigger] flags[j] {
            let (i, j) = choose|i: int, j: int|
                0 <= i < j < flags.len() && #[trigger] flags[i] && #[trigger] flags[j];
            assert(before[i]);
            if j < last {
                assert(before[j]);
            }
        }
    }
}

/// Law: a translation of a source in capitals is put into capitals; of any other, all but its
/// first character stays as it is, and the first becomes a capital exactly where the source begins
/// with a capital and it is a small letter.
pub proof fn law_case_follows_the_source(source: Seq<char>, translation: Seq<char>)
    requires
        source.len() > 0,
        translation.len() > 0,
    ensures
        ({
            let aligned = punctuated(source, translation);
            let raised = aligned.len() > 0 && upper_case(source[0]) && lower_case(aligned[0]);
            &&& !shouting(source) && !raised ==> styled(source, translation) == aligned
            &&& !shouting(source) && raised ==> styled(source, translation) == char_uppercased(
                aligned[0],
            ) + aligned.skip(1)
            &&& shouting(source) && !(uppercased(aligned).len() > 0 && lower_case(
                uppercased(aligned)[0],
            )) ==> styled(source, translation) == uppercased(aligned)
        }),
{
    let aligned = punctuated(source, translation);
    if aligned.len() > 0 {
        assert(aligned.drop_first() =~= aligned.skip(1));
    }
}

/// Law: where the source ends with an ASCII mark, and the translation with no mark or with an
/// ASCII one, the translation comes to end with the mark of the source.
pub proof fn law_mark_of_source_is_taken_over(source: Seq<char>, translation: Seq<char>)
    requires
        source.len() > 0,
        translation.len() > 0,
        terminal(source.last()),
        ascii(source.last()),
        !terminal(translation.last()) || ascii(translation.last()),
    ensures
        punctuated(source, translation).last() == source.last(),
{
}

/// Law: a source without a capital letter never changes the letters of the translation; only
/// its last mark can change.
pub proof fn law_source_without_capitals_keeps_case(source: Seq<char>, translation: Seq<char>)
    requires
        forall|i: int| 0 <= i < source.len() ==> !upper_case(#[trigger] source[i]),
    ensures
        styled(source, translation) == punctuated(source, translation),
{
    let upper = source.map_values(|c: char| upper_case(c));
    lemma_count_none(upper);
    assert(!shouting(source));
}

/// Law: white space around the source or around the translation makes no difference.
pub proof fn law_style_ignores_surrounding_space(
    source: Seq<char>,
    translation: Seq<char>,
    before: Seq<char>,
    after: Seq<char>,
)
    requires
        text::all_white(before),
        text::all_white(after),
    ensures
        style_matched(before + source + after, translation) == style_matched(source, translation),
        style_matched(source, before + translation + after) == style_matched(source, translation),
        style_matched(trimmed(source), trimmed(translation)) == style_matched(source, translation),
{
    text::lemma_padding_is_trimmed(before, source, after);
    text::lemma_padding_is_trimmed(before, translation, after);
    text::lemma_trimmed(source);
    text::lemma_trimmed(translation);
}

/// Law: texts without white space around them are matched as they are.
pub proof fn law_trimmed_texts_are_matched_as_they_are(source: Seq<char>, translation: Seq<char>)
    requires
        text::is_trimmed(source),
        text::is_trimmed(translation),
    ensures
        style_matched(source, translation) == styled(source, translation),
{
}

/// Law: where the source or the translation is empty but for white space, the translation is
/// only trimmed.
pub proof fn law_empty_text_has_no_style(source: Seq<char>, translation: Seq<char>)
    requires
        trimmed(source).len() == 0 || trimmed(translation).len() == 0,
    ensures
        style_matched(source, translation) == trimmed(translation),
{
}

/// Law: a translation whose last mark is aligned has no white space at either end, and neither has
/// what comes out where no letter becomes a capital.
pub proof fn law_aligned_text_is_trimmed(source: Seq<char>, translation: Seq<char>)
    ensures
        ({
            let aligned = punctuated(trimmed(source), trimmed(translation));
            &&& text::is_trimmed(aligned)
            &&& !shouting(trimmed(source)) && (aligned.len() > 0 ==> !lower_case(aligned[0]))
                ==> text::is_trimmed(style_matched(source, translation))
        }),
        (forall|i: int| 0 <= i < source.len() ==> !upper_case(#[trigger] source[i]))
            ==> text::is_trimmed(style_matched(source, translation)),
{
    let wanted = trimmed(source);
    let result = trimmed(translation);
    text::lemma_trimmed(translation);
    if result.len() > 0 {
        text::lemma_right_trimmed(result.drop_last());
    }
    if forall|i: int| 0 <= i < source.len() ==> !upper_case(#[trigger] source[i]) {
        text::lemma_trimmed_is_part(source);
        let at = choose|at: int| text::occurs_at(source, wanted, at);
        assert forall|i: int| 0 <= i < wanted.len() implies !upper_case(#[trigger] wanted[i]) by {
            assert(wanted[i] == source[at + i]);
        }
        law_source_without_capitals_keeps_case(wanted, result);
    }
}

/// No flag is counted where none is set.
proof fn lemma_count_none(flags: Seq<bool>)
    requires
        forall|i: int| 0 <= i < flags.len() ==> !#[trigger] flags[i],
    ensures
        count_set(flags) == 0,
    decreases flags.len(),
{
    if flags.len() > 0 {
        lemma_count_none(flags.drop_last());
    }
}

} // verus!
