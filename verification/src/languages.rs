//! The languages that are served, how they are looked up and how they are detected.

use vstd::prelude::*;
use vstd::string::*;

use crate::prompt;
use crate::text;

verus! {

/// Number of languages that are served.
pub const COUNT: usize = 49;

/// Internal code, public code where it differs, and English name of each language.
pub const LANGS: [(&'static str, &'static str, &'static str); 49] = [
    ("en", "", "English"),
    ("sq", "", "Albanian"),
    ("ar", "", "Arabic"),
    ("az", "", "Azerbaijani"),
    ("eu", "", "Basque"),
    ("bn", "", "Bengali"),
    ("bg", "", "Bulgarian"),
    ("ca", "", "Catalan"),
    ("zh", "zh-Hans", "Chinese"),
    ("zt", "zh-Hant", "Chinese (traditional)"),
    ("cs", "", "Czech"),
    ("da", "", "Danish"),
    ("nl", "", "Dutch"),
    ("eo", "", "Esperanto"),
    ("et", "", "Estonian"),
    ("fi", "", "Finnish"),
    ("fr", "", "French"),
    ("gl", "", "Galician"),
    ("de", "", "German"),
    ("el", "", "Greek"),
    ("he", "", "Hebrew"),
    ("hi", "", "Hindi"),
    ("hu", "", "Hungarian"),
    ("id", "", "Indonesian"),
    ("ga", "", "Irish"),
    ("it", "", "Italian"),
    ("ja", "", "Japanese"),
    ("ko", "", "Korean"),
    ("lv", "", "Latvian"),
    ("lt", "", "Lithuanian"),
    ("ms", "", "Malay"),
    ("nb", "", "Norwegian"),
    ("fa", "", "Persian"),
    ("pl", "", "Polish"),
    ("pt", "", "Portuguese"),
    ("pb", "pt-BR", "Portuguese (Brazil)"),
    ("ro", "", "Romanian"),
    ("ru", "", "Russian"),
    ("sr", "", "Serbian"),
    ("sk", "", "Slovak"),
    ("sl", "", "Slovenian"),
    ("es", "", "Spanish"),
    ("sv", "", "Swedish"),
    ("tl", "", "Tagalog"),
    ("th", "", "Thai"),
    ("tr", "", "Turkish"),
    ("uk", "", "Ukrainian"),
    ("ur", "", "Urdu"),
    ("vi", "", "Vietnamese"),
];

/// Public code of each language: what can be translated to.
pub const TARGETS: [&'static str; 49] = [
    "en",
    "sq",
    "ar",
    "az",
    "eu",
    "bn",
    "bg",
    "ca",
    "zh-Hans",
    "zh-Hant",
    "cs",
    "da",
    "nl",
    "eo",
    "et",
    "fi",
    "fr",
    "gl",
    "de",
    "el",
    "he",
    "hi",
    "hu",
    "id",
    "ga",
    "it",
    "ja",
    "ko",
    "lv",
    "lt",
    "ms",
    "nb",
    "fa",
    "pl",
    "pt",
    "pt-BR",
    "ro",
    "ru",
    "sr",
    "sk",
    "sl",
    "es",
    "sv",
    "tl",
    "th",
    "tr",
    "uk",
    "ur",
    "vi",
];

/// The public code of the language at `i`.
pub open spec fn public_code(i: int) -> Seq<char> {
    if LANGS@[i].1@.len() == 0 {
        LANGS@[i].0@
    } else {
        LANGS@[i].1@
    }
}

/// The internal code of the language at `i`.
pub open spec fn internal_code(i: int) -> Seq<char> {
    LANGS@[i].0@
}

/// The public codes of all languages.
pub open spec fn public_codes() -> Seq<Seq<char>> {
    Seq::new(49, |i: int| public_code(i))
}

/// The internal codes of all languages.
pub open spec fn internal_codes() -> Seq<Seq<char>> {
    Seq::new(49, |i: int| internal_code(i))
}

/// Number of languages that whatlang knows.
pub const WHATLANG_COUNT: usize = 69;

/// The ISO 639-3 code and the English name of the language at `i` in whatlang's list.
pub uninterp spec fn whatlang_language(i: int) -> Option<(Seq<char>, Seq<char>)>;

/// What whatlang makes of a text when only the languages with the given codes are allowed: the
/// code of the language and the bits of the confidence as a 64-bit floating-point number.
pub uninterp spec fn whatlang_detection(text: Seq<char>, allowed: Seq<Seq<char>>) -> Option<
    (Seq<char>, u64),
>;

/// The languages that whatlang knows.
pub open spec fn whatlang_languages() -> Seq<(Seq<char>, Seq<char>)> {
    Seq::new(69, |i: int| whatlang_language(i)->0)
}

/// `code` is the code of a language that whatlang knows.
pub open spec fn known_to_whatlang(code: Seq<char>) -> bool {
    exists|i: int| 0 <= i < 69 && (#[trigger] whatlang_languages()[i]).0 == code
}

/// `whatlang::Lang::all` lists the languages that whatlang knows, in an order that never
/// changes; each is handed out as its code and its English name. There are as many as
/// [`WHATLANG_COUNT`] says.
#[verifier::external_body]
fn whatlang_entry(i: usize) -> (r: Option<(&'static str, &'static str)>)
    ensures
        match r {
            Some((code, name)) => whatlang_language(i as int) == Some((code@, name@)),
            None => whatlang_language(i as int) is None,
        },
        r is Some <==> i < WHATLANG_COUNT,
{
    whatlang::Lang::all().get(i).map(|lang| (lang.code(), lang.eng_name()))
}

/// `whatlang::Detector::detect` detects the language of a text among the allowed ones, given by
/// their codes. The language is handed out as its code, the confidence as the bits of the
/// floating-point number. The result depends on the text and the allowed languages alone.
#[verifier::external_body]
fn whatlang_detect(text: &str, allowed: &Vec<&'static str>) -> (r: Option<(&'static str, u64)>)
    requires
        forall|k: int| 0 <= k < allowed.len() ==> known_to_whatlang(#[trigger] allowed@[k]@),
    ensures
        match r {
            Some((code, confidence)) => whatlang_detection(text@, codes_view(allowed@)) == Some(
                (code@, confidence),
            ),
            None => whatlang_detection(text@, codes_view(allowed@)) is None,
        },
{
    let langs = allowed.iter().map(|code| whatlang::Lang::from_code(*code).unwrap()).collect();
    let info = whatlang::Detector::with_allowlist(langs).detect(text);
    info.map(|i| (i.lang().code(), i.confidence().to_bits()))
}

/// The texts of a list of codes.
pub open spec fn codes_view(codes: Seq<&str>) -> Seq<Seq<char>> {
    codes.map_values(|c: &str| c@)
}

/// The texts of a list of code and name pairs.
pub open spec fn pairs_view(pairs: Seq<(&str, &str)>) -> Seq<(Seq<char>, Seq<char>)> {
    pairs.map_values(|p: (&str, &str)| (p.0@, p.1@))
}

/// A language as it is served.
#[derive(Debug, Clone, Copy)]
pub struct Language {
    pub code: &'static str,
    pub name: &'static str,
    pub targets: &'static [&'static str],
    /// Code of the language in whatlang, where whatlang can detect it.
    pub lang_detect: Option<&'static str>,
    pub internal_code: &'static str,
}

/// The texts of a language.
pub struct LanguageView {
    pub code: Seq<char>,
    pub name: Seq<char>,
    pub targets: Seq<Seq<char>>,
    pub lang_detect: Option<Seq<char>>,
    pub internal_code: Seq<char>,
}

impl View for Language {
    type V = LanguageView;

    open spec fn view(&self) -> LanguageView {
        LanguageView {
            code: self.code@,
            name: self.name@,
            targets: codes_view(self.targets@),
            lang_detect: match self.lang_detect {
                Some(code) => Some(code@),
                None => None,
            },
            internal_code: self.internal_code@,
        }
    }
}

/// The name that is used here for a language that whatlang calls `name`.
pub open spec fn our_name(name: Seq<char>) -> Seq<char> {
    if name == "Mandarin"@ {
        "Chinese"@
    } else {
        name
    }
}

/// The code of the language that is called `name` here, among the `known` languages; where
/// several are, the last one counts.
pub open spec fn code_of_name(known: Seq<(Seq<char>, Seq<char>)>, name: Seq<char>) -> Option<
    Seq<char>,
>
    decreases known.len(),
{
    if known.len() == 0 {
        None
    } else if our_name(known.last().1) == name {
        Some(known.last().0)
    } else {
        code_of_name(known.drop_last(), name)
    }
}

/// The language at `i`, given the languages that can be detected.
pub open spec fn language_among(known: Seq<(Seq<char>, Seq<char>)>, i: int) -> LanguageView {
    LanguageView {
        code: public_code(i),
        name: LANGS@[i].2@,
        targets: public_codes(),
        lang_detect: code_of_name(known, LANGS@[i].2@),
        internal_code: internal_code(i),
    }
}

/// The language at `i`.
pub open spec fn language(i: int) -> LanguageView {
    language_among(whatlang_languages(), i)
}

/// The last position of `code` in `codes`.
pub open spec fn last_position(codes: Seq<Seq<char>>, code: Seq<char>) -> Option<int>
    decreases codes.len(),
{
    if codes.len() == 0 {
        None
    } else if codes.last() == code {
        Some(codes.len() - 1)
    } else {
        last_position(codes.drop_last(), code)
    }
}

/// Which language a code stands for: a public code for the language that has it, any other for
/// the language with that internal code.
pub open spec fn language_position(code: Seq<char>) -> Option<int> {
    match last_position(public_codes(), code) {
        Some(i) => last_position(internal_codes(), internal_code(i)),
        None => last_position(internal_codes(), code),
    }
}

/// The language that a code stands for.
pub open spec fn language_of_code(code: Seq<char>) -> Option<LanguageView> {
    match language_position(code) {
        Some(i) => Some(language(i)),
        None => None,
    }
}

/// The first language from `from` on that whatlang calls by `code`.
pub open spec fn first_detected(languages: Seq<LanguageView>, code: Seq<char>, from: int) -> Option<
    int,
>
    decreases languages.len() - from,
{
    if from < 0 || from >= languages.len() {
        None
    } else if languages[from].lang_detect == Some(code) {
        Some(from)
    } else {
        first_detected(languages, code, from + 1)
    }
}

/// The codes of the languages that can be detected, in the order of the languages.
pub open spec fn detectable(languages: Seq<LanguageView>) -> Seq<Seq<char>>
    decreases languages.len(),
{
    if languages.len() == 0 {
        Seq::empty()
    } else {
        let before = detectable(languages.drop_last());
        match languages.last().lang_detect {
            Some(code) => before.push(code),
            None => before,
        }
    }
}

/// All languages.
pub open spec fn all_languages() -> Seq<LanguageView> {
    Seq::new(49, |i: int| language(i))
}

/// A detected language and how sure the detection is.
#[derive(Debug, Clone, Copy)]
pub struct LangDetect {
    pub language: Language,
    /// Bits of the confidence, a 64-bit floating-point number from 0 to 1.
    pub confidence_bits: u64,
}

/// A detected language with its texts.
pub struct LangDetectView {
    pub language: LanguageView,
    pub confidence_bits: u64,
}

impl View for LangDetect {
    type V = LangDetectView;

    open spec fn view(&self) -> LangDetectView {
        LangDetectView { language: self.language@, confidence_bits: self.confidence_bits }
    }
}

/// The texts of a list of languages.
pub open spec fn languages_view(languages: Seq<Language>) -> Seq<LanguageView> {
    languages.map_values(|l: Language| l@)
}

/// The detected language among `languages` for what whatlang says.
pub open spec fn matched(
    languages: Seq<LanguageView>,
    detection: Option<(Seq<char>, u64)>,
) -> Option<LangDetectView> {
    match detection {
        Some((code, confidence_bits)) => match first_detected(languages, code, 0) {
            Some(i) => Some(LangDetectView { language: languages[i], confidence_bits }),
            None => None,
        },
        None => None,
    }
}

/// The language that is detected for a text.
pub open spec fn detected(q: Seq<char>) -> Option<LangDetectView> {
    matched(all_languages(), whatlang_detection(q, detectable(all_languages())))
}

/// An optional detected language with its texts.
pub open spec fn opt_detect_view(d: Option<LangDetect>) -> Option<LangDetectView> {
    match d {
        Some(d) => Some(d@),
        None => None,
    }
}

/// An optional language with its texts.
pub open spec fn opt_language_view(l: Option<Language>) -> Option<LanguageView> {
    match l {
        Some(l) => Some(l@),
        None => None,
    }
}

/// Every position in the list of languages is one of these.
proof fn lemma_positions(i: int)
    requires
        0 <= i < 49,
    ensures
        i == 0 || i == 1 || i == 2 || i == 3 || i == 4 || i == 5 || i == 6 || i == 7 || i == 8 || i == 9 || i == 10 || i == 11 || i == 12 || i == 13 || i == 14 || i == 15 || i == 16 || i == 17 || i == 18 || i == 19 || i == 20 || i == 21 || i == 22 || i == 23 || i == 24 || i == 25 || i == 26 || i == 27 || i == 28 || i == 29 || i == 30 || i == 31 || i == 32 || i == 33 || i == 34 || i == 35 || i == 36 || i == 37 || i == 38 || i == 39 || i == 40 || i == 41 || i == 42 || i == 43 || i == 44 || i == 45 || i == 46 || i == 47 || i == 48,
{
}

/// The list of targets holds the public codes.
proof fn lemma_targets()
    ensures
        codes_view(TARGETS@) == public_codes(),
{
    reveal_strlit("");
    reveal_strlit("zh-Hans");
    reveal_strlit("zh-Hant");
    reveal_strlit("pt-BR");
    assert forall|i: int| 0 <= i < 49 implies TARGETS@[i]@ == public_code(i) by {
        lemma_positions(i);
    }
    assert(codes_view(TARGETS@) =~= public_codes());
}

/// The languages that whatlang knows.
fn known_languages() -> (r: Vec<(&'static str, &'static str)>)
    ensures
        pairs_view(r@) == whatlang_languages(),
{
    let mut known: Vec<(&'static str, &'static str)> = Vec::new();
    let mut i: usize = 0;
    while i < WHATLANG_COUNT
        invariant
            i <= 69,
            known.len() == i,
            forall|k: int| 0 <= k < i ==> pairs_view(known@)[k] == whatlang_languages()[k],
        decreases 69 - i,
    {
        if let Some(pair) = whatlang_entry(i) {
            known.push(pair);
        }
        i = i + 1;
    }
    assert(pairs_view(known@) =~= whatlang_languages());
    known
}

/// The code of the language that is called `name` here, among the `known` languages.
pub fn find_code_of_name(known: &Vec<(&'static str, &'static str)>, name: &str) -> (r: Option<
    &'static str,
>)
    ensures
        match r {
            Some(code) => code_of_name(pairs_view(known@), name@) == Some(code@),
            None => code_of_name(pairs_view(known@), name@) is None,
        },
{
    let ghost pairs = pairs_view(known@);
    let mut n: usize = known.len();
    assert(pairs.take(n as int) == pairs);
    while n > 0
        invariant
            n <= known.len(),
            pairs == pairs_view(known@),
            code_of_name(pairs, name@) == code_of_name(pairs.take(n as int), name@),
        decreases n,
    {
        assert(pairs.take(n as int).drop_last() == pairs.take(n - 1));
        let whatlang_name = known[n - 1].1;
        let called = if text::same(whatlang_name, "Mandarin") {
            "Chinese"
        } else {
            whatlang_name
        };
        if text::same(called, name) {
            return Some(known[n - 1].0);
        }
        n = n - 1;
    }
    None
}

/// The language at `i`, given the languages that can be detected.
pub fn language_at(known: &Vec<(&'static str, &'static str)>, i: usize) -> (r: Language)
    requires
        i < 49,
    ensures
        r@ == language_among(pairs_view(known@), i as int),
{
    let (internal_code, alias, name) = LANGS[i];
    proof {
        lemma_targets();
    }
    Language {
        code: if alias.is_empty() {
            internal_code
        } else {
            alias
        },
        name,
        targets: &TARGETS,
        lang_detect: find_code_of_name(known, name),
        internal_code,
    }
}

/// All languages.
pub fn languages() -> (r: Vec<Language>)
    ensures
        languages_view(r@) == all_languages(),
{
    let known = known_languages();
    let mut r: Vec<Language> = Vec::new();
    let mut i: usize = 0;
    while i < COUNT
        invariant
            i <= 49,
            pairs_view(known@) == whatlang_languages(),
            r.len() == i,
            forall|k: int| 0 <= k < i ==> languages_view(r@)[k] == language(k),
        decreases 49 - i,
    {
        r.push(language_at(&known, i));
        i = i + 1;
    }
    assert(languages_view(r@) =~= all_languages());
    r
}

/// Look up a language by its public code (`pt-BR`) or internal code (`pb`).
pub fn get_language_from_code(code: &str) -> (r: Option<Language>)
    ensures
        opt_language_view(r) == language_of_code(code@),
{
    let internal = match find_last_public(code) {
        Some(i) => LANGS[i].0,
        None => code,
    };
    match find_last_internal(internal) {
        Some(i) => {
            let known = known_languages();
            Some(language_at(&known, i))
        },
        None => None,
    }
}

/// The last language with this public code.
fn find_last_public(code: &str) -> (r: Option<usize>)
    ensures
        match r {
            Some(i) => i < 49 && last_position(public_codes(), code@) == Some(i as int),
            None => last_position(public_codes(), code@) is None,
        },
{
    let ghost codes = public_codes();
    proof {
        lemma_targets();
    }
    let mut n: usize = COUNT;
    assert(codes.take(49) =~= codes);
    while n > 0
        invariant
            n <= 49,
            codes == public_codes(),
            codes_view(TARGETS@) == codes,
            last_position(codes, code@) == last_position(codes.take(n as int), code@),
        decreases n,
    {
        assert(codes.take(n as int).drop_last() == codes.take(n - 1));
        assert(codes_view(TARGETS@)[n - 1] == TARGETS@[n - 1]@);
        if text::same(TARGETS[n - 1], code) {
            return Some(n - 1);
        }
        n = n - 1;
    }
    None
}

/// The last language with this internal code.
fn find_last_internal(code: &str) -> (r: Option<usize>)
    ensures
        match r {
            Some(i) => i < 49 && last_position(internal_codes(), code@) == Some(i as int),
            None => last_position(internal_codes(), code@) is None,
        },
{
    let ghost codes = internal_codes();
    let mut n: usize = COUNT;
    assert(codes.take(49) =~= codes);
    while n > 0
        invariant
            n <= 49,
            codes == internal_codes(),
            last_position(codes, code@) == last_position(codes.take(n as int), code@),
        decreases n,
    {
        assert(codes.take(n as int).drop_last() == codes.take(n - 1));
        if text::same(LANGS[n - 1].0, code) {
            return Some(n - 1);
        }
        n = n - 1;
    }
    None
}

/// The codes of the languages that can be detected.
fn detectable_codes(languages: &Vec<Language>) -> (r: Vec<&'static str>)
    ensures
        codes_view(r@) == detectable(languages_view(languages@)),
{
    let mut r: Vec<&'static str> = Vec::new();
    let ghost all = languages_view(languages@);
    let mut i: usize = 0;
    assert(codes_view(r@) =~= detectable(all.take(0)));
    while i < languages.len()
        invariant
            i <= languages.len(),
            all == languages_view(languages@),
            codes_view(r@) == detectable(all.take(i as int)),
        decreases languages.len() - i,
    {
        assert(all.take(i + 1).drop_last() == all.take(i as int));
        if let Some(code) = languages[i].lang_detect {
            let ghost before = codes_view(r@);
            r.push(code);
            assert(codes_view(r@) =~= before.push(code@));
        }
        i = i + 1;
    }
    assert(all.take(i as int) == all);
    r
}

/// The detected language among `languages` for what whatlang says.
pub fn match_detection(languages: &Vec<Language>, detection: Option<(&str, u64)>) -> (r: Option<
    LangDetect,
>)
    ensures
        opt_detect_view(r) == matched(
            languages_view(languages@),
            match detection {
                Some((code, confidence_bits)) => Some((code@, confidence_bits)),
                None => None,
            },
        ),
{
    let (code, confidence_bits) = match detection {
        Some(d) => d,
        None => return None,
    };
    let ghost all = languages_view(languages@);
    let mut i: usize = 0;
    while i < languages.len()
        invariant
            i <= languages.len(),
            all == languages_view(languages@),
            detection matches Some((c, b)) && c == code && b == confidence_bits,
            first_detected(all, code@, 0) == first_detected(all, code@, i as int),
        decreases languages.len() - i,
    {
        assert(all[i as int] == languages[i as int]@);
        if let Some(detect) = languages[i].lang_detect {
            if text::same(detect, code) {
                return Some(LangDetect { language: languages[i], confidence_bits });
            }
        }
        i = i + 1;
    }
    None
}

/// Detect the language of `q`. `None` when whatlang cannot tell, or tells a language that is not
/// served.
pub fn detect_lang(q: &str) -> (r: Option<LangDetect>)
    ensures
        opt_detect_view(r) == detected(q@),
{
    let languages = languages();
    let allowed = detectable_codes(&languages);
    proof {
        lemma_detectable_known(all_languages());
    }
    assert forall|k: int| 0 <= k < allowed.len() implies known_to_whatlang(
        #[trigger] allowed@[k]@,
    ) by {
        assert(codes_view(allowed@)[k] == allowed@[k]@);
    }
    match_detection(&languages, whatlang_detect(q, &allowed))
}

/// A code that is found for a name is one of the known codes.
proof fn lemma_code_of_name_known(known: Seq<(Seq<char>, Seq<char>)>, name: Seq<char>)
    ensures
        code_of_name(known, name) matches Some(code) ==> exists|i: int|
            0 <= i < known.len() && (#[trigger] known[i]).0 == code,
    decreases known.len(),
{
    if known.len() > 0 {
        if our_name(known.last().1) == name {
            assert(known[known.len() - 1].0 == known.last().0);
        } else {
            lemma_code_of_name_known(known.drop_last(), name);
            if let Some(code) = code_of_name(known.drop_last(), name) {
                let i = choose|i: int|
                    0 <= i < known.drop_last().len() && (#[trigger] known.drop_last()[i]).0 == code;
                assert(known[i] == known.drop_last()[i]);
            }
        }
    }
}

/// The codes that can be detected are known to whatlang.
proof fn lemma_detectable_known(languages: Seq<LanguageView>)
    requires
        forall|i: int|
            0 <= i < languages.len() ==> exists|k: int|
                0 <= k < 49 && #[trigger] languages[i] == #[trigger] language(k),
    ensures
        forall|k: int|
            0 <= k < detectable(languages).len() ==> known_to_whatlang(
                #[trigger] detectable(languages)[k],
            ),
    decreases languages.len(),
{
    if languages.len() > 0 {
        let before = languages.drop_last();
        assert forall|i: int| 0 <= i < before.len() implies exists|k: int|
            0 <= k < 49 && #[trigger] before[i] == #[trigger] language(k) by {
            assert(before[i] == languages[i]);
        }
        lemma_detectable_known(before);
        let last = languages[languages.len() - 1];
        let k = choose|k: int| 0 <= k < 49 && last == #[trigger] language(k);
        lemma_code_of_name_known(whatlang_languages(), LANGS@[k].2@);
        assert forall|j: int| 0 <= j < detectable(languages).len() implies known_to_whatlang(
            #[trigger] detectable(languages)[j],
        ) by {
            if j < detectable(before).len() {
                assert(detectable(languages)[j] == detectable(before)[j]);
            } else {
                assert(last.lang_detect == Some(detectable(languages)[j]));
            }
        }
    }
}

/// Two characters, the length and the last character of a code, as one number.
spec fn code_number(s: Seq<char>) -> int {
    (((s[0] as int) * 256 + s[1] as int) * 16 + s.len()) * 256 + s.last() as int
}

/// The codes of two languages differ.
#[verifier::rlimit(60)]
proof fn lemma_codes_differ(i: int, j: int)
    requires
        0 <= i < 49,
        0 <= j < 49,
        i != j,
    ensures
        public_code(i) != public_code(j),
        internal_code(i) != internal_code(j),
        public_code(i) != internal_code(j),
{
    reveal_strlit("");
    reveal_strlit("ar");
    reveal_strlit("az");
    reveal_strlit("bg");
    reveal_strlit("bn");
    reveal_strlit("ca");
    reveal_strlit("cs");
    reveal_strlit("da");
    reveal_strlit("de");
    reveal_strlit("el");
    reveal_strlit("en");
    reveal_strlit("eo");
    reveal_strlit("es");
    reveal_strlit("et");
    reveal_strlit("eu");
    reveal_strlit("fa");
    reveal_strlit("fi");
    reveal_strlit("fr");
    reveal_strlit("ga");
    reveal_strlit("gl");
    reveal_strlit("he");
    reveal_strlit("hi");
    reveal_strlit("hu");
    reveal_strlit("id");
    reveal_strlit("it");
    reveal_strlit("ja");
    reveal_strlit("ko");
    reveal_strlit("lt");
    reveal_strlit("lv");
    reveal_strlit("ms");
    reveal_strlit("nb");
    reveal_strlit("nl");
    reveal_strlit("pb");
    reveal_strlit("pl");
    reveal_strlit("pt");
    reveal_strlit("pt-BR");
    reveal_strlit("ro");
    reveal_strlit("ru");
    reveal_strlit("sk");
    reveal_strlit("sl");
    reveal_strlit("sq");
    reveal_strlit("sr");
    reveal_strlit("sv");
    reveal_strlit("th");
    reveal_strlit("tl");
    reveal_strlit("tr");
    reveal_strlit("uk");
    reveal_strlit("ur");
    reveal_strlit("vi");
    reveal_strlit("zh");
    reveal_strlit("zh-Hans");
    reveal_strlit("zh-Hant");
    reveal_strlit("zt");
    lemma_positions(i);
    lemma_positions(j);
    assert(code_number(internal_code(i)) != code_number(internal_code(j)));
    assert(code_number(public_code(i)) != code_number(public_code(j)));
    assert(code_number(public_code(i)) != code_number(internal_code(j)));
}

/// A code that stands at `at` and nowhere else is found there.
proof fn lemma_last_position_is(codes: Seq<Seq<char>>, code: Seq<char>, at: int)
    requires
        0 <= at < codes.len(),
        codes[at] == code,
        forall|k: int| 0 <= k < codes.len() && k != at ==> codes[k] != code,
    ensures
        last_position(codes, code) == Some(at),
    decreases codes.len(),
{
    if at < codes.len() - 1 {
        assert(codes.last() == codes[codes.len() - 1]);
        lemma_last_position_is(codes.drop_last(), code, at);
    }
}

/// Where a code is found, it stands there; where it is not found, it stands nowhere.
proof fn lemma_last_position(codes: Seq<Seq<char>>, code: Seq<char>)
    ensures
        match last_position(codes, code) {
            Some(i) => 0 <= i < codes.len() && codes[i] == code,
            None => forall|k: int| 0 <= k < codes.len() ==> codes[k] != code,
        },
    decreases codes.len(),
{
    if codes.len() > 0 && codes.last() != code {
        lemma_last_position(codes.drop_last(), code);
        if last_position(codes, code) is None {
            assert forall|k: int| 0 <= k < codes.len() implies codes[k] != code by {
                if k < codes.len() - 1 {
                    assert(codes.drop_last()[k] == codes[k]);
                }
            }
        }
    }
}

/// Law: no two languages share a code, be it public or internal.
pub proof fn law_codes_are_unique(i: int, j: int)
    requires
        0 <= i < 49,
        0 <= j < 49,
        i != j,
    ensures
        public_code(i) != public_code(j),
        internal_code(i) != internal_code(j),
        public_code(i) != internal_code(j),
{
    lemma_codes_differ(i, j);
}

/// Law: every language is found under its public code and under its internal code.
pub proof fn law_every_code_finds_its_language(i: int)
    requires
        0 <= i < 49,
    ensures
        language_position(public_code(i)) == Some(i),
        language_position(internal_code(i)) == Some(i),
{
    assert forall|k: int| 0 <= k < 49 && k != i implies public_codes()[k] != public_code(i)
        && internal_codes()[k] != internal_code(i) && public_codes()[k] != internal_code(i) by {
        lemma_codes_differ(k, i);
    }
    lemma_last_position_is(public_codes(), public_code(i), i);
    lemma_last_position_is(internal_codes(), internal_code(i), i);
    lemma_last_position(public_codes(), internal_code(i));
}

/// Law: a language that is found under a code has it as its public or its internal code, and
/// where none is found, no language has it.
pub proof fn law_found_language_has_the_code(code: Seq<char>)
    ensures
        match language_position(code) {
            Some(i) => 0 <= i < 49 && (public_code(i) == code || internal_code(i) == code),
            None => forall|i: int|
                0 <= i < 49 ==> #[trigger] public_code(i) != code && internal_code(i) != code,
        },
{
    lemma_last_position(public_codes(), code);
    lemma_last_position(internal_codes(), code);
    match last_position(public_codes(), code) {
        Some(i) => {
            assert(public_codes()[i] == public_code(i));
            law_every_code_finds_its_language(i);
        },
        None => {
            assert forall|i: int| 0 <= i < 49 implies #[trigger] public_code(i) != code by {
                assert(public_codes()[i] == public_code(i));
            }
            if language_position(code) is None {
                assert forall|i: int| 0 <= i < 49 implies #[trigger] public_code(i) != code
                    && internal_code(i) != code by {
                    assert(public_codes()[i] == public_code(i));
                    assert(internal_codes()[i] == internal_code(i));
                }
            }
        },
    }
}

/// Law: a code stands for the one served language that has it as its public or internal code, and
/// for none where no served language has it.
pub proof fn law_code_stands_for_its_language(code: Seq<char>, i: int)
    requires
        0 <= i < 49,
    ensures
        language_of_code(language(i).code) == Some(language(i)),
        language_of_code(language(i).internal_code) == Some(language(i)),
        language_of_code(code) matches Some(l) ==> all_languages().contains(l) && (l.code == code
            || l.internal_code == code),
        language_of_code(code) is None ==> language(i).code != code && language(i).internal_code
            != code,
{
    law_every_code_finds_its_language(i);
    law_found_language_has_the_code(code);
    match language_position(code) {
        Some(k) => {
            assert(all_languages()[k] == language(k));
        },
        None => {
            assert(public_code(i) != code);
        },
    }
}

/// Law: whatever whatlang says, what is detected is one of the languages that are served, the
/// one that whatlang means; nothing is detected only where no language is that one.
pub proof fn law_detected_language_is_served(
    languages: Seq<LanguageView>,
    detection: Option<(Seq<char>, u64)>,
)
    ensures
        match (matched(languages, detection), detection) {
            (Some(d), Some((code, bits))) => languages.contains(d.language)
                && d.language.lang_detect == Some(code) && d.confidence_bits == bits,
            (Some(_), None) => false,
            (None, Some((code, _))) => forall|i: int|
                0 <= i < languages.len() ==> (#[trigger] languages[i]).lang_detect != Some(code),
            (None, None) => true,
        },
{
    if let Some((code, _)) = detection {
        lemma_first_detected(languages, code, 0);
    }
}

/// What is found from `from` on carries the code.
proof fn lemma_first_detected(languages: Seq<LanguageView>, code: Seq<char>, from: int)
    requires
        0 <= from,
    ensures
        match first_detected(languages, code, from) {
            Some(i) => from <= i < languages.len() && languages[i].lang_detect == Some(code),
            None => forall|i: int|
                from <= i < languages.len() ==> (#[trigger] languages[i]).lang_detect != Some(code),
        },
    decreases languages.len() - from,
{
    if from < languages.len() && languages[from].lang_detect != Some(code) {
        lemma_first_detected(languages, code, from + 1);
    }
}

/// Where the built-in prompt names the language at `i`.
spec fn builtin_index(i: int) -> int {
    seq![9int, 38int, 0int, 1int, 13int, 3int, 2int, 4int, 48int, 49int, 5int, 6int, 30int, 10int, 12int, 15int, 16int, 18int, 7int, 8int, 19int, 20int, 21int, 22int, 17int, 23int, 24int, 25int, 27int, 26int, 28int, 29int, 14int, 31int, 32int, 33int, 34int, 35int, 39int, 36int, 37int, 11int, 40int, 42int, 41int, 43int, 44int, 45int, 46int][i]
}

/// The built-in prompt has a pair for the language at `i`, whose code is written without `_`.
proof fn lemma_builtin_pair(i: int)
    requires
        0 <= i < 49,
    ensures
        0 <= builtin_index(i) < 50,
        prompt::builtin_pairs()[builtin_index(i)].0 == public_code(i),
        text::with_replaced(public_code(i), '_', '-') == public_code(i),
        public_code(i).len() != 4,
{
    lemma_positions(i);
    reveal_strlit("ar");
    reveal_strlit("az");
    reveal_strlit("bg");
    reveal_strlit("bn");
    reveal_strlit("ca");
    reveal_strlit("cs");
    reveal_strlit("da");
    reveal_strlit("de");
    reveal_strlit("el");
    reveal_strlit("en");
    reveal_strlit("eo");
    reveal_strlit("es");
    reveal_strlit("et");
    reveal_strlit("eu");
    reveal_strlit("fa");
    reveal_strlit("fi");
    reveal_strlit("fr");
    reveal_strlit("ga");
    reveal_strlit("gl");
    reveal_strlit("he");
    reveal_strlit("hi");
    reveal_strlit("hu");
    reveal_strlit("id");
    reveal_strlit("it");
    reveal_strlit("ja");
    reveal_strlit("ko");
    reveal_strlit("lt");
    reveal_strlit("lv");
    reveal_strlit("ms");
    reveal_strlit("nb");
    reveal_strlit("nl");
    reveal_strlit("pl");
    reveal_strlit("pt");
    reveal_strlit("pt-BR");
    reveal_strlit("ro");
    reveal_strlit("ru");
    reveal_strlit("sk");
    reveal_strlit("sl");
    reveal_strlit("sq");
    reveal_strlit("sr");
    reveal_strlit("sv");
    reveal_strlit("th");
    reveal_strlit("tl");
    reveal_strlit("tr");
    reveal_strlit("uk");
    reveal_strlit("ur");
    reveal_strlit("vi");
    reveal_strlit("zh-Hans");
    reveal_strlit("zh-Hant");
    reveal_strlit("");
    let code = public_code(i);
    let pairs = prompt::builtin_pairs();
    let at = builtin_index(i);
    assert(0 <= at < 50 && pairs[at].0 == code);
    assert(text::with_replaced(code, '_', '-') =~= code);
}

/// Law: the built-in prompt has a name for every language that is served.
pub proof fn law_builtin_prompt_knows_every_language(i: int)
    requires
        0 <= i < 49,
    ensures
        prompt::accepts_language(
            prompt::PromptFormatView::TranslateGemma(prompt::builtin_renderer()),
            public_code(i),
        ),
{
    lemma_builtin_pair(i);
    prompt::lemma_pair_is_named(prompt::builtin_pairs(), builtin_index(i));
}

/// Every position in the table of the built-in prompt is one of these.
proof fn lemma_builtin_positions(i: int)
    requires
        0 <= i < 50,
    ensures
        i == 0 || i == 1 || i == 2 || i == 3 || i == 4 || i == 5 || i == 6 || i == 7 || i == 8 || i == 9 || i == 10 || i == 11 || i == 12 || i == 13 || i == 14 || i == 15 || i == 16 || i == 17 || i == 18 || i == 19 || i == 20 || i == 21 || i == 22 || i == 23 || i == 24 || i == 25 || i == 26 || i == 27 || i == 28 || i == 29 || i == 30 || i == 31 || i == 32 || i == 33 || i == 34 || i == 35 || i == 36 || i == 37 || i == 38 || i == 39 || i == 40 || i == 41 || i == 42 || i == 43 || i == 44 || i == 45 || i == 46 || i == 47 || i == 48 || i == 49,
{
}

/// The codes of two pairs of the built-in prompt differ.
#[verifier::rlimit(60)]
proof fn lemma_builtin_codes_differ(i: int, j: int)
    requires
        0 <= i < 50,
        0 <= j < 50,
        i != j,
    ensures
        prompt::builtin_pairs()[i].0 != prompt::builtin_pairs()[j].0,
{
    reveal_strlit("ar");
    reveal_strlit("az");
    reveal_strlit("bg");
    reveal_strlit("bn");
    reveal_strlit("ca");
    reveal_strlit("cs");
    reveal_strlit("da");
    reveal_strlit("de");
    reveal_strlit("el");
    reveal_strlit("en");
    reveal_strlit("eo");
    reveal_strlit("es");
    reveal_strlit("et");
    reveal_strlit("eu");
    reveal_strlit("fa");
    reveal_strlit("fi");
    reveal_strlit("fr");
    reveal_strlit("ga");
    reveal_strlit("gl");
    reveal_strlit("he");
    reveal_strlit("hi");
    reveal_strlit("hu");
    reveal_strlit("id");
    reveal_strlit("it");
    reveal_strlit("ja");
    reveal_strlit("ko");
    reveal_strlit("lt");
    reveal_strlit("lv");
    reveal_strlit("ms");
    reveal_strlit("nb");
    reveal_strlit("nl");
    reveal_strlit("pl");
    reveal_strlit("pt");
    reveal_strlit("pt-BR");
    reveal_strlit("ro");
    reveal_strlit("ru");
    reveal_strlit("sk");
    reveal_strlit("sl");
    reveal_strlit("sq");
    reveal_strlit("sr");
    reveal_strlit("sv");
    reveal_strlit("th");
    reveal_strlit("tl");
    reveal_strlit("tr");
    reveal_strlit("uk");
    reveal_strlit("ur");
    reveal_strlit("vi");
    reveal_strlit("zh");
    reveal_strlit("zh-Hans");
    reveal_strlit("zh-Hant");
    lemma_builtin_positions(i);
    lemma_builtin_positions(j);
    assert(code_number(prompt::builtin_pairs()[i].0) != code_number(prompt::builtin_pairs()[j].0));
}

/// Law: detection may tell every language that is served and that whatlang knows, and no other.
/// What it tells is what whatlang makes of the text among these: the served language that whatlang
/// means, with its confidence, and nothing where whatlang tells nothing.
pub proof fn law_every_detectable_language_may_be_told(q: Seq<char>)
    ensures
        exists|allowed: Seq<Seq<char>>|
            #![trigger whatlang_detection(q, allowed)]
            (forall|code: Seq<char>| #[trigger]
                allowed.contains(code) <==> is_detectable(code)) && match whatlang_detection(
                q,
                allowed,
            ) {
                Some((code, bits)) => match detected(q) {
                    Some(d) => d.language.lang_detect == Some(code) && d.confidence_bits == bits
                        && all_languages().contains(d.language),
                    None => !is_detectable(code),
                },
                None => detected(q) is None,
            },
{
    let allowed = detectable(all_languages());
    lemma_detectable(all_languages());
    assert forall|code: Seq<char>| #[trigger] allowed.contains(code) <==> is_detectable(code) by {
        if is_detectable(code) {
            let i = choose|i: int| 0 <= i < 49 && (#[trigger] language(i)).lang_detect == Some(code);
            assert(all_languages()[i] == language(i));
            assert(allowed.contains(code));
        }
        if allowed.contains(code) {
            let i = choose|i: int|
                0 <= i < all_languages().len() && (#[trigger] all_languages()[i]).lang_detect
                    == Some(code);
            assert(language(i).lang_detect == Some(code));
        }
    }
    law_detected_language_is_served(all_languages(), whatlang_detection(q, allowed));
    if let Some((code, _)) = whatlang_detection(q, allowed) {
        if detected(q) is None && is_detectable(code) {
            let i = choose|i: int| 0 <= i < 49 && (#[trigger] language(i)).lang_detect == Some(code);
            assert(all_languages()[i].lang_detect == Some(code));
        }
    }
}

/// `code` is what whatlang calls a language that is served.
pub open spec fn is_detectable(code: Seq<char>) -> bool {
    exists|i: int| 0 <= i < 49 && (#[trigger] language(i)).lang_detect == Some(code)
}

/// The codes that can be detected are those of the languages that have one.
proof fn lemma_detectable(languages: Seq<LanguageView>)
    ensures
        forall|code: Seq<char>| #[trigger]
            detectable(languages).contains(code) <==> exists|i: int|
                0 <= i < languages.len() && (#[trigger] languages[i]).lang_detect == Some(code),
    decreases languages.len(),
{
    if languages.len() > 0 {
        let before = languages.drop_last();
        let last = languages.len() - 1;
        lemma_detectable(before);
        assert forall|code: Seq<char>| #[trigger]
            detectable(languages).contains(code) <==> exists|i: int|
                0 <= i < languages.len() && (#[trigger] languages[i]).lang_detect == Some(code) by {
            let all = detectable(languages);
            let part = detectable(before);
            if all.contains(code) {
                let k = all.index_of(code);
                if k < part.len() {
                    assert(part[k] == code);
                    assert(part.contains(code));
                    let i = choose|i: int|
                        0 <= i < before.len() && (#[trigger] before[i]).lang_detect == Some(code);
                    assert(languages[i].lang_detect == Some(code));
                } else {
                    assert(languages[last].lang_detect == Some(code));
                }
            }
            if exists|i: int|
                0 <= i < languages.len() && (#[trigger] languages[i]).lang_detect == Some(code) {
                let i = choose|i: int|
                    0 <= i < languages.len() && (#[trigger] languages[i]).lang_detect == Some(code);
                if i < last {
                    assert(before[i].lang_detect == Some(code));
                    assert(part.contains(code));
                    let k = part.index_of(code);
                    assert(all[k] == code);
                } else {
                    assert(all[all.len() - 1] == code);
                }
            }
        }
    }
}

/// Law: a language is detected by the code of the language that whatlang calls by the same name,
/// or Mandarin for Chinese; and by none only where whatlang knows no such language.
pub proof fn law_detection_goes_by_the_name(known: Seq<(Seq<char>, Seq<char>)>, i: int)
    requires
        0 <= i < 49,
    ensures
        ({
            let l = language_among(known, i);
            match l.lang_detect {
                Some(code) => exists|k: int|
                    0 <= k < known.len() && (#[trigger] known[k]).0 == code && (known[k].1 == l.name
                        || (known[k].1 == "Mandarin"@ && l.name == "Chinese"@)),
                None => forall|k: int|
                    0 <= k < known.len() ==> ((#[trigger] known[k]).1 == "Mandarin"@ || known[k].1
                        != l.name) && (known[k].1 == "Mandarin"@ ==> l.name != "Chinese"@),
            }
        }),
{
    lemma_code_of_name(known, LANGS@[i].2@);
}

/// Where a code is found for a name, a known language of that name has it.
proof fn lemma_code_of_name(known: Seq<(Seq<char>, Seq<char>)>, name: Seq<char>)
    ensures
        match code_of_name(known, name) {
            Some(code) => exists|k: int|
                0 <= k < known.len() && (#[trigger] known[k]).0 == code && our_name(known[k].1)
                    == name,
            None => forall|k: int|
                0 <= k < known.len() ==> our_name((#[trigger] known[k]).1) != name,
        },
    decreases known.len(),
{
    if known.len() > 0 {
        let before = known.drop_last();
        let last = known.len() - 1;
        if our_name(known.last().1) == name {
            assert(known[last].0 == known.last().0 && our_name(known[last].1) == name);
        } else {
            lemma_code_of_name(before, name);
            match code_of_name(before, name) {
                Some(code) => {
                    let k = choose|k: int|
                        0 <= k < before.len() && (#[trigger] before[k]).0 == code && our_name(
                            before[k].1,
                        ) == name;
                    assert(known[k] == before[k]);
                },
                None => {
                    assert forall|k: int| 0 <= k < known.len() implies our_name(
                        (#[trigger] known[k]).1,
                    ) != name by {
                        if k < last {
                            assert(before[k] == known[k]);
                        }
                    }
                },
            }
        }
    }
}

/// Law: no language has the code by which callers ask for the source to be detected.
pub proof fn law_no_language_is_called_auto(i: int)
    requires
        0 <= i < 49,
    ensures
        language(i).code != "auto"@,
{
    reveal_strlit("auto");
    lemma_builtin_pair(i);
}

/// Law: a language is served under its public code, which is its internal code unless it has one
/// of its own, and can be translated to every language that is served.
pub proof fn law_language_goes_by_its_public_code(i: int, j: int)
    requires
        0 <= i < 49,
        0 <= j < 49,
    ensures
        language(i).code == LANGS@[i].1@ || (LANGS@[i].1@ == ""@ && language(i).code
            == LANGS@[i].0@),
        language(i).internal_code == LANGS@[i].0@,
        language(i).name == LANGS@[i].2@,
        language(i).targets.len() == 49,
        language(i).targets.contains(language(j).code),
{
    reveal_strlit("");
    assert(LANGS@[i].1@.len() == 0 ==> LANGS@[i].1@ =~= ""@);
    assert(language(i).targets[j] == language(j).code);
}

/// Law: the name by which the built-in prompt asks for a language is the name of the language, or
/// one of the two goes on where the other ends.
pub proof fn law_builtin_prompt_names_the_language(i: int)
    requires
        0 <= i < 49,
    ensures
        prompt::name_for(prompt::builtin_renderer().languages, language(i).code) matches Some(name)
            && (name.is_prefix_of(language(i).name) || language(i).name.is_prefix_of(name)),
{
    lemma_builtin_pair(i);
    let pairs = prompt::builtin_pairs();
    let at = builtin_index(i);
    assert forall|a: int, b: int| 0 <= a < b < pairs.len() implies (#[trigger] pairs[a]).0 != (
    #[trigger] pairs[b]).0 by {
        lemma_builtin_codes_differ(a, b);
    }
    prompt::lemma_unique_pair_is_named(pairs, at);
    reveal_strlit("Chinese");
    reveal_strlit("Chinese (traditional)");
    reveal_strlit("Norwegian");
    reveal_strlit("Norwegian Bokmål");
    reveal_strlit("Portuguese");
    reveal_strlit("Portuguese (Brazil)");
    lemma_positions(i);
    let short = pairs[at].1;
    let long = LANGS@[i].2@;
    assert(short =~= long || short =~= long.subrange(0, short.len() as int) || long
        =~= short.subrange(0, long.len() as int));
    assert(long.subrange(0, long.len() as int) =~= long);
}

} // verus!
