//! Model-specific prompt construction.
//!
//! There are two families of models:
//!
//! * **TranslateGemma**: a translation fine-tune of Gemma 3 whose chat template takes a
//!   structured user message (`source_lang_code`, `target_lang_code`, `text`) and renders
//!   Google's own translation instruction. The template stored with the model is rendered with
//!   minijinja.
//! * **Generic chat models** (Gemma 3/4, …): a system and a user prompt rendered through the
//!   chat template support of the inference library.

use std::collections::BTreeMap;

use minijinja::{Environment, ErrorKind, Value};
use vstd::prelude::*;
use vstd::string::*;

use crate::template;
use crate::template::cannot_panic;
use crate::text;
use crate::text::{first_match, has_part, trimmed, with_replaced, without_trailing};

verus! {

/// Name under which a chat template is compiled.
pub const TEMPLATE_NAME: &'static str = "chat";

/// Architecture of the models that TranslateGemma was made from.
pub const TRANSLATEGEMMA_ARCHITECTURE: &'static str = "gemma3";

/// What compiling `template` under `name` fails with, if it fails.
pub uninterp spec fn template_fault(name: Seq<char>, template: Seq<char>) -> Option<Seq<char>>;

/// What rendering `template` gives, or the text of its error. Under `list` stands a list of one
/// message, which holds its role under its key and, under `content`, a list of one part with the
/// given fields; a text and a flag stand beside the list under their keys. `exception` is what a
/// function is called that fails with its argument.
pub uninterp spec fn template_rendering(
    name: Seq<char>,
    template: Seq<char>,
    exception: Seq<char>,
    list: Seq<char>,
    role: (Seq<char>, Seq<char>),
    content: Seq<char>,
    part: Seq<(Seq<char>, Seq<char>)>,
    text: (Seq<char>, Seq<char>),
    flag: (Seq<char>, bool),
) -> Result<Seq<char>, Seq<char>>;

/// The texts of a list of fields.
pub open spec fn fields_view(fields: Seq<(&str, &str)>) -> Seq<(Seq<char>, Seq<char>)> {
    fields.map_values(|f: (&str, &str)| (f.0@, f.1@))
}

/// An error of minijinja.
#[verifier::external_type_specification]
#[verifier::external_body]
pub struct ExTemplateError(minijinja::Error);

/// The error of minijinja for an invalid operation with this detail.
pub uninterp spec fn invalid_operation_error(detail: Seq<char>) -> minijinja::Error;

/// `minijinja::Error::new` makes an error from its kind and its detail alone. The kind is that of
/// an invalid operation here.
#[verifier::external_body]
fn invalid_operation(detail: String) -> (r: minijinja::Error)
    ensures
        r == invalid_operation_error(detail@),
{
    minijinja::Error::new(ErrorKind::InvalidOperation, detail)
}

/// What a template calls to refuse a request: it always fails, as an invalid operation with
/// `msg` as its detail.
fn raise_exception(msg: String) -> (r: Result<String, minijinja::Error>)
    ensures
        r == Err::<String, minijinja::Error>(invalid_operation_error(msg@)),
{
    Err(invalid_operation(msg))
}

/// `minijinja::Environment::add_template` compiles a template under a name. It succeeds or
/// fails by the name and the template alone; the error is handed out as its text. It panics on
/// some templates, of which none is one that `cannot_panic`.
#[verifier::external_body]
fn compile_template(name: &str, template: &str) -> (r: Result<(), String>)
    requires
        cannot_panic(template@),
    ensures
        match r {
            Ok(_) => template_fault(name@, template@) is None,
            Err(e) => template_fault(name@, template@) == Some(e@),
        },
{
    Environment::new().add_template(name, template).map_err(|e| e.to_string())
}

/// `minijinja::Template::render` renders a template that was compiled under a name, with
/// `raise_exception` as a function of the template. The context holds the values under the keys
/// that are handed in. What comes out, or the text of the error, depends on the arguments alone.
/// It panics on some templates (one that calls `loop.cycle` without an argument, say), of which
/// none is one that `cannot_panic`.
#[verifier::external_body]
fn render_template(
    name: &str,
    template: &str,
    exception: &str,
    list: &str,
    role: (&str, &str),
    content: &str,
    part: &Vec<(&str, &str)>,
    text: (&str, &str),
    flag: (&str, bool),
) -> (r: Result<String, String>)
    requires
        cannot_panic(template@),
    ensures
        text::text_result(r) == template_rendering(
            name@,
            template@,
            exception@,
            list@,
            (role.0@, role.1@),
            content@,
            fields_view(part@),
            (text.0@, text.1@),
            (flag.0@, flag.1),
        ),
{
    let part: BTreeMap<&str, &str> = part.iter().copied().collect();
    let parts = Value::from_serialize(vec![part]);
    let message = BTreeMap::from([(role.0, role.1.into()), (content, parts)]);
    let messages = Value::from_serialize(vec![message]);
    let all = [(list, messages), (text.0, text.1.into()), (flag.0, flag.1.into())];
    let mut env = Environment::new();
    env.add_function(exception, raise_exception);
    let added = env.add_template(name, template);
    let rendered = added.and_then(|_| env.get_template(name)?.render(BTreeMap::from(all)));
    rendered.map_err(|e| e.to_string())
}

/// Language code and English name, as used inside the prompt.
pub type LanguageNames = Map<Seq<char>, Seq<char>>;

/// The pairs of a list of texts.
pub open spec fn pairs_view(pairs: Seq<(String, String)>) -> Seq<(Seq<char>, Seq<char>)> {
    pairs.map_values(|p: (String, String)| (p.0@, p.1@))
}

/// The names that a list of code and name pairs gives; of two pairs with the same code the
/// later one counts.
pub open spec fn names_of(pairs: Seq<(Seq<char>, Seq<char>)>) -> LanguageNames
    decreases pairs.len(),
{
    if pairs.len() == 0 {
        Map::empty()
    } else {
        names_of(pairs.drop_last()).insert(pairs.last().0, pairs.last().1)
    }
}

/// The name under `code`, which may be written with `_` in place of `-`.
pub open spec fn name_for(names: LanguageNames, code: Seq<char>) -> Option<Seq<char>> {
    let key = with_replaced(code, '_', '-');
    if names.contains_key(key) {
        Some(names[key])
    } else {
        None
    }
}

/// Whether a text carries the fields that a TranslateGemma chat template reads from its message.
pub open spec fn looks_like_translategemma(template: Seq<char>) -> bool {
    has_part(template, "source_lang_code"@) && has_part(template, "target_lang_code"@)
}

/// The lines of `s`, divided at every line feed.
pub open spec fn lines_of(s: Seq<char>) -> Seq<Seq<char>>
    decreases s.len(),
{
    match s.index_of_first('\n') {
        Some(at) if 0 <= at < s.len() => seq![s.take(at)] + lines_of(s.skip(at + 1)),
        _ => seq![s],
    }
}

/// What stands between the double quotes that enclose `s`.
pub open spec fn unquoted(s: Seq<char>) -> Option<Seq<char>> {
    if s.len() >= 2 && s[0] == '"' && s.last() == '"' {
        Some(s.subrange(1, s.len() - 1))
    } else {
        None
    }
}

/// The code and the name in a line of the form `"code": "Name",`.
pub open spec fn language_entry(line: Seq<char>) -> Option<(Seq<char>, Seq<char>)> {
    let entry = without_trailing(trimmed(line), ',');
    match entry.index_of_first(':') {
        Some(at) => match (unquoted(trimmed(entry.take(at))), unquoted(trimmed(entry.skip(at + 1)))) {
            (Some(code), Some(name)) => Some((code, name)),
            _ => None,
        },
        None => None,
    }
}

/// The names in a list of lines; where a code occurs again, the later line counts.
pub open spec fn names_in_lines(lines: Seq<Seq<char>>) -> LanguageNames
    decreases lines.len(),
{
    if lines.len() == 0 {
        Map::empty()
    } else {
        let before = names_in_lines(lines.drop_last());
        match language_entry(lines.last()) {
            Some((code, name)) => before.insert(code, name),
            None => before,
        }
    }
}

/// `s` up to the first `c`; all of it where there is none.
pub open spec fn before_char(s: Seq<char>, c: char) -> Seq<char> {
    match s.index_of_first(c) {
        Some(at) => s.take(at),
        None => s,
    }
}

/// The language names in the `{% set languages = {...} %}` block of a chat template.
pub open spec fn language_map(template: Seq<char>) -> LanguageNames {
    match first_match(template, "set languages"@) {
        Some(start) => names_in_lines(lines_of(before_char(template.skip(start), '}'))),
        None => Map::empty(),
    }
}

/// Whether a text carries the fields that a TranslateGemma chat template reads from its message.
pub fn is_translategemma_template(template: &str) -> (r: bool)
    ensures
        r == looks_like_translategemma(template@),
{
    text::contains(template, "source_lang_code") && text::contains(template, "target_lang_code")
}

/// The first position of `c` in `s` from position `from` on.
fn find_char(s: &Vec<char>, c: char, from: usize) -> (r: Option<usize>)
    requires
        from <= s.len(),
    ensures
        match r {
            Some(at) => from <= at < s.len() && s@.skip(from as int).index_of_first(c) == Some(
                at - from,
            ),
            None => s@.skip(from as int).index_of_first(c) is None,
        },
{
    let ghost rest = s@.skip(from as int);
    proof {
        rest.index_of_first_ensures(c);
    }
    let mut i: usize = from;
    while i < s.len()
        invariant
            from <= i <= s.len(),
            rest == s@.skip(from as int),
            forall|k: int| 0 <= k < i - from ==> rest[k] != c,
        decreases s.len() - i,
    {
        if s[i] == c {
            assert(rest[i - from] == c);
            assert(rest.contains(c));
            proof {
                rest.index_of_first_ensures(c);
            }
            return Some(i);
        }
        assert(rest[i - from] != c);
        i = i + 1;
    }
    assert(!rest.contains(c));
    None
}

/// What stands between the double quotes that enclose `s`.
fn unquote(s: &str) -> (r: Option<&str>)
    ensures
        match r {
            Some(inner) => unquoted(s@) == Some(inner@),
            None => unquoted(s@) is None,
        },
{
    let n = s.unicode_len();
    if n >= 2 && s.get_char(0) == '"' && s.get_char(n - 1) == '"' {
        Some(s.substring_char(1, n - 1))
    } else {
        None
    }
}

/// The code and the name in a line of the form `"code": "Name",`.
fn parse_language_entry(line: &str) -> (r: Option<(String, String)>)
    ensures
        match r {
            Some((code, name)) => language_entry(line@) == Some((code@, name@)),
            None => language_entry(line@) is None,
        },
{
    let entry = text::trim_trailing(text::trim(line), ',');
    let cs = text::chars(entry);
    assert(cs@.skip(0) == entry@);
    match find_char(&cs, ':', 0) {
        Some(at) => {
            let key = text::trim(entry.substring_char(0, at));
            let value = text::trim(entry.substring_char(at + 1, cs.len()));
            match (unquote(key), unquote(value)) {
                (Some(code), Some(name)) => Some((code.to_owned(), name.to_owned())),
                _ => None,
            }
        },
        None => None,
    }
}

/// Extract `"code": "Name"` pairs from the `{% set languages = {...} %}` block.
pub fn parse_language_map(template: &str) -> (r: Vec<(String, String)>)
    ensures
        names_of(pairs_view(r@)) == language_map(template@),
{
    let mut pairs: Vec<(String, String)> = Vec::new();
    let start = match text::find(template, "set languages") {
        Some(start) => start,
        None => {
            assert(pairs_view(pairs@) =~= Seq::empty());
            return pairs;
        },
    };
    let all = text::chars(template);
    let ghost rest = all@.skip(start as int);
    let end = match find_char(&all, '}', start) {
        Some(at) => at,
        None => all.len(),
    };
    let block = template.substring_char(start, end);
    assert(block@ == before_char(rest, '}'));
    let cs = text::chars(block);
    let ghost lines = lines_of(block@);
    let ghost mut done: Seq<Seq<char>> = Seq::empty();
    let mut from: usize = 0;
    assert(cs@.skip(0) == block@);
    assert(done + lines_of(cs@.skip(0)) =~= lines);
    assert(pairs_view(pairs@) =~= Seq::empty());
    loop
        invariant
            from <= cs.len(),
            cs@ == block@,
            lines == done + lines_of(cs@.skip(from as int)),
            names_of(pairs_view(pairs@)) == names_in_lines(done),
            lines == lines_of(block@),
            language_map(template@) == names_in_lines(lines),
        decreases cs.len() + 1 - from,
    {
        let ghost tail = cs@.skip(from as int);
        let found = find_char(&cs, '\n', from);
        let stop = match found {
            Some(at) => at,
            None => cs.len(),
        };
        let line = block.substring_char(from, stop);
        proof {
            match found {
                Some(at) => {
                    assert(line@ == tail.take(at - from));
                    assert(tail.skip(at - from + 1) == cs@.skip(at + 1));
                },
                None => {
                    assert(line@ == tail);
                },
            }
            assert(done.push(line@).drop_last() == done);
        }
        match parse_language_entry(line) {
            Some((code, name)) => {
                let ghost before = pairs_view(pairs@);
                let ghost pair = (code@, name@);
                pairs.push((code, name));
                assert(pairs_view(pairs@) =~= before.push(pair));
                assert(before.push(pair).drop_last() == before);
            },
            None => {},
        }
        assert(names_of(pairs_view(pairs@)) == names_in_lines(done.push(line@)));
        match found {
            Some(at) => {
                proof {
                    assert(done.push(line@) + lines_of(cs@.skip(at + 1)) =~= done + (seq![line@]
                        + lines_of(cs@.skip(at + 1))));
                    done = done.push(line@);
                }
                from = at + 1;
            },
            None => {
                assert(lines =~= done.push(line@));
                return pairs;
            },
        }
    }
}

/// Language names used by the built-in prompt for the languages that are served.
pub const BUILTIN_LANGUAGES: [(&'static str, &'static str); 50] = [
    ("ar", "Arabic"),
    ("az", "Azerbaijani"),
    ("bg", "Bulgarian"),
    ("bn", "Bengali"),
    ("ca", "Catalan"),
    ("cs", "Czech"),
    ("da", "Danish"),
    ("de", "German"),
    ("el", "Greek"),
    ("en", "English"),
    ("eo", "Esperanto"),
    ("es", "Spanish"),
    ("et", "Estonian"),
    ("eu", "Basque"),
    ("fa", "Persian"),
    ("fi", "Finnish"),
    ("fr", "French"),
    ("ga", "Irish"),
    ("gl", "Galician"),
    ("he", "Hebrew"),
    ("hi", "Hindi"),
    ("hu", "Hungarian"),
    ("id", "Indonesian"),
    ("it", "Italian"),
    ("ja", "Japanese"),
    ("ko", "Korean"),
    ("lt", "Lithuanian"),
    ("lv", "Latvian"),
    ("ms", "Malay"),
    ("nb", "Norwegian Bokmål"),
    ("nl", "Dutch"),
    ("pl", "Polish"),
    ("pt", "Portuguese"),
    ("pt-BR", "Portuguese"),
    ("ro", "Romanian"),
    ("ru", "Russian"),
    ("sk", "Slovak"),
    ("sl", "Slovenian"),
    ("sq", "Albanian"),
    ("sr", "Serbian"),
    ("sv", "Swedish"),
    ("th", "Thai"),
    ("tl", "Tagalog"),
    ("tr", "Turkish"),
    ("uk", "Ukrainian"),
    ("ur", "Urdu"),
    ("vi", "Vietnamese"),
    ("zh", "Chinese"),
    ("zh-Hans", "Chinese"),
    ("zh-Hant", "Chinese"),
];

/// The code and name pairs of the built-in table.
pub open spec fn builtin_pairs() -> Seq<(Seq<char>, Seq<char>)> {
    BUILTIN_LANGUAGES@.map_values(|p: (&'static str, &'static str)| (p.0@, p.1@))
}

/// Why a prompt could not be rendered or a template not be used.
#[derive(Debug)]
pub enum PromptError {
    /// The chat template holds no language map.
    NoLanguageMap,
    /// The chat template holds what the template engine may panic on.
    UnsafeTemplate,
    /// The chat template does not compile.
    InvalidTemplate(String),
    /// The chat template does not render for a trivial request.
    DoesNotRender(String),
    /// The model does not know the language with this code.
    UnsupportedLanguage(String),
    /// The chat template failed to render.
    Render(String),
}

/// A prompt error with its texts.
pub enum PromptErrorView {
    NoLanguageMap,
    UnsafeTemplate,
    InvalidTemplate(Seq<char>),
    DoesNotRender(Seq<char>),
    UnsupportedLanguage(Seq<char>),
    Render(Seq<char>),
}

impl View for PromptError {
    type V = PromptErrorView;

    open spec fn view(&self) -> PromptErrorView {
        match self {
            PromptError::NoLanguageMap => PromptErrorView::NoLanguageMap,
            PromptError::UnsafeTemplate => PromptErrorView::UnsafeTemplate,
            PromptError::InvalidTemplate(e) => PromptErrorView::InvalidTemplate(e@),
            PromptError::DoesNotRender(e) => PromptErrorView::DoesNotRender(e@),
            PromptError::UnsupportedLanguage(code) => PromptErrorView::UnsupportedLanguage(code@),
            PromptError::Render(e) => PromptErrorView::Render(e@),
        }
    }
}

/// What is told about a prompt error.
pub open spec fn prompt_error_text(e: PromptErrorView) -> Seq<char> {
    match e {
        PromptErrorView::NoLanguageMap => "no language map found in chat template"@,
        PromptErrorView::UnsafeTemplate => "chat template is not safe to render"@,
        PromptErrorView::InvalidTemplate(_) => "invalid chat template"@,
        PromptErrorView::DoesNotRender(_) => "chat template does not render"@,
        PromptErrorView::UnsupportedLanguage(code) => "language '"@ + code
            + "' is not supported by this model"@,
        PromptErrorView::Render(e) => e,
    }
}

/// What is told about a prompt error where there is room for what brought it about.
pub open spec fn prompt_error_report(e: PromptErrorView) -> Seq<char> {
    match e {
        PromptErrorView::InvalidTemplate(cause) | PromptErrorView::DoesNotRender(cause) =>
            prompt_error_text(e) + ": "@ + cause,
        _ => prompt_error_text(e),
    }
}

impl PromptError {
    /// What is told about the error where there is room for what brought it about.
    pub fn report(&self) -> (r: String)
        ensures
            r@ == prompt_error_report(self@),
    {
        let mut r = self.message();
        match self {
            PromptError::InvalidTemplate(cause) | PromptError::DoesNotRender(cause) => {
                r.append(": ");
                r.append(cause.as_str());
            },
            _ => {},
        }
        r
    }

    /// What is told about the error.
    pub fn message(&self) -> (r: String)
        ensures
            r@ == prompt_error_text(self@),
    {
        match self {
            PromptError::NoLanguageMap => "no language map found in chat template".to_owned(),
            PromptError::UnsafeTemplate => "chat template is not safe to render".to_owned(),
            PromptError::InvalidTemplate(_) => "invalid chat template".to_owned(),
            PromptError::DoesNotRender(_) => "chat template does not render".to_owned(),
            PromptError::UnsupportedLanguage(code) => {
                let mut r = "language '".to_owned();
                r.append(code.as_str());
                r.append("' is not supported by this model");
                r
            },
            PromptError::Render(e) => e.clone(),
        }
    }
}

/// TranslateGemma prompt renderer.
#[derive(Debug)]
pub struct TranslateGemma {
    /// Chat template stored with the model, if it carries a usable one.
    template: Option<String>,
    /// Language code and English name, as used inside the prompt.
    languages: Vec<(String, String)>,
}

impl TranslateGemma {
    /// The template can be rendered without a panic.
    #[verifier::type_invariant]
    closed spec fn well_formed(self) -> bool {
        self.template matches Some(t) ==> cannot_panic(t@)
    }
}

/// What a TranslateGemma renderer goes by.
pub struct TranslateGemmaView {
    pub template: Option<Seq<char>>,
    pub languages: LanguageNames,
}

impl View for TranslateGemma {
    type V = TranslateGemmaView;

    closed spec fn view(&self) -> TranslateGemmaView {
        TranslateGemmaView {
            template: text::opt_view(self.template),
            languages: names_of(pairs_view(self.languages@)),
        }
    }
}

/// The message content that a TranslateGemma chat template reads.
pub open spec fn message_content(source: Seq<char>, target: Seq<char>, text: Seq<char>) -> Seq<
    (Seq<char>, Seq<char>),
> {
    seq![
        ("type"@, "text"@),
        ("source_lang_code"@, source),
        ("target_lang_code"@, target),
        ("text"@, text),
    ]
}

/// The built-in prompt: the instruction of a TranslateGemma template for one text.
pub open spec fn builtin_prompt(
    source: Seq<char>,
    source_name: Seq<char>,
    target: Seq<char>,
    target_name: Seq<char>,
    text: Seq<char>,
) -> Seq<char> {
    "<start_of_turn>user\nYou are a professional "@ + source_name + " ("@ + with_replaced(
        source,
        '_',
        '-',
    ) + ") to "@ + target_name + " ("@ + with_replaced(target, '_', '-')
        + ") translator. Your goal is to accurately convey the meaning and nuances of the original "@
        + source_name + " text while adhering to "@ + target_name
        + " grammar, vocabulary, and cultural sensitivities.\nProduce only the "@ + target_name
        + " translation, without any additional explanations or commentary. Please translate the following "@
        + source_name + " text into "@ + target_name + ":\n\n\n"@ + trimmed(text)
        + "<end_of_turn>\n<start_of_turn>model\n"@
}

/// The prompt for one translation, or why there is none.
pub open spec fn rendered_prompt(
    tg: TranslateGemmaView,
    source: Seq<char>,
    target: Seq<char>,
    text: Seq<char>,
) -> Result<Seq<char>, PromptErrorView> {
    match (name_for(tg.languages, source), name_for(tg.languages, target)) {
        (None, _) => Err(PromptErrorView::UnsupportedLanguage(source)),
        (Some(_), None) => Err(PromptErrorView::UnsupportedLanguage(target)),
        (Some(source_name), Some(target_name)) => match tg.template {
            Some(template) => match template_rendering(
                TEMPLATE_NAME@,
                template,
                "raise_exception"@,
                "messages"@,
                ("role"@, "user"@),
                "content"@,
                message_content(source, target, text),
                ("bos_token"@, ""@),
                ("add_generation_prompt"@, true),
            ) {
                Ok(prompt) => Ok(prompt),
                Err(e) => Err(PromptErrorView::Render(e)),
            },
            None => Ok(builtin_prompt(source, source_name, target, target_name, text)),
        },
    }
}

/// A renderer that was tried: it is taken only where it knows a language, its template compiled
/// and a trivial request rendered.
pub open spec fn tried(
    tg: TranslateGemmaView,
    fault: Option<Seq<char>>,
    trial: Result<Seq<char>, PromptErrorView>,
) -> Result<TranslateGemmaView, PromptErrorView> {
    if tg.languages == Map::<Seq<char>, Seq<char>>::empty() {
        Err(PromptErrorView::NoLanguageMap)
    } else {
        match (fault, trial) {
            (Some(e), _) => Err(PromptErrorView::InvalidTemplate(e)),
            (None, Err(e)) => Err(PromptErrorView::DoesNotRender(prompt_error_text(e))),
            (None, Ok(_)) => Ok(tg),
        }
    }
}

/// The renderer that goes by a chat template.
pub open spec fn template_renderer(template: Seq<char>) -> TranslateGemmaView {
    TranslateGemmaView { template: Some(template), languages: language_map(template) }
}

/// The renderer for the chat template of a model, or why it cannot be used. A template that may
/// panic is neither compiled nor tried.
pub open spec fn compiled(template: Seq<char>) -> Result<TranslateGemmaView, PromptErrorView> {
    if language_map(template) == Map::<Seq<char>, Seq<char>>::empty() {
        Err(PromptErrorView::NoLanguageMap)
    } else if !cannot_panic(template) {
        Err(PromptErrorView::UnsafeTemplate)
    } else {
        tried(
            template_renderer(template),
            template_fault(TEMPLATE_NAME@, template),
            rendered_prompt(template_renderer(template), "en"@, "de"@, "test"@),
        )
    }
}

/// The renderer used when the model has no usable template.
pub open spec fn builtin_renderer() -> TranslateGemmaView {
    TranslateGemmaView { template: None, languages: names_of(builtin_pairs()) }
}

/// A result with its error and its value seen as texts.
pub open spec fn renderer_view(r: Result<TranslateGemma, PromptError>) -> Result<
    TranslateGemmaView,
    PromptErrorView,
> {
    match r {
        Ok(tg) => Ok(tg@),
        Err(e) => Err(e@),
    }
}

/// A rendered prompt or error, seen as texts.
pub open spec fn prompt_view(r: Result<String, PromptError>) -> Result<
    Seq<char>,
    PromptErrorView,
> {
    match r {
        Ok(s) => Ok(s@),
        Err(e) => Err(e@),
    }
}

/// The names of a list of pairs are none only where there is no pair.
proof fn lemma_names_empty(pairs: Seq<(Seq<char>, Seq<char>)>)
    ensures
        pairs.len() == 0 <==> names_of(pairs) == Map::<Seq<char>, Seq<char>>::empty(),
{
    if pairs.len() > 0 {
        assert(names_of(pairs).contains_key(pairs.last().0));
    }
}

impl TranslateGemma {
    /// Take the chat template stored with the model.
    pub fn from_template(template: &str) -> (r: Result<Self, PromptError>)
        ensures
            renderer_view(r) == compiled(template@),
    {
        let languages = parse_language_map(template);
        proof {
            lemma_names_empty(pairs_view(languages@));
        }
        if languages.len() == 0 {
            return Err(PromptError::NoLanguageMap);
        }
        if !template::is_safe(template) {
            return Err(PromptError::UnsafeTemplate);
        }
        let tg = TranslateGemma { template: Some(template.to_owned()), languages };
        let fault = match compile_template(TEMPLATE_NAME, template) {
            Ok(_) => None,
            Err(e) => Some(e),
        };
        // Fail early (and fall back to the built-in renderer) if the template does not render
        // for a trivial request.
        let trial = tg.render("en", "de", "test");
        tg.accept(fault, trial)
    }

    /// The renderer itself, where it knows a language, its template compiled without a fault and
    /// a trivial request rendered.
    pub fn accept(self, fault: Option<String>, trial: Result<String, PromptError>) -> (r: Result<
        Self,
        PromptError,
    >)
        ensures
            renderer_view(r) == tried(self@, text::opt_view(fault), prompt_view(trial)),
    {
        proof {
            lemma_names_empty(pairs_view(self.languages@));
        }
        if self.languages.len() == 0 {
            return Err(PromptError::NoLanguageMap);
        }
        if let Some(e) = fault {
            return Err(PromptError::InvalidTemplate(e));
        }
        match trial {
            Ok(_) => Ok(self),
            Err(e) => Err(PromptError::DoesNotRender(e.message())),
        }
    }

    /// Renderer used when the model has no usable template. It knows the languages of the
    /// built-in table and renders the built-in prompt.
    pub fn builtin() -> (r: Self)
        ensures
            r@ == builtin_renderer(),
    {
        let mut languages: Vec<(String, String)> = Vec::new();
        let mut i: usize = 0;
        assert(pairs_view(languages@) =~= builtin_pairs().take(0));
        while i < 50
            invariant
                i <= 50,
                pairs_view(languages@) == builtin_pairs().take(i as int),
            decreases 50 - i,
        {
            let code = BUILTIN_LANGUAGES[i].0.to_owned();
            let name = BUILTIN_LANGUAGES[i].1.to_owned();
            let ghost before = pairs_view(languages@);
            let ghost pair = (code@, name@);
            languages.push((code, name));
            assert(pairs_view(languages@) =~= before.push(pair));
            assert(builtin_pairs()[i as int] == pair);
            i = i + 1;
            assert(pairs_view(languages@) =~= builtin_pairs().take(i as int));
        }
        assert(builtin_pairs().take(50) =~= builtin_pairs());
        TranslateGemma { template: None, languages }
    }

    /// Whether the prompt comes from a template stored with the model.
    pub fn has_template(&self) -> (r: bool)
        ensures
            r == self@.template is Some,
    {
        self.template.is_some()
    }

    /// English language name for a code (`de`, `pt-BR`, `pt_BR`, …).
    pub fn language_name(&self, code: &str) -> (r: Option<&str>)
        ensures
            match r {
                Some(name) => name_for(self@.languages, code@) == Some(name@),
                None => name_for(self@.languages, code@) is None,
            },
    {
        let key = text::replace_char(code, '_', '-');
        let ghost pairs = pairs_view(self.languages@);
        let mut n: usize = self.languages.len();
        assert(pairs.take(n as int) == pairs);
        while n > 0
            invariant
                n <= self.languages.len(),
                pairs == pairs_view(self.languages@),
                names_of(pairs).contains_key(key@) == names_of(pairs.take(n as int)).contains_key(
                    key@,
                ),
                names_of(pairs).contains_key(key@) ==> names_of(pairs)[key@] == names_of(
                    pairs.take(n as int),
                )[key@],
                key@ == with_replaced(code@, '_', '-'),
            decreases n,
        {
            assert(pairs.take(n as int).drop_last() == pairs.take(n - 1));
            if text::same(self.languages[n - 1].0.as_str(), key.as_str()) {
                return Some(self.languages[n - 1].1.as_str());
            }
            n = n - 1;
        }
        None
    }

    /// Render the complete prompt (without the token that begins a text, which the tokenizer
    /// adds).
    pub fn render(&self, source: &str, target: &str, text: &str) -> (r: Result<String, PromptError>)
        ensures
            prompt_view(r) == rendered_prompt(self@, source@, target@, text@),
    {
        proof {
            use_type_invariant(self);
        }
        let source_name = match self.language_name(source) {
            Some(name) => name,
            None => return Err(PromptError::UnsupportedLanguage(source.to_owned())),
        };
        let target_name = match self.language_name(target) {
            Some(name) => name,
            None => return Err(PromptError::UnsupportedLanguage(target.to_owned())),
        };
        match &self.template {
            Some(template) => {
                let mut content: Vec<(&str, &str)> = Vec::new();
                content.push(("type", "text"));
                content.push(("source_lang_code", source));
                content.push(("target_lang_code", target));
                content.push(("text", text));
                assert(fields_view(content@) =~= message_content(source@, target@, text@));
                match render_template(
                    TEMPLATE_NAME,
                    template.as_str(),
                    "raise_exception",
                    "messages",
                    ("role", "user"),
                    "content",
                    &content,
                    ("bos_token", ""),
                    ("add_generation_prompt", true),
                ) {
                    Ok(prompt) => Ok(prompt),
                    Err(e) => Err(PromptError::Render(e)),
                }
            },
            None => Ok(render_builtin(source, source_name, target, target_name, text)),
        }
    }
}

/// Render the built-in prompt.
pub fn render_builtin(
    source: &str,
    source_name: &str,
    target: &str,
    target_name: &str,
    text: &str,
) -> (r: String)
    ensures
        r@ == builtin_prompt(source@, source_name@, target@, target_name@, text@),
{
    let source = text::replace_char(source, '_', '-');
    let target = text::replace_char(target, '_', '-');
    let mut r = "<start_of_turn>user\nYou are a professional ".to_owned();
    r.append(source_name);
    r.append(" (");
    r.append(source.as_str());
    r.append(") to ");
    r.append(target_name);
    r.append(" (");
    r.append(target.as_str());
    r.append(
        ") translator. Your goal is to accurately convey the meaning and nuances of the original ",
    );
    r.append(source_name);
    r.append(" text while adhering to ");
    r.append(target_name);
    r.append(" grammar, vocabulary, and cultural sensitivities.\nProduce only the ");
    r.append(target_name);
    r.append(
        " translation, without any additional explanations or commentary. Please translate the following ",
    );
    r.append(source_name);
    r.append(" text into ");
    r.append(target_name);
    r.append(":\n\n\n");
    r.append(text::trim(text));
    r.append("<end_of_turn>\n<start_of_turn>model\n");
    r
}

/// How the loaded model expects translation requests to be phrased.
#[derive(Debug)]
pub enum PromptFormat {
    /// Native TranslateGemma prompt with explicit language codes.
    TranslateGemma(Box<TranslateGemma>),
    /// Instruction prompt rendered through the model's chat template.
    Chat {
        /// Use a hardcoded Gemma turn format if the model's template cannot be applied. Only
        /// safe for models whose architecture is Gemma.
        gemma_fallback: bool,
    },
}

/// A prompt format with its texts.
pub enum PromptFormatView {
    TranslateGemma(TranslateGemmaView),
    Chat { gemma_fallback: bool },
}

impl View for PromptFormat {
    type V = PromptFormatView;

    open spec fn view(&self) -> PromptFormatView {
        match self {
            PromptFormat::TranslateGemma(tg) => PromptFormatView::TranslateGemma((**tg)@),
            PromptFormat::Chat { gemma_fallback } => PromptFormatView::Chat {
                gemma_fallback: *gemma_fallback,
            },
        }
    }
}

/// The native prompt format with a renderer, or with the built-in one where that failed.
pub open spec fn format_with(
    renderer: Result<TranslateGemmaView, PromptErrorView>,
) -> PromptFormatView {
    match renderer {
        Ok(tg) => PromptFormatView::TranslateGemma(tg),
        Err(_) => PromptFormatView::TranslateGemma(builtin_renderer()),
    }
}

/// The prompt format for what is known of a model.
pub open spec fn detected_format(
    architecture: Option<Seq<char>>,
    chat_template: Option<Seq<char>>,
) -> PromptFormatView {
    match chat_template {
        Some(template) if looks_like_translategemma(template) => format_with(compiled(template)),
        None if architecture == Some(TRANSLATEGEMMA_ARCHITECTURE@) => {
            PromptFormatView::TranslateGemma(builtin_renderer())
        },
        _ => PromptFormatView::Chat {
            gemma_fallback: match architecture {
                Some(name) => "gemma"@.is_prefix_of(name),
                None => false,
            },
        },
    }
}

/// Whether a model with this prompt format accepts `code` as a language.
pub open spec fn accepts_language(format: PromptFormatView, code: Seq<char>) -> bool {
    match format {
        PromptFormatView::TranslateGemma(tg) => name_for(tg.languages, code) is Some,
        PromptFormatView::Chat { .. } => true,
    }
}

/// The text that an optional text slice holds.
pub open spec fn opt_str_view(s: Option<&str>) -> Option<Seq<char>> {
    match s {
        Some(s) => Some(s@),
        None => None,
    }
}

impl PromptFormat {
    /// Pick the prompt format from what is stored with the model. TranslateGemma is told by its
    /// template; a model of its architecture without any template is taken for it and gets the
    /// built-in prompt.
    pub fn detect(architecture: Option<&str>, chat_template: Option<&str>) -> (r: Self)
        ensures
            r@ == detected_format(opt_str_view(architecture), opt_str_view(chat_template)),
    {
        if let Some(template) = chat_template {
            if is_translategemma_template(template) {
                return Self::native(TranslateGemma::from_template(template));
            }
        } else if let Some(name) = architecture {
            if text::same(name, TRANSLATEGEMMA_ARCHITECTURE) {
                return PromptFormat::TranslateGemma(Box::new(TranslateGemma::builtin()));
            }
        }
        let gemma_fallback = match architecture {
            Some(name) => text::starts_with(name, "gemma"),
            None => false,
        };
        PromptFormat::Chat { gemma_fallback }
    }

    /// The native prompt format with `renderer`, or with the built-in one where that failed.
    pub fn native(renderer: Result<TranslateGemma, PromptError>) -> (r: Self)
        ensures
            r@ == format_with(renderer_view(renderer)),
    {
        match renderer {
            Ok(tg) => PromptFormat::TranslateGemma(Box::new(tg)),
            Err(_) => PromptFormat::TranslateGemma(Box::new(TranslateGemma::builtin())),
        }
    }

    /// Short human-readable name for logs.
    pub fn name(&self) -> (r: &'static str)
        ensures
            r@ == format_name(self@),
    {
        match self {
            PromptFormat::TranslateGemma(tg) => if tg.has_template() {
                "translategemma (GGUF template)"
            } else {
                "translategemma (built-in template)"
            },
            PromptFormat::Chat { .. } => "generic chat",
        }
    }

    /// Whether HTML must be translated as Markdown. TranslateGemma has no HTML instruction and
    /// turns tags into Markdown on its own.
    pub fn translates_html_as_markdown(&self) -> (r: bool)
        ensures
            r == self@ is TranslateGemma,
    {
        match self {
            PromptFormat::TranslateGemma(_) => true,
            PromptFormat::Chat { .. } => false,
        }
    }

    /// Whether the model accepts `code` as a source or target language. Generic chat models are
    /// prompted with language names and accept every language that is known.
    pub fn supports_language(&self, code: &str) -> (r: bool)
        ensures
            r == accepts_language(self@, code@),
    {
        match self {
            PromptFormat::TranslateGemma(tg) => tg.language_name(code).is_some(),
            PromptFormat::Chat { .. } => true,
        }
    }
}

/// System instructions for HTML.
pub const SYSTEM_HTML: &'static str = "You are an expert linguist, specializing in translation. You are able to capture the nuances of the languages you translate. You pay attention to masculine/feminine/plural and proper use of articles and grammar. You always provide natural sounding translations that fully preserve the meaning of the original text. You never provide explanations for your work. You must preserve all HTML tags and elements in the translation. You always answer with the translated text and nothing else.";

/// System instructions for plain text.
pub const SYSTEM_TEXT: &'static str = "You are an expert linguist, specializing in translation. You are able to capture the nuances of the languages you translate. You pay attention to masculine/feminine/plural and proper use of articles and grammar. You always provide natural sounding translations that fully preserve the meaning of the original text. You never provide explanations for your work. You always answer with the translated text and nothing else.";

/// Instruction prompt for generic chat models.
#[derive(Debug)]
pub struct ChatPrompt {
    /// System instructions.
    pub system: &'static str,
    /// User turn containing the text.
    pub user: String,
}

/// System instructions for a format.
pub open spec fn system_text(format: Seq<char>) -> Seq<char> {
    if format == "html"@ {
        SYSTEM_HTML@
    } else {
        SYSTEM_TEXT@
    }
}

/// User turn for a translation; the source language may be unknown.
pub open spec fn user_text(
    source_name: Option<Seq<char>>,
    target_name: Seq<char>,
    text: Seq<char>,
) -> Seq<char> {
    match source_name {
        Some(source) => "Translate the text below from "@ + source + " to "@ + target_name
            + ".\n\n"@ + source + ": "@ + text + "\n\n"@ + target_name + ":\n"@,
        None => "Translate the text below to "@ + target_name + ".\n\nText: "@ + text + "\n\n"@
            + target_name + ":\n"@,
    }
}

/// Build the instruction prompt for generic chat models. `source_name` is `None` when the source
/// language is unknown (detection failed).
pub fn chat_prompt(
    format: &str,
    source_name: Option<&str>,
    target_name: &str,
    text: &str,
) -> (r: ChatPrompt)
    ensures
        r.system@ == system_text(format@),
        r.user@ == user_text(opt_str_view(source_name), target_name@, text@),
{
    let system = if text::same(format, "html") {
        SYSTEM_HTML
    } else {
        SYSTEM_TEXT
    };
    let user = match source_name {
        Some(source) => {
            let mut user = "Translate the text below from ".to_owned();
            user.append(source);
            user.append(" to ");
            user.append(target_name);
            user.append(".\n\n");
            user.append(source);
            user.append(": ");
            user.append(text);
            user.append("\n\n");
            user.append(target_name);
            user.append(":\n");
            user
        },
        None => {
            let mut user = "Translate the text below to ".to_owned();
            user.append(target_name);
            user.append(".\n\nText: ");
            user.append(text);
            user.append("\n\n");
            user.append(target_name);
            user.append(":\n");
            user
        },
    };
    ChatPrompt { system, user }
}

/// The Gemma turn format around a chat prompt.
pub open spec fn gemma_turn(system: Seq<char>, user: Seq<char>) -> Seq<char> {
    "<start_of_turn>user\n"@ + system + "\n\n"@ + user
        + "<end_of_turn>\n<start_of_turn>model\n"@
}

/// Hardcoded Gemma turn format for Gemma models whose template cannot be applied.
pub fn gemma_fallback(prompt: &ChatPrompt) -> (r: String)
    ensures
        r@ == gemma_turn(prompt.system@, prompt.user@),
{
    let mut r = "<start_of_turn>user\n".to_owned();
    r.append(prompt.system);
    r.append("\n\n");
    r.append(prompt.user.as_str());
    r.append("<end_of_turn>\n<start_of_turn>model\n");
    r
}

/// Every code in a list of pairs has a name.
pub proof fn lemma_pair_is_named(pairs: Seq<(Seq<char>, Seq<char>)>, at: int)
    requires
        0 <= at < pairs.len(),
    ensures
        names_of(pairs).contains_key(pairs[at].0),
    decreases pairs.len(),
{
    if at < pairs.len() - 1 {
        lemma_pair_is_named(pairs.drop_last(), at);
    }
}

/// Law: a model is prompted as TranslateGemma exactly when its template reads the fields of a
/// TranslateGemma message, or when it has no template and is a Gemma 3; in the latter case it gets
/// the built-in prompt.
pub proof fn law_when_a_model_is_translategemma(
    architecture: Option<Seq<char>>,
    chat_template: Option<Seq<char>>,
)
    ensures
        detected_format(architecture, chat_template) is TranslateGemma <==> match chat_template {
            Some(template) => looks_like_translategemma(template),
            None => architecture == Some("gemma3"@),
        },
        chat_template is None && architecture == Some("gemma3"@) ==> detected_format(
            architecture,
            chat_template,
        ) == PromptFormatView::TranslateGemma(builtin_renderer()),
{
}

/// Law: a chat template is rendered only where the template engine does not panic on it; a
/// TranslateGemma whose template may panic gets the built-in prompt.
pub proof fn law_only_safe_templates_are_rendered(
    architecture: Option<Seq<char>>,
    template: Seq<char>,
)
    ensures
        compiled(template) is Ok ==> cannot_panic(template),
        looks_like_translategemma(template) && !cannot_panic(template) ==> detected_format(
            architecture,
            Some(template),
        ) == PromptFormatView::TranslateGemma(builtin_renderer()),
{
}

/// Law: a model accepts a language exactly when the built-in prompt can be rendered for it, so
/// that a request whose languages were accepted is never refused for them later.
pub proof fn law_accepted_languages_render_with_builtin_prompt(
    languages: LanguageNames,
    source: Seq<char>,
    target: Seq<char>,
    text: Seq<char>,
)
    ensures
        ({
            let tg = TranslateGemmaView { template: None, languages };
            rendered_prompt(tg, source, target, text) is Ok <==> (accepts_language(
                PromptFormatView::TranslateGemma(tg),
                source,
            ) && accepts_language(PromptFormatView::TranslateGemma(tg), target))
        }),
{
}

/// Law: the instructions ask for HTML tags to be kept exactly where the text is HTML, and always
/// for the translation and nothing else.
pub proof fn law_instructions_follow_the_format(format: Seq<char>)
    ensures
        has_part(
            system_text(format),
            "You must preserve all HTML tags and elements in the translation."@,
        ) <==> format == "html"@,
        "You always answer with the translated text and nothing else."@.is_suffix_of(
            system_text(format),
        ),
        "You are an expert linguist, specializing in translation. "@.is_prefix_of(
            system_text(format),
        ),
{
    reveal_strlit("You are an expert linguist, specializing in translation. You are able to capture the nuances of the languages you translate. You pay attention to masculine/feminine/plural and proper use of articles and grammar. You always provide natural sounding translations that fully preserve the meaning of the original text. You never provide explanations for your work. You must preserve all HTML tags and elements in the translation. You always answer with the translated text and nothing else.");
    reveal_strlit("You are an expert linguist, specializing in translation. You are able to capture the nuances of the languages you translate. You pay attention to masculine/feminine/plural and proper use of articles and grammar. You always provide natural sounding translations that fully preserve the meaning of the original text. You never provide explanations for your work. You always answer with the translated text and nothing else.");
    reveal_strlit("You must preserve all HTML tags and elements in the translation.");
    reveal_strlit("You always answer with the translated text and nothing else.");
    reveal_strlit("You are an expert linguist, specializing in translation. ");
    let system = system_text(format);
    let keep = "You must preserve all HTML tags and elements in the translation."@;
    let nothing_else = "You always answer with the translated text and nothing else."@;
    let linguist = "You are an expert linguist, specializing in translation. "@;
    assert(linguist =~= system.subrange(0, linguist.len() as int));
    assert(nothing_else =~= system.subrange(
        system.len() - nothing_else.len(),
        system.len() as int,
    ));
    if format == "html"@ {
        assert(keep =~= system.subrange(361, 361int + keep.len()));
        assert(text::occurs_at(system, keep, 361));
    } else {
        assert(keep[22] == 'H');
        assert(forall|i: int| 0 <= i < system.len() ==> system[i] != 'H');
        assert forall|at: int| !text::occurs_at(system, keep, at) by {
            if text::occurs_at(system, keep, at) {
                assert(system.subrange(at, at + keep.len())[22] == system[at + 22]);
            }
        }
    }
}

/// Law: without a template, the prompt asks for the target language: it holds the names and codes of
/// source and target in that order, and carries the text, without the white space around
/// it, right before the turn of the model.
pub proof fn law_builtin_prompt_asks_for_the_target(
    languages: LanguageNames,
    source: Seq<char>,
    target: Seq<char>,
    text: Seq<char>,
)
    requires
        name_for(languages, source) is Some,
        name_for(languages, target) is Some,
    ensures
        rendered_prompt(TranslateGemmaView { template: None, languages }, source, target, text)
            matches Ok(prompt) && {
            let from = name_for(languages, source)->0;
            let to = name_for(languages, target)->0;
            &&& ("<start_of_turn>user\nYou are a professional "@ + from + " ("@ + with_replaced(
                source,
                '_',
                '-',
            ) + ") to "@ + to + " ("@ + with_replaced(target, '_', '-')
                + ") translator. "@).is_prefix_of(prompt)
            &&& ("Please translate the following "@ + from + " text into "@ + to + ":\n\n\n"@
                + trimmed(text) + "<end_of_turn>\n<start_of_turn>model\n"@).is_suffix_of(prompt)
            &&& has_part(prompt, ".\nProduce only the "@ + to + " translation, "@)
            &&& has_part(prompt, " of the original "@ + from + " text "@)
        },
{
    let from = name_for(languages, source)->0;
    let to = name_for(languages, target)->0;
    let s = with_replaced(source, '_', '-');
    let t = with_replaced(target, '_', '-');
    let prompt = builtin_prompt(source, from, target, to, text);
    reveal_strlit(
        ") translator. Your goal is to accurately convey the meaning and nuances of the original ",
    );
    reveal_strlit(") translator. ");
    reveal_strlit(
        " translation, without any additional explanations or commentary. Please translate the following ",
    );
    reveal_strlit("Please translate the following ");
    reveal_strlit(" text while adhering to ");
    reveal_strlit(" grammar, vocabulary, and cultural sensitivities.\nProduce only the ");
    reveal_strlit(".\nProduce only the ");
    reveal_strlit(" translation, ");
    reveal_strlit(" of the original ");
    reveal_strlit(" text ");
    let a = "<start_of_turn>user\nYou are a professional "@ + from + " ("@ + s + ") to "@ + to
        + " ("@ + t;
    let goal =
        ") translator. Your goal is to accurately convey the meaning and nuances of the original "@;
    let adhering = " text while adhering to "@;
    let grammar = " grammar, vocabulary, and cultural sensitivities.\nProduce only the "@;
    let request =
        " translation, without any additional explanations or commentary. Please translate the following "@;
    let end = from + " text into "@ + to + ":\n\n\n"@ + trimmed(text)
        + "<end_of_turn>\n<start_of_turn>model\n"@;
    assert(prompt =~= a + goal + from + adhering + to + grammar + to + request + end);
    let head = a + ") translator. "@;
    assert(head =~= prompt.subrange(0, head.len() as int));
    let tail = "Please translate the following "@ + end;
    assert(tail =~= "Please translate the following "@ + from + " text into "@ + to + ":\n\n\n"@
        + trimmed(text) + "<end_of_turn>\n<start_of_turn>model\n"@);
    assert(tail =~= prompt.subrange(prompt.len() - tail.len(), prompt.len() as int));
    let only = ".\nProduce only the "@ + to + " translation, "@;
    let at = (a + goal + from + adhering + to + grammar).len() - ".\nProduce only the "@.len();
    assert(only =~= prompt.subrange(at, at + only.len()));
    assert(text::occurs_at(prompt, only, at));
    let original = " of the original "@ + from + " text "@;
    let place = (a + goal).len() - " of the original "@.len();
    assert(original =~= prompt.subrange(place, place + original.len()));
    assert(text::occurs_at(prompt, original, place));
}

/// Law: a chat template is rendered for a conversation of one user message, whose one part is the
/// text with the codes of its source and its target, and is asked to begin the turn of the model;
/// what it renders is the prompt, and what it fails with is the error.
pub proof fn law_template_renders_the_request(
    template: Seq<char>,
    languages: LanguageNames,
    source: Seq<char>,
    target: Seq<char>,
    text: Seq<char>,
)
    requires
        name_for(languages, source) is Some,
        name_for(languages, target) is Some,
    ensures
        exists|part: Seq<(Seq<char>, Seq<char>)>| #[trigger]
            is_text_part(part, source, target, text) && match template_rendering(
                "chat"@,
                template,
                "raise_exception"@,
                "messages"@,
                ("role"@, "user"@),
                "content"@,
                part,
                ("bos_token"@, ""@),
                ("add_generation_prompt"@, true),
            ) {
                Ok(prompt) => rendered_prompt(
                    TranslateGemmaView { template: Some(template), languages },
                    source,
                    target,
                    text,
                ) == Ok::<Seq<char>, PromptErrorView>(prompt),
                Err(e) => rendered_prompt(
                    TranslateGemmaView { template: Some(template), languages },
                    source,
                    target,
                    text,
                ) == Err::<Seq<char>, PromptErrorView>(PromptErrorView::Render(e)),
            },
{
    let part = message_content(source, target, text);
    assert(part[0] == ("type"@, "text"@));
    assert(part[1] == ("source_lang_code"@, source));
    assert(part[2] == ("target_lang_code"@, target));
    assert(part[3] == ("text"@, text));
    assert(is_text_part(part, source, target, text));
}

/// `part` is a part of a message that holds a text and the codes of its source and its target.
pub open spec fn is_text_part(
    part: Seq<(Seq<char>, Seq<char>)>,
    source: Seq<char>,
    target: Seq<char>,
    text: Seq<char>,
) -> bool {
    &&& part.len() == 4
    &&& part.contains(("type"@, "text"@))
    &&& part.contains(("source_lang_code"@, source))
    &&& part.contains(("target_lang_code"@, target))
    &&& part.contains(("text"@, text))
}

/// Law: the renderer for a chat template goes by that template and the languages listed in it, and
/// there is one only where the template compiled and rendered a request from English to German.
pub proof fn law_compiled_renderer_goes_by_its_template(template: Seq<char>)
    ensures
        compiled(template) matches Ok(tg) ==> {
            &&& tg.template == Some(template)
            &&& tg.languages == language_map(template)
            &&& tg.languages != Map::<Seq<char>, Seq<char>>::empty()
            &&& template_fault("chat"@, template) is None
            &&& rendered_prompt(tg, "en"@, "de"@, "test"@) is Ok
        },
        language_map(template) == Map::<Seq<char>, Seq<char>>::empty() ==> compiled(template)
            is Err,
        language_map(template) != Map::<Seq<char>, Seq<char>>::empty() && cannot_panic(template)
            && template_fault("chat"@, template) is None && rendered_prompt(
            TranslateGemmaView { template: Some(template), languages: language_map(template) },
            "en"@,
            "de"@,
            "test"@,
        ) is Ok ==> compiled(template) is Ok,
{
}

/// Law: a model that is no TranslateGemma is a chat model, which may fall back to the turns of
/// Gemma exactly where its architecture is one of Gemma.
pub proof fn law_only_gemma_falls_back(
    architecture: Option<Seq<char>>,
    chat_template: Option<Seq<char>>,
)
    requires
        chat_template matches Some(t) ==> !(has_part(t, "source_lang_code"@) && has_part(
            t,
            "target_lang_code"@,
        )),
        chat_template is None ==> architecture != Some("gemma3"@),
    ensures
        detected_format(architecture, chat_template) == (PromptFormatView::Chat {
            gemma_fallback: architecture matches Some(name) && "gemma"@.is_prefix_of(name),
        }),
{
}

/// Law: a prompt in the turns of Gemma holds the instructions and then the user turn, whole, in
/// the turn of the user, and leaves the turn to the model.
pub proof fn law_gemma_turn_holds_the_prompt(system: Seq<char>, user: Seq<char>)
    ensures
        ("<start_of_turn>user\n"@ + system).is_prefix_of(gemma_turn(system, user)),
        ("\n\n"@ + user + "<end_of_turn>\n<start_of_turn>model\n"@).is_suffix_of(
            gemma_turn(system, user),
        ),
        gemma_turn(system, user).len() == ("<start_of_turn>user\n"@ + system).len() + ("\n\n"@
            + user + "<end_of_turn>\n<start_of_turn>model\n"@).len(),
{
    let head = "<start_of_turn>user\n"@ + system;
    let tail = "\n\n"@ + user + "<end_of_turn>\n<start_of_turn>model\n"@;
    let all = gemma_turn(system, user);
    assert(all =~= head + tail);
    assert(head =~= all.subrange(0, head.len() as int));
    assert(tail =~= all.subrange(all.len() - tail.len(), all.len() as int));
}

/// Law: an error names the language that the model does not know, and tells what the template engine
/// said; a report adds the cause to what is told of a faulty template.
pub proof fn law_prompt_errors_tell_their_cause(cause: Seq<char>, other: Seq<char>)
    ensures
        has_part(
            prompt_error_text(PromptErrorView::UnsupportedLanguage(cause)),
            "'"@ + cause + "'"@,
        ),
        prompt_error_text(PromptErrorView::Render(cause)) == cause,
        prompt_error_report(PromptErrorView::Render(cause)) == cause,
        prompt_error_report(PromptErrorView::UnsupportedLanguage(cause)) == prompt_error_text(
            PromptErrorView::UnsupportedLanguage(cause),
        ),
        prompt_error_text(PromptErrorView::InvalidTemplate(cause)) == prompt_error_text(
            PromptErrorView::InvalidTemplate(other),
        ),
        (": "@ + cause).is_suffix_of(
            prompt_error_report(PromptErrorView::InvalidTemplate(cause)),
        ),
        (": "@ + cause).is_suffix_of(prompt_error_report(PromptErrorView::DoesNotRender(cause))),
{
    reveal_strlit("'");
    reveal_strlit("language '");
    reveal_strlit("' is not supported by this model");
    let told = prompt_error_text(PromptErrorView::UnsupportedLanguage(cause));
    let quoted = "'"@ + cause + "'"@;
    assert(told.subrange(9, 9int + quoted.len()) =~= quoted);
    assert(text::occurs_at(told, quoted, 9));
    let end = ": "@ + cause;
    let invalid = prompt_error_report(PromptErrorView::InvalidTemplate(cause));
    assert(end =~= invalid.subrange(invalid.len() - end.len(), invalid.len() as int));
    let dull = prompt_error_report(PromptErrorView::DoesNotRender(cause));
    assert(end =~= dull.subrange(dull.len() - end.len(), dull.len() as int));
}

/// Law: a template is taken if it names languages, compiles, and renders a first prompt; else the
/// first of these that fails is the error, with what the template engine said.
pub proof fn law_template_is_tried(
    tg: TranslateGemmaView,
    fault: Seq<char>,
    trial: Result<Seq<char>, PromptErrorView>,
)
    ensures
        tried(tg, None, trial) is Ok <==> tg.languages != Map::<Seq<char>, Seq<char>>::empty()
            && trial is Ok,
        tried(tg, None, trial) matches Ok(taken) ==> taken == tg,
        tg.languages == Map::<Seq<char>, Seq<char>>::empty() ==> tried(tg, Some(fault), trial)
            == Err::<TranslateGemmaView, PromptErrorView>(PromptErrorView::NoLanguageMap),
        tg.languages != Map::<Seq<char>, Seq<char>>::empty() ==> tried(tg, Some(fault), trial)
            == Err::<TranslateGemmaView, PromptErrorView>(PromptErrorView::InvalidTemplate(fault)),
        tg.languages != Map::<Seq<char>, Seq<char>>::empty() ==> tried(
            tg,
            None,
            Err(PromptErrorView::Render(fault)),
        ) == Err::<TranslateGemmaView, PromptErrorView>(PromptErrorView::DoesNotRender(fault)),
{
}

/// Law: a chat model accepts every language, and a native prompt those that it has a name for.
pub proof fn law_chat_accepts_every_language(
    tg: TranslateGemmaView,
    code: Seq<char>,
    gemma_fallback: bool,
)
    ensures
        accepts_language(PromptFormatView::Chat { gemma_fallback }, code),
        accepts_language(PromptFormatView::TranslateGemma(tg), code)
            <==> tg.languages.contains_key(with_replaced(code, '_', '-')),
{
}

/// The name of a prompt format in logs.
pub open spec fn format_name(format: PromptFormatView) -> Seq<char> {
    match format {
        PromptFormatView::TranslateGemma(tg) => if tg.template is Some {
            "translategemma (GGUF template)"@
        } else {
            "translategemma (built-in template)"@
        },
        PromptFormatView::Chat { .. } => "generic chat"@,
    }
}

/// Law: logs tell a native prompt from a chat, and the template of the model from the one that is
/// built in.
pub proof fn law_logs_tell_the_format(format: PromptFormatView)
    ensures
        format is TranslateGemma <==> "translategemma"@.is_prefix_of(format_name(format)),
        (format matches PromptFormatView::TranslateGemma(tg) && tg.template is Some)
            <==> "(GGUF template)"@.is_suffix_of(format_name(format)),
        (format matches PromptFormatView::TranslateGemma(tg) && tg.template is None)
            <==> "(built-in template)"@.is_suffix_of(format_name(format)),
{
    reveal_strlit("translategemma (GGUF template)");
    reveal_strlit("translategemma (built-in template)");
    reveal_strlit("generic chat");
    reveal_strlit("translategemma");
    reveal_strlit("(GGUF template)");
    reveal_strlit("(built-in template)");
    let name = format_name(format);
    let n = name.len() as int;
    match format {
        PromptFormatView::TranslateGemma(tg) => {
            assert("translategemma"@ =~= name.subrange(0, 14));
            if tg.template is Some {
                assert("(GGUF template)"@ =~= name.subrange(n - 15, n));
                assert("(built-in template)"@[0] != name.subrange(n - 19, n)[0]);
            } else {
                assert("(built-in template)"@ =~= name.subrange(n - 19, n));
                assert("(GGUF template)"@[0] != name.subrange(n - 15, n)[0]);
            }
        },
        PromptFormatView::Chat { .. } => {
            assert(n == 12);
        },
    }
}

/// Law: with any renderer, a language that the model does not know is an error that names it.
pub proof fn law_unknown_language_is_an_error(
    tg: TranslateGemmaView,
    source: Seq<char>,
    target: Seq<char>,
    text: Seq<char>,
)
    ensures
        name_for(tg.languages, source) is None ==> rendered_prompt(tg, source, target, text)
            == Err::<Seq<char>, PromptErrorView>(PromptErrorView::UnsupportedLanguage(source)),
        name_for(tg.languages, source) is Some && name_for(tg.languages, target) is None
            ==> rendered_prompt(tg, source, target, text) == Err::<Seq<char>, PromptErrorView>(
            PromptErrorView::UnsupportedLanguage(target),
        ),
{
}

/// Law: `_` and `-` in a language code are the same to a renderer.
pub proof fn law_underscore_is_a_hyphen(names: LanguageNames, code: Seq<char>)
    ensures
        name_for(names, with_replaced(code, '_', '-')) == name_for(names, code),
{
    assert(with_replaced(with_replaced(code, '_', '-'), '_', '-') =~= with_replaced(
        code,
        '_',
        '-',
    ));
}

/// A line of a language map for a code and a name; the last line may do without a comma.
pub open spec fn entry_line(indent: Seq<char>, pair: (Seq<char>, Seq<char>), comma: bool) -> Seq<
    char,
> {
    let entry = seq!['"'] + pair.0 + seq!['"', ':', ' ', '"'] + pair.1 + seq!['"'];
    indent + (if comma {
        entry.push(',')
    } else {
        entry
    })
}

/// The lines of a language map, one for each pair.
pub open spec fn entry_lines(
    indent: Seq<char>,
    pairs: Seq<(Seq<char>, Seq<char>)>,
    last_comma: bool,
) -> Seq<Seq<char>> {
    Seq::new(
        pairs.len(),
        |i: int| entry_line(indent, pairs[i], i + 1 < pairs.len() || last_comma),
    )
}

/// Lines with a line feed behind each.
pub open spec fn terminated(lines: Seq<Seq<char>>) -> Seq<char>
    decreases lines.len(),
{
    if lines.len() == 0 {
        Seq::empty()
    } else {
        lines[0] + seq!['\n'] + terminated(lines.drop_first())
    }
}

/// A code and a name can stand in a line of a language map as they are.
pub open spec fn is_plain(pair: (Seq<char>, Seq<char>)) -> bool {
    &&& forall|i: int|
        0 <= i < pair.0.len() ==> #[trigger] pair.0[i] != '}' && pair.0[i] != '\n' && pair.0[i]
            != ':'
    &&& forall|i: int| 0 <= i < pair.1.len() ==> #[trigger] pair.1[i] != '}' && pair.1[i] != '\n'
}

/// White space that a line may begin with.
pub open spec fn is_indent(indent: Seq<char>) -> bool {
    forall|i: int|
        0 <= i < indent.len() ==> text::white_space(#[trigger] indent[i]) && indent[i] != '\n'
}

/// A chat template that lists these languages, one to a line.
pub open spec fn listing_template(
    before: Seq<char>,
    indent: Seq<char>,
    pairs: Seq<(Seq<char>, Seq<char>)>,
    last_comma: bool,
    after: Seq<char>,
) -> Seq<char> {
    before + "set languages = {\n"@ + terminated(entry_lines(indent, pairs, last_comma)) + seq!['}']
        + after
}

/// `template` lists these languages, one to a line, in the first language map that it holds.
pub open spec fn lists_languages(
    template: Seq<char>,
    pairs: Seq<(Seq<char>, Seq<char>)>,
) -> bool {
    &&& forall|i: int| 0 <= i < pairs.len() ==> is_plain(#[trigger] pairs[i])
    &&& exists|before: Seq<char>, indent: Seq<char>, last_comma: bool, after: Seq<char>|
        template == #[trigger] listing_template(before, indent, pairs, last_comma, after)
            && is_indent(indent) && first_match(template, "set languages"@) == Some(
            before.len() as int,
        )
}

/// Where `c` stands at `at` and nowhere before, it is first found there.
proof fn lemma_first_index(s: Seq<char>, c: char, at: int)
    requires
        0 <= at < s.len(),
        s[at] == c,
        forall|k: int| 0 <= k < at ==> s[k] != c,
    ensures
        s.index_of_first(c) == Some(at),
{
    s.index_of_first_ensures(c);
    assert(s.contains(c));
}

/// A character that does not occur is not found.
proof fn lemma_no_index(s: Seq<char>, c: char)
    requires
        forall|k: int| 0 <= k < s.len() ==> s[k] != c,
    ensures
        s.index_of_first(c) is None,
{
    s.index_of_first_ensures(c);
}

/// White space in front of a text is trimmed off.
proof fn lemma_indent_is_trimmed(indent: Seq<char>, s: Seq<char>)
    requires
        is_indent(indent),
        s.len() > 0,
        !text::white_space(s[0]),
        !text::white_space(s.last()),
    ensures
        trimmed(indent + s) == s,
    decreases indent.len(),
{
    let all = indent + s;
    if indent.len() == 0 {
        assert(all =~= s);
    } else {
        assert(all.drop_first() =~= indent.drop_first() + s);
        assert(all[0] == indent[0]);
        assert(is_indent(indent.drop_first())) by {
            assert forall|i: int| 0 <= i < indent.drop_first().len() implies text::white_space(
                #[trigger] indent.drop_first()[i],
            ) && indent.drop_first()[i] != '\n' by {
                assert(indent.drop_first()[i] == indent[i + 1]);
            }
        }
        lemma_indent_is_trimmed(indent.drop_first(), s);
    }
}

/// A line for a plain pair is read as that pair, and is a line within a language map.
proof fn lemma_entry_line(indent: Seq<char>, pair: (Seq<char>, Seq<char>), comma: bool)
    requires
        is_indent(indent),
        is_plain(pair),
    ensures
        language_entry(entry_line(indent, pair, comma)) == Some(pair),
        !entry_line(indent, pair, comma).contains('}'),
        !entry_line(indent, pair, comma).contains('\n'),
{
    let (code, name) = pair;
    let line = entry_line(indent, pair, comma);
    let entry = seq!['"'] + code + seq!['"', ':', ' ', '"'] + name + seq!['"'];
    let core = if comma {
        entry.push(',')
    } else {
        entry
    };
    lemma_indent_is_trimmed(indent, core);
    assert(trimmed(line) == core);
    assert(entry.last() == '"');
    assert(without_trailing(entry, ',') == entry);
    if comma {
        assert(core.drop_last() =~= entry);
        assert(without_trailing(core, ',') == without_trailing(core.drop_last(), ','));
    }
    assert(without_trailing(trimmed(line), ',') == entry);
    let at = code.len() as int + 2;
    assert(entry[at] == ':');
    assert forall|k: int| 0 <= k < at implies entry[k] != ':' by {
        if 1 <= k < at - 1 {
            assert(entry[k] == code[k - 1]);
        }
    }
    lemma_first_index(entry, ':', at);
    let quoted_code = seq!['"'] + code + seq!['"'];
    let quoted_name = seq!['"'] + name + seq!['"'];
    assert(entry.take(at) =~= quoted_code);
    assert(trimmed(quoted_code) == quoted_code);
    assert(quoted_code.subrange(1, quoted_code.len() - 1) =~= code);
    assert(entry.skip(at + 1) =~= seq![' '] + quoted_name);
    lemma_indent_is_trimmed(seq![' '], quoted_name);
    assert(quoted_name.subrange(1, quoted_name.len() - 1) =~= name);
    assert forall|i: int| 0 <= i < line.len() implies line[i] != '}' && line[i] != '\n' by {
        let k = i - indent.len();
        if k < 0 {
            assert(line[i] == indent[i]);
        } else if 1 <= k < 1 + code.len() {
            assert(line[i] == code[k - 1]);
        } else if 5 + code.len() <= k < 5 + code.len() + name.len() {
            assert(line[i] == name[k - 5 - code.len()]);
        }
    }
}

/// Lines with a line feed behind each are divided into the same lines again, with nothing behind
/// the last of them.
proof fn lemma_terminated(lines: Seq<Seq<char>>)
    requires
        forall|i: int|
            0 <= i < lines.len() ==> !(#[trigger] lines[i]).contains('}') && !lines[i].contains(
                '\n',
            ),
    ensures
        lines_of(terminated(lines)) == lines.push(Seq::empty()),
        !terminated(lines).contains('}'),
    decreases lines.len(),
{
    let all = terminated(lines);
    if lines.len() == 0 {
        lemma_no_index(all, '\n');
        assert(lines_of(all) =~= lines.push(Seq::empty()));
    } else {
        let rest = lines.drop_first();
        let line = lines[0];
        assert forall|i: int| 0 <= i < rest.len() implies !(#[trigger] rest[i]).contains('}')
            && !rest[i].contains('\n') by {
            assert(rest[i] == lines[i + 1]);
        }
        lemma_terminated(rest);
        let at = line.len() as int;
        assert forall|k: int| 0 <= k < at implies all[k] != '\n' by {
            assert(all[k] == line[k]);
        }
        lemma_first_index(all, '\n', at);
        assert(all.take(at) =~= line);
        assert(all.skip(at + 1) =~= terminated(rest));
        assert(lines_of(all) =~= lines.push(Seq::empty()));
        assert forall|i: int| 0 <= i < all.len() implies all[i] != '}' by {
            if i < at {
                assert(all[i] == line[i]);
            } else if i > at {
                assert(all[i] == terminated(rest)[i - at - 1]);
            }
        }
    }
}

/// Lines that are read as pairs, below a line that is not, give the names of those pairs.
proof fn lemma_names_in_lines(
    heading: Seq<char>,
    lines: Seq<Seq<char>>,
    pairs: Seq<(Seq<char>, Seq<char>)>,
)
    requires
        language_entry(heading) is None,
        lines.len() == pairs.len(),
        forall|i: int| 0 <= i < lines.len() ==> language_entry(#[trigger] lines[i]) == Some(pairs[i]),
    ensures
        names_in_lines(seq![heading] + lines) == names_of(pairs),
    decreases lines.len(),
{
    let all = seq![heading] + lines;
    if lines.len() == 0 {
        assert(all.drop_last() =~= Seq::<Seq<char>>::empty());
        assert(names_in_lines(all.drop_last()) =~= Map::<Seq<char>, Seq<char>>::empty());
    } else {
        lemma_names_in_lines(heading, lines.drop_last(), pairs.drop_last());
        assert(all.drop_last() =~= seq![heading] + lines.drop_last());
        assert(all.last() == lines.last());
    }
}

/// Law: the languages that a chat template lists, one to a line, are read from it with their names.
pub proof fn law_listed_languages_are_read(
    template: Seq<char>,
    pairs: Seq<(Seq<char>, Seq<char>)>,
)
    requires
        lists_languages(template, pairs),
    ensures
        language_map(template) == names_of(pairs),
        template_renderer(template).languages == names_of(pairs),
{
    reveal_strlit("set languages = {\n");
    let (before, indent, last_comma, after) = choose|
        before: Seq<char>,
        indent: Seq<char>,
        last_comma: bool,
        after: Seq<char>,
    |
        template == #[trigger] listing_template(before, indent, pairs, last_comma, after)
            && is_indent(indent) && first_match(template, "set languages"@) == Some(
            before.len() as int,
        );
    let opening = "set languages = {\n"@;
    let heading = opening.drop_last();
    let lines = entry_lines(indent, pairs, last_comma);
    let listing = terminated(lines);
    let block = opening + listing;
    assert forall|i: int| 0 <= i < lines.len() implies language_entry(#[trigger] lines[i]) == Some(
        pairs[i],
    ) && !lines[i].contains('}') && !lines[i].contains('\n') by {
        lemma_entry_line(indent, pairs[i], i + 1 < pairs.len() || last_comma);
    }
    lemma_terminated(lines);
    let rest = template.skip(before.len() as int);
    assert(rest =~= block + seq!['}'] + after);
    let end = block.len() as int;
    assert(rest[end] == '}');
    assert forall|k: int| 0 <= k < end implies rest[k] != '}' by {
        if k >= opening.len() {
            assert(rest[k] == listing[k - opening.len()]);
        } else {
            assert(rest[k] == opening[k]);
        }
    }
    lemma_first_index(rest, '}', end);
    assert(rest.take(end) =~= block);
    let at = heading.len() as int;
    assert forall|k: int| 0 <= k < at implies block[k] != '\n' by {
        assert(block[k] == opening[k]);
    }
    lemma_first_index(block, '\n', at);
    assert(block.take(at) =~= heading);
    assert(block.skip(at + 1) =~= listing);
    let all = seq![heading] + lines.push(Seq::empty());
    assert(lines_of(block) == all);
    assert(all.drop_last() =~= seq![heading] + lines);
    lemma_no_index(Seq::<char>::empty(), ':');
    assert(language_entry(all.last()) is None);
    assert(trimmed(heading) == heading);
    assert(without_trailing(heading, ',') == heading);
    lemma_no_index(heading, ':');
    lemma_names_in_lines(heading, lines, pairs);
}

/// Law: a chat template that lists the built-in languages under their names, one to a line and
/// perhaps among others, gives each code that the built-in prompt knows, with `-` or `_`, the name
/// that the built-in prompt gives it.
pub proof fn law_template_agrees_with_builtin_names(
    template: Seq<char>,
    pairs: Seq<(Seq<char>, Seq<char>)>,
    code: Seq<char>,
)
    requires
        lists_languages(template, pairs),
        forall|i: int|
            0 <= i < builtin_pairs().len() ==> pairs.contains(#[trigger] builtin_pairs()[i]),
        forall|i: int, j: int|
            0 <= i < j < pairs.len() ==> (#[trigger] pairs[i]).0 != (#[trigger] pairs[j]).0,
        name_for(builtin_renderer().languages, code) is Some,
    ensures
        name_for(template_renderer(template).languages, code) == name_for(
            builtin_renderer().languages,
            code,
        ),
{
    law_listed_languages_are_read(template, pairs);
    let key = with_replaced(code, '_', '-');
    let i = lemma_name_has_a_pair(builtin_pairs(), key);
    let j = pairs.index_of(builtin_pairs()[i]);
    lemma_unique_pair_is_named(pairs, j);
}

/// A name under a code comes from a pair of that code.
proof fn lemma_name_has_a_pair(pairs: Seq<(Seq<char>, Seq<char>)>, code: Seq<char>) -> (at: int)
    requires
        names_of(pairs).contains_key(code),
    ensures
        0 <= at < pairs.len(),
        pairs[at] == (code, names_of(pairs)[code]),
    decreases pairs.len(),
{
    if pairs.last().0 == code {
        pairs.len() - 1
    } else {
        lemma_name_has_a_pair(pairs.drop_last(), code)
    }
}

/// Where no code occurs twice, every pair gives its code its name.
pub proof fn lemma_unique_pair_is_named(pairs: Seq<(Seq<char>, Seq<char>)>, at: int)
    requires
        0 <= at < pairs.len(),
        forall|i: int, j: int|
            0 <= i < j < pairs.len() ==> (#[trigger] pairs[i]).0 != (#[trigger] pairs[j]).0,
    ensures
        names_of(pairs).contains_key(pairs[at].0),
        names_of(pairs)[pairs[at].0] == pairs[at].1,
    decreases pairs.len(),
{
    if at < pairs.len() - 1 {
        lemma_unique_pair_is_named(pairs.drop_last(), at);
        assert(pairs[at].0 != pairs[pairs.len() - 1].0);
    }
}

} // verus!
