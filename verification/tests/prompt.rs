use ltengine::prompt::{
    chat_prompt, gemma_fallback, is_translategemma_template, parse_language_map, render_builtin,
    PromptError, PromptFormat, TranslateGemma, BUILTIN_LANGUAGES, SYSTEM_HTML, SYSTEM_TEXT,
};

/// A chat template with a language map and a structured user message.
const TEMPLATE: &str = r#"{{- bos_token -}}
{%- set languages = {
    "ar": "Arabic",
    "az": "Azerbaijani",
    "bg": "Bulgarian",
    "bn": "Bengali",
    "ca": "Catalan",
    "cs": "Czech",
    "da": "Danish",
    "de": "German",
    "el": "Greek",
    "en": "English",
    "eo": "Esperanto",
    "es": "Spanish",
    "et": "Estonian",
    "eu": "Basque",
    "fa": "Persian",
    "fi": "Finnish",
    "fr": "French",
    "ga": "Irish",
    "gl": "Galician",
    "he": "Hebrew",
    "hi": "Hindi",
    "hu": "Hungarian",
    "id": "Indonesian",
    "it": "Italian",
    "ja": "Japanese",
    "ko": "Korean",
    "lt": "Lithuanian",
    "lv": "Latvian",
    "ms": "Malay",
    "nb": "Norwegian Bokmål",
    "nl": "Dutch",
    "pl": "Polish",
    "pt": "Portuguese",
    "pt-BR": "Portuguese",
    "ro": "Romanian",
    "ru": "Russian",
    "sk": "Slovak",
    "sl": "Slovenian",
    "sq": "Albanian",
    "sr": "Serbian",
    "sv": "Swedish",
    "th": "Thai",
    "tl": "Tagalog",
    "tr": "Turkish",
    "uk": "Ukrainian",
    "ur": "Urdu",
    "vi": "Vietnamese",
    "zh": "Chinese",
    "zh-Hans": "Chinese",
    "zh-Hant": "Chinese",
    "sw": "Swahili"
} -%}
{%- for message in messages -%}
{%- if message['role'] != 'user' -%}
{{- raise_exception('only user messages are supported') -}}
{%- endif -%}
{%- set content = message['content'][0] -%}
{%- set source = content['source_lang_code'] | replace('_', '-') -%}
{%- set target = content['target_lang_code'] | replace('_', '-') -%}
{%- if source not in languages or target not in languages -%}
{{- raise_exception('unknown language') -}}
{%- endif -%}
{%- set from = languages[source] -%}
{%- set to = languages[target] -%}
{{- '<start_of_turn>user\n' -}}
{{- 'You are a professional ' ~ from ~ ' (' ~ source ~ ') to ' ~ to ~ ' (' ~ target ~ ') translator. ' -}}
{{- 'Your goal is to accurately convey the meaning and nuances of the original ' ~ from ~ ' text ' -}}
{{- 'while adhering to ' ~ to ~ ' grammar, vocabulary, and cultural sensitivities.\n' -}}
{{- 'Produce only the ' ~ to ~ ' translation, without any additional explanations or commentary. ' -}}
{{- 'Please translate the following ' ~ from ~ ' text into ' ~ to ~ ':\n\n\n' -}}
{{- content['text'] | trim ~ '<end_of_turn>\n' -}}
{%- endfor -%}
{%- if add_generation_prompt -%}
{{- '<start_of_turn>model\n' -}}
{%- endif -%}
"#;

#[test]
fn detects_translategemma_from_gguf_template() {
    let format = PromptFormat::detect(Some("gemma3"), Some(TEMPLATE));
    assert!(matches!(format, PromptFormat::TranslateGemma(ref tg) if tg.has_template()));
    for code in ["de", "en", "uk"] {
        assert!(format.supports_language(code), "{code}");
    }
    assert!(!format.supports_language("xx"));
}

#[test]
fn plain_gemma_uses_chat_prompt() {
    let format =
        PromptFormat::detect(Some("gemma3"), Some("{{ bos_token }}<start_of_turn>user"));
    assert!(matches!(
        format,
        PromptFormat::Chat {
            gemma_fallback: true
        }
    ));
    let format = PromptFormat::detect(Some("llama"), None);
    assert!(matches!(
        format,
        PromptFormat::Chat {
            gemma_fallback: false
        }
    ));
}

#[test]
fn gguf_template_renders_native_prompt() {
    let tg = TranslateGemma::from_template(TEMPLATE).unwrap();
    let prompt = tg.render("de", "uk", "  Hallo Welt  ").unwrap();
    assert_eq!(
        prompt,
        "<start_of_turn>user\nYou are a professional German (de) to Ukrainian (uk) translator. \
         Your goal is to accurately convey the meaning and nuances of the original German text \
         while adhering to Ukrainian grammar, vocabulary, and cultural sensitivities.\n\
         Produce only the Ukrainian translation, without any additional explanations or commentary. \
         Please translate the following German text into Ukrainian:\n\n\nHallo Welt<end_of_turn>\n\
         <start_of_turn>model\n"
    );
}

#[test]
fn builtin_renderer_matches_gguf_template() {
    let gguf = TranslateGemma::from_template(TEMPLATE).unwrap();
    let builtin = TranslateGemma::builtin();
    let text = "Line one.\n\nLine <b>two</b> & \"three\" {{ not jinja }}\n";
    for (source, target) in [
        ("de", "en"),
        ("en", "de"),
        ("de", "uk"),
        ("uk", "de"),
        ("en", "uk"),
        ("uk", "en"),
        ("pt-BR", "zh-Hant"),
    ] {
        assert_eq!(
            gguf.render(source, target, text).unwrap(),
            builtin.render(source, target, text).unwrap(),
            "{source} -> {target}"
        );
    }
}

#[test]
fn builtin_languages_match_gguf_names() {
    let gguf = TranslateGemma::from_template(TEMPLATE).unwrap();
    for (code, name) in BUILTIN_LANGUAGES {
        assert_eq!(gguf.language_name(code), Some(name), "{code}");
    }
}

#[test]
fn unsupported_language_is_an_error() {
    let tg = TranslateGemma::builtin();
    assert!(tg.render("de", "tlh", "Hallo").is_err());
}

#[test]
fn unsupported_languages_are_named() {
    let tg = TranslateGemma::builtin();
    assert_eq!(
        tg.render("de", "tlh", "Hallo").unwrap_err().message(),
        "language 'tlh' is not supported by this model"
    );
    assert_eq!(
        tg.render("xx", "tlh", "Hallo").unwrap_err().message(),
        "language 'xx' is not supported by this model"
    );
}

#[test]
fn underscores_are_hyphens_in_codes() {
    let tg = TranslateGemma::builtin();
    assert_eq!(tg.language_name("pt_BR"), Some("Portuguese"));
    assert_eq!(tg.render("pt_BR", "de", "x").unwrap(), tg.render("pt-BR", "de", "x").unwrap());
    assert!(tg.render("pt_BR", "de", "x").unwrap().contains("Portuguese (pt-BR) to German (de)"));
    assert_eq!(
        render_builtin("zh_Hans", "Chinese", "de", "German", " a "),
        render_builtin("zh-Hans", "Chinese", "de", "German", "a")
    );
}

#[test]
fn template_without_language_map_is_refused() {
    let template = "source_lang_code target_lang_code";
    assert!(is_translategemma_template(template));
    assert!(matches!(
        TranslateGemma::from_template(template),
        Err(PromptError::NoLanguageMap)
    ));
    let format = PromptFormat::detect(None, Some(template));
    assert_eq!(format.name(), "translategemma (built-in template)");
    assert!(format.supports_language("de"));
}

#[test]
fn broken_template_is_refused() {
    let template = "{% set languages = {\n\"de\": \"German\",\n\"en\": \"English\"\n} %}{% if %}";
    match TranslateGemma::from_template(template) {
        Err(PromptError::InvalidTemplate(e)) => assert!(!e.is_empty()),
        other => panic!("{other:?}"),
    }
}

#[test]
fn template_that_raises_is_refused() {
    let template = "{% set languages = {\n\"de\": \"German\",\n\"en\": \"English\"\n} %}\
                    {{ raise_exception('not today') }}";
    match TranslateGemma::from_template(template) {
        Err(PromptError::DoesNotRender(e)) => assert!(e.contains("not today"), "{e}"),
        other => panic!("{other:?}"),
    }
}

#[test]
fn language_map_is_read_from_its_block() {
    let pairs = parse_language_map(
        "{% set languages = {\n  \"de\": \"German\",\n  \"x: y\nbad\n  \"en\" : \"English\"\n} %}\n\"fr\": \"French\"",
    );
    assert_eq!(
        pairs,
        vec![
            ("de".to_owned(), "German".to_owned()),
            ("en".to_owned(), "English".to_owned()),
        ]
    );
    assert!(parse_language_map("nothing").is_empty());
}

#[test]
fn formats_have_names() {
    assert_eq!(
        PromptFormat::detect(None, Some(TEMPLATE)).name(),
        "translategemma (GGUF template)"
    );
    let chat = PromptFormat::detect(Some("llama"), None);
    assert_eq!(chat.name(), "generic chat");
    assert!(!chat.translates_html_as_markdown());
    assert!(chat.supports_language("xx"));
    assert!(PromptFormat::detect(None, Some(TEMPLATE)).translates_html_as_markdown());
}

#[test]
fn chat_prompt_names_the_languages() {
    let chat = chat_prompt("text", Some("German"), "English", "Hallo");
    assert_eq!(chat.system, SYSTEM_TEXT);
    assert_eq!(
        chat.user,
        "Translate the text below from German to English.\n\nGerman: Hallo\n\nEnglish:\n"
    );
    let chat = chat_prompt("html", None, "English", "Hallo");
    assert_eq!(chat.system, SYSTEM_HTML);
    assert_eq!(
        chat.user,
        "Translate the text below to English.\n\nText: Hallo\n\nEnglish:\n"
    );
    assert_eq!(
        gemma_fallback(&chat),
        format!(
            "<start_of_turn>user\n{}\n\n{}<end_of_turn>\n<start_of_turn>model\n",
            chat.system, chat.user
        )
    );
}

#[test]
fn gemma3_without_template_gets_the_builtin_prompt() {
    let format = PromptFormat::detect(Some("gemma3"), None);
    assert_eq!(format.name(), "translategemma (built-in template)");
    assert!(format.translates_html_as_markdown());
    assert!(!format.supports_language("xx"));
    let format = PromptFormat::detect(Some("gemma2"), None);
    assert!(matches!(format, PromptFormat::Chat { gemma_fallback: true }));
    let format = PromptFormat::detect(None, None);
    assert!(matches!(format, PromptFormat::Chat { gemma_fallback: false }));
}

#[test]
fn template_sees_the_whole_message() {
    let tg = TranslateGemma::from_template(
        "{% set languages = {\n\"de\": \"German\",\n\"en\": \"English\"\n} %}\
         {{ messages | length }}|{{ messages[0].role }}|{{ messages[0].content | length }}|\
         {{ messages[0].content[0].type }}|{{ messages[0].content[0].source_lang_code }}|\
         {{ messages[0].content[0].target_lang_code }}|{{ messages[0].content[0].text }}|\
         {{ bos_token }}|{% if add_generation_prompt %}go{% endif %}",
    )
    .unwrap();
    assert_eq!(tg.render("de", "en", "Hallo").unwrap(), "1|user|1|text|de|en|Hallo||go");
}

#[test]
fn listed_languages_are_read_with_any_indent() {
    let pairs = parse_language_map(
        "{%- set languages = {\n\t \"a-b\": \"A: \"B\"\",\n\t \"c\": \"\"\n} -%}",
    );
    assert_eq!(
        pairs,
        vec![
            ("a-b".to_owned(), "A: \"B\"".to_owned()),
            ("c".to_owned(), "".to_owned()),
        ]
    );
}
