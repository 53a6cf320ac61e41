use ltengine::prompt::{PromptError, PromptFormat, TranslateGemma};
use ltengine::template::{is_safe, BARRED_NAMES, TOO_LONG};

/// A TranslateGemma template that ends in `code`.
fn with_code(code: &str) -> String {
    format!(
        "{{% set languages = {{\n\"de\": \"German\",\n\"en\": \"English\"\n}} %}}\
         {{% set part = messages[0].content[0] %}}\
         {{% if part.source_lang_code and part.target_lang_code %}}{code}{{% endif %}}"
    )
}

/// What `code` renders for the text `Hi`, which it reads from `part`.
fn rendered(code: &str) -> String {
    let template = with_code(code);
    assert!(is_safe(&template), "{code}");
    let tg = TranslateGemma::from_template(&template).unwrap();
    tg.render("en", "de", "Hi").unwrap()
}

/// `code` is turned away, and the built-in prompt is used.
fn turned_away(code: &str) {
    let template = with_code(code);
    assert!(!is_safe(&template), "{code}");
    assert!(
        matches!(
            TranslateGemma::from_template(&template),
            Err(PromptError::UnsafeTemplate)
        ),
        "{code}"
    );
    let format = PromptFormat::detect(Some("gemma3"), Some(&template));
    assert_eq!(format.name(), "translategemma (built-in template)");
    assert!(format.supports_language("de"));
}

#[test]
fn template_that_panics_is_turned_away() {
    turned_away("{% for m in messages %}{{ loop.cycle() }}{% endfor %}");
    turned_away("{% for m in messages %}{{ loop.cycle ( *[] ) }}{% endfor %}");
    turned_away("{{ ''[::-1] }}");
    turned_away("{{ 'abc'[0:2:-1] }}");
    turned_away("{% set step = -1 %}{{ messages[0][: :step] }}");
    turned_away("{{ messages[']'::-1] }}");
    turned_away("{{ messages['\\']' : 1 : -1] }}");
    turned_away("{{ messages[messages[0].n : 1 : -1] }}");
    turned_away("{{ messages[{'a': 1}['a'] : 1 : -1] }}");
    turned_away("{{ range(9223372036854775807, -9223372036854775807, -1) }}");
    turned_away("{{ ([1, 2] * 9223372036854775807) | list }}");
    turned_away("{{ 'a' | indent(9223372036854775807) }}");
    turned_away("{{ messages | slice(9223372036854775807) }}");
    turned_away("{{ messages | batch(9223372036854775807) }}");
    turned_away("{{ ['a'] | map('in' ~ 'dent', 9223372036854775807) }}");
    turned_away("{{ 1 is divisibleby(0) }}");
    turned_away("{{ [1] | select('divisible' ~ 'by', 0) }}");
    turned_away("{% for m in messages.0xarecursive %}{{ loop(m) }}{% endfor %}");
}

#[test]
fn list_sum_is_turned_away() {
    turned_away("{% set a = messages + messages %}");
    turned_away("{% set a = messages + ''|default(messages, true) %}");
    turned_away("{% set a = messages + 'x' is undefined|default(messages, true) %}");
    turned_away("{% set a = messages + 'x' 'y'|list %}");
    turned_away("{% set a = messages + '\\''|list %}");
    turned_away("{% set a = messages + 'x'.y|default(messages) %}");
}

#[test]
fn each_barred_name_is_turned_away() {
    for name in BARRED_NAMES {
        assert!(!is_safe(name), "{name}");
        assert!(!is_safe(&format!("{{{{ a|{name}(1) }}}}")), "{name}");
        assert!(!is_safe(&format!("a.{name}")), "{name}");
        assert!(is_safe(&format!("{{{{ {name}s }}}}")), "{name}");
        assert!(is_safe(&format!("{{{{ my_{name} }}}}")), "{name}");
        assert!(is_safe(&format!("{{{{ {name}2 }}}}")), "{name}");
    }
}

#[test]
fn long_template_is_turned_away() {
    assert!(is_safe(&"a".repeat(TOO_LONG - 1)));
    assert!(!is_safe(&"a".repeat(TOO_LONG)));
    assert!(is_safe(&"é".repeat(TOO_LONG - 1)));
}

#[test]
fn ordinary_template_is_rendered() {
    assert_eq!(rendered("{{ part.text }}"), "Hi");
    assert_eq!(rendered("{{ part['text'][1:] }}"), "i");
    assert_eq!(rendered("{{ part[\"text\"][:1] }}"), "H");
    assert_eq!(rendered("{{ part['te' ~ ['x', 'y'][0] ~ 't'] }}"), "Hi");
    assert_eq!(rendered("{{ [{'a': 1, 'b': 2}, {'a': 3, 'b': 4}][1]['b'] }}"), "4");
    assert_eq!(rendered("{{ {'a:b:c': 5}['a:b:c'] }}"), "5");
    assert_eq!(rendered("{{ '<s>' + part.text + '\\n' }}|"), "<s>Hi\n|");
    assert_eq!(rendered("{{ part.text + '\\'' }}|"), "Hi'|");
    assert_eq!(rendered("{{ part.text + \"!\" + part.text -}} ."), "Hi!Hi.");
    assert_eq!(rendered("{{ (part.text + 'x') | upper }}"), "HIX");
    assert_eq!(rendered("{{ loop_information }}mappings: {{ part is mapping }}"), "mappings: True");
    assert_eq!(
        rendered("{% for m in messages %}{{ loop.index }}{{ m.role | replace('u', 'U') | trim }}{% endfor %}"),
        "1User"
    );
}

#[test]
fn unsafe_template_is_told() {
    let template = with_code("{{ 2 * 3 }}");
    match TranslateGemma::from_template(&template) {
        Err(e) => assert_eq!(e.message(), "chat template is not safe to render"),
        Ok(_) => panic!("expected an error"),
    }
    match TranslateGemma::from_template(&with_code("{{ raise_exception('no') }}")) {
        Err(e) => {
            assert_eq!(e.message(), "chat template does not render");
            assert_eq!(
                e.report(),
                "chat template does not render: invalid operation: no (in chat:4)"
            );
        }
        Ok(_) => panic!("expected an error"),
    }
    match TranslateGemma::from_template(&with_code("{% if %}")) {
        Err(e) => assert!(e.report().starts_with("invalid chat template: syntax error")),
        Ok(_) => panic!("expected an error"),
    }
    // Without a language map the template is not looked at any further.
    assert!(matches!(
        TranslateGemma::from_template("{{ 2 * 3 }}"),
        Err(PromptError::NoLanguageMap)
    ));
}
