//! Which chat templates can be rendered.
//!
//! The template engine answers a mistake in a template with an error, and the built-in prompt
//! then takes the template's place. A few constructs make it panic instead. A template comes with
//! the model, so it is searched for them before it is compiled, and one that holds any of them is
//! treated as one that does not render.
//!
//! The search reads the text of the template as it stands, without telling its code from what it
//! prints: some templates are turned away that would have rendered, but none is let through that
//! panics, as far as memory and stack hold the template and what it renders.

use vstd::prelude::*;

use crate::text;
use crate::text::{has_part, occurs_at, right_trimmed, white_space};

verus! {

/// Characters of a template that are too many. The engine counts the columns of a line in 16
/// bits, and panics on a syntax error behind the last of them.
pub const TOO_LONG: usize = 65535;

/// Names that a template may not use.
///
/// * Functions, filters, tests and methods that panic on some arguments: `batch`, `cycle`,
///   `divisibleby`, `format`, `indent`, `range` and `slice`; and `dictsort`, `groupby` and `sort`,
///   whose order is not total.
/// * Filters that call others by a name that the template can compute: `map`, `reject`,
///   `rejectattr`, `select` and `selectattr`.
/// * `chain`, which joins lists up to a length that no list can be collected from.
/// * `debug`, which prints the state of the engine.
/// * What runs parts of a template out of order or lets a value hold itself: `block`, `call`,
///   `extends`, `import`, `macro` and `namespace`.
pub const BARRED_NAMES: [&'static str; 23] = [
    "batch",
    "block",
    "call",
    "chain",
    "cycle",
    "debug",
    "dictsort",
    "divisibleby",
    "extends",
    "format",
    "groupby",
    "import",
    "indent",
    "macro",
    "map",
    "namespace",
    "range",
    "reject",
    "rejectattr",
    "select",
    "selectattr",
    "slice",
    "sort",
];

/// A character that a name in a template is made of.
pub open spec fn name_char(c: char) -> bool {
    ||| 'a' <= c <= 'z'
    ||| 'A' <= c <= 'Z'
    ||| '0' <= c <= '9'
    ||| c == '_'
}

/// `name` stands at position `at` of `t` and is no part of a longer name.
pub open spec fn is_name_at(t: Seq<char>, name: Seq<char>, at: int) -> bool {
    &&& occurs_at(t, name, at)
    &&& at > 0 ==> !name_char(t[at - 1])
    &&& at + name.len() < t.len() ==> !name_char(t[at + name.len()])
}

/// `name` stands in `t` as a name of its own.
pub open spec fn has_name(t: Seq<char>, name: Seq<char>) -> bool {
    exists|at: int| is_name_at(t, name, at)
}

/// A character that a text literal begins and ends with.
pub open spec fn quote_mark(c: char) -> bool {
    c == '"' || c == '\''
}

/// What is left of a subscript from position `at` of `t` on names no step: at most one `:`
/// stands in it, which `colon` tells to have come. `depth` further brackets are open at `at`, and
/// `quote` is the mark of the text literal that `at` is within.
pub open spec fn names_no_step(
    t: Seq<char>,
    at: int,
    depth: nat,
    quote: Option<char>,
    colon: bool,
) -> bool
    decreases t.len() + 1 - at,
{
    if at >= t.len() {
        true
    } else {
        let c = t[at];
        match quote {
            Some(mark) => if c == '\\' {
                names_no_step(t, at + 2, depth, quote, colon)
            } else if c == mark {
                names_no_step(t, at + 1, depth, None, colon)
            } else {
                names_no_step(t, at + 1, depth, quote, colon)
            },
            None => if quote_mark(c) {
                names_no_step(t, at + 1, depth, Some(c), colon)
            } else if c == '[' || c == '(' || c == '{' {
                names_no_step(t, at + 1, depth + 1, None, colon)
            } else if c == ']' || c == ')' || c == '}' {
                depth == 0 || names_no_step(t, at + 1, (depth - 1) as nat, None, colon)
            } else if c == ':' && depth == 0 {
                !colon && names_no_step(t, at + 1, depth, None, true)
            } else {
                names_no_step(t, at + 1, depth, None, colon)
            },
        }
    }
}

/// The first position of `t` from `at` on that holds no white space.
pub open spec fn past_space(t: Seq<char>, at: int) -> int
    decreases t.len() - at,
{
    if at < t.len() && white_space(t[at]) {
        past_space(t, at + 1)
    } else {
        at
    }
}

/// The position behind the text literal that `at` is within and that `mark` ends.
pub open spec fn past_literal(t: Seq<char>, at: int, mark: char) -> int
    decreases t.len() + 1 - at,
{
    if at >= t.len() {
        at
    } else if t[at] == mark {
        at + 1
    } else if t[at] == '\\' {
        past_literal(t, at + 2, mark)
    } else {
        past_literal(t, at + 1, mark)
    }
}

/// At position `at` of `t` stands what ends an operand of a sum.
pub open spec fn ends_operand(t: Seq<char>, at: int) -> bool {
    at < t.len() && (t[at] == '+' || t[at] == '~' || t[at] == '-' || t[at] == '%' || t[at] == ','
        || t[at] == ')' || t[at] == ']' || t[at] == '}')
}

/// The `+` at position `at` of `t` has a text literal for an operand, or an operand that ends in
/// one: it adds no lists.
pub open spec fn adds_text(t: Seq<char>, at: int) -> bool {
    let before = right_trimmed(t.take(at));
    let next = past_space(t, at + 1);
    ||| before.len() > 0 && quote_mark(before.last())
    ||| next < t.len() && quote_mark(t[next]) && ends_operand(
        t,
        past_space(t, past_literal(t, next + 1, t[next])),
    )
}

/// `t` can be compiled and rendered without a panic. It is not too long; it multiplies nothing,
/// since a list can be repeated beyond what memory can address; no loop of it runs within itself;
/// it uses none of the barred names; no subscript names a step, which can be negative; and no
/// lists are added, since few sums reach a length that no list can be collected from.
pub open spec fn cannot_panic(t: Seq<char>) -> bool {
    &&& t.len() < TOO_LONG
    &&& !t.contains('*')
    &&& !has_part(t, "recursive"@)
    &&& forall|i: int| 0 <= i < BARRED_NAMES@.len() ==> !has_name(t, #[trigger] BARRED_NAMES@[i]@)
    &&& forall|at: int|
        0 <= at < t.len() && #[trigger] t[at] == '[' ==> names_no_step(t, at + 1, 0, None, false)
    &&& forall|at: int| 0 <= at < t.len() && #[trigger] t[at] == '+' ==> adds_text(t, at)
}

/// Law: a template that is long, that multiplies, or that runs a loop within itself is turned away.
pub proof fn law_constructs_that_grow_are_turned_away(t: Seq<char>)
    ensures
        t.len() >= 65535 ==> !cannot_panic(t),
        t.contains('*') ==> !cannot_panic(t),
        has_part(t, "recursive"@) ==> !cannot_panic(t),
{
}

/// Law: a template that uses a function, filter, test or statement that can panic is turned away,
/// wherever it uses it as a name of its own.
pub proof fn law_barred_names_are_turned_away(before: Seq<char>, name: Seq<char>, after: Seq<char>)
    requires
        name == "batch"@ || name == "block"@ || name == "call"@ || name == "chain"@ || name
            == "cycle"@ || name == "debug"@ || name == "dictsort"@ || name == "divisibleby"@ || name
            == "extends"@ || name == "format"@ || name == "groupby"@ || name == "import"@ || name
            == "indent"@ || name == "macro"@ || name == "map"@ || name == "namespace"@ || name
            == "range"@ || name == "reject"@ || name == "rejectattr"@ || name == "select"@ || name
            == "selectattr"@ || name == "slice"@ || name == "sort"@,
        before.len() > 0 ==> before.last() == ' ' || before.last() == '|' || before.last() == '('
            || before.last() == '.' || before.last() == '%' || before.last() == '{',
        after.len() > 0 ==> after[0] == ' ' || after[0] == '(' || after[0] == '|' || after[0] == ')'
            || after[0] == '%' || after[0] == '}',
    ensures
        !cannot_panic(before + name + after),
{
    let t = before + name + after;
    let at = before.len() as int;
    assert(t.subrange(at, at + name.len()) =~= name);
    assert(at > 0 ==> t[at - 1] == before.last());
    assert(at + name.len() < t.len() ==> t[at + name.len()] == after[0]);
    assert(is_name_at(t, name, at));
    assert(has_name(t, name));
    let i: int = if name == "batch"@ {
        0
    } else if name == "block"@ {
        1
    } else if name == "call"@ {
        2
    } else if name == "chain"@ {
        3
    } else if name == "cycle"@ {
        4
    } else if name == "debug"@ {
        5
    } else if name == "dictsort"@ {
        6
    } else if name == "divisibleby"@ {
        7
    } else if name == "extends"@ {
        8
    } else if name == "format"@ {
        9
    } else if name == "groupby"@ {
        10
    } else if name == "import"@ {
        11
    } else if name == "indent"@ {
        12
    } else if name == "macro"@ {
        13
    } else if name == "map"@ {
        14
    } else if name == "namespace"@ {
        15
    } else if name == "range"@ {
        16
    } else if name == "reject"@ {
        17
    } else if name == "rejectattr"@ {
        18
    } else if name == "select"@ {
        19
    } else if name == "selectattr"@ {
        20
    } else if name == "slice"@ {
        21
    } else {
        22
    };
    assert(BARRED_NAMES@[i]@ == name);
}

/// A character that neither opens nor closes a bracket or a text literal, nor parts a subscript.
pub open spec fn is_plain(c: char) -> bool {
    &&& c != '[' && c != '(' && c != '{' && c != ']' && c != ')' && c != '}'
    &&& !quote_mark(c)
    &&& c != ':'
}

/// Plain characters change nothing of what a subscript names.
proof fn lemma_plain_names_no_step(t: Seq<char>, at: int, n: nat, colon: bool)
    requires
        0 <= at,
        at + n <= t.len(),
        forall|k: int| at <= k < at + n ==> is_plain(#[trigger] t[k]),
    ensures
        names_no_step(t, at, 0, None, colon) == names_no_step(t, at + n, 0, None, colon),
    decreases n,
{
    if n > 0 {
        assert(is_plain(t[at]));
        lemma_plain_names_no_step(t, at + 1, (n - 1) as nat, colon);
    }
}

/// Law: a template with a subscript that names a step is turned away, whatever plain bounds it names
/// before it.
pub proof fn law_steps_are_turned_away(
    before: Seq<char>,
    from: Seq<char>,
    to: Seq<char>,
    after: Seq<char>,
)
    requires
        forall|k: int| 0 <= k < from.len() ==> is_plain(#[trigger] from[k]),
        forall|k: int| 0 <= k < to.len() ==> is_plain(#[trigger] to[k]),
    ensures
        !cannot_panic(before + seq!['['] + from + seq![':'] + to + seq![':'] + after),
{
    let t = before + seq!['['] + from + seq![':'] + to + seq![':'] + after;
    let open = before.len() as int;
    let first = open + 1 + from.len();
    let second = first + 1 + to.len();
    assert(t[open] == '[');
    assert(t[first] == ':');
    assert(t[second] == ':');
    assert forall|k: int| open + 1 <= k < first implies is_plain(#[trigger] t[k]) by {
        assert(t[k] == from[k - open - 1]);
    }
    assert forall|k: int| first + 1 <= k < second implies is_plain(#[trigger] t[k]) by {
        assert(t[k] == to[k - first - 1]);
    }
    lemma_plain_names_no_step(t, open + 1, from.len(), false);
    lemma_plain_names_no_step(t, first + 1, to.len(), true);
    assert(!names_no_step(t, open + 1, 0, None, false));
}

/// Law: a template that adds where neither operand shows that it is a text is turned away.
pub proof fn law_sums_of_lists_are_turned_away(before: Seq<char>, after: Seq<char>)
    requires
        before.len() > 0,
        !white_space(before.last()) && !quote_mark(before.last()),
        after.len() > 0,
        !white_space(after[0]) && !quote_mark(after[0]),
    ensures
        !cannot_panic(before + seq!['+'] + after),
{
    let t = before + seq!['+'] + after;
    let at = before.len() as int;
    assert(t[at] == '+');
    assert(t.take(at) =~= before);
    assert(right_trimmed(before) == before);
    assert(t[at + 1] == after[0]);
    assert(past_space(t, at + 1) == at + 1);
    assert(!adds_text(t, at));
}

/// Law: a template that has no subscript, adds and multiplies nothing, runs no loop within itself
/// and uses no barred name is let through, as far as it is not too long.
pub proof fn law_plain_templates_are_rendered(t: Seq<char>)
    requires
        t.len() < 65535,
        !t.contains('['),
        !t.contains('+'),
        !t.contains('*'),
        !has_part(t, "recursive"@),
        forall|i: int| 0 <= i < 23 ==> !has_name(t, #[trigger] BARRED_NAMES@[i]@),
    ensures
        cannot_panic(t),
{
    assert forall|at: int| 0 <= at < t.len() implies #[trigger] t[at] != '[' && t[at] != '+' by {
        assert(t.contains(t[at]));
    }
}

/// Law: a template may subscript by a text or by one bound, and may add where an operand ends or
/// begins with a text.
pub proof fn law_texts_are_added_and_named(t: Seq<char>, at: int, end: int, mark: char)
    requires
        0 <= at < end < t.len(),
        mark == '"' || mark == '\'',
    ensures
        // a key in quotation marks that holds neither them nor a backslash
        t[at] == mark && t[end - 1] == mark && at < end - 1 && t[end] == ']' && (forall|k: int|
            at < k < end - 1 ==> #[trigger] t[k] != mark && t[k] != '\\') ==> names_no_step(
            t,
            at,
            0,
            None,
            false,
        ),
        // plain characters
        t[end] == ']' && (forall|k: int| at <= k < end ==> is_plain(#[trigger] t[k]))
            ==> names_no_step(t, at, 0, None, false),
        // a text in front of the sign
        at > 0 && t[at - 1] == mark ==> adds_text(t, at),
{
    if t[at] == mark && t[end - 1] == mark && at < end - 1 && t[end] == ']' && (forall|k: int|
        at < k < end - 1 ==> #[trigger] t[k] != mark && t[k] != '\\') {
        lemma_literal_names_no_step(t, at + 1, (end - 2 - at) as nat, mark);
        assert(names_no_step(t, end - 1, 0, Some(mark), false) == names_no_step(
            t,
            end,
            0,
            None,
            false,
        ));
    }
    if t[end] == ']' && (forall|k: int| at <= k < end ==> is_plain(#[trigger] t[k])) {
        lemma_plain_names_no_step(t, at, (end - at) as nat, false);
    }
    if at > 0 && t[at - 1] == mark {
        assert(t.take(at).last() == mark);
        assert(right_trimmed(t.take(at)) == t.take(at));
    }
}

/// Law: a text behind the sign shows that texts are added only where the operand ends with it: by
/// another sign, by what ends the expression, or by what closes a bracket.
pub proof fn law_added_text_ends_the_operand(t: Seq<char>, at: int, n: nat, mark: char)
    requires
        mark == '"' || mark == '\'',
        0 < at,
        at + 3 + n < t.len(),
        !white_space(t[at - 1]) && !quote_mark(t[at - 1]),
        t[at + 1] == mark,
        forall|k: int| at + 2 <= k < at + 2 + n ==> #[trigger] t[k] != mark && t[k] != '\\',
        t[at + 2 + n] == mark,
        !white_space(t[at + 3 + n]),
    ensures
        adds_text(t, at) <==> ({
            let c = t[at + 3 + n];
            c == '+' || c == '~' || c == '-' || c == '%' || c == ',' || c == ')' || c == ']' || c
                == '}'
        }),
{
    assert(t.take(at).last() == t[at - 1]);
    assert(right_trimmed(t.take(at)) == t.take(at));
    assert(past_space(t, at + 1) == at + 1);
    lemma_past_literal(t, at + 2, n, mark);
    assert(past_literal(t, at + 2 + n, mark) == at + 3 + n);
    assert(past_space(t, at + 3 + n) == at + 3 + n);
}

/// A text literal goes on over characters that neither end it nor escape what follows.
proof fn lemma_past_literal(t: Seq<char>, at: int, n: nat, mark: char)
    requires
        0 <= at,
        at + n < t.len(),
        forall|k: int| at <= k < at + n ==> #[trigger] t[k] != mark && t[k] != '\\',
    ensures
        past_literal(t, at, mark) == past_literal(t, at + n, mark),
    decreases n,
{
    if n > 0 {
        assert(t[at] != mark);
        lemma_past_literal(t, at + 1, (n - 1) as nat, mark);
    }
}

/// What a text literal holds changes nothing of what a subscript names.
proof fn lemma_literal_names_no_step(t: Seq<char>, at: int, n: nat, mark: char)
    requires
        0 <= at,
        at + n <= t.len(),
        forall|k: int| at <= k < at + n ==> #[trigger] t[k] != mark && t[k] != '\\',
    ensures
        names_no_step(t, at, 0, Some(mark), false) == names_no_step(
            t,
            at + n,
            0,
            Some(mark),
            false,
        ),
    decreases n,
{
    if n > 0 {
        assert(t[at] != mark);
        lemma_literal_names_no_step(t, at + 1, (n - 1) as nat, mark);
    }
}

/// Whether `c` is a character that a name is made of.
fn is_name_char(c: char) -> (r: bool)
    ensures
        r == name_char(c),
{
    ('a' <= c && c <= 'z') || ('A' <= c && c <= 'Z') || ('0' <= c && c <= '9') || c == '_'
}

/// Whether `name` stands in `t` as a name of its own.
fn uses_name(t: &Vec<char>, name: &str) -> (r: bool)
    ensures
        r == has_name(t@, name@),
{
    let word = text::chars(name);
    let mut at: usize = 0;
    while at < t.len() && word.len() <= t.len() - at
        invariant
            at <= t.len(),
            word@ == name@,
            forall|k: int| 0 <= k < at ==> !is_name_at(t@, name@, k),
        decreases t.len() - at,
    {
        let end = at + word.len();
        if text::stands_at(t, &word, at) && (at == 0 || !is_name_char(t[at - 1])) && (end == t.len()
            || !is_name_char(t[end])) {
            assert(is_name_at(t@, name@, at as int));
            return true;
        }
        at = at + 1;
    }
    if at == t.len() && word.len() == 0 && (at == 0 || !is_name_char(t[at - 1])) {
        assert(t@.subrange(at as int, at as int) =~= word@);
        assert(is_name_at(t@, name@, at as int));
        return true;
    }
    assert forall|k: int| !is_name_at(t@, name@, k) by {
        if is_name_at(t@, name@, k) {
            assert(k >= at);
        }
    }
    false
}

/// Whether the subscript that begins before position `from` of `t` names no step.
fn is_plain_subscript(t: &Vec<char>, from: usize) -> (r: bool)
    requires
        t.len() < TOO_LONG,
    ensures
        r == names_no_step(t@, from as int, 0, None, false),
{
    let mut at: usize = from;
    let mut depth: usize = 0;
    let mut quote: Option<char> = None;
    let mut colon = false;
    while at < t.len()
        invariant
            t.len() < TOO_LONG,
            depth + t.len() <= at + TOO_LONG,
            names_no_step(t@, from as int, 0, None, false) == names_no_step(
                t@,
                at as int,
                depth as nat,
                quote,
                colon,
            ),
        decreases t.len() + 1 - at,
    {
        let c = t[at];
        match quote {
            Some(mark) => {
                if c == '\\' {
                    at = at + 1;
                } else if c == mark {
                    quote = None;
                }
            },
            None => {
                if c == '"' || c == '\'' {
                    quote = Some(c);
                } else if c == '[' || c == '(' || c == '{' {
                    depth = depth + 1;
                } else if c == ']' || c == ')' || c == '}' {
                    if depth == 0 {
                        return true;
                    }
                    depth = depth - 1;
                } else if c == ':' && depth == 0 {
                    if colon {
                        return false;
                    }
                    colon = true;
                }
            },
        }
        at = at + 1;
    }
    true
}

/// The first position of `t` from `from` on that holds no white space.
fn skip_space(t: &Vec<char>, from: usize) -> (r: usize)
    ensures
        r == past_space(t@, from as int),
{
    let mut at: usize = from;
    while at < t.len() && text::is_white_space(t[at])
        invariant
            past_space(t@, from as int) == past_space(t@, at as int),
        decreases t.len() - at,
    {
        at = at + 1;
    }
    at
}

/// The position behind the text literal that `from` is within and that `mark` ends.
fn skip_literal(t: &Vec<char>, from: usize, mark: char) -> (r: usize)
    requires
        t.len() < TOO_LONG,
    ensures
        r == past_literal(t@, from as int, mark),
{
    let mut at: usize = from;
    while at < t.len()
        invariant
            t.len() < TOO_LONG,
            past_literal(t@, from as int, mark) == past_literal(t@, at as int, mark),
        decreases t.len() + 1 - at,
    {
        if t[at] == mark {
            return at + 1;
        }
        if t[at] == '\\' {
            at = at + 1;
        }
        at = at + 1;
    }
    at
}

/// Whether the `+` at position `at` of `t` adds no lists.
fn is_text_sum(t: &Vec<char>, at: usize) -> (r: bool)
    requires
        at < t.len() < TOO_LONG,
    ensures
        r == adds_text(t@, at as int),
{
    let mut n: usize = at;
    while n > 0 && text::is_white_space(t[n - 1])
        invariant
            n <= at < t.len(),
            right_trimmed(t@.take(at as int)) == right_trimmed(t@.take(n as int)),
        decreases n,
    {
        assert(t@.take(n as int).drop_last() =~= t@.take(n - 1));
        n = n - 1;
    }
    assert(right_trimmed(t@.take(n as int)) == t@.take(n as int));
    if n > 0 && (t[n - 1] == '"' || t[n - 1] == '\'') {
        return true;
    }
    let next = skip_space(t, at + 1);
    if next < t.len() && (t[next] == '"' || t[next] == '\'') {
        let end = skip_space(t, skip_literal(t, next + 1, t[next]));
        end < t.len() && (t[end] == '+' || t[end] == '~' || t[end] == '-' || t[end] == '%' || t[end]
            == ',' || t[end] == ')' || t[end] == ']' || t[end] == '}')
    } else {
        false
    }
}

/// Whether a template can be compiled and rendered without a panic.
pub fn is_safe(template: &str) -> (r: bool)
    ensures
        r == cannot_panic(template@),
{
    let t = text::chars(template);
    if t.len() >= TOO_LONG || text::contains(template, "recursive") {
        return false;
    }
    let mut i: usize = 0;
    while i < 23
        invariant
            i <= 23,
            t@ == template@,
            forall|k: int| 0 <= k < i ==> !has_name(t@, #[trigger] BARRED_NAMES@[k]@),
        decreases 23 - i,
    {
        if uses_name(&t, BARRED_NAMES[i]) {
            assert(has_name(t@, BARRED_NAMES@[i as int]@));
            return false;
        }
        i = i + 1;
    }
    let mut at: usize = 0;
    while at < t.len()
        invariant
            at <= t.len() < TOO_LONG,
            t@ == template@,
            forall|k: int| 0 <= k < at ==> t@[k] != '*',
            forall|k: int|
                0 <= k < at && #[trigger] t@[k] == '[' ==> names_no_step(t@, k + 1, 0, None, false),
            forall|k: int| 0 <= k < at && #[trigger] t@[k] == '+' ==> adds_text(t@, k),
        decreases t.len() - at,
    {
        let c = t[at];
        assert(c == '*' ==> t@.contains(c));
        if c == '*' || (c == '[' && !is_plain_subscript(&t, at + 1)) || (c == '+' && !is_text_sum(
            &t,
            at,
        )) {
            return false;
        }
        at = at + 1;
    }
    true
}

} // verus!
