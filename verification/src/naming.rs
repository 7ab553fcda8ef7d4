//! Names: what counts as an identifier of the emitted code, and how a name
//! taken from a schema becomes one.
//!
//! A schema name is an arbitrary string. `to_rust_varstr` turns it into a
//! snake-case identifier and `to_rust_typestr` into a camel-case one:
//!
//! * ASCII letters and digits are kept, every other character separates words;
//! * in snake case a word also starts at a capital that follows a lower-case
//!   letter or a digit, or that follows a capital and precedes a lower-case
//!   letter; words are joined by one `_` and all letters are lowered;
//! * in camel case the first character of each word is raised and the words
//!   are joined without a separator;
//! * a result that is empty or starts with a digit gets a leading `_`;
//! * a result that is a keyword, or the lone `_`, gets a trailing `_`.

use crate::text::{copy_text, push_char, same_text};
use vstd::prelude::*;

verus! {

pub open spec fn is_lower(c: char) -> bool {
    'a' <= c && c <= 'z'
}

pub open spec fn is_upper(c: char) -> bool {
    'A' <= c && c <= 'Z'
}

pub open spec fn is_digit(c: char) -> bool {
    '0' <= c && c <= '9'
}

pub open spec fn is_alnum(c: char) -> bool {
    is_lower(c) || is_upper(c) || is_digit(c)
}

/// A character that may stand in an identifier.
pub open spec fn is_ident_char(c: char) -> bool {
    is_alnum(c) || c == '_'
}

/// The lower-case form of an ASCII capital; any other character unchanged.
pub open spec fn lowered(c: char) -> char {
    if is_upper(c) {
        ((c as u8 + 32) as u8) as char
    } else {
        c
    }
}

/// The upper-case form of an ASCII lower-case letter; any other character
/// unchanged.
pub open spec fn raised(c: char) -> char {
    if is_lower(c) {
        ((c as u8 - 32) as u8) as char
    } else {
        c
    }
}

/// The words that the emitted language reserves.
pub open spec fn is_keyword(s: Seq<char>) -> bool {
    ||| s == "as"@
    ||| s == "break"@
    ||| s == "const"@
    ||| s == "continue"@
    ||| s == "crate"@
    ||| s == "else"@
    ||| s == "enum"@
    ||| s == "extern"@
    ||| s == "false"@
    ||| s == "fn"@
    ||| s == "for"@
    ||| s == "if"@
    ||| s == "impl"@
    ||| s == "in"@
    ||| s == "let"@
    ||| s == "loop"@
    ||| s == "match"@
    ||| s == "mod"@
    ||| s == "move"@
    ||| s == "mut"@
    ||| s == "pub"@
    ||| s == "ref"@
    ||| s == "return"@
    ||| s == "self"@
    ||| s == "Self"@
    ||| s == "static"@
    ||| s == "struct"@
    ||| s == "super"@
    ||| s == "trait"@
    ||| s == "true"@
    ||| s == "type"@
    ||| s == "unsafe"@
    ||| s == "use"@
    ||| s == "where"@
    ||| s == "while"@
    ||| s == "async"@
    ||| s == "await"@
    ||| s == "dyn"@
    ||| s == "abstract"@
    ||| s == "become"@
    ||| s == "box"@
    ||| s == "do"@
    ||| s == "final"@
    ||| s == "gen"@
    ||| s == "macro"@
    ||| s == "override"@
    ||| s == "priv"@
    ||| s == "try"@
    ||| s == "typeof"@
    ||| s == "unsized"@
    ||| s == "virtual"@
    ||| s == "yield"@
}

/// An identifier: letters, digits and `_`, not starting with a digit, and
/// neither the lone `_` nor a keyword.
pub open spec fn is_identifier(s: Seq<char>) -> bool {
    &&& s.len() > 0
    &&& !is_digit(s[0])
    &&& forall|i: int| 0 <= i < s.len() ==> is_ident_char(#[trigger] s[i])
    &&& s != seq!['_']
    &&& !is_keyword(s)
}

/// What one character adds to the snake-case text `acc` built so far.
pub open spec fn snake_step(acc: Seq<char>, prev: Option<char>, c: char, next: Option<char>) -> Seq<
    char,
> {
    if is_upper(c) {
        if starts_word(prev, next) {
            acc.push('_').push(lowered(c))
        } else {
            acc.push(lowered(c))
        }
    } else if is_lower(c) || is_digit(c) {
        acc.push(c)
    } else if acc.len() > 0 && acc.last() != '_' {
        acc.push('_')
    } else {
        acc
    }
}

/// Whether a capital between `prev` and `next` starts a new word.
pub open spec fn starts_word(prev: Option<char>, next: Option<char>) -> bool {
    match prev {
        Some(p) => is_lower(p) || is_digit(p) || (is_upper(p) && match next {
            Some(n) => is_lower(n),
            None => false,
        }),
        None => false,
    }
}

/// The character of `s` at `i`, if there is one.
pub open spec fn char_at(s: Seq<char>, i: int) -> Option<char> {
    if 0 <= i < s.len() {
        Some(s[i])
    } else {
        None
    }
}

/// The snake-case text of the first `n` characters of `s`.
pub open spec fn snake_prefix(s: Seq<char>, n: nat) -> Seq<char>
    decreases n,
{
    if n == 0 {
        Seq::empty()
    } else {
        snake_step(
            snake_prefix(s, (n - 1) as nat),
            char_at(s, n - 2),
            s[n - 1],
            char_at(s, n as int),
        )
    }
}

/// What the character `c` that follows `prev` adds to a camel-case text.
pub open spec fn camel_step(prev: Option<char>, c: char) -> Seq<char> {
    if !is_alnum(c) {
        Seq::empty()
    } else if prev matches Some(p) && is_alnum(p) {
        seq![c]
    } else {
        seq![raised(c)]
    }
}

/// The camel-case text of the first `n` characters of `s`.
pub open spec fn camel_prefix(s: Seq<char>, n: nat) -> Seq<char>
    decreases n,
{
    if n == 0 {
        Seq::empty()
    } else {
        camel_prefix(s, (n - 1) as nat) + camel_step(char_at(s, n - 2), s[n - 1])
    }
}

/// Makes an identifier of a text of identifier characters: `_` goes in front
/// of an empty text or a leading digit, and behind a keyword or a lone `_`.
pub open spec fn escaped(s: Seq<char>) -> Seq<char> {
    let t = if s.len() == 0 || is_digit(s[0]) {
        seq!['_'] + s
    } else {
        s
    };
    if is_keyword(t) || t == seq!['_'] {
        t.push('_')
    } else {
        t
    }
}

/// The snake-case identifier of a schema name.
pub open spec fn snake_case(s: Seq<char>) -> Seq<char> {
    escaped(snake_prefix(s, s.len()))
}

/// The camel-case identifier of a schema name.
pub open spec fn camel_case(s: Seq<char>) -> Seq<char> {
    escaped(camel_prefix(s, s.len()))
}

/// Every keyword is made of two or more ASCII letters.
pub proof fn lemma_keyword_letters(s: Seq<char>)
    requires
        is_keyword(s),
    ensures
        s.len() >= 2,
        forall|i: int| 0 <= i < s.len() ==> is_lower(#[trigger] s[i]) || is_upper(s[i]),
{
    reveal_strlit("as");
    reveal_strlit("break");
    reveal_strlit("const");
    reveal_strlit("continue");
    reveal_strlit("crate");
    reveal_strlit("else");
    reveal_strlit("enum");
    reveal_strlit("extern");
    reveal_strlit("false");
    reveal_strlit("fn");
    reveal_strlit("for");
    reveal_strlit("if");
    reveal_strlit("impl");
    reveal_strlit("in");
    reveal_strlit("let");
    reveal_strlit("loop");
    reveal_strlit("match");
    reveal_strlit("mod");
    reveal_strlit("move");
    reveal_strlit("mut");
    reveal_strlit("pub");
    reveal_strlit("ref");
    reveal_strlit("return");
    reveal_strlit("self");
    reveal_strlit("Self");
    reveal_strlit("static");
    reveal_strlit("struct");
    reveal_strlit("super");
    reveal_strlit("trait");
    reveal_strlit("true");
    reveal_strlit("type");
    reveal_strlit("unsafe");
    reveal_strlit("use");
    reveal_strlit("where");
    reveal_strlit("while");
    reveal_strlit("async");
    reveal_strlit("await");
    reveal_strlit("dyn");
    reveal_strlit("abstract");
    reveal_strlit("become");
    reveal_strlit("box");
    reveal_strlit("do");
    reveal_strlit("final");
    reveal_strlit("gen");
    reveal_strlit("macro");
    reveal_strlit("override");
    reveal_strlit("priv");
    reveal_strlit("try");
    reveal_strlit("typeof");
    reveal_strlit("unsized");
    reveal_strlit("virtual");
    reveal_strlit("yield");
}

/// Escaping a text of identifier characters gives an identifier.
pub proof fn lemma_escaped_is_identifier(s: Seq<char>)
    requires
        forall|i: int| 0 <= i < s.len() ==> is_ident_char(#[trigger] s[i]),
    ensures
        is_identifier(escaped(s)),
{
    let t = if s.len() == 0 || is_digit(s[0]) {
        seq!['_'] + s
    } else {
        s
    };
    assert(t.len() > 0 && !is_digit(t[0]));
    assert forall|i: int| 0 <= i < t.len() implies is_ident_char(#[trigger] t[i]) by {
        if s.len() == 0 || is_digit(s[0]) {
            if i > 0 {
                assert(t[i] == s[i - 1]);
            }
        }
    }
    let e = escaped(s);
    if is_keyword(t) || t == seq!['_'] {
        assert(e == t.push('_'));
        assert(e[0] == t[0]);
        assert(e.last() == '_');
        assert(e.len() >= 2);
        assert(e != seq!['_']);
        if is_keyword(e) {
            lemma_keyword_letters(e);
            assert(is_lower(e[e.len() - 1]) || is_upper(e[e.len() - 1]));
        }
        assert forall|i: int| 0 <= i < e.len() implies is_ident_char(#[trigger] e[i]) by {
            if i < t.len() {
                assert(e[i] == t[i]);
            }
        }
    }
}

/// A snake-case text holds lower-case letters, digits and `_` only.
pub proof fn lemma_snake_prefix_chars(s: Seq<char>, n: nat)
    requires
        n <= s.len(),
    ensures
        forall|i: int|
            0 <= i < snake_prefix(s, n).len() ==> {
                let c = #[trigger] snake_prefix(s, n)[i];
                is_lower(c) || is_digit(c) || c == '_'
            },
    decreases n,
{
    if n > 0 {
        lemma_snake_prefix_chars(s, (n - 1) as nat);
        let acc = snake_prefix(s, (n - 1) as nat);
        let out = snake_prefix(s, n);
        let c = s[n - 1];
        assert(is_upper(c) ==> is_lower(lowered(c)));
        assert forall|i: int| 0 <= i < out.len() implies {
            let d = #[trigger] out[i];
            is_lower(d) || is_digit(d) || d == '_'
        } by {
            if i < acc.len() {
                assert(out[i] == acc[i]);
            }
        }
    }
}

/// A camel-case text holds letters and digits only.
pub proof fn lemma_camel_prefix_chars(s: Seq<char>, n: nat)
    requires
        n <= s.len(),
    ensures
        forall|i: int| 0 <= i < camel_prefix(s, n).len() ==> is_alnum(#[trigger] camel_prefix(s, n)[i]),
    decreases n,
{
    if n > 0 {
        lemma_camel_prefix_chars(s, (n - 1) as nat);
        let acc = camel_prefix(s, (n - 1) as nat);
        let out = camel_prefix(s, n);
        let c = s[n - 1];
        assert(is_lower(c) ==> is_upper(raised(c)));
        assert forall|i: int| 0 <= i < out.len() implies is_alnum(#[trigger] out[i]) by {
            if i < acc.len() {
                assert(out[i] == acc[i]);
            }
        }
    }
}

/// Whatever the schema name, its snake-case form is an identifier.
pub proof fn lemma_snake_case_is_identifier(s: Seq<char>)
    ensures
        is_identifier(snake_case(s)),
{
    lemma_snake_prefix_chars(s, s.len());
    lemma_escaped_is_identifier(snake_prefix(s, s.len()));
}

/// Whatever the schema name, its camel-case form is an identifier.
pub proof fn lemma_camel_case_is_identifier(s: Seq<char>)
    ensures
        is_identifier(camel_case(s)),
{
    lemma_camel_prefix_chars(s, s.len());
    lemma_escaped_is_identifier(camel_prefix(s, s.len()));
}

fn lower_char(c: char) -> (is: bool)
    ensures
        is == is_lower(c),
{
    'a' <= c && c <= 'z'
}

fn upper_char(c: char) -> (is: bool)
    ensures
        is == is_upper(c),
{
    'A' <= c && c <= 'Z'
}

fn digit_char(c: char) -> (is: bool)
    ensures
        is == is_digit(c),
{
    '0' <= c && c <= '9'
}

fn to_lower(c: char) -> (low: char)
    ensures
        low == lowered(c),
{
    if upper_char(c) {
        let code: u8 = c as u8;
        (code + 32) as char
    } else {
        c
    }
}

fn to_upper(c: char) -> (up: char)
    ensures
        up == raised(c),
{
    if lower_char(c) {
        let code: u8 = c as u8;
        (code - 32) as char
    } else {
        c
    }
}

/// Whether `s` is a keyword.
pub fn keyword(s: &str) -> (is: bool)
    ensures
        is == is_keyword(s@),
{
    same_text(s, "as") || same_text(s, "break") || same_text(s, "const") || same_text(
        s,
        "continue",
    ) || same_text(s, "crate") || same_text(s, "else") || same_text(s, "enum") || same_text(
        s,
        "extern",
    ) || same_text(s, "false") || same_text(s, "fn") || same_text(s, "for") || same_text(s, "if")
        || same_text(s, "impl") || same_text(s, "in") || same_text(s, "let") || same_text(
        s,
        "loop",
    ) || same_text(s, "match") || same_text(s, "mod") || same_text(s, "move") || same_text(
        s,
        "mut",
    ) || same_text(s, "pub") || same_text(s, "ref") || same_text(s, "return") || same_text(
        s,
        "self",
    ) || same_text(s, "Self") || same_text(s, "static") || same_text(s, "struct") || same_text(
        s,
        "super",
    ) || same_text(s, "trait") || same_text(s, "true") || same_text(s, "type") || same_text(
        s,
        "unsafe",
    ) || same_text(s, "use") || same_text(s, "where") || same_text(s, "while") || same_text(
        s,
        "async",
    ) || same_text(s, "await") || same_text(s, "dyn") || same_text(s, "abstract") || same_text(
        s,
        "become",
    ) || same_text(s, "box") || same_text(s, "do") || same_text(s, "final") || same_text(s, "gen")
        || same_text(s, "macro") || same_text(s, "override") || same_text(s, "priv") || same_text(
        s,
        "try",
    ) || same_text(s, "typeof") || same_text(s, "unsized") || same_text(s, "virtual")
        || same_text(s, "yield")
}

/// Whether `s` is an identifier.
pub fn is_ident(s: &str) -> (is: bool)
    ensures
        is == is_identifier(s@),
{
    let n = s.unicode_len();
    if n == 0 {
        return false;
    }
    if digit_char(s.get_char(0)) {
        return false;
    }
    let mut i: usize = 0;
    while i < n
        invariant
            i <= n,
            n == s@.len(),
            forall|k: int| 0 <= k < i ==> is_ident_char(#[trigger] s@[k]),
        decreases n - i,
    {
        let c = s.get_char(i);
        if !(lower_char(c) || upper_char(c) || digit_char(c) || c == '_') {
            return false;
        }
        i += 1;
    }
    if n == 1 && s.get_char(0) == '_' {
        assert(s@ =~= seq!['_']);
        return false;
    }
    assert(s@ != seq!['_']) by {
        if s@ == seq!['_'] {
            assert(s@.len() == 1 && s@[0] == '_');
        }
    }
    !keyword(s)
}

/// The identifier that `s` spells, if it spells one.
pub fn to_ident(s: &str) -> (ident: Option<String>)
    ensures
        match ident {
            Some(name) => is_identifier(s@) && name@ == s@,
            None => !is_identifier(s@),
        },
{
    if is_ident(s) {
        Some(copy_text(s))
    } else {
        None
    }
}

/// Escapes a text of identifier characters.
fn escape(text: String) -> (ident: String)
    ensures
        ident@ == escaped(text@),
{
    let n = text.as_str().unicode_len();
    let mut t: String;
    if n == 0 || digit_char(text.as_str().get_char(0)) {
        t = String::new();
        push_char(&mut t, '_');
        t.append(text.as_str());
        assert(t@ =~= seq!['_'] + text@);
    } else {
        t = text;
    }
    let m = t.as_str().unicode_len();
    let lone = m == 1 && t.as_str().get_char(0) == '_';
    proof {
        if lone {
            assert(t@ =~= seq!['_']);
        }
        if t@ == seq!['_'] {
            assert(t@.len() == 1 && t@[0] == '_');
        }
    }
    if lone || keyword(t.as_str()) {
        push_char(&mut t, '_');
    }
    t
}

/// The snake-case identifier of a schema name: `fileId` gives `file_id`.
pub fn to_rust_varstr(name: &str) -> (ident: String)
    ensures
        ident@ == snake_case(name@),
        is_identifier(ident@),
{
    let n = name.unicode_len();
    let mut out = String::new();
    let mut prev: Option<char> = None;
    let mut open = false;
    let mut i: usize = 0;
    while i < n
        invariant
            i <= n,
            n == name@.len(),
            out@ == snake_prefix(name@, i as nat),
            prev == char_at(name@, i - 1),
            open == (out@.len() > 0 && out@.last() != '_'),
        decreases n - i,
    {
        let c = name.get_char(i);
        let ghost next = char_at(name@, i + 1);
        if upper_char(c) {
            let boundary = match prev {
                Some(p) => lower_char(p) || digit_char(p) || (upper_char(p) && i + 1 < n
                    && lower_char(name.get_char(i + 1))),
                None => false,
            };
            assert(boundary == starts_word(prev, next));
            if boundary {
                push_char(&mut out, '_');
            }
            push_char(&mut out, to_lower(c));
            assert(is_lower(lowered(c)));
            open = true;
        } else if lower_char(c) || digit_char(c) {
            push_char(&mut out, c);
            open = true;
        } else if open {
            push_char(&mut out, '_');
            open = false;
        }
        prev = Some(c);
        i += 1;
    }
    proof {
        lemma_snake_case_is_identifier(name@);
    }
    escape(out)
}

/// The camel-case identifier of a schema name: `file_id` gives `FileId`.
pub fn to_rust_typestr(name: &str) -> (ident: String)
    ensures
        ident@ == camel_case(name@),
        is_identifier(ident@),
{
    let n = name.unicode_len();
    let mut out = String::new();
    let mut inside = false;
    let mut i: usize = 0;
    while i < n
        invariant
            i <= n,
            n == name@.len(),
            out@ == camel_prefix(name@, i as nat),
            inside == (char_at(name@, i - 1) matches Some(p) && is_alnum(p)),
        decreases n - i,
    {
        let c = name.get_char(i);
        let ghost before = out@;
        if lower_char(c) || upper_char(c) || digit_char(c) {
            if inside {
                push_char(&mut out, c);
            } else {
                push_char(&mut out, to_upper(c));
            }
            inside = true;
        } else {
            inside = false;
        }
        assert(out@ =~= before + camel_step(char_at(name@, i - 1), c));
        i += 1;
    }
    proof {
        lemma_camel_case_is_identifier(name@);
    }
    escape(out)
}

} // verus!
