use vstd::prelude::*;

verus! {

/// `serde_json::Error`, carried as an opaque value.
#[verifier::external_type_specification]
#[verifier::external_body]
pub struct ExJsonError(serde_json::Error);

/// A lower-case hexadecimal digit.
pub open spec fn hex_digit(d: int) -> char {
    if d < 10 {
        (d + 48) as char
    } else {
        (d + 87) as char
    }
}

/// How one character is written inside a JSON string: `"` and `\` behind a
/// backslash; backspace, tab, line feed, form feed and carriage return as
/// `\b`, `\t`, `\n`, `\f`, `\r`; the other control characters below 0x20 as
/// `\u00XX` with lower-case hex digits; everything else as itself.
pub open spec fn json_escape(c: char) -> Seq<char> {
    if c == '"' {
        seq!['\\', '"']
    } else if c == '\\' {
        seq!['\\', '\\']
    } else if c == '\x08' {
        seq!['\\', 'b']
    } else if c == '\t' {
        seq!['\\', 't']
    } else if c == '\n' {
        seq!['\\', 'n']
    } else if c == '\x0c' {
        seq!['\\', 'f']
    } else if c == '\r' {
        seq!['\\', 'r']
    } else if (c as int) < 32 {
        seq!['\\', 'u', '0', '0', hex_digit((c as int) / 16), hex_digit((c as int) % 16)]
    } else {
        seq![c]
    }
}

/// The escaped characters of a JSON string's contents.
pub open spec fn json_escape_all(s: Seq<char>) -> Seq<char>
    decreases s.len(),
{
    if s.len() == 0 {
        Seq::empty()
    } else {
        json_escape_all(s.drop_last()) + json_escape(s.last())
    }
}

/// A string written as a JSON string literal: the escaped contents between
/// double quotes.
pub open spec fn json_string(s: Seq<char>) -> Seq<char> {
    seq!['"'] + json_escape_all(s) + seq!['"']
}

/// `serde_json::to_string` on a string slice. Its contract claims that the
/// call succeeds and gives the compact JSON string literal of `s`: serde_json
/// writes a string between double quotes, escaping bytes by its escape table
/// (`"`, `\`, the named control characters, and other bytes below 0x20 as
/// `\u00XX` in lower-case hex) and copying every other character unchanged.
#[verifier::external_body]
pub(crate) fn json_string_of(s: &str) -> (r: Result<String, serde_json::Error>)
    ensures
        r is Ok,
        r->Ok_0@ == json_string(s@),
{
    serde_json::to_string(s)
}

/// A character that JSON writes as itself.
pub open spec fn json_plain_char(c: char) -> bool {
    c != '"' && c != '\\' && (c as int) >= 32
}

/// A string without quotes, backslashes or control characters is written
/// as itself between double quotes.
pub proof fn plain_strings_are_quoted(s: Seq<char>)
    requires
        forall|k: int| 0 <= k < s.len() ==> json_plain_char(#[trigger] s[k]),
    ensures
        json_string(s) == seq!['"'] + s + seq!['"'],
{
    lemma_escape_plain(s);
}

proof fn lemma_escape_plain(s: Seq<char>)
    requires
        forall|k: int| 0 <= k < s.len() ==> json_plain_char(#[trigger] s[k]),
    ensures
        json_escape_all(s) == s,
    decreases s.len(),
{
    if s.len() > 0 {
        let t = s.drop_last();
        assert forall|k: int| 0 <= k < t.len() implies json_plain_char(#[trigger] t[k]) by {
            assert(t[k] == s[k]);
        }
        lemma_escape_plain(t);
        let c = s.last();
        assert(json_plain_char(s[s.len() - 1]));
        assert(json_escape(c) == seq![c]);
        assert(json_escape_all(s) =~= s);
    }
}

/// Strings are escaped character by character: the escape of a
/// concatenation is the concatenation of the escapes.
pub proof fn json_escape_concat(s: Seq<char>, t: Seq<char>)
    ensures
        json_escape_all(s + t) == json_escape_all(s) + json_escape_all(t),
    decreases t.len(),
{
    if t.len() == 0 {
        assert(s + t =~= s);
        assert(json_escape_all(s) + json_escape_all(t) =~= json_escape_all(s));
    } else {
        json_escape_concat(s, t.drop_last());
        assert((s + t).drop_last() =~= s + t.drop_last());
        assert((s + t).last() == t.last());
        assert(json_escape_all(s + t) =~= json_escape_all(s) + json_escape_all(t));
    }
}

/// A character is written as itself exactly when it is plain; otherwise its
/// escape starts with a backslash and is two or six characters long.
pub proof fn json_escape_shape(c: char)
    ensures
        json_plain_char(c) ==> json_escape(c) == seq![c],
        !json_plain_char(c) ==> json_escape(c)[0] == '\\' && (json_escape(c).len() == 2
            || json_escape(c).len() == 6),
{
}

/// A JSON string literal starts and ends with a double quote.
pub proof fn json_string_is_quoted(s: Seq<char>)
    ensures
        json_string(s).len() >= 2,
        json_string(s)[0] == '"',
        json_string(s).last() == '"',
{
}

} // verus!
