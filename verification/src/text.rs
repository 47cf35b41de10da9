//! Identifier text: case folding, comparison and the few names that are built at run time.
use vstd::prelude::*;

verus! {

/// The character with an ASCII upper-case letter replaced by its lower-case form.
pub open spec fn ascii_lower_char(c: char) -> char {
    if 'A' <= c && c <= 'Z' {
        ((c as int) + 32) as char
    } else {
        c
    }
}

/// The text with every ASCII upper-case letter replaced by its lower-case form.
pub open spec fn ascii_lower(s: Seq<char>) -> Seq<char> {
    s.map_values(|c: char| ascii_lower_char(c))
}

/// Two texts are the same but for the case of ASCII letters.
pub open spec fn same_name(a: Seq<char>, b: Seq<char>) -> bool {
    ascii_lower(a) == ascii_lower(b)
}

/// What `str::to_lowercase` returns for a text.
pub uninterp spec fn lowercase(s: Seq<char>) -> Seq<char>;

/// `str::to_lowercase` maps every character by the Unicode lower-case tables. The result
/// depends on the text alone; the tables themselves are not restated here.
pub assume_specification[ str::to_lowercase ](s: &str) -> (r: String)
    ensures
        r@ == lowercase(s@),
;

/// `str::eq_ignore_ascii_case` compares two texts as if both had their ASCII upper-case letters
/// replaced by the lower-case ones; all other characters count as they are.
pub assume_specification[ str::eq_ignore_ascii_case ](s: &str, other: &str) -> (r: bool)
    ensures
        r == same_name(s@, other@),
;

/// The form under which identifiers are looked up. Quotes are gone by the time an identifier is
/// a [`Name`](crate::ast::Name), so only its case is left to fold.
pub fn normalize_ident(identifier: &str) -> (r: String)
    ensures
        r@ == lowercase(identifier@),
{
    identifier.to_lowercase()
}

/// The decimal digit `d`.
pub open spec fn digit(d: nat) -> char {
    ('0' as int + d as int) as char
}

/// The decimal numeral of `n`, without leading zeros.
pub open spec fn decimal(n: nat) -> Seq<char>
    decreases n,
{
    if n < 10 {
        seq![digit(n)]
    } else {
        decimal(n / 10).push(digit(n % 10))
    }
}

/// The `Display` of `turso_parser::ast::TableInternalId`, whose source writes the letter `t` and
/// then the number in decimal.
#[verifier::external_body]
pub(crate) fn table_id_text(id: usize) -> (r: String)
    ensures
        r@ == "t"@ + decimal(id as nat),
{
    turso_parser::ast::TableInternalId::from(id).to_string()
}

/// `prefix` followed by `suffix`.
pub fn joined(prefix: &str, suffix: &str) -> (r: String)
    ensures
        r@ == prefix@ + suffix@,
{
    let mut text = prefix.to_owned();
    text.append(suffix);
    text
}

} // verus!
