//! Validation of subscription-group user names.
use vstd::prelude::*;
use crate::text::{char_len_utf8, char_utf8_len, chars_of, lemma_utf8_len_concat, utf8_len};

verus! {

/// Whether a character is alphabetic or numeric in Unicode, as
/// `char::is_alphanumeric` answers.
pub uninterp spec fn unicode_alphanumeric(c: char) -> bool;

/// An ASCII letter or digit.
pub open spec fn ascii_alphanumeric(c: char) -> bool {
    ('a' <= c && c <= 'z') || ('A' <= c && c <= 'Z') || ('0' <= c && c <= '9')
}

/// `char::is_alphanumeric`: true when the character has the Unicode
/// `Alphabetic` property or a numeric general category (Nd, Nl, No).  Among
/// ASCII characters these are exactly the letters and digits; for other
/// characters only the name is stated.
#[verifier::external_body]
fn is_alphanumeric(c: char) -> (r: bool)
    ensures
        r == unicode_alphanumeric(c),
        (c as u32) < 128 ==> (r == ascii_alphanumeric(c)),
{
    c.is_alphanumeric()
}

/// A character allowed in a user name: an alphanumeric character (for ASCII,
/// a letter or a digit), `_` or `-`.
pub open spec fn username_char(c: char) -> bool {
    (if (c as u32) < 128 {
        ascii_alphanumeric(c)
    } else {
        unicode_alphanumeric(c)
    }) || c == '_' || c == '-'
}

/// A user name is 1 to 64 bytes of UTF-8, made only of alphanumeric
/// characters, `_` and `-`.
pub open spec fn valid_username(s: Seq<char>) -> bool {
    &&& s.len() > 0
    &&& utf8_len(s) <= 64
    &&& forall|i: int| 0 <= i < s.len() ==> username_char(#[trigger] s[i])
}

/// Checks a user name.
pub fn is_valid_username(username: &str) -> (r: bool)
    ensures
        r == valid_username(username@),
{
    let cs = chars_of(username);
    if cs.len() == 0 {
        return false;
    }
    let mut bytes: u64 = 0;
    let mut i: usize = 0;
    while i < cs.len()
        invariant
            cs@ == username@,
            i <= cs@.len(),
            bytes == utf8_len(cs@.subrange(0, i as int)),
            bytes <= 64,
        decreases cs@.len() - i,
    {
        proof {
            lemma_utf8_len_concat(cs@.subrange(0, i as int), seq![cs@[i as int]]);
            assert(cs@.subrange(0, i as int) + seq![cs@[i as int]] =~= cs@.subrange(0, i + 1));
            assert(utf8_len(seq![cs@[i as int]]) == char_utf8_len(cs@[i as int])) by {
                assert(seq![cs@[i as int]].drop_first() =~= Seq::<char>::empty());
                assert(utf8_len(Seq::<char>::empty()) == 0);
                assert(seq![cs@[i as int]][0] == cs@[i as int]);
            }
        }
        bytes = bytes + char_len_utf8(cs[i]);
        i = i + 1;
        if bytes > 64 {
            proof {
                lemma_utf8_len_concat(cs@.subrange(0, i as int), cs@.subrange(i as int, cs@.len() as int));
                assert(cs@.subrange(0, i as int) + cs@.subrange(i as int, cs@.len() as int) =~= cs@);
            }
            return false;
        }
    }
    assert(cs@.subrange(0, cs@.len() as int) =~= cs@);
    let mut k: usize = 0;
    while k < cs.len()
        invariant
            cs@ == username@,
            k <= cs@.len(),
            forall|j: int| 0 <= j < k ==> username_char(#[trigger] cs@[j]),
        decreases cs@.len() - k,
    {
        let c = cs[k];
        if !(is_alphanumeric(c) || c == '_' || c == '-') {
            return false;
        }
        k = k + 1;
    }
    true
}

/// Every character takes at least one byte.
pub proof fn lemma_utf8_len_at_least_len(s: Seq<char>)
    ensures
        utf8_len(s) >= s.len(),
    decreases s.len(),
{
    if s.len() > 0 {
        lemma_utf8_len_at_least_len(s.drop_first());
    }
}

/// A valid user name has between 1 and 64 characters.
pub proof fn law_valid_username_length(s: Seq<char>)
    requires
        valid_username(s),
    ensures
        1 <= s.len() <= 64,
{
    lemma_utf8_len_at_least_len(s);
}

/// A text of ASCII characters takes one byte per character.
proof fn lemma_ascii_utf8_len(s: Seq<char>)
    requires
        forall|i: int| 0 <= i < s.len() ==> (#[trigger] s[i] as u32) < 128,
    ensures
        utf8_len(s) == s.len(),
    decreases s.len(),
{
    if s.len() > 0 {
        assert forall|i: int| 0 <= i < s.drop_first().len() implies (#[trigger] s.drop_first()[i] as u32)
            < 128 by {
            assert(s.drop_first()[i] == s[i + 1]);
        }
        lemma_ascii_utf8_len(s.drop_first());
        assert((s[0] as u32) < 128);
    }
}

/// Every name of 1 to 64 ASCII letters and digits is valid, whatever
/// character it starts with; so are such names with `_` and `-` in them.
pub proof fn law_ascii_names_valid(s: Seq<char>)
    requires
        0 < s.len() <= 64,
        forall|i: int|
            0 <= i < s.len() ==> ('a' <= #[trigger] s[i] <= 'z') || ('A' <= s[i] <= 'Z') || ('0' <= s[i]
                <= '9') || s[i] == '_' || s[i] == '-',
    ensures
        valid_username(s),
{
    assert forall|i: int| 0 <= i < s.len() implies (#[trigger] s[i] as u32) < 128 by {}
    lemma_ascii_utf8_len(s);
}

/// Validity does not depend on where a character stands: two valid names
/// joined are valid while they fit in 64 bytes, and every character of a
/// valid name is allowed wherever it stands.
pub proof fn law_valid_names_join(a: Seq<char>, b: Seq<char>)
    requires
        valid_username(a),
        valid_username(b),
        utf8_len(a + b) <= 64,
    ensures
        valid_username(a + b),
        valid_username(b + a) <==> utf8_len(b + a) <= 64,
{
    lemma_utf8_len_concat(a, b);
    lemma_utf8_len_concat(b, a);
    assert forall|i: int| 0 <= i < (a + b).len() implies username_char(#[trigger] (a + b)[i]) by {
        if i < a.len() {
            assert((a + b)[i] == a[i]);
        } else {
            assert((a + b)[i] == b[i - a.len()]);
        }
    }
    assert forall|i: int| 0 <= i < (b + a).len() implies username_char(#[trigger] (b + a)[i]) by {
        if i < b.len() {
            assert((b + a)[i] == b[i]);
        } else {
            assert((b + a)[i] == a[i - b.len()]);
        }
    }
}

/// A name is refused when it is empty, longer than 64 bytes, or holds an
/// ASCII character other than a letter, a digit, `_` or `-`.
pub proof fn law_invalid_names(s: Seq<char>, i: int)
    requires
        0 <= i < s.len(),
        (s[i] as u32) < 128,
        !(('a' <= s[i] <= 'z') || ('A' <= s[i] <= 'Z') || ('0' <= s[i] <= '9') || s[i] == '_' || s[i]
            == '-'),
    ensures
        !valid_username(s),
        !valid_username(Seq::<char>::empty()),
        forall|t: Seq<char>| utf8_len(t) > 64 ==> !valid_username(t),
{
}

} // verus!
