//! Reading settings from environment variables given as name/value pairs.
use vstd::prelude::*;
use crate::links::nonblank_trimmed;
use crate::text::{
    chars_eq, chars_of, parse_i64_chars, parse_i64_spec, parse_unsigned, parse_unsigned_chars,
    split_chars, split_on, string_of, trim_chars,
};

verus! {

/// The views of name/value pairs.
pub open spec fn env_view(vars: Seq<(String, String)>) -> Seq<(Seq<char>, Seq<char>)> {
    vars.map_values(|p: (String, String)| (p.0@, p.1@))
}

/// The value of the first variable with the given name.
pub open spec fn env_get(vars: Seq<(Seq<char>, Seq<char>)>, name: Seq<char>) -> Option<Seq<char>>
    decreases vars.len(),
{
    if vars.len() == 0 {
        None
    } else if vars[0].0 == name {
        Some(vars[0].1)
    } else {
        env_get(vars.drop_first(), name)
    }
}

/// Looks a variable up by name.
pub fn env_value<'a>(vars: &'a [(String, String)], name: &str) -> (r: Option<&'a String>)
    ensures
        match r {
            Some(v) => env_get(env_view(vars@), name@) == Some(v@),
            None => env_get(env_view(vars@), name@) is None,
        },
{
    let n = chars_of(name);
    let mut i: usize = 0;
    assert(env_view(vars@).subrange(0, vars@.len() as int) =~= env_view(vars@));
    while i < vars.len()
        invariant
            n@ == name@,
            i <= vars@.len(),
            env_get(env_view(vars@), name@) == env_get(env_view(vars@).subrange(i as int, vars@.len() as int), name@),
        decreases vars@.len() - i,
    {
        let ghost rest = env_view(vars@).subrange(i as int, vars@.len() as int);
        proof {
            assert(rest.drop_first() =~= env_view(vars@).subrange(i + 1, vars@.len() as int));
            assert(rest[0] == (vars@[i as int].0@, vars@[i as int].1@));
        }
        let k = chars_of(vars[i].0.as_str());
        if chars_eq(k.as_slice(), n.as_slice()) {
            return Some(&vars[i].1);
        }
        i = i + 1;
    }
    assert(env_view(vars@).subrange(i as int, vars@.len() as int).len() == 0);
    None
}

/// An unsigned setting: the parsed value, else `default`.
pub open spec fn unsigned_or(v: Option<Seq<char>>, max: nat, default: nat) -> nat {
    match v {
        Some(s) => match parse_unsigned(s, max) {
            Some(n) => n,
            None => default,
        },
        None => default,
    }
}

/// An unsigned setting that must be positive: the parsed value when it is
/// above zero, else `default`.
pub open spec fn positive_or(v: Option<Seq<char>>, max: nat, default: nat) -> nat {
    match v {
        Some(s) => match parse_unsigned(s, max) {
            Some(n) => if n > 0 {
                n
            } else {
                default
            },
            None => default,
        },
        None => default,
    }
}

/// A flag: set exactly when the value is `true`.
pub open spec fn flag_set(v: Option<Seq<char>>) -> bool {
    v == Some("true"@)
}

/// A text setting: the value, else `default`.
pub open spec fn text_or(v: Option<Seq<char>>, default: Seq<char>) -> Seq<char> {
    match v {
        Some(s) => s,
        None => default,
    }
}

/// Reads an unsigned setting whose type's largest value is `max`.
pub fn read_unsigned(v: Option<&String>, max: u64, default: u64, positive: bool) -> (r: u64)
    requires
        default <= max,
    ensures
        r <= max,
        r == (if positive {
            positive_or(match v {
                Some(s) => Some(s@),
                None => None,
            }, max as nat, default as nat)
        } else {
            unsigned_or(match v {
                Some(s) => Some(s@),
                None => None,
            }, max as nat, default as nat)
        }),
{
    match v {
        Some(s) => {
            let cs = chars_of(s.as_str());
            match parse_unsigned_chars(cs.as_slice(), max) {
                Some(n) => {
                    if positive && n == 0 {
                        default
                    } else {
                        n
                    }
                },
                None => default,
            }
        },
        None => default,
    }
}

/// Whether a flag is set.
pub fn read_flag(v: Option<&String>) -> (r: bool)
    ensures
        r == flag_set(match v {
            Some(s) => Some(s@),
            None => None,
        }),
{
    match v {
        Some(s) => {
            let cs = chars_of(s.as_str());
            crate::text::is_lit(cs.as_slice(), "true")
        },
        None => false,
    }
}

/// Reads a text setting.
pub fn read_text(v: Option<&String>, default: &str) -> (r: String)
    ensures
        r@ == text_or(match v {
            Some(s) => Some(s@),
            None => None,
        }, default@),
{
    match v {
        Some(s) => s.clone(),
        None => String::from_str(default),
    }
}

/// A positive `i64` setting: the parsed value when above zero, else `default`.
pub open spec fn positive_i64_or(v: Option<Seq<char>>, default: i64) -> int {
    match v {
        Some(s) => match parse_i64_spec(s) {
            Some(n) => if n > 0 {
                n
            } else {
                default as int
            },
            None => default as int,
        },
        None => default as int,
    }
}

/// Reads a positive `i64` setting.
pub fn read_positive_i64(v: Option<&String>, default: i64) -> (r: i64)
    ensures
        r == positive_i64_or(match v {
            Some(s) => Some(s@),
            None => None,
        }, default),
{
    match v {
        Some(s) => {
            let cs = chars_of(s.as_str());
            match parse_i64_chars(cs.as_slice()) {
                Some(n) => {
                    if n > 0 {
                        n
                    } else {
                        default
                    }
                },
                None => default,
            }
        },
        None => default,
    }
}

/// The trimmed, non-empty pieces of a text between `sep` characters.
pub open spec fn list_items(s: Seq<char>, sep: char) -> Seq<Seq<char>> {
    nonblank_trimmed(split_on(s, sep))
}

/// Splits a list setting.
pub fn read_list(s: &str, sep: char) -> (r: Vec<String>)
    ensures
        crate::links::string_views(r@) == list_items(s@, sep),
{
    let cs = chars_of(s);
    let pieces = split_chars(cs.as_slice(), sep);
    let ghost ps = split_on(s@, sep);
    let mut r: Vec<String> = Vec::new();
    let mut i: usize = 0;
    while i < pieces.len()
        invariant
            cs@ == s@,
            ps == split_on(cs@, sep),
            pieces@.len() == ps.len(),
            forall|j: int| 0 <= j < pieces@.len() ==> #[trigger] pieces@[j]@ == ps[j],
            i <= pieces@.len(),
            crate::links::string_views(r@) == nonblank_trimmed(ps.subrange(0, i as int)),
        decreases pieces@.len() - i,
    {
        proof {
            assert(ps.subrange(0, i + 1).drop_last() =~= ps.subrange(0, i as int));
            assert(ps.subrange(0, i + 1).last() == pieces@[i as int]@);
        }
        let t = trim_chars(pieces[i].as_slice());
        if t.len() > 0 {
            let item = string_of(t.as_slice());
            r.push(item);
            proof {
                assert(crate::links::string_views(r@) =~= nonblank_trimmed(
                    ps.subrange(0, i as int),
                ).push(t@));
            }
        }
        i = i + 1;
    }
    assert(ps.subrange(0, pieces@.len() as int) =~= ps);
    r
}

} // verus!
