//! Property keys and constant-pool string keys.
//!
//! The constant pool holds strings in key encoding: every character stands
//! for itself except U+FFFD, which introduces a marker (U+FFFD followed by
//! four hex digits for a lone surrogate unit, `fffd` for a real U+FFFD).
//! Plain text therefore escapes each real U+FFFD; string literal values that
//! carry lone-surrogate markers are already in key form.
use vstd::prelude::*;
use vstd::string::StringExecFns;
use crate::ast::{Expression, PropertyKey};

verus! {

/// The replacement character U+FFFD.
pub open spec fn replacement_char() -> char {
    '\u{FFFD}'
}

/// How a real U+FFFD is written in key encoding.
pub open spec fn escaped_replacement() -> Seq<char> {
    seq!['\u{FFFD}', 'f', 'f', 'f', 'd']
}

/// The key encoding of plain text.
pub open spec fn plain_key(s: Seq<char>) -> Seq<char>
    decreases s.len(),
{
    if s.len() == 0 {
        Seq::empty()
    } else {
        plain_key(s.drop_last()) + if s.last() == replacement_char() {
            escaped_replacement()
        } else {
            seq![s.last()]
        }
    }
}

/// `plain_key` distributes over concatenation.
pub proof fn lemma_plain_key_concat(a: Seq<char>, b: Seq<char>)
    ensures
        plain_key(a + b) == plain_key(a) + plain_key(b),
    decreases b.len(),
{
    if b.len() == 0 {
        assert(a + b =~= a);
        assert(plain_key(b) =~= Seq::<char>::empty());
        assert(plain_key(a) + plain_key(b) =~= plain_key(a));
    } else {
        assert((a + b).drop_last() =~= a + b.drop_last());
        assert((a + b).last() == b.last());
        lemma_plain_key_concat(a, b.drop_last());
        let t = if b.last() == replacement_char() {
            escaped_replacement()
        } else {
            seq![b.last()]
        };
        assert(plain_key(a) + plain_key(b.drop_last()) + t =~= plain_key(a) + (plain_key(b.drop_last()) + t));
    }
}

/// Text without U+FFFD is its own key.
pub proof fn lemma_plain_key_identity(s: Seq<char>)
    requires
        !s.contains(replacement_char()),
    ensures
        plain_key(s) == s,
    decreases s.len(),
{
    if s.len() > 0 {
        assert(!s.drop_last().contains(replacement_char())) by {
            if s.drop_last().contains(replacement_char()) {
                let k = choose|k: int| 0 <= k < s.drop_last().len() && s.drop_last()[k] == replacement_char();
                assert(s[k] == replacement_char());
            }
        }
        lemma_plain_key_identity(s.drop_last());
        assert(s[s.len() - 1] != replacement_char());
        assert(s.drop_last() + seq![s.last()] =~= s);
    }
}

/// The pool key of plain text (identifiers, numbers, source slices): each
/// real U+FFFD is escaped as U+FFFD followed by `fffd`; every other
/// character stands for itself.
#[verifier::loop_isolation(false)]
pub fn pool_key_plain(text: &str) -> (k: String)
    ensures
        k@ == plain_key(text@),
{
    proof {
        reveal_strlit("\u{FFFD}fffd");
    }
    let n = text.unicode_len();
    let mut out = String::from_str("");
    proof {
        reveal_strlit("");
    }
    let mut start: usize = 0;
    let mut i: usize = 0;
    assert(text@.take(0) =~= Seq::<char>::empty());
    while i < n
        invariant
            n == text@.len(),
            start <= i <= n,
            out@ + text@.subrange(start as int, i as int) == plain_key(text@.take(i as int)),
            forall|j: int| start <= j < i ==> text@[j] != replacement_char(),
        decreases n - i,
    {
        let c = text.get_char(i);
        proof {
            assert(text@.take(i + 1).drop_last() =~= text@.take(i as int));
            assert(text@.take(i + 1).last() == c);
        }
        if c == '\u{FFFD}' {
            let piece = text.substring_char(start, i);
            let ghost before = out@;
            out.append(piece);
            out.append("\u{FFFD}fffd");
            assert(out@ =~= before + text@.subrange(start as int, i as int) + escaped_replacement());
            start = i + 1;
            assert(text@.subrange(start as int, (i + 1) as int) =~= Seq::<char>::empty());
        } else {
            assert(text@.subrange(start as int, (i + 1) as int) =~= text@.subrange(start as int, i as int).push(c));
        }
        i += 1;
    }
    let rest = text.substring_char(start, n);
    out.append(rest);
    assert(text@.take(n as int) =~= text@);
    out
}

/// The pool key of a string literal value: a value that carries
/// lone-surrogate markers is already a key; any other value is plain text.
pub open spec fn marker_key(s: Seq<char>, lone_surrogates: bool) -> Seq<char> {
    if lone_surrogates {
        s
    } else {
        plain_key(s)
    }
}

/// Pool key of a string literal value according to its marker flag.
pub fn pool_key_marker(text: &str, lone_surrogates: bool) -> (k: String)
    ensures
        k@ == marker_key(text@, lone_surrogates),
{
    if lone_surrogates {
        text.to_owned()
    } else {
        pool_key_plain(text)
    }
}

/// The text of a property key as a class property name or pool key, by kind.
pub open spec fn key_text(key: PropertyKey) -> Option<Seq<char>> {
    match key {
        PropertyKey::StaticIdentifier(name) => Some(plain_key(name@)),
        PropertyKey::StringLiteral(s) => Some(marker_key(s.value@, s.lone_surrogates)),
        PropertyKey::NumericLiteral(text) => Some(plain_key(text@)),
        _ => None,
    }
}

/// The pool key of a non-computed property key. Private names and computed
/// keys are refused.
pub fn pool_key_property(key: &PropertyKey) -> (r: Result<String, String>)
    ensures
        match r {
            Ok(k) => key_text(*key) == Some(k@),
            Err(e) => key_text(*key) is None && e@ == (if key is PrivateIdentifier {
                "private class elements not yet supported"@
            } else {
                "unsupported class property key type"@
            }),
        },
{
    match key {
        PropertyKey::StaticIdentifier(name) => Ok(pool_key_plain(name.as_str())),
        PropertyKey::StringLiteral(s) => Ok(pool_key_marker(s.value.as_str(), s.lone_surrogates)),
        PropertyKey::NumericLiteral(text) => Ok(pool_key_plain(text.as_str())),
        PropertyKey::PrivateIdentifier(_) => Err(String::from_str("private class elements not yet supported")),
        PropertyKey::Computed(_) => Err(String::from_str("unsupported class property key type")),
    }
}

/// The literal name of a non-computed property key (identifier, string value
/// or number text), without key encoding.
pub open spec fn literal_key_name(key: PropertyKey) -> Option<Seq<char>> {
    match key {
        PropertyKey::StaticIdentifier(name) => Some(name@),
        PropertyKey::StringLiteral(s) => Some(s.value@),
        PropertyKey::NumericLiteral(text) => Some(text@),
        _ => None,
    }
}

/// The name of a class property key. Private names and computed keys are refused.
pub fn class_property_name(key: &PropertyKey) -> (r: Result<String, String>)
    ensures
        match r {
            Ok(k) => literal_key_name(*key) == Some(k@),
            Err(e) => literal_key_name(*key) is None && e@ == (if key is PrivateIdentifier {
                "private class elements not yet supported"@
            } else {
                "unsupported class property key type"@
            }),
        },
{
    match key {
        PropertyKey::StaticIdentifier(name) => Ok(name.clone()),
        PropertyKey::StringLiteral(s) => Ok(s.value.clone()),
        PropertyKey::NumericLiteral(text) => Ok(text.clone()),
        PropertyKey::PrivateIdentifier(_) => Err(String::from_str("private class elements not yet supported")),
        PropertyKey::Computed(_) => Err(String::from_str("unsupported class property key type")),
    }
}

/// The name of a destructuring key. Private names and computed keys are refused.
pub fn static_property_name(key: &PropertyKey) -> (r: Result<String, String>)
    ensures
        match r {
            Ok(k) => literal_key_name(*key) == Some(k@),
            Err(e) => literal_key_name(*key) is None && e@ == "computed destructuring keys not yet supported"@,
        },
{
    match key {
        PropertyKey::StaticIdentifier(name) => Ok(name.clone()),
        PropertyKey::StringLiteral(s) => Ok(s.value.clone()),
        PropertyKey::NumericLiteral(text) => Ok(text.clone()),
        _ => Err(String::from_str("computed destructuring keys not yet supported")),
    }
}

/// `c` is an ASCII decimal digit.
pub open spec fn is_digit(c: char) -> bool {
    '0' <= c && c <= '9'
}

/// The value of a string of decimal digits.
pub open spec fn digits_value(s: Seq<char>) -> int
    decreases s.len(),
{
    if s.len() == 0 {
        0
    } else {
        digits_value(s.drop_last()) * 10 + (s.last() as int - '0' as int)
    }
}

/// A canonical array index: a non-empty string of decimal digits without a
/// leading zero (other than `0` itself) whose value fits in 32 bits.
pub open spec fn array_index_key(s: Seq<char>) -> bool {
    &&& s.len() > 0
    &&& (s.len() == 1 || s[0] != '0')
    &&& forall|i: int| 0 <= i < s.len() ==> is_digit(#[trigger] s[i])
    &&& digits_value(s) <= u32::MAX
}

/// The value of a digit string never falls below that of its prefixes.
proof fn lemma_digits_value_monotone(s: Seq<char>, k: int)
    requires
        0 <= k <= s.len(),
        forall|i: int| 0 <= i < s.len() ==> is_digit(#[trigger] s[i]),
    ensures
        digits_value(s.take(k)) <= digits_value(s),
        digits_value(s) >= 0,
    decreases s.len(),
{
    if s.len() > 0 {
        assert(forall|i: int| 0 <= i < s.drop_last().len() ==> is_digit(#[trigger] s.drop_last()[i])) by {
            assert forall|i: int| 0 <= i < s.drop_last().len() implies is_digit(#[trigger] s.drop_last()[i]) by {
                assert(s.drop_last()[i] == s[i]);
            }
        }
        assert(is_digit(s[s.len() - 1]));
        if k == s.len() {
            assert(s.take(k) =~= s);
            lemma_digits_value_monotone(s.drop_last(), 0);
        } else {
            assert(s.take(k) =~= s.drop_last().take(k));
            lemma_digits_value_monotone(s.drop_last(), k);
        }
    } else {
        assert(s.take(k) =~= s);
    }
}

/// Whether a property key string is a canonical array index (such keys live
/// in an array's element area, not in its shape).
pub fn is_array_index_str(s: &str) -> (r: bool)
    ensures
        r == array_index_key(s@),
{
    let n = s.unicode_len();
    if n == 0 {
        return false;
    }
    if n > 1 && s.get_char(0) == '0' {
        return false;
    }
    let mut value: u64 = 0;
    let mut i: usize = 0;
    assert(s@.take(0) =~= Seq::<char>::empty());
    while i < n
        invariant
            n == s@.len(),
            n > 0,
            n == 1 || s@[0] != '0',
            i <= n,
            value == digits_value(s@.take(i as int)),
            value <= u32::MAX,
            forall|j: int| 0 <= j < i ==> is_digit(#[trigger] s@[j]),
        decreases n - i,
    {
        let c = s.get_char(i);
        if !('0' <= c && c <= '9') {
            return false;
        }
        proof {
            assert(s@.take(i + 1).drop_last() =~= s@.take(i as int));
            assert(s@.take(i + 1).last() == c);
        }
        let d: u64 = (c as u32 - '0' as u32) as u64;
        value = value * 10 + d;
        if value > 4294967295u64 {
            proof {
                assert forall|j: int| 0 <= j < s@.take(i + 1).len() implies is_digit(#[trigger] s@.take(i + 1)[j]) by {
                    assert(s@.take(i + 1)[j] == s@[j]);
                }
                if forall|j: int| 0 <= j < s@.len() ==> is_digit(#[trigger] s@[j]) {
                    lemma_digits_value_monotone(s@, i + 1);
                }
            }
            return false;
        }
        i += 1;
    }
    assert(s@.take(n as int) =~= s@);
    true
}

/// The constant text of a computed member key, when it can take the static
/// path: a string literal, or a template with one quasi and no expression;
/// a canonical array index is left dynamic.
pub open spec fn const_key(e: Expression) -> Option<Seq<char>> {
    let key = match e {
        Expression::StringLiteral(s) => Some(s.value@),
        Expression::TemplateLiteral(tl) => if tl.expressions.len() == 0 && tl.quasis.len() == 1 {
            Some(
                match tl.quasis@[0] {
                    Some(c) => c@,
                    None => Seq::empty(),
                },
            )
        } else {
            None
        },
        _ => None,
    };
    match key {
        Some(k) => if array_index_key(k) {
            None
        } else {
            Some(k)
        },
        None => None,
    }
}

/// The constant string key of a computed member expression's key, if it has one.
pub fn computed_const_key(expr: &Expression) -> (r: Option<String>)
    ensures
        match r {
            Some(k) => const_key(*expr) == Some(k@),
            None => const_key(*expr) is None,
        },
{
    let key = match expr {
        Expression::StringLiteral(s) => s.value.clone(),
        Expression::TemplateLiteral(tl) => {
            if tl.expressions.len() == 0 && tl.quasis.len() == 1 {
                match &tl.quasis[0] {
                    Some(c) => c.clone(),
                    None => {
                        let e = String::new();
                        assert(e@ =~= Seq::<char>::empty());
                        e
                    },
                }
            } else {
                return None;
            }
        },
        _ => return None,
    };
    if is_array_index_str(key.as_str()) {
        None
    } else {
        Some(key)
    }
}

} // verus!
