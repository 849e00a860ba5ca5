//! The text form of token identifiers and of derivation paths.
//!
//! A token identifier travels as text. It names the 32-bit number that an
//! optional `+` followed by one or more decimal digits denotes; leading zeros
//! are allowed, anything else is malformed.

use vstd::prelude::*;
use vstd::string::StringExecFns;

verus! {

pub open spec fn is_digit(c: char) -> bool {
    '0' <= c <= '9'
}

pub open spec fn digit_value(c: char) -> nat {
    (c as nat - '0' as nat) as nat
}

pub open spec fn all_digits(s: Seq<char>) -> bool {
    forall|i: int| 0 <= i < s.len() ==> is_digit(#[trigger] s[i])
}

/// The number that a string of decimal digits denotes, most significant
/// digit first.
pub open spec fn decimal_value(s: Seq<char>) -> nat
    decreases s.len(),
{
    if s.len() == 0 {
        0
    } else {
        decimal_value(s.drop_last()) * 10 + digit_value(s.last())
    }
}

/// The text without its optional leading `+`.
pub open spec fn unsigned_part(s: Seq<char>) -> Seq<char> {
    if s.len() > 0 && s[0] == '+' {
        s.subrange(1, s.len() as int)
    } else {
        s
    }
}

/// The token that a text names, if it names one.
pub open spec fn token_of(s: Seq<char>) -> Option<u32> {
    let d = unsigned_part(s);
    if d.len() > 0 && all_digits(d) && decimal_value(d) <= u32::MAX {
        Some(decimal_value(d) as u32)
    } else {
        None
    }
}

/// Reading more digits never yields a smaller number.
pub proof fn lemma_decimal_value_prefix(s: Seq<char>, k: int)
    requires
        0 <= k <= s.len(),
    ensures
        decimal_value(s.subrange(0, k)) <= decimal_value(s),
    decreases s.len() - k,
{
    if k == s.len() {
        assert(s.subrange(0, k) =~= s);
    } else {
        lemma_decimal_value_prefix(s, k + 1);
        assert(s.subrange(0, k + 1).drop_last() =~= s.subrange(0, k));
    }
}

fn digit_of(c: char) -> (r: Option<u32>)
    ensures
        r == (if is_digit(c) { Some(digit_value(c) as u32) } else { None }),
{
    if c >= '0' && c <= '9' {
        Some(c as u32 - '0' as u32)
    } else {
        None
    }
}

/// Reads a token identifier from its text form.
pub fn parse_token_id(s: &str) -> (r: Option<u32>)
    ensures
        r == token_of(s@),
{
    let n = s.unicode_len();
    if n == 0 {
        return None;
    }
    let start: usize = if s.get_char(0) == '+' { 1 } else { 0 };
    if start == n {
        return None;
    }
    let ghost d = unsigned_part(s@);
    let mut i: usize = start;
    let mut acc: u32 = 0;
    while i < n
        invariant
            start <= i <= n,
            n == s@.len(),
            d == unsigned_part(s@),
            d == s@.subrange(start as int, n as int),
            all_digits(d.subrange(0, i - start)),
            acc == decimal_value(d.subrange(0, i - start)),
        decreases n - i,
    {
        let ghost seen = d.subrange(0, i - start);
        let ghost next = d.subrange(0, i + 1 - start);
        proof {
            assert(next.drop_last() =~= seen);
            assert(next.last() == s@[i as int]);
            lemma_decimal_value_prefix(d, i + 1 - start);
        }
        let v = match digit_of(s.get_char(i)) {
            Some(v) => v,
            None => {
                assert(!is_digit(d[i - start]));
                return None;
            },
        };
        let shifted = match acc.checked_mul(10) {
            Some(x) => x,
            None => {
                return None;
            },
        };
        acc = match shifted.checked_add(v) {
            Some(x) => x,
            None => {
                return None;
            },
        };
        i += 1;
        assert(all_digits(next)) by {
            assert forall|j: int| 0 <= j < next.len() implies is_digit(#[trigger] next[j]) by {
                if j < seen.len() {
                    assert(next[j] == seen[j]);
                }
            }
        }
    }
    assert(d.subrange(0, n - start) =~= d);
    Some(acc)
}

/// The decimal digit for a number below ten.
pub open spec fn digit_char(d: nat) -> char {
    ('0' as nat + d) as char
}

/// The shortest text that names a number: its decimal digits, without sign
/// or leading zeros.
pub open spec fn decimal_text(n: nat) -> Seq<char>
    decreases n,
{
    if n < 10 {
        seq![digit_char(n)]
    } else {
        decimal_text(n / 10).push(digit_char(n % 10))
    }
}

/// The derivation path for a sub-path of a token: the token's text, a comma,
/// the sub-path.
pub open spec fn path_text(token: Seq<char>, path: Seq<char>) -> Seq<char> {
    token + seq![','] + path
}

/// The display title of a token.
pub open spec fn title_text(id: nat) -> Seq<char> {
    "Chain Key Token #"@ + decimal_text(id)
}

/// The text written for a number is made of digits and denotes that number.
pub proof fn lemma_decimal_text_value(n: nat)
    ensures
        decimal_text(n).len() > 0,
        all_digits(decimal_text(n)),
        decimal_value(decimal_text(n)) == n,
    decreases n,
{
    if n < 10 {
        let t = decimal_text(n);
        assert(t.drop_last() =~= Seq::<char>::empty());
        assert(decimal_value(t.drop_last()) == 0);
    } else {
        lemma_decimal_text_value(n / 10);
        let t = decimal_text(n);
        assert(t.drop_last() =~= decimal_text(n / 10));
    }
}

/// Writing a token identifier and reading it back gives the same token.
pub proof fn lemma_written_token_reads_back(id: u32)
    ensures
        token_of(decimal_text(id as nat)) == Some(id),
{
    lemma_decimal_text_value(id as nat);
    let t = decimal_text(id as nat);
    assert(is_digit(t[0]));
    assert(unsigned_part(t) == t);
}

/// A token identifier holds no comma.
pub proof fn lemma_token_text_has_no_comma(token: Seq<char>)
    requires
        token_of(token) is Some,
    ensures
        forall|i: int| 0 <= i < token.len() ==> token[i] != ',',
{
    let d = unsigned_part(token);
    assert forall|i: int| 0 <= i < token.len() implies token[i] != ',' by {
        if d.len() == token.len() {
            assert(is_digit(d[i]));
        } else if i > 0 {
            assert(is_digit(d[i - 1]));
            assert(d[i - 1] == token[i]);
        }
    }
}

/// Two derivation paths are the same only for the same token identifier
/// and the same sub-path: a signature asked for under one token is never
/// made with a key derived for another.
pub proof fn law_paths_do_not_collide(
    token1: Seq<char>,
    path1: Seq<char>,
    token2: Seq<char>,
    path2: Seq<char>,
)
    requires
        token_of(token1) is Some,
        token_of(token2) is Some,
        path_text(token1, path1) == path_text(token2, path2),
    ensures
        token1 == token2,
        path1 == path2,
{
    lemma_token_text_has_no_comma(token1);
    lemma_token_text_has_no_comma(token2);
    let whole1 = path_text(token1, path1);
    let whole2 = path_text(token2, path2);
    assert(whole1[token1.len() as int] == ',');
    assert(whole2[token2.len() as int] == ',');
    if token1.len() < token2.len() {
        assert(whole2[token1.len() as int] == token2[token1.len() as int]);
    }
    if token2.len() < token1.len() {
        assert(whole1[token2.len() as int] == token1[token2.len() as int]);
    }
    assert(token1 =~= token2) by {
        assert forall|i: int| 0 <= i < token1.len() implies token1[i] == token2[i] by {
            assert(whole1[i] == token1[i]);
            assert(whole2[i] == token2[i]);
        }
    }
    assert(path1 =~= path2) by {
        assert(whole1.len() == whole2.len());
        assert forall|i: int| 0 <= i < path1.len() implies path1[i] == path2[i] by {
            assert(whole1[token1.len() + 1 + i] == path1[i]);
            assert(whole2[token2.len() + 1 + i] == path2[i]);
        }
    }
}

fn digit_str(d: u32) -> (r: &'static str)
    requires
        d < 10,
    ensures
        r@ == seq![digit_char(d as nat)],
{
    proof {
        reveal_strlit("0");
        reveal_strlit("1");
        reveal_strlit("2");
        reveal_strlit("3");
        reveal_strlit("4");
        reveal_strlit("5");
        reveal_strlit("6");
        reveal_strlit("7");
        reveal_strlit("8");
        reveal_strlit("9");
    }
    let r = match d {
        0 => "0",
        1 => "1",
        2 => "2",
        3 => "3",
        4 => "4",
        5 => "5",
        6 => "6",
        7 => "7",
        8 => "8",
        _ => "9",
    };
    assert(r@ =~= seq![digit_char(d as nat)]);
    r
}

/// Writes a token identifier in its text form.
pub fn format_token_id(id: u32) -> (r: String)
    ensures
        r@ == decimal_text(id as nat),
        token_of(r@) == Some(id),
    decreases id,
{
    proof {
        lemma_written_token_reads_back(id);
    }
    if id < 10 {
        String::from_str(digit_str(id))
    } else {
        let mut s = format_token_id(id / 10);
        let ghost head = s@;
        s.append(digit_str(id % 10));
        assert(s@ =~= head.push(digit_char((id % 10) as nat)));
        s
    }
}

/// Builds the derivation path that is sent to the key-custody service.
pub fn make_path_string(token_id: &str, path: &str) -> (r: String)
    ensures
        r@ == path_text(token_id@, path@),
{
    proof {
        reveal_strlit(",");
    }
    let mut s = String::from_str(token_id);
    s.append(",");
    assert(s@ =~= token_id@ + seq![',']);
    s.append(path);
    s
}

/// Builds the display title under which a token is minted.
pub fn token_title(id: u32) -> (r: String)
    ensures
        r@ == title_text(id as nat),
{
    let mut s = String::from_str("Chain Key Token #");
    let digits = format_token_id(id);
    s.append(digits.as_str());
    s
}

} // verus!
