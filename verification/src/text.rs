//! Small verified building blocks for text: decimal rendering of ids,
//! path joining, prefix/suffix tests and membership in a list of names.

use vstd::prelude::*;
use vstd::string::*;

verus! {

/// The character for a single decimal digit.
pub open spec fn digit_char(d: nat) -> char {
    if d == 0 {
        '0'
    } else if d == 1 {
        '1'
    } else if d == 2 {
        '2'
    } else if d == 3 {
        '3'
    } else if d == 4 {
        '4'
    } else if d == 5 {
        '5'
    } else if d == 6 {
        '6'
    } else if d == 7 {
        '7'
    } else if d == 8 {
        '8'
    } else {
        '9'
    }
}

/// The decimal representation of `n`, most significant digit first,
/// with no leading zeros (a single `'0'` for zero).
pub open spec fn dec_digits(n: nat) -> Seq<char>
    decreases n,
{
    if n < 10 {
        seq![digit_char(n)]
    } else {
        dec_digits(n / 10).push(digit_char(n % 10))
    }
}

fn digit_of(d: u32) -> (c: char)
    requires
        d < 10,
    ensures
        c == digit_char(d as nat),
{
    match d {
        0 => '0',
        1 => '1',
        2 => '2',
        3 => '3',
        4 => '4',
        5 => '5',
        6 => '6',
        7 => '7',
        8 => '8',
        _ => '9',
    }
}

/// Relies on `String::push` of std: appends exactly the given character.
#[verifier::external_body]
pub(crate) fn push_char(s: &mut String, c: char)
    ensures
        final(s)@ == old(s)@.push(c),
{
    s.push(c);
}

/// Renders `n` in decimal, exactly as the display of an unsigned integer does.
pub fn u32_to_dec(n: u32) -> (s: String)
    ensures
        s@ == dec_digits(n as nat),
    decreases n,
{
    if n < 10 {
        let mut s = String::new();
        push_char(&mut s, digit_of(n));
        proof {
            assert(s@ =~= dec_digits(n as nat));
        }
        s
    } else {
        let mut s = u32_to_dec(n / 10);
        push_char(&mut s, digit_of(n % 10));
        s
    }
}

/// What joining a relative entry `b` onto a directory path `a` yields:
/// the two parts with a single `'/'` between them.
pub open spec fn join_path_spec(a: Seq<char>, b: Seq<char>) -> Seq<char> {
    if a.len() == 0 {
        b
    } else if a.last() == '/' {
        a + b
    } else {
        a + seq!['/'] + b
    }
}

/// Joins a relative entry onto a directory path with a `'/'` separator.
pub fn join_path(a: &str, b: &str) -> (r: String)
    ensures
        r@ == join_path_spec(a@, b@),
{
    let alen = a.unicode_len();
    if alen == 0 {
        return b.to_owned();
    }
    let last = a.get_char(alen - 1);
    let mut s = a.to_owned();
    if last != '/' {
        push_char(&mut s, '/');
        proof {
            assert(s@ =~= a@ + seq!['/']);
        }
    }
    s.append(b);
    proof {
        assert(s@ =~= join_path_spec(a@, b@));
    }
    s
}

/// Whether one of the names in `keys` is exactly `x`.
pub open spec fn seq_has(keys: Seq<Seq<char>>, x: Seq<char>) -> bool {
    exists|i: int| 0 <= i < keys.len() && keys[i] == x
}

/// Membership of a name in a list of names, by content.
pub fn vec_has_string(v: &Vec<String>, s: &String) -> (b: bool)
    ensures
        b == seq_has(v.deep_view(), s@),
{
    let n = v.len();
    for i in 0..n
        invariant
            n == v.len(),
            forall|j: int| 0 <= j < i ==> v.deep_view()[j] != s@,
    {
        if v[i].eq(s) {
            assert(v.deep_view()[i as int] == s@);
            return true;
        }
    }
    false
}

/// Whether `p` is a prefix of `s`.
pub open spec fn is_prefix(s: Seq<char>, p: Seq<char>) -> bool {
    p.len() <= s.len() && s.subrange(0, p.len() as int) == p
}

/// Whether `p` is a suffix of `s`.
pub open spec fn is_suffix(s: Seq<char>, p: Seq<char>) -> bool {
    p.len() <= s.len() && s.subrange(s.len() - p.len(), s.len() as int) == p
}

/// Prefix test by characters.
pub fn has_prefix(s: &str, p: &str) -> (b: bool)
    ensures
        b == is_prefix(s@, p@),
{
    let slen = s.unicode_len();
    let plen = p.unicode_len();
    if plen > slen {
        proof {
            assert(!is_prefix(s@, p@));
        }
        return false;
    }
    for i in 0..plen
        invariant
            plen <= slen,
            slen == s@.len(),
            plen == p@.len(),
            forall|j: int| 0 <= j < i ==> s@[j] == p@[j],
    {
        if s.get_char(i) != p.get_char(i) {
            proof {
                assert(s@.subrange(0, p@.len() as int)[i as int] != p@[i as int]);
            }
            return false;
        }
    }
    proof {
        assert(s@.subrange(0, p@.len() as int) =~= p@);
    }
    true
}

/// Suffix test by characters.
pub fn has_suffix(s: &str, p: &str) -> (b: bool)
    ensures
        b == is_suffix(s@, p@),
{
    let slen = s.unicode_len();
    let plen = p.unicode_len();
    if plen > slen {
        proof {
            assert(!is_suffix(s@, p@));
        }
        return false;
    }
    let off = slen - plen;
    for i in 0..plen
        invariant
            plen <= slen,
            slen == s@.len(),
            plen == p@.len(),
            off == slen - plen,
            forall|j: int| 0 <= j < i ==> s@[off + j] == p@[j],
    {
        if s.get_char(off + i) != p.get_char(i) {
            proof {
                assert(s@.subrange(s@.len() - p@.len(), s@.len() as int)[i as int] != p@[
                    i as int
                ]);
            }
            return false;
        }
    }
    proof {
        assert(s@.subrange(s@.len() - p@.len(), s@.len() as int) =~= p@);
    }
    true
}

/// The text with every backslash turned into a forward slash.
pub open spec fn slashed(s: Seq<char>) -> Seq<char> {
    s.map_values(|c: char| if c == '\\' { '/' } else { c })
}

/// Replaces every backslash with a forward slash.
pub fn replace_backslashes(s: &str) -> (r: String)
    ensures
        r@ == slashed(s@),
{
    let n = s.unicode_len();
    let mut r = String::new();
    for i in 0..n
        invariant
            n == s@.len(),
            r@ == slashed(s@.subrange(0, i as int)),
    {
        let c = s.get_char(i);
        if c == '\\' {
            push_char(&mut r, '/');
        } else {
            push_char(&mut r, c);
        }
        proof {
            assert(s@.subrange(0, i + 1) =~= s@.subrange(0, i as int).push(s@[i as int]));
            assert(r@ =~= slashed(s@.subrange(0, i + 1)));
        }
    }
    proof {
        assert(s@.subrange(0, n as int) =~= s@);
    }
    r
}

/// The tail of `s` after dropping a prefix of length `k`.
pub fn drop_prefix(s: &str, k: usize) -> (r: String)
    requires
        k <= s@.len(),
    ensures
        r@ == s@.subrange(k as int, s@.len() as int),
{
    let n = s.unicode_len();
    let rest = s.substring_char(k, n);
    rest.to_owned()
}

} // verus!
