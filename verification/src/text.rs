//! Verified text utilities: splitting and joining on a separator, trailing
//! whitespace trimming, decimal parsing and formatting, and small string
//! helpers used by the store, the scheme registry and the controller.

use vstd::prelude::*;

verus! {

/// Relies on `String::push`: appends the given `char` to the end of the string.
#[verifier::external_body]
pub(crate) fn push_char(s: &mut String, c: char)
    ensures
        final(s)@ == old(s)@.push(c),
{
    s.push(c);
}

/// Character-wise equality of two string slices.
pub fn str_eq(a: &str, b: &str) -> (r: bool)
    ensures
        r == (a@ == b@),
{
    let alen = a.unicode_len();
    let blen = b.unicode_len();
    if alen != blen {
        return false;
    }
    let mut i: usize = 0;
    while i < alen
        invariant
            0 <= i <= alen,
            alen == a@.len(),
            alen == b@.len(),
            forall|j: int| 0 <= j < i ==> a@[j] == b@[j],
        decreases alen - i,
    {
        if a.get_char(i) != b.get_char(i) {
            return false;
        }
        i += 1;
    }
    proof {
        assert(a@ =~= b@);
    }
    true
}

/// True when the character occurs in the string.
pub fn contains_char(s: &str, c: char) -> (r: bool)
    ensures
        r == s@.contains(c),
{
    let len = s.unicode_len();
    let mut i: usize = 0;
    while i < len
        invariant
            0 <= i <= len,
            len == s@.len(),
            forall|j: int| 0 <= j < i ==> s@[j] != c,
        decreases len - i,
    {
        if s.get_char(i) == c {
            assert(s@[i as int] == c);
            return true;
        }
        i += 1;
    }
    proof {
        if s@.contains(c) {
            let j = choose|j: int| 0 <= j < s@.len() && s@[j] == c;
            assert(s@[j] != c);
        }
    }
    false
}

/// The parts of `s` between occurrences of `sep`; splitting the empty
/// string yields one empty part.
pub open spec fn spec_split(s: Seq<char>, sep: char) -> Seq<Seq<char>>
    decreases s.len(),
{
    if s.len() == 0 {
        seq![Seq::<char>::empty()]
    } else if s[0] == sep {
        seq![Seq::<char>::empty()] + spec_split(s.drop_first(), sep)
    } else {
        let rest = spec_split(s.drop_first(), sep);
        seq![seq![s[0]] + rest[0]] + rest.drop_first()
    }
}

pub proof fn lemma_split_len(s: Seq<char>, sep: char)
    ensures
        spec_split(s, sep).len() >= 1,
    decreases s.len(),
{
    if s.len() == 0 {
    } else if s[0] == sep {
        lemma_split_len(s.drop_first(), sep);
    } else {
        lemma_split_len(s.drop_first(), sep);
    }
}

/// A string free of the separator splits into exactly itself.
pub proof fn lemma_split_no_sep(s: Seq<char>, sep: char)
    requires
        !s.contains(sep),
    ensures
        spec_split(s, sep) =~= seq![s],
    decreases s.len(),
{
    if s.len() == 0 {
        assert(spec_split(s, sep) =~= seq![Seq::<char>::empty()]);
        assert(s =~= Seq::<char>::empty());
    } else {
        assert(s[0] != sep);
        assert(!s.drop_first().contains(sep)) by {
            if s.drop_first().contains(sep) {
                let j = choose|j: int|
                    0 <= j < s.drop_first().len() && s.drop_first()[j] == sep;
                assert(s[j + 1] == sep);
            }
        }
        lemma_split_no_sep(s.drop_first(), sep);
        assert(seq![s[0]] + s.drop_first() =~= s);
        assert(spec_split(s, sep) =~= seq![s]);
    }
}

/// Splits `s` at each occurrence of `sep`.
pub fn split_char(s: &str, sep: char) -> (r: Vec<String>)
    ensures
        r.deep_view() == spec_split(s@, sep),
{
    let len = s.unicode_len();
    let mut parts: Vec<String> = Vec::new();
    let mut cur: String = String::new();
    let mut i: usize = 0;
    proof {
        lemma_split_len(s@, sep);
        assert(s@.subrange(0, len as int) =~= s@);
        let sp = spec_split(s@, sep);
        assert(Seq::<char>::empty() + sp[0] =~= sp[0]);
        assert(parts.deep_view() + seq![sp[0]] + sp.drop_first() =~= sp);
    }
    while i < len
        invariant
            0 <= i <= len,
            len == s@.len(),
            spec_split(s@.subrange(i as int, len as int), sep).len() >= 1,
            spec_split(s@, sep) =~= parts.deep_view() + seq![
                cur@ + spec_split(s@.subrange(i as int, len as int), sep)[0],
            ] + spec_split(s@.subrange(i as int, len as int), sep).drop_first(),
        decreases len - i,
    {
        let ghost rest = s@.subrange(i as int, len as int);
        let ghost rest1 = s@.subrange(i + 1, len as int);
        proof {
            assert(rest.len() > 0);
            assert(rest.drop_first() =~= rest1);
            lemma_split_len(rest1, sep);
        }
        let c = s.get_char(i);
        proof {
            assert(rest[0] == s@[i as int]);
        }
        if c == sep {
            parts.push(cur);
            cur = String::new();
            proof {
                assert(spec_split(rest, sep) =~= seq![Seq::<char>::empty()]
                    + spec_split(rest1, sep));
                assert(spec_split(rest, sep)[0] =~= Seq::<char>::empty());
                assert(spec_split(rest, sep).drop_first() =~= spec_split(rest1, sep));
                assert(seq![spec_split(rest1, sep)[0]] + spec_split(rest1, sep).drop_first()
                    =~= spec_split(rest1, sep));
                assert(spec_split(s@, sep) =~= parts.deep_view() + seq![
                    cur@ + spec_split(rest1, sep)[0],
                ] + spec_split(rest1, sep).drop_first());
            }
        } else {
            let ghost old_cur = cur@;
            push_char(&mut cur, c);
            proof {
                assert(spec_split(rest, sep) =~= seq![seq![rest[0]]
                    + spec_split(rest1, sep)[0]] + spec_split(rest1, sep).drop_first());
                assert(cur@ =~= old_cur.push(c));
                assert(old_cur + (seq![rest[0]] + spec_split(rest1, sep)[0]) =~= cur@
                    + spec_split(rest1, sep)[0]);
                assert(spec_split(s@, sep) =~= parts.deep_view() + seq![
                    cur@ + spec_split(rest1, sep)[0],
                ] + spec_split(rest1, sep).drop_first());
            }
        }
        i += 1;
    }
    proof {
        let rest = s@.subrange(len as int, len as int);
        assert(rest =~= Seq::<char>::empty());
        assert(spec_split(rest, sep) =~= seq![Seq::<char>::empty()]);
        assert(cur@ + spec_split(rest, sep)[0] =~= cur@);
    }
    parts.push(cur);
    proof {
        assert(parts.deep_view() =~= spec_split(s@, sep));
    }
    parts
}

/// ASCII whitespace, as trimmed from the end of a stored field value.
pub open spec fn is_space(c: char) -> bool {
    c == ' ' || c == '\t' || c == '\n' || c == '\r'
}

/// `s` without its trailing ASCII whitespace.
pub open spec fn spec_trim_end(s: Seq<char>) -> Seq<char>
    decreases s.len(),
{
    if s.len() == 0 {
        s
    } else if is_space(s.last()) {
        spec_trim_end(s.drop_last())
    } else {
        s
    }
}

/// Removes trailing ASCII whitespace.
pub fn trim_end(s: &str) -> (r: String)
    ensures
        r@ == spec_trim_end(s@),
{
    let len = s.unicode_len();
    let mut j: usize = len;
    proof {
        assert(s@.subrange(0, len as int) =~= s@);
    }
    while j > 0
        invariant
            0 <= j <= len,
            len == s@.len(),
            spec_trim_end(s@) == spec_trim_end(s@.subrange(0, j as int)),
        decreases j,
    {
        let ghost pre = s@.subrange(0, j as int);
        let c = s.get_char(j - 1);
        proof {
            assert(pre.last() == c);
        }
        if c == ' ' || c == '\t' || c == '\n' || c == '\r' {
            proof {
                assert(pre.drop_last() =~= s@.subrange(0, j - 1));
            }
            j -= 1;
        } else {
            proof {
                assert(!is_space(pre.last()));
                assert(spec_trim_end(pre) == pre);
            }
            let r = s.substring_char(0, j);
            return String::from_str(r);
        }
    }
    proof {
        assert(s@.subrange(0, 0) =~= Seq::<char>::empty());
    }
    String::new()
}

/// The decimal digit character for `d`.
pub open spec fn spec_digit_char(d: int) -> char {
    if d == 0 {
        '0'
    } else if d == 1 {
        '1'
    } else if d == 2 {
        '2'
    } else if d == 3 {
        '3'
    } else if d == 4 {
        '4'
    } else if d == 5 {
        '5'
    } else if d == 6 {
        '6'
    } else if d == 7 {
        '7'
    } else if d == 8 {
        '8'
    } else {
        '9'
    }
}

/// The decimal digit characters of `n`, most significant first.
pub open spec fn spec_dec(n: nat) -> Seq<char>
    decreases n,
{
    if n < 10 {
        seq![spec_digit_char(n as int)]
    } else {
        spec_dec(n / 10) + seq![spec_digit_char((n % 10) as int)]
    }
}

fn digit_char(d: u8) -> (c: char)
    requires
        d < 10,
    ensures
        c == spec_digit_char(d as int),
{
    match d {
        0 => '0',
        1 => '1',
        2 => '2',
        3 => '3',
        4 => '4',
        5 => '5',
        6 => '6',
        7 => '7',
        8 => '8',
        _ => '9',
    }
}

fn append_dec(n: u128, out: &mut String)
    ensures
        final(out)@ == old(out)@ + spec_dec(n as nat),
    decreases n,
{
    if n < 10 {
        push_char(out, digit_char(n as u8));
        proof {
            assert(old(out)@.push(spec_digit_char(n as int)) =~= old(out)@ + spec_dec(
                n as nat,
            ));
        }
    } else {
        append_dec(n / 10, out);
        push_char(out, digit_char((n % 10) as u8));
        proof {
            assert(old(out)@ + spec_dec((n / 10) as nat) + seq![
                spec_digit_char((n % 10) as int),
            ] =~= old(out)@ + spec_dec(n as nat));
        }
    }
}

/// Formats `n` in decimal.
pub fn format_dec(n: u128) -> (r: String)
    ensures
        r@ == spec_dec(n as nat),
{
    let mut out = String::new();
    append_dec(n, &mut out);
    proof {
        assert(Seq::<char>::empty() + spec_dec(n as nat) =~= spec_dec(n as nat));
    }
    out
}

/// True when `c` is a decimal digit.
pub open spec fn spec_is_digit(c: char) -> bool {
    48 <= c as u32 <= 57
}

/// The numeric value of a digit character.
pub open spec fn spec_digit_val(c: char) -> int {
    c as u32 - 48
}

/// The value of a digit string, most significant digit first.
pub open spec fn spec_digits_val(s: Seq<char>) -> int
    decreases s.len(),
{
    if s.len() == 0 {
        0
    } else {
        spec_digits_val(s.drop_last()) * 10 + spec_digit_val(s.last())
    }
}

/// A string parses as an unsigned decimal number when it is non-empty and
/// all digits.
pub open spec fn spec_all_digits(s: Seq<char>) -> bool {
    s.len() >= 1 && forall|i: int| 0 <= i < s.len() ==> spec_is_digit(#[trigger] s[i])
}

/// What parsing `s` as a `u64` yields: the digit value when `s` is a
/// non-empty digit string whose value fits, and nothing otherwise.
pub open spec fn spec_parse_u64(s: Seq<char>) -> Option<u64> {
    if spec_all_digits(s) && spec_digits_val(s) <= u64::MAX {
        Some(spec_digits_val(s) as u64)
    } else {
        None
    }
}

proof fn lemma_digits_val_nonneg(s: Seq<char>)
    requires
        forall|i: int| 0 <= i < s.len() ==> spec_is_digit(#[trigger] s[i]),
    ensures
        spec_digits_val(s) >= 0,
    decreases s.len(),
{
    if s.len() > 0 {
        assert(forall|i: int|
            0 <= i < s.drop_last().len() ==> spec_is_digit(#[trigger] s.drop_last()[i]));
        lemma_digits_val_nonneg(s.drop_last());
    }
}

proof fn lemma_digits_val_prefix_le(s: Seq<char>, k: int)
    requires
        0 <= k <= s.len(),
        forall|i: int| 0 <= i < s.len() ==> spec_is_digit(#[trigger] s[i]),
    ensures
        spec_digits_val(s.subrange(0, k)) <= spec_digits_val(s),
    decreases s.len() - k,
{
    if k == s.len() {
        assert(s.subrange(0, k) =~= s);
    } else {
        let t = s.subrange(0, k + 1);
        assert(t.drop_last() =~= s.subrange(0, k));
        lemma_digits_val_nonneg(s.subrange(0, k));
        assert(spec_digits_val(t) == spec_digits_val(s.subrange(0, k)) * 10
            + spec_digit_val(t.last()));
        assert(spec_is_digit(s[k]));
        assert(spec_digit_val(t.last()) >= 0);
        assert(spec_digits_val(s.subrange(0, k)) * 10 >= spec_digits_val(
            s.subrange(0, k),
        )) by {
            lemma_digits_val_nonneg(s.subrange(0, k));
        }
        lemma_digits_val_prefix_le(s, k + 1);
    }
}

/// Parses a non-empty decimal digit string into a `u64`; anything else,
/// and any value over `u64::MAX`, yields `None`.
pub fn parse_u64(s: &str) -> (r: Option<u64>)
    ensures
        r == spec_parse_u64(s@),
{
    let len = s.unicode_len();
    if len == 0 {
        return None;
    }
    let mut acc: u64 = 0;
    let mut i: usize = 0;
    while i < len
        invariant
            0 <= i <= len,
            len == s@.len(),
            forall|j: int| 0 <= j < i ==> spec_is_digit(#[trigger] s@[j]),
            acc == spec_digits_val(s@.subrange(0, i as int)),
        decreases len - i,
    {
        let c = s.get_char(i);
        let u = c as u32;
        if u < 48 || u > 57 {
            assert(!spec_is_digit(s@[i as int]));
            return None;
        }
        let d = (u - 48) as u64;
        let ghost pre = s@.subrange(0, i as int);
        let ghost pre1 = s@.subrange(0, i + 1);
        proof {
            assert(pre1.drop_last() =~= pre);
            assert(pre1.last() == s@[i as int]);
        }
        if acc > (u64::MAX - d) / 10 {
            proof {
                lemma_digits_val_nonneg(pre1);
                assert(spec_digits_val(pre1) == acc * 10 + d);
                assert(acc * 10 + d > u64::MAX) by (nonlinear_arith)
                    requires
                        acc > (u64::MAX - d) / 10,
                        d < 10,
                {}
                if spec_all_digits(s@) {
                    lemma_digits_val_prefix_le(s@, i + 1);
                }
            }
            return None;
        }
        proof {
            assert(acc * 10 + d <= u64::MAX) by (nonlinear_arith)
                requires
                    acc <= (u64::MAX - d) / 10,
                    d < 10,
                    acc >= 0,
                    d >= 0,
            {}
        }
        acc = acc * 10 + d;
        i += 1;
    }
    proof {
        assert(s@.subrange(0, len as int) =~= s@);
    }
    Some(acc)
}

/// Each part followed by one separator, concatenated: the store-write
/// formatting rule for a configuration field sequence.
pub open spec fn spec_cat_semi(parts: Seq<Seq<char>>) -> Seq<char>
    decreases parts.len(),
{
    if parts.len() == 0 {
        Seq::<char>::empty()
    } else {
        parts[0] + seq![';'] + spec_cat_semi(parts.drop_first())
    }
}

/// Splitting a separator-free part followed by a separator peels off
/// exactly that part.
pub proof fn lemma_split_part(p: Seq<char>, rest: Seq<char>, sep: char)
    requires
        !p.contains(sep),
    ensures
        spec_split(p + seq![sep] + rest, sep) =~= seq![p] + spec_split(rest, sep),
    decreases p.len(),
{
    let s = p + seq![sep] + rest;
    if p.len() == 0 {
        assert(s =~= seq![sep] + rest);
        assert(s[0] == sep);
        assert(s.drop_first() =~= rest);
        assert(p =~= Seq::<char>::empty());
        assert(spec_split(s, sep) =~= seq![Seq::<char>::empty()] + spec_split(rest, sep));
        assert(seq![Seq::<char>::empty()] =~= seq![p]);
    } else {
        assert(s[0] == p[0]);
        assert(p[0] != sep);
        assert(!p.drop_first().contains(sep)) by {
            if p.drop_first().contains(sep) {
                let j = choose|j: int|
                    0 <= j < p.drop_first().len() && p.drop_first()[j] == sep;
                assert(p[j + 1] == sep);
            }
        }
        lemma_split_part(p.drop_first(), rest, sep);
        assert(s.drop_first() =~= p.drop_first() + seq![sep] + rest);
        let r1 = spec_split(s.drop_first(), sep);
        assert(r1 =~= seq![p.drop_first()] + spec_split(rest, sep));
        lemma_split_len(rest, sep);
        assert(r1[0] == p.drop_first());
        assert(seq![p[0]] + r1[0] =~= p);
        assert(r1.drop_first() =~= spec_split(rest, sep));
        assert(spec_split(s, sep) == seq![seq![s[0]] + r1[0]] + r1.drop_first());
        assert(seq![seq![s[0]] + r1[0]] =~= seq![p]);
        assert(spec_split(s, sep) =~= seq![p] + spec_split(rest, sep));
    }
}

/// Splitting the store-write formatting of separator-free parts, followed
/// by any tail, recovers the parts followed by the split of the tail.
pub proof fn lemma_split_cat_semi(parts: Seq<Seq<char>>, tail: Seq<char>)
    requires
        forall|i: int| 0 <= i < parts.len() ==> !(#[trigger] parts[i]).contains(';'),
    ensures
        spec_split(spec_cat_semi(parts) + tail, ';') =~= parts + spec_split(tail, ';'),
    decreases parts.len(),
{
    if parts.len() == 0 {
        assert(spec_cat_semi(parts) + tail =~= tail);
    } else {
        let p = parts[0];
        let rest = spec_cat_semi(parts.drop_first()) + tail;
        assert(spec_cat_semi(parts) + tail =~= p + seq![';'] + rest);
        lemma_split_part(p, rest, ';');
        lemma_split_cat_semi(parts.drop_first(), tail);
        assert(seq![p] + (parts.drop_first() + spec_split(tail, ';')) =~= parts + spec_split(
            tail,
            ';',
        ));
    }
}

/// True when `p` is a prefix of `s`.
pub open spec fn spec_starts_with(s: Seq<char>, p: Seq<char>) -> bool {
    s.len() >= p.len() && s.subrange(0, p.len() as int) == p
}

/// True when `s` starts with the prefix `p`.
pub fn starts_with(s: &str, p: &str) -> (r: bool)
    ensures
        r == spec_starts_with(s@, p@),
{
    let slen = s.unicode_len();
    let plen = p.unicode_len();
    if slen < plen {
        return false;
    }
    let head = s.substring_char(0, plen);
    str_eq(head, p)
}

} // verus!
