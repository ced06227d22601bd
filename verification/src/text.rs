use vstd::prelude::*;

verus! {

// ---------------------------------------------------------------------------
// Decimal digits and decimal renderings of integers
// ---------------------------------------------------------------------------

/// `c` is one of the characters `'0'` through `'9'`.
pub open spec fn is_dec_digit(c: char) -> bool {
    48 <= c as u32 && c as u32 <= 57
}

/// Numeric value of a decimal digit character.
pub open spec fn digit_val(c: char) -> nat {
    (c as u32 - 48) as nat
}

/// The digit character for a value below ten.
pub open spec fn dec_digit_char(d: nat) -> char {
    if d == 0 {
        '0'
    } else if d == 1 {
        '1'
    } else if d == 2 {
        '2'
    } else if d == 3 {
        '3'
    } else if d == 4 {
        '4'
    } else if d == 5 {
        '5'
    } else if d == 6 {
        '6'
    } else if d == 7 {
        '7'
    } else if d == 8 {
        '8'
    } else {
        '9'
    }
}

/// The usual decimal rendering of `n`, without sign or leading zeros.
pub open spec fn dec_of(n: nat) -> Seq<char>
    decreases n,
{
    if n < 10 {
        seq![dec_digit_char(n)]
    } else {
        dec_of(n / 10).push(dec_digit_char(n % 10))
    }
}

/// One-character string for a digit value.
fn digit_str(d: u32) -> (r: &'static str)
    requires
        d < 10,
    ensures
        r@ == seq![dec_digit_char(d as nat)],
{
    let r = if d == 0 {
        "0"
    } else if d == 1 {
        "1"
    } else if d == 2 {
        "2"
    } else if d == 3 {
        "3"
    } else if d == 4 {
        "4"
    } else if d == 5 {
        "5"
    } else if d == 6 {
        "6"
    } else if d == 7 {
        "7"
    } else if d == 8 {
        "8"
    } else {
        "9"
    };
    proof {
        reveal_strlit("0");
        reveal_strlit("1");
        reveal_strlit("2");
        reveal_strlit("3");
        reveal_strlit("4");
        reveal_strlit("5");
        reveal_strlit("6");
        reveal_strlit("7");
        reveal_strlit("8");
        reveal_strlit("9");
        assert(r@ =~= seq![dec_digit_char(d as nat)]);
    }
    r
}

/// Render `n` in decimal.
pub fn u32_to_dec(n: u32) -> (r: String)
    ensures
        r@ == dec_of(n as nat),
    decreases n,
{
    if n < 10 {
        String::from_str(digit_str(n))
    } else {
        let mut s = u32_to_dec(n / 10);
        s.append(digit_str(n % 10));
        proof {
            assert(s@ =~= dec_of((n / 10) as nat).push(dec_digit_char((n % 10) as nat)));
        }
        s
    }
}

// ---------------------------------------------------------------------------
// Decimal parsing
// ---------------------------------------------------------------------------

/// Every character of `s` is a decimal digit.
pub open spec fn all_digits(s: Seq<char>) -> bool {
    forall|i: int| 0 <= i < s.len() ==> is_dec_digit(s[i])
}

/// Value of a digit string read most-significant first.
pub open spec fn dec_val(s: Seq<char>) -> nat
    decreases s.len(),
{
    if s.len() == 0 {
        0
    } else {
        dec_val(s.drop_last()) * 10 + digit_val(s.last())
    }
}

proof fn lemma_dec_val_prefix_le(s: Seq<char>, i: int)
    requires
        0 <= i <= s.len(),
    ensures
        dec_val(s.subrange(0, i)) <= dec_val(s),
    decreases s.len() - i,
{
    if i == s.len() {
        assert(s.subrange(0, i) =~= s);
    } else {
        let a = s.subrange(0, i);
        let b = s.subrange(0, i + 1);
        assert(b.drop_last() =~= a);
        assert(dec_val(b) == dec_val(a) * 10 + digit_val(b.last()));
        lemma_dec_val_prefix_le(s, i + 1);
    }
}

/// A digit string in canonical decimal form: non-empty, digits only, no
/// leading zero unless it is `"0"` itself — exactly the strings `dec_of`
/// produces.
pub open spec fn is_canonical_dec(s: Seq<char>) -> bool {
    &&& s.len() > 0
    &&& all_digits(s)
    &&& (s.len() == 1 || s[0] != '0')
}

proof fn lemma_char_eq_by_u32(c: char, d: char)
    requires
        c as u32 == d as u32,
    ensures
        c == d,
{
}

proof fn lemma_digit_char_roundtrip(c: char)
    requires
        is_dec_digit(c),
    ensures
        dec_digit_char(digit_val(c)) == c,
{
    let u = c as u32;
    if u == 48 {
        lemma_char_eq_by_u32(c, '0');
    } else if u == 49 {
        lemma_char_eq_by_u32(c, '1');
    } else if u == 50 {
        lemma_char_eq_by_u32(c, '2');
    } else if u == 51 {
        lemma_char_eq_by_u32(c, '3');
    } else if u == 52 {
        lemma_char_eq_by_u32(c, '4');
    } else if u == 53 {
        lemma_char_eq_by_u32(c, '5');
    } else if u == 54 {
        lemma_char_eq_by_u32(c, '6');
    } else if u == 55 {
        lemma_char_eq_by_u32(c, '7');
    } else if u == 56 {
        lemma_char_eq_by_u32(c, '8');
    } else {
        lemma_char_eq_by_u32(c, '9');
    }
}

proof fn lemma_leading_digit_positive(s: Seq<char>)
    requires
        s.len() > 0,
        all_digits(s),
        s[0] != '0',
    ensures
        dec_val(s) >= 1,
    decreases s.len(),
{
    if s.len() == 1 {
        if s[0] as u32 == 48 {
            lemma_char_eq_by_u32(s[0], '0');
        }
        assert(digit_val(s[0]) >= 1);
    } else {
        let d = s.drop_last();
        assert(d[0] == s[0]);
        lemma_leading_digit_positive(d);
        assert(dec_val(s) == dec_val(d) * 10 + digit_val(s.last()));
    }
}

/// Law: rendering the value of a canonical digit string gives the string
/// back — `dec_of` and `dec_val` are mutually inverse on canonical forms.
pub proof fn lemma_dec_roundtrip(s: Seq<char>)
    requires
        is_canonical_dec(s),
    ensures
        dec_of(dec_val(s)) == s,
    decreases s.len(),
{
    if s.len() == 1 {
        assert(s.drop_last().len() == 0);
        assert(dec_val(s.drop_last()) == 0);
        assert(dec_val(s) == digit_val(s[0]));
        lemma_digit_char_roundtrip(s[0]);
        assert(dec_of(dec_val(s)) =~= s);
    } else {
        let d = s.drop_last();
        assert(all_digits(d));
        assert(d[0] == s[0]);
        lemma_leading_digit_positive(d);
        lemma_dec_roundtrip(d);
        let n = dec_val(s);
        assert(n == dec_val(d) * 10 + digit_val(s.last()));
        assert(n / 10 == dec_val(d) && n % 10 == digit_val(s.last())) by (nonlinear_arith)
            requires
                n == dec_val(d) * 10 + digit_val(s.last()),
                digit_val(s.last()) < 10,
        ;
        assert(n >= 10);
        lemma_digit_char_roundtrip(s.last());
        assert(dec_of(n) == dec_of((n / 10) as nat).push(dec_digit_char((n % 10) as nat)));
        assert(dec_of(n) =~= s);
    }
}

/// Parse a non-empty all-digit string as a `u32`; `None` on an empty string,
/// a non-digit character, or a value over `u32::MAX`.
pub fn parse_dec(s: &str) -> (r: Option<u32>)
    ensures
        match r {
            Some(v) => s@.len() > 0 && all_digits(s@) && v as nat == dec_val(s@),
            None => s@.len() == 0 || !all_digits(s@) || dec_val(s@) > u32::MAX,
        },
{
    let len = s.unicode_len();
    if len == 0 {
        return None;
    }
    let mut acc: u64 = 0;
    let mut i: usize = 0;
    while i < len
        invariant
            0 < len == s@.len(),
            i <= len,
            all_digits(s@.subrange(0, i as int)),
            acc <= u32::MAX,
            acc as nat == dec_val(s@.subrange(0, i as int)),
        decreases len - i,
    {
        let c = s.get_char(i);
        let cv = c as u32;
        if cv < 48 || cv > 57 {
            assert(!is_dec_digit(s@[i as int]));
            return None;
        }
        let d = (cv - 48) as u64;
        acc = acc * 10 + d;
        proof {
            assert(s@.subrange(0, i + 1).drop_last() =~= s@.subrange(0, i as int));
            assert(s@.subrange(0, i + 1).last() == s@[i as int]);
        }
        if acc > u32::MAX as u64 {
            proof {
                lemma_dec_val_prefix_le(s@, i + 1);
            }
            return None;
        }
        i += 1;
    }
    proof {
        assert(s@.subrange(0, len as int) =~= s@);
    }
    Some(acc as u32)
}

// ---------------------------------------------------------------------------
// String equality and substring search
// ---------------------------------------------------------------------------

/// Character-wise equality of two string slices.
pub fn str_eq(a: &str, b: &str) -> (r: bool)
    ensures
        r == (a@ == b@),
{
    let alen = a.unicode_len();
    let blen = b.unicode_len();
    if alen != blen {
        return false;
    }
    let mut i: usize = 0;
    while i < alen
        invariant
            alen == a@.len(),
            alen == b@.len(),
            i <= alen,
            forall|j: int| 0 <= j < i ==> a@[j] == b@[j],
        decreases alen - i,
    {
        if a.get_char(i) != b.get_char(i) {
            return false;
        }
        i += 1;
    }
    proof {
        assert(a@ =~= b@);
    }
    true
}

/// `needle` occurs as a contiguous run inside `hay`.
pub open spec fn contains_seq(hay: Seq<char>, needle: Seq<char>) -> bool {
    exists|i: int|
        0 <= i <= hay.len() - needle.len() && #[trigger] hay.subrange(i, i + needle.len())
            == needle
}

fn match_at(hay: &str, needle: &str, at: usize) -> (r: bool)
    requires
        at + needle@.len() <= hay@.len(),
    ensures
        r == (hay@.subrange(at as int, at + needle@.len()) == needle@),
{
    let nlen = needle.unicode_len();
    let hlen = hay.unicode_len();
    let mut j: usize = 0;
    while j < nlen
        invariant
            nlen == needle@.len(),
            hlen == hay@.len(),
            at + nlen <= hlen,
            j <= nlen,
            forall|k: int| 0 <= k < j ==> hay@[at + k] == needle@[k],
        decreases nlen - j,
    {
        if hay.get_char(at + j) != needle.get_char(j) {
            proof {
                assert(hay@.subrange(at as int, at + needle@.len())[j as int] == hay@[at + j]);
            }
            return false;
        }
        j += 1;
    }
    proof {
        assert(hay@.subrange(at as int, at + needle@.len()) =~= needle@);
    }
    true
}

/// Substring search; decides `contains_seq` on the views.
pub fn str_contains(hay: &str, needle: &str) -> (r: bool)
    ensures
        r == contains_seq(hay@, needle@),
{
    let hlen = hay.unicode_len();
    let nlen = needle.unicode_len();
    if nlen > hlen {
        return false;
    }
    if nlen == 0 {
        proof {
            assert(hay@.subrange(0, 0 + needle@.len() as int) =~= needle@);
        }
        return true;
    }
    let mut i: usize = 0;
    while i <= hlen - nlen
        invariant
            hlen == hay@.len(),
            nlen == needle@.len(),
            0 < nlen <= hlen,
            i <= hlen - nlen + 1,
            forall|k: int|
                0 <= k < i ==> #[trigger] hay@.subrange(k, k + needle@.len()) != needle@,
        decreases hlen - nlen + 1 - i,
    {
        if match_at(hay, needle, i) {
            return true;
        }
        i += 1;
    }
    false
}

// ---------------------------------------------------------------------------
// Hyphen stripping for ISO dates
// ---------------------------------------------------------------------------

/// Remove every hyphen; turns an ISO `YYYY-MM-DD` date into `YYYYMMDD`.
pub open spec fn strip_dashes(s: Seq<char>) -> Seq<char> {
    s.filter(|c: char| c != '-')
}

// ---------------------------------------------------------------------------
// Whitespace tokenisation
// ---------------------------------------------------------------------------

/// The characters tokenisation splits on: the Unicode `White_Space` set,
/// non-breaking spaces included, as page text commonly carries them.
pub open spec fn is_space(c: char) -> bool {
    let u = c as u32;
    ||| u == 0x09
    ||| u == 0x0A
    ||| u == 0x0B
    ||| u == 0x0C
    ||| u == 0x0D
    ||| u == 0x20
    ||| u == 0x85
    ||| u == 0xA0
    ||| u == 0x1680
    ||| (0x2000 <= u && u <= 0x200A)
    ||| u == 0x2028
    ||| u == 0x2029
    ||| u == 0x202F
    ||| u == 0x205F
    ||| u == 0x3000
}

/// Decide the whitespace predicate on one character.
fn is_space_char(c: char) -> (r: bool)
    ensures
        r == is_space(c),
{
    let u = c as u32;
    u == 0x09 || u == 0x0A || u == 0x0B || u == 0x0C || u == 0x0D || u == 0x20 || u == 0x85
        || u == 0xA0 || u == 0x1680 || (0x2000 <= u && u <= 0x200A) || u == 0x2028 || u == 0x2029
        || u == 0x202F || u == 0x205F || u == 0x3000
}

/// Tokens of `s` with `cur` the token under construction.
pub open spec fn tokens_from(s: Seq<char>, cur: Seq<char>) -> Seq<Seq<char>>
    decreases s.len(),
{
    if s.len() == 0 {
        if cur.len() == 0 {
            seq![]
        } else {
            seq![cur]
        }
    } else if is_space(s[0]) {
        if cur.len() == 0 {
            tokens_from(s.subrange(1, s.len() as int), seq![])
        } else {
            seq![cur] + tokens_from(s.subrange(1, s.len() as int), seq![])
        }
    } else {
        tokens_from(s.subrange(1, s.len() as int), cur.push(s[0]))
    }
}

/// The maximal whitespace-free runs of `s`, in order.
pub open spec fn tokens_of(s: Seq<char>) -> Seq<Seq<char>> {
    tokens_from(s, seq![])
}

/// Split `s` at whitespace into its tokens.
pub fn split_ws(s: &str) -> (r: Vec<String>)
    ensures
        r.deep_view() == tokens_of(s@),
{
    let len = s.unicode_len();
    let mut out: Vec<String> = Vec::new();
    let mut cur = String::new();
    proof {
        assert(cur@ =~= seq![]);
        assert(s@.subrange(0, len as int) =~= s@);
        assert(out.deep_view() + tokens_from(s@.subrange(0, len as int), cur@) =~= tokens_from(
            s@,
            seq![],
        ));
    }
    let mut i: usize = 0;
    while i < len
        invariant
            len == s@.len(),
            i <= len,
            tokens_of(s@) == out.deep_view() + tokens_from(
                s@.subrange(i as int, len as int),
                cur@,
            ),
        decreases len - i,
    {
        let ghost pre = s@.subrange(i as int, len as int);
        let ghost old_out = out.deep_view();
        let ghost old_cur = cur@;
        proof {
            assert(pre.subrange(1, pre.len() as int) =~= s@.subrange(i + 1, len as int));
            assert(pre[0] == s@[i as int]);
        }
        let c = s.get_char(i);
        if is_space_char(c) {
            assert(is_space(pre[0]));
            if !cur.as_str().is_empty() {
                out.push(cur);
                cur = String::new();
                proof {
                    assert(tokens_from(pre, old_cur) == seq![old_cur] + tokens_from(
                        s@.subrange(i + 1, len as int),
                        seq![],
                    ));
                    assert(cur@ =~= seq![]);
                    assert(out.deep_view() =~= old_out.push(old_cur));
                    assert(out.deep_view() + tokens_from(s@.subrange(i + 1, len as int), cur@)
                        =~= old_out + tokens_from(pre, old_cur));
                }
            } else {
                proof {
                    assert(cur@ =~= seq![]);
                    assert(tokens_from(pre, old_cur) == tokens_from(
                        s@.subrange(i + 1, len as int),
                        cur@,
                    ));
                }
            }
        } else {
            cur.append(s.substring_char(i, i + 1));
            proof {
                assert(!is_space(pre[0]));
                assert(cur@ =~= old_cur.push(s@[i as int]));
                assert(tokens_from(pre, old_cur) == tokens_from(
                    s@.subrange(i + 1, len as int),
                    cur@,
                ));
            }
        }
        i += 1;
    }
    proof {
        assert(s@.subrange(len as int, len as int).len() == 0);
    }
    if !cur.as_str().is_empty() {
        out.push(cur);
        proof {
            assert(out.deep_view() =~= tokens_of(s@));
        }
    } else {
        proof {
            assert(out.deep_view() =~= tokens_of(s@));
        }
    }
    out
}

proof fn lemma_strip_keeps_dashless(s: Seq<char>)
    requires
        forall|i: int| 0 <= i < s.len() ==> s[i] != '-',
    ensures
        strip_dashes(s) == s,
    decreases s.len(),
{
    reveal(Seq::filter);
    if s.len() > 0 {
        lemma_strip_keeps_dashless(s.drop_last());
        assert(strip_dashes(s) =~= s);
    } else {
        assert(strip_dashes(s) =~= s);
    }
}

/// Law: stripping hyphens is idempotent — a second pass changes nothing.
pub proof fn lemma_strip_dashes_idempotent(s: Seq<char>)
    ensures
        strip_dashes(strip_dashes(s)) == strip_dashes(s),
{
    let t = strip_dashes(s);
    assert forall|i: int| 0 <= i < t.len() implies t[i] != '-' by {
        s.lemma_filter_pred(|c: char| c != '-', i);
    }
    lemma_strip_keeps_dashless(t);
}

/// The `YYYY-MM-DD` shape: ten characters, hyphens exactly at positions four
/// and seven, digits everywhere else.
pub open spec fn is_iso_date(s: Seq<char>) -> bool {
    &&& s.len() == 10
    &&& s[4] == '-'
    &&& s[7] == '-'
    &&& forall|i: int| 0 <= i < 10 && i != 4 && i != 7 ==> is_dec_digit(#[trigger] s[i])
}

/// Law: stripping the hyphens of an ISO date is total and yields exactly
/// eight decimal digits.
pub proof fn lemma_iso_date_strips_to_digits(s: Seq<char>)
    requires
        is_iso_date(s),
    ensures
        strip_dashes(s).len() == 8,
        all_digits(strip_dashes(s)),
{
    let pred = |c: char| c != '-';
    let y = s.subrange(0, 4);
    let h1 = s.subrange(4, 5);
    let m = s.subrange(5, 7);
    let h2 = s.subrange(7, 8);
    let d = s.subrange(8, 10);
    assert(s =~= y + h1 + m + h2 + d);
    Seq::filter_distributes_over_add(y + h1 + m + h2, d, pred);
    Seq::filter_distributes_over_add(y + h1 + m, h2, pred);
    Seq::filter_distributes_over_add(y + h1, m, pred);
    Seq::filter_distributes_over_add(y, h1, pred);
    lemma_strip_keeps_dashless(y);
    lemma_strip_keeps_dashless(m);
    lemma_strip_keeps_dashless(d);
    reveal_with_fuel(Seq::filter, 3);
    assert(h1.drop_last() =~= Seq::<char>::empty());
    assert(h2.drop_last() =~= Seq::<char>::empty());
    assert(strip_dashes(h1) =~= Seq::<char>::empty());
    assert(strip_dashes(h2) =~= Seq::<char>::empty());
    assert(strip_dashes(s) =~= y + m + d);
    assert forall|i: int| 0 <= i < strip_dashes(s).len() implies is_dec_digit(
        strip_dashes(s)[i],
    ) by {
        if i < 4 {
            assert(strip_dashes(s)[i] == s[i]);
        } else if i < 6 {
            assert(strip_dashes(s)[i] == s[i + 1]);
        } else {
            assert(strip_dashes(s)[i] == s[i + 2]);
        }
    }
}

/// Copy `s` with every `'-'` character dropped.
pub fn strip_dashes_str(s: &str) -> (r: String)
    ensures
        r@ == strip_dashes(s@),
{
    let len = s.unicode_len();
    let mut out = String::new();
    let mut i: usize = 0;
    while i < len
        invariant
            len == s@.len(),
            i <= len,
            out@ == strip_dashes(s@.subrange(0, i as int)),
        decreases len - i,
    {
        let c = s.get_char(i);
        if c != '-' {
            out.append(s.substring_char(i, i + 1));
        }
        proof {
            reveal(Seq::filter);
            assert(s@.subrange(0, i + 1).drop_last() =~= s@.subrange(0, i as int));
            assert(s@.subrange(0, i + 1).last() == s@[i as int]);
            if c != '-' {
                assert(out@ =~= strip_dashes(s@.subrange(0, i as int)).push(s@[i as int]));
            }
        }
        i += 1;
    }
    proof {
        assert(s@.subrange(0, len as int) =~= s@);
    }
    out
}

} // verus!

