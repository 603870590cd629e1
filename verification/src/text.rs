//! Verified text helpers: decimal rendering of numbers and amounts,
//! column padding, number parsing, trimming and whitespace tokenizing.

use vstd::prelude::*;
use vstd::string::StrSliceExecFns;
use vstd::string::StringExecFns;

verus! {

/// The character for one decimal digit value.
pub open spec fn siffra_tecken(d: int) -> char
    recommends
        0 <= d < 10,
{
    (('0' as int) + d) as char
}

/// Decimal digits of `n`, most significant first; empty for zero.
pub open spec fn dec_siffror(n: nat) -> Seq<char>
    decreases n,
{
    if n == 0 {
        Seq::empty()
    } else {
        dec_siffror(n / 10).push(siffra_tecken((n % 10) as int))
    }
}

/// Decimal rendering of `n`, as `u32`/`u64` formatting prints it.
pub open spec fn dec_str(n: nat) -> Seq<char> {
    if n == 0 {
        seq!['0']
    } else {
        dec_siffror(n)
    }
}

fn siffra_str(d: u64) -> (r: &'static str)
    requires
        d < 10,
    ensures
        r@ == seq![siffra_tecken(d as int)],
{
    proof {
        reveal_strlit("0");
        reveal_strlit("1");
        reveal_strlit("2");
        reveal_strlit("3");
        reveal_strlit("4");
        reveal_strlit("5");
        reveal_strlit("6");
        reveal_strlit("7");
        reveal_strlit("8");
        reveal_strlit("9");
    }
    let r = match d {
        0 => "0",
        1 => "1",
        2 => "2",
        3 => "3",
        4 => "4",
        5 => "5",
        6 => "6",
        7 => "7",
        8 => "8",
        _ => "9",
    };
    proof {
        assert(r@ =~= seq![siffra_tecken(d as int)]);
    }
    r
}

fn skjut_siffror(n: u64, ut: &mut String)
    ensures
        final(ut)@ == old(ut)@ + dec_siffror(n as nat),
    decreases n,
{
    if n == 0 {
        proof {
            assert(final(ut)@ =~= old(ut)@ + dec_siffror(0));
        }
    } else {
        skjut_siffror(n / 10, ut);
        let d = n % 10;
        ut.append(siffra_str(d));
        proof {
            assert(final(ut)@ =~= old(ut)@ + dec_siffror(n as nat));
        }
    }
}

/// Decimal rendering of an unsigned number.
pub fn fmt_u64(n: u64) -> (r: String)
    ensures
        r@ == dec_str(n as nat),
{
    if n == 0 {
        proof {
            reveal_strlit("0");
        }
        let r = String::from_str("0");
        proof {
            assert(r@ =~= dec_str(0));
        }
        r
    } else {
        let mut s = String::new();
        skjut_siffror(n, &mut s);
        proof {
            assert(s@ =~= dec_str(n as nat));
        }
        s
    }
}

/// Decimal rendering of an unsigned 32-bit number.
pub fn fmt_u32(n: u32) -> (r: String)
    ensures
        r@ == dec_str(n as nat),
{
    fmt_u64(n as u64)
}

/// Two decimal digits with a leading zero, for the fractional part of an amount.
pub open spec fn tva_siffror(k: int) -> Seq<char>
    recommends
        0 <= k < 100,
{
    seq![siffra_tecken(k / 10), siffra_tecken(k % 10)]
}

/// Text of a non-negative amount given in hundredths: whole part, point, two decimals.
pub open spec fn belopp_pos_text(n: nat) -> Seq<char> {
    dec_str(n / 100) + seq!['.'] + tva_siffror((n % 100) as int)
}

/// Text of a signed amount given in hundredths, e.g. `-30.00` or `120.50`.
pub open spec fn belopp_text(ore: int) -> Seq<char> {
    if ore < 0 {
        seq!['-'] + belopp_pos_text((-ore) as nat)
    } else {
        belopp_pos_text(ore as nat)
    }
}

/// Renders an amount of hundredths with exactly two decimals.
pub fn fmt_belopp(ore: i64) -> (r: String)
    requires
        ore > i64::MIN,
    ensures
        r@ == belopp_text(ore as int),
{
    proof {
        reveal_strlit("-");
        reveal_strlit(".");
    }
    let m: u64 = if ore < 0 {
        (-ore) as u64
    } else {
        ore as u64
    };
    let mut s = String::new();
    if ore < 0 {
        s.append("-");
    }
    let hela = fmt_u64(m / 100);
    s.append(hela.as_str());
    s.append(".");
    let rest = m % 100;
    s.append(siffra_str(rest / 10));
    s.append(siffra_str(rest % 10));
    proof {
        assert(s@ =~= belopp_text(ore as int));
    }
    s
}

/// Renders a value below one hundred as exactly two digits.
pub fn fmt_tva_siffror(k: u64) -> (r: String)
    requires
        k < 100,
    ensures
        r@ == tva_siffror(k as int),
{
    let mut s = String::new();
    s.append(siffra_str(k / 10));
    s.append(siffra_str(k % 10));
    proof {
        assert(s@ =~= tva_siffror(k as int));
    }
    s
}

/// A run of spaces.
pub open spec fn mellanslag(k: nat) -> Seq<char>
    decreases k,
{
    if k == 0 {
        Seq::empty()
    } else {
        mellanslag((k - 1) as nat).push(' ')
    }
}

fn blanksteg(k: usize) -> (r: String)
    ensures
        r@ == mellanslag(k as nat),
{
    let mut s = String::new();
    let mut i: usize = 0;
    while i < k
        invariant
            i <= k,
            s@ =~= mellanslag(i as nat),
        decreases k - i,
    {
        proof {
            reveal_strlit(" ");
        }
        s.append(" ");
        i = i + 1;
        proof {
            assert(s@ =~= mellanslag(i as nat));
        }
    }
    s
}

/// `s` widened to `w` characters with spaces on the left; unchanged if already wider.
pub open spec fn pad_vanster(s: Seq<char>, w: int) -> Seq<char> {
    if s.len() >= w {
        s
    } else {
        mellanslag((w - s.len()) as nat) + s
    }
}

/// `s` widened to `w` characters with spaces on the right; unchanged if already wider.
pub open spec fn pad_hoger(s: Seq<char>, w: int) -> Seq<char> {
    if s.len() >= w {
        s
    } else {
        s + mellanslag((w - s.len()) as nat)
    }
}

/// Right-aligns `s` in a column of width `w`.
pub fn padda_vanster(s: &str, w: usize) -> (r: String)
    ensures
        r@ == pad_vanster(s@, w as int),
{
    let n = s.unicode_len();
    if n >= w {
        s.to_owned()
    } else {
        let mut r = blanksteg(w - n);
        r.append(s);
        r
    }
}

/// Left-aligns `s` in a column of width `w`.
pub fn padda_hoger(s: &str, w: usize) -> (r: String)
    ensures
        r@ == pad_hoger(s@, w as int),
{
    let n = s.unicode_len();
    if n >= w {
        s.to_owned()
    } else {
        let mut r = s.to_owned();
        let fyll = blanksteg(w - n);
        r.append(fyll.as_str());
        r
    }
}

/// An ASCII decimal digit.
pub open spec fn ar_siffra(c: char) -> bool {
    '0' as int <= c as int && c as int <= '9' as int
}

/// Every character of `s` is a decimal digit.
pub open spec fn alla_siffror(s: Seq<char>) -> bool {
    forall|i: int| 0 <= i < s.len() ==> ar_siffra(#[trigger] s[i])
}

/// Numeric value of a digit string, most significant digit first.
pub open spec fn siffror_varde(s: Seq<char>) -> int
    decreases s.len(),
{
    if s.len() == 0 {
        0
    } else {
        siffror_varde(s.drop_last()) * 10 + (s.last() as int - '0' as int)
    }
}

/// `s` without one leading plus sign, if any.
pub open spec fn utan_plus(s: Seq<char>) -> Seq<char> {
    if s.len() > 0 && s[0] == '+' {
        s.subrange(1, s.len() as int)
    } else {
        s
    }
}

/// What `str::parse::<u32>` accepts: an optional leading plus sign followed by
/// at least one decimal digit, with the value in range.
pub open spec fn parse_u32_spec(s: Seq<char>) -> Option<u32> {
    let t = utan_plus(s);
    if t.len() > 0 && alla_siffror(t) && siffror_varde(t) <= u32::MAX {
        Some(siffror_varde(t) as u32)
    } else {
        None
    }
}

proof fn lemma_varde_ickeneg(s: Seq<char>)
    requires
        alla_siffror(s),
    ensures
        siffror_varde(s) >= 0,
    decreases s.len(),
{
    if s.len() > 0 {
        assert(forall|i: int| 0 <= i < s.drop_last().len() ==> ar_siffra(#[trigger] s.drop_last()[i]));
        lemma_varde_ickeneg(s.drop_last());
    }
}

proof fn lemma_varde_prefix(s: Seq<char>, i: int, j: int)
    requires
        0 <= i <= j <= s.len(),
        alla_siffror(s.subrange(0, j)),
    ensures
        siffror_varde(s.subrange(0, i)) <= siffror_varde(s.subrange(0, j)),
    decreases j - i,
{
    if i < j {
        let pre = s.subrange(0, j);
        assert(pre.drop_last() =~= s.subrange(0, j - 1));
        assert(alla_siffror(s.subrange(0, j - 1)));
        lemma_varde_prefix(s, i, j - 1);
        lemma_varde_ickeneg(s.subrange(0, j - 1));
        assert(ar_siffra(pre.last()));
    }
}

/// Parses an unsigned 32-bit number exactly as `str::parse::<u32>` does.
pub fn parse_u32(s: &str) -> (r: Option<u32>)
    ensures
        r == parse_u32_spec(s@),
{
    let n = s.unicode_len();
    let ghost t = utan_plus(s@);
    let mut i: usize = 0;
    if n > 0 && s.get_char(0) == '+' {
        i = 1;
    }
    let o: usize = i;
    proof {
        assert(t =~= s@.subrange(o as int, n as int));
    }
    if i == n {
        return None;
    }
    let mut v: u64 = 0;
    while i < n
        invariant
            o <= i <= n,
            n == s@.len(),
            t == utan_plus(s@),
            t =~= s@.subrange(o as int, n as int),
            alla_siffror(t.subrange(0, (i - o) as int)),
            v == siffror_varde(t.subrange(0, (i - o) as int)),
            v <= u32::MAX,
        decreases n - i,
    {
        let c = s.get_char(i);
        let cu = c as u32;
        if cu < '0' as u32 || cu > '9' as u32 {
            proof {
                assert(t[(i - o) as int] == c);
                assert(!ar_siffra(c));
            }
            return None;
        }
        let d: u64 = (cu - '0' as u32) as u64;
        v = v * 10 + d;
        i = i + 1;
        proof {
            assert(t.subrange(0, (i - o) as int).drop_last() =~= t.subrange(0, (i - 1 - o) as int));
            assert(t.subrange(0, (i - o) as int).last() == c);
            assert(v == siffror_varde(t.subrange(0, (i - o) as int)));
        }
        if v > 0xffff_ffff {
            proof {
                if alla_siffror(t) {
                    assert(t.subrange(0, t.len() as int) =~= t);
                    lemma_varde_prefix(t, (i - o) as int, t.len() as int);
                }
            }
            return None;
        }
    }
    proof {
        assert(t.subrange(0, (n - o) as int) =~= t);
    }
    Some(v as u32)
}

/// A blank character: space, tab, newline or carriage return.
pub open spec fn ar_blank(c: char) -> bool {
    c == ' ' || c == '\t' || c == '\n' || c == '\r'
}

/// `s` without leading blanks.
pub open spec fn trim_fram(s: Seq<char>) -> Seq<char>
    decreases s.len(),
{
    if s.len() > 0 && ar_blank(s[0]) {
        trim_fram(s.drop_first())
    } else {
        s
    }
}

/// `s` without trailing blanks.
pub open spec fn trim_bak(s: Seq<char>) -> Seq<char>
    decreases s.len(),
{
    if s.len() > 0 && ar_blank(s.last()) {
        trim_bak(s.drop_last())
    } else {
        s
    }
}

/// `s` without leading and trailing blanks.
pub open spec fn trimmad(s: Seq<char>) -> Seq<char> {
    trim_bak(trim_fram(s))
}

proof fn lemma_trim_fram(s: Seq<char>, k: int)
    requires
        0 <= k <= s.len(),
        forall|i: int| 0 <= i < k ==> ar_blank(#[trigger] s[i]),
        k == s.len() || !ar_blank(s[k]),
    ensures
        trim_fram(s) == s.subrange(k, s.len() as int),
    decreases k,
{
    if k == 0 {
        assert(s.subrange(0, s.len() as int) =~= s);
    } else {
        assert(ar_blank(s[0]));
        let rest = s.drop_first();
        assert(forall|i: int| 0 <= i < k - 1 ==> ar_blank(#[trigger] rest[i]));
        lemma_trim_fram(rest, k - 1);
        assert(rest.subrange(k - 1, rest.len() as int) =~= s.subrange(k, s.len() as int));
    }
}

proof fn lemma_trim_bak(s: Seq<char>, k: int)
    requires
        0 <= k <= s.len(),
        forall|i: int| k <= i < s.len() ==> ar_blank(#[trigger] s[i]),
        k == 0 || !ar_blank(s[k - 1]),
    ensures
        trim_bak(s) == s.subrange(0, k),
    decreases s.len() - k,
{
    if k == s.len() {
        assert(s.subrange(0, k) =~= s);
    } else {
        assert(ar_blank(s.last()));
        let rest = s.drop_last();
        lemma_trim_bak(rest, k);
        assert(rest.subrange(0, k) =~= s.subrange(0, k));
    }
}

/// Removes leading and trailing blanks.
pub fn trimma(s: &str) -> (r: String)
    ensures
        r@ == trimmad(s@),
{
    let n = s.unicode_len();
    let mut i: usize = 0;
    while i < n && ar_blank_exec(s.get_char(i))
        invariant
            0 <= i <= n,
            n == s@.len(),
            forall|k: int| 0 <= k < i ==> ar_blank(#[trigger] s@[k]),
        decreases n - i,
    {
        i = i + 1;
    }
    let mut j: usize = n;
    while j > i && ar_blank_exec(s.get_char(j - 1))
        invariant
            i <= j <= n,
            n == s@.len(),
            forall|k: int| j <= k < n ==> ar_blank(#[trigger] s@[k]),
        decreases j,
    {
        j = j - 1;
    }
    let r = s.substring_char(i, j).to_owned();
    proof {
        lemma_trim_fram(s@, i as int);
        let mitt = s@.subrange(i as int, n as int);
        if j == i {
            lemma_trim_bak(mitt, 0);
        } else {
            assert(!ar_blank(mitt[j - i - 1]));
            lemma_trim_bak(mitt, j - i);
        }
        assert(mitt.subrange(0, j - i) =~= s@.subrange(i as int, j as int));
    }
    r
}

fn ar_blank_exec(c: char) -> (r: bool)
    ensures
        r == ar_blank(c),
{
    c == ' ' || c == '\t' || c == '\n' || c == '\r'
}

proof fn lemma_trim_fram_borjan(s: Seq<char>)
    ensures
        trim_fram(s).len() == 0 || !ar_blank(trim_fram(s)[0]),
    decreases s.len(),
{
    if s.len() > 0 && ar_blank(s[0]) {
        lemma_trim_fram_borjan(s.drop_first());
    }
}

proof fn lemma_trim_bak_slut(s: Seq<char>)
    ensures
        trim_bak(s).len() == 0 || !ar_blank(trim_bak(s).last()),
    decreases s.len(),
{
    if s.len() > 0 && ar_blank(s.last()) {
        lemma_trim_bak_slut(s.drop_last());
    }
}

proof fn lemma_trim_bak_borjan(s: Seq<char>)
    ensures
        trim_bak(s).len() > 0 ==> s.len() > 0 && trim_bak(s)[0] == s[0],
    decreases s.len(),
{
    if s.len() > 0 && ar_blank(s.last()) {
        lemma_trim_bak_borjan(s.drop_last());
    }
}

/// Trimming an already trimmed string changes nothing.
pub proof fn lemma_trimmad_idempotent(s: Seq<char>)
    ensures
        trimmad(trimmad(s)) == trimmad(s),
{
    let f = trim_fram(s);
    let t = trim_bak(f);
    lemma_trim_fram_borjan(s);
    lemma_trim_bak_borjan(f);
    lemma_trim_bak_slut(f);
    assert(trim_fram(t) == t);
    assert(trim_bak(t) == t);
}

/// ASCII lower-casing of one character.
pub open spec fn gemen(c: char) -> char {
    if 'A' as int <= c as int && c as int <= 'Z' as int {
        (c as int + 32) as char
    } else {
        c
    }
}

/// ASCII lower-casing of a string.
pub open spec fn gemener(s: Seq<char>) -> Seq<char> {
    s.map_values(|c: char| gemen(c))
}

/// Lower-cases one ASCII character, leaving others unchanged.
pub fn gemen_exec(c: char) -> (r: char)
    ensures
        r == gemen(c),
{
    let cu = c as u32;
    if 'A' as u32 <= cu && cu <= 'Z' as u32 {
        (cu as u8 + 32) as char
    } else {
        c
    }
}

/// Relies on String::push: appends exactly the given character.
pub assume_specification[ String::push ](s: &mut String, c: char)
    ensures
        final(s)@ == old(s)@.push(c),
;

/// Lower-cases the ASCII letters of a string, leaving other characters as
/// they are.
pub fn gemener_exec(s: &str) -> (r: String)
    ensures
        r@ == gemener(s@),
{
    let n = s.unicode_len();
    let mut r = String::new();
    let mut i: usize = 0;
    while i < n
        invariant
            0 <= i <= n,
            n == s@.len(),
            r@ == gemener(s@.subrange(0, i as int)),
        decreases n - i,
    {
        let c = s.get_char(i);
        r.push(gemen_exec(c));
        i = i + 1;
        proof {
            assert(r@ =~= gemener(s@.subrange(0, i as int)));
        }
    }
    proof {
        assert(s@.subrange(0, n as int) =~= s@);
    }
    r
}

/// Whitespace-splitting into tokens: `cur` is the token being gathered.
pub open spec fn tokens_hjalp(s: Seq<char>, cur: Seq<char>) -> Seq<Seq<char>>
    decreases s.len(),
{
    if s.len() == 0 {
        if cur.len() == 0 {
            Seq::empty()
        } else {
            seq![cur]
        }
    } else if ar_blank(s[0]) {
        if cur.len() == 0 {
            tokens_hjalp(s.drop_first(), Seq::empty())
        } else {
            seq![cur] + tokens_hjalp(s.drop_first(), Seq::empty())
        }
    } else {
        tokens_hjalp(s.drop_first(), cur.push(s[0]))
    }
}

/// The maximal blank-separated tokens of `s`, in order.
pub open spec fn tokens(s: Seq<char>) -> Seq<Seq<char>> {
    tokens_hjalp(s, Seq::empty())
}

/// Splits `s` on blanks into its tokens.
pub fn dela_blank(s: &str) -> (r: Vec<String>)
    ensures
        r@.map_values(|t: String| t@) == tokens(s@),
{
    let n = s.unicode_len();
    let mut r: Vec<String> = Vec::new();
    let mut i: usize = 0;
    let mut start: usize = 0;
    let mut inne: bool = false;
    proof {
        assert(s@.subrange(0, n as int) =~= s@);
        assert(tokens(s@) =~~= r@.map_values(|t: String| t@) + tokens_hjalp(
            s@.subrange(0, n as int),
            Seq::<char>::empty(),
        ));
    }
    while i < n
        invariant
            0 <= i <= n,
            n == s@.len(),
            inne ==> start < i,
            tokens(s@) == r@.map_values(|t: String| t@) + tokens_hjalp(
                s@.subrange(i as int, n as int),
                if inne {
                    s@.subrange(start as int, i as int)
                } else {
                    Seq::<char>::empty()
                },
            ),
        decreases n - i,
    {
        let c = s.get_char(i);
        let ghost rest = s@.subrange(i as int, n as int);
        let ghost cur: Seq<char> = if inne {
            s@.subrange(start as int, i as int)
        } else {
            Seq::<char>::empty()
        };
        proof {
            assert(rest[0] == s@[i as int]);
            assert(rest.drop_first() =~= s@.subrange(i as int + 1, n as int));
        }
        if ar_blank_exec(c) {
            if inne {
                let ghost fore = r@;
                let tok = s.substring_char(start, i).to_owned();
                r.push(tok);
                inne = false;
                proof {
                    assert(r@.map_values(|t: String| t@) =~= fore.map_values(|t: String| t@).push(
                        cur,
                    ));
                }
            }
        } else {
            if !inne {
                start = i;
                inne = true;
            }
            proof {
                assert(s@.subrange(start as int, i as int + 1) =~= cur.push(s@[i as int]));
            }
        }
        i = i + 1;
        proof {
            assert(tokens(s@) =~~= r@.map_values(|t: String| t@) + tokens_hjalp(
                s@.subrange(i as int, n as int),
                if inne {
                    s@.subrange(start as int, i as int)
                } else {
                    Seq::<char>::empty()
                },
            ));
        }
    }
    proof {
        assert(s@.subrange(n as int, n as int) =~= Seq::<char>::empty());
    }
    if inne {
        let ghost fore = r@;
        let tok = s.substring_char(start, n).to_owned();
        r.push(tok);
        proof {
            assert(r@.map_values(|t: String| t@) =~= fore.map_values(|t: String| t@).push(
                s@.subrange(start as int, n as int),
            ));
        }
    }
    r
}

/// Whether `xs` holds `n`.
pub fn innehaller(xs: &Vec<u32>, n: u32) -> (r: bool)
    ensures
        r == xs@.contains(n),
{
    let mut i: usize = 0;
    while i < xs.len()
        invariant
            0 <= i <= xs@.len(),
            forall|k: int| 0 <= k < i ==> xs@[k] != n,
        decreases xs@.len() - i,
    {
        if xs[i] == n {
            return true;
        }
        i = i + 1;
    }
    false
}

} // verus!
