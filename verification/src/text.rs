//! Text handling used by the form and the result rows: trimming, splitting
//! on commas, decimal rendering and parsing of unsigned integers.

use vstd::prelude::*;

verus! {

/// The Unicode `White_Space` property, which `char::is_whitespace` and
/// `str::trim` go by.
pub open spec fn is_white_space(c: char) -> bool {
    let n = c as u32;
    ||| 0x9 <= n <= 0xD
    ||| n == 0x20
    ||| n == 0x85
    ||| n == 0xA0
    ||| n == 0x1680
    ||| 0x2000 <= n <= 0x200A
    ||| n == 0x2028
    ||| n == 0x2029
    ||| n == 0x202F
    ||| n == 0x205F
    ||| n == 0x3000
}

pub fn white_space(c: char) -> (r: bool)
    ensures
        r == is_white_space(c),
{
    let n = c as u32;
    (0x9 <= n && n <= 0xD) || n == 0x20 || n == 0x85 || n == 0xA0 || n == 0x1680 || (0x2000 <= n
        && n <= 0x200A) || n == 0x2028 || n == 0x2029 || n == 0x202F || n == 0x205F || n == 0x3000
}


/// What is left of `s` once its leading white space is removed.
pub open spec fn skip_leading(s: Seq<char>) -> Seq<char>
    decreases s.len(),
{
    if s.len() > 0 && is_white_space(s[0]) {
        skip_leading(s.drop_first())
    } else {
        s
    }
}

/// What is left of `s` once its trailing white space is removed.
pub open spec fn skip_trailing(s: Seq<char>) -> Seq<char>
    decreases s.len(),
{
    if s.len() > 0 && is_white_space(s.last()) {
        skip_trailing(s.drop_last())
    } else {
        s
    }
}

/// `s` without leading and trailing white space, as `str::trim` gives it.
pub open spec fn trimmed(s: Seq<char>) -> Seq<char> {
    skip_trailing(skip_leading(s))
}

proof fn lemma_skip_leading_step(s: Seq<char>, i: int)
    requires
        0 <= i < s.len(),
        is_white_space(s[i]),
    ensures
        skip_leading(s.subrange(i, s.len() as int)) == skip_leading(s.subrange(i + 1, s.len() as int)),
{
    assert(s.subrange(i, s.len() as int).drop_first() =~= s.subrange(i + 1, s.len() as int));
}

proof fn lemma_skip_trailing_step(s: Seq<char>, i: int, j: int)
    requires
        0 <= i < j <= s.len(),
        is_white_space(s[j - 1]),
    ensures
        skip_trailing(s.subrange(i, j)) == skip_trailing(s.subrange(i, j - 1)),
{
    assert(s.subrange(i, j).drop_last() =~= s.subrange(i, j - 1));
}

proof fn lemma_skip_leading_is_suffix(s: Seq<char>) -> (a: int)
    ensures
        0 <= a <= s.len(),
        skip_leading(s) == s.subrange(a, s.len() as int),
        forall|i: int| 0 <= i < a ==> is_white_space(#[trigger] s[i]),
        a < s.len() ==> !is_white_space(s[a]),
    decreases s.len(),
{
    if s.len() > 0 && is_white_space(s[0]) {
        let t = s.drop_first();
        let a1 = lemma_skip_leading_is_suffix(t);
        assert(t.subrange(a1, t.len() as int) =~= s.subrange(a1 + 1, s.len() as int));
        assert forall|i: int| 0 <= i < a1 + 1 implies is_white_space(#[trigger] s[i]) by {
            if i > 0 {
                assert(s[i] == t[i - 1]);
            }
        }
        a1 + 1
    } else {
        assert(s.subrange(0, s.len() as int) =~= s);
        0
    }
}

proof fn lemma_skip_trailing_is_prefix(s: Seq<char>) -> (b: int)
    ensures
        0 <= b <= s.len(),
        skip_trailing(s) == s.subrange(0, b),
        forall|i: int| b <= i < s.len() ==> is_white_space(#[trigger] s[i]),
        b > 0 ==> !is_white_space(s[b - 1]),
    decreases s.len(),
{
    if s.len() > 0 && is_white_space(s.last()) {
        let t = s.drop_last();
        let b1 = lemma_skip_trailing_is_prefix(t);
        assert(t.subrange(0, b1) =~= s.subrange(0, b1));
        assert forall|i: int| b1 <= i < s.len() implies is_white_space(#[trigger] s[i]) by {
            if i < t.len() {
                assert(s[i] == t[i]);
            }
        }
        b1
    } else {
        assert(s.subrange(0, s.len() as int) =~= s);
        s.len() as int
    }
}

/// Trimming keeps one stretch of `s` and drops only white space around it:
/// what comes before and after the stretch is all white space, and the
/// stretch, unless empty, neither starts nor ends with white space.
pub proof fn lemma_trimmed_is_core(s: Seq<char>)
    ensures
        exists|a: int, b: int|
            {
                &&& 0 <= a <= b <= s.len()
                &&& trimmed(s) == s.subrange(a, b)
                &&& forall|i: int| 0 <= i < a ==> is_white_space(#[trigger] s[i])
                &&& forall|i: int| b <= i < s.len() ==> is_white_space(#[trigger] s[i])
                &&& a < b ==> !is_white_space(s[a]) && !is_white_space(s[b - 1])
            },
{
    let a = lemma_skip_leading_is_suffix(s);
    let t = s.subrange(a, s.len() as int);
    let b1 = lemma_skip_trailing_is_prefix(t);
    let b = a + b1;
    assert(t.subrange(0, b1) =~= s.subrange(a, b));
    assert forall|i: int| b <= i < s.len() implies is_white_space(#[trigger] s[i]) by {
        assert(s[i] == t[i - a]);
    }
    if a < b {
        assert(s[b - 1] == t[b1 - 1]);
        assert(s[a] == t[0]);
    }
}

/// Returns `s` without its leading and trailing white space.
pub fn trim(s: &str) -> (r: &str)
    ensures
        r@ == trimmed(s@),
{
    let n = s.unicode_len();
    let mut i: usize = 0;
    assert(s@.subrange(0, n as int) =~= s@);
    while i < n && white_space(s.get_char(i))
        invariant
            n == s@.len(),
            i <= n,
            skip_leading(s@) == skip_leading(s@.subrange(i as int, n as int)),
        decreases n - i,
    {
        proof {
            lemma_skip_leading_step(s@, i as int);
        }
        i = i + 1;
    }
    assert(skip_leading(s@) == s@.subrange(i as int, n as int));
    let mut j: usize = n;
    while j > i && white_space(s.get_char(j - 1))
        invariant
            n == s@.len(),
            i <= j <= n,
            skip_leading(s@) == s@.subrange(i as int, n as int),
            trimmed(s@) == skip_trailing(s@.subrange(i as int, j as int)),
            i < n ==> !is_white_space(s@[i as int]),
        decreases j - i,
    {
        proof {
            lemma_skip_trailing_step(s@, i as int, j as int);
        }
        j = j - 1;
    }
    s.substring_char(i, j)
}

/// Splits `s` at every occurrence of `sep`, as `str::split` with a `char`
/// pattern does: `n` separators give `n + 1` pieces, empty ones included.
pub open spec fn split_on(s: Seq<char>, sep: char) -> Seq<Seq<char>>
    decreases s.len(),
{
    if s.len() == 0 {
        seq![Seq::<char>::empty()]
    } else {
        let rest = split_on(s.drop_last(), sep);
        if s.last() == sep {
            rest.push(Seq::<char>::empty())
        } else {
            rest.update(rest.len() - 1, rest.last().push(s.last()))
        }
    }
}

/// `pieces` written one after another with `sep` between each two.
pub open spec fn join_with(pieces: Seq<Seq<char>>, sep: char) -> Seq<char>
    decreases pieces.len(),
{
    if pieces.len() == 0 {
        Seq::empty()
    } else if pieces.len() == 1 {
        pieces[0]
    } else {
        join_with(pieces.drop_last(), sep).push(sep) + pieces.last()
    }
}

/// Splitting at `sep` loses nothing and cuts at every `sep`: the pieces
/// joined back with `sep` give `s`, there is at least one piece, and no
/// piece holds `sep`.
pub proof fn lemma_split_rejoins(s: Seq<char>, sep: char)
    ensures
        split_on(s, sep).len() >= 1,
        join_with(split_on(s, sep), sep) == s,
        forall|k: int, i: int|
            0 <= k < split_on(s, sep).len() && 0 <= i < split_on(s, sep)[k].len()
                ==> #[trigger] split_on(s, sep)[k][i] != sep,
    decreases s.len(),
{
    if s.len() > 0 {
        let t = s.drop_last();
        let c = s.last();
        lemma_split_rejoins(t, sep);
        let rest = split_on(t, sep);
        let out = split_on(s, sep);
        assert(t.push(c) =~= s);
        if c == sep {
            assert(out == rest.push(Seq::<char>::empty()));
            assert(out.drop_last() =~= rest);
            assert(join_with(out, sep) =~= join_with(rest, sep).push(sep) + Seq::<char>::empty());
            assert forall|k: int, i: int|
                0 <= k < out.len() && 0 <= i < out[k].len() implies #[trigger] out[k][i] != sep by {
                assert(k < rest.len());
                assert(out[k] == rest[k]);
            }
        } else {
            let n = rest.len() - 1;
            assert(out == rest.update(n, rest.last().push(c)));
            if rest.len() == 1 {
                assert(join_with(rest, sep) == rest[0]);
                assert(join_with(out, sep) == out[0]);
                assert(out[0] =~= t.push(c));
            } else {
                assert(out.drop_last() =~= rest.drop_last());
                assert(join_with(out, sep) =~= (join_with(rest.drop_last(), sep).push(sep)
                    + rest.last()).push(c));
            }
            assert forall|k: int, i: int|
                0 <= k < out.len() && 0 <= i < out[k].len() implies #[trigger] out[k][i] != sep by {
                if k < n {
                    assert(out[k] == rest[k]);
                } else if i < rest.last().len() {
                    assert(out[k][i] == rest[n][i]);
                } else {
                    assert(out[k][i] == c);
                }
            }
        }
    }
}

/// The pieces of `s` between commas, each as a new string.
pub fn split_commas(s: &str) -> (r: Vec<String>)
    ensures
        r@.len() == split_on(s@, ',').len(),
        forall|k: int| 0 <= k < r@.len() ==> #[trigger] r@[k]@ == split_on(s@, ',')[k],
{
    let n = s.unicode_len();
    let mut pieces: Vec<String> = Vec::new();
    let mut current = String::new();
    let mut i: usize = 0;
    while i < n
        invariant
            n == s@.len(),
            i <= n,
            split_on(s@.subrange(0, i as int), ',').len() == pieces@.len() + 1,
            forall|k: int|
                0 <= k < pieces@.len() ==> #[trigger] pieces@[k]@ == split_on(
                    s@.subrange(0, i as int),
                    ',',
                )[k],
            current@ == split_on(s@.subrange(0, i as int), ',').last(),
        decreases n - i,
    {
        let c = s.get_char(i);
        let ghost prev = s@.subrange(0, i as int);
        assert(s@.subrange(0, i + 1).drop_last() =~= prev);
        assert(s@.subrange(0, i + 1).last() == c);
        if c == ',' {
            let done = current;
            pieces.push(done);
            current = String::new();
        } else {
            let piece = s.substring_char(i, i + 1);
            assert(piece@ =~= seq![c]);
            current.append(piece);
        }
        i = i + 1;
    }
    assert(s@.subrange(0, n as int) =~= s@);
    pieces.push(current);
    pieces
}


/// The lowercase form of `s` under Unicode's case mapping, as
/// `str::to_lowercase` produces it.
pub uninterp spec fn lowercase_of(s: Seq<char>) -> Seq<char>;

/// `str::to_lowercase`: the contract claims only that the characters of the
/// result are `lowercase_of` the characters of `s`, a function of them
/// alone; the Unicode case mapping itself is not written out.
#[verifier::external_body]
pub(crate) fn to_lowercase(s: &str) -> (r: String)
    ensures
        r@ == lowercase_of(s@),
{
    s.to_lowercase()
}

/// The character of the decimal digit `d`.
pub open spec fn digit_char(d: nat) -> char {
    (48 + d) as char
}

/// The decimal digits of `n`, most significant first, with no leading zero
/// (`"0"` for zero), as `u64::to_string` writes them.
pub open spec fn decimal(n: nat) -> Seq<char>
    decreases n,
{
    if n < 10 {
        seq![digit_char(n)]
    } else {
        decimal(n / 10).push(digit_char(n % 10))
    }
}

fn push_decimal(out: &mut String, n: u64)
    ensures
        final(out)@ == old(out)@ + decimal(n as nat),
    decreases n,
{
    let ghost start = out@;
    if n >= 10 {
        push_decimal(out, n / 10);
    }
    let d: usize = (n % 10) as usize;
    let digits = "0123456789";
    proof {
        reveal_strlit("0123456789");
    }
    let piece = digits.substring_char(d, d + 1);
    let ghost c = digit_char(d as nat);
    assert(piece@ =~= seq![c]);
    out.append(piece);
    proof {
        if n >= 10 {
            assert(start + decimal(n as nat) =~= (start + decimal((n / 10) as nat)).push(c));
        } else {
            assert(start + decimal(n as nat) =~= start.push(c));
        }
    }
}

/// Renders `n` in decimal.
pub fn to_decimal(n: u64) -> (r: String)
    ensures
        r@ == decimal(n as nat),
{
    let mut out = String::new();
    push_decimal(&mut out, n);
    assert(out@ =~= decimal(n as nat));
    out
}

pub open spec fn is_digit(c: char) -> bool {
    '0' <= c <= '9'
}

/// The value of a run of decimal digits.
pub open spec fn digits_value(s: Seq<char>) -> nat
    decreases s.len(),
{
    if s.len() == 0 {
        0
    } else {
        digits_value(s.drop_last()) * 10 + ((s.last() as nat) - 48) as nat
    }
}

pub open spec fn all_digits(s: Seq<char>) -> bool {
    forall|i: int| 0 <= i < s.len() ==> is_digit(#[trigger] s[i])
}

/// What `s.parse::<u64>()` accepts and gives: an optional `+`, then one or
/// more ASCII digits whose value fits in a `u64`; anything else is an error.
pub open spec fn parse_u64(s: Seq<char>) -> Option<u64> {
    let body = if s.len() > 0 && s[0] == '+' {
        s.drop_first()
    } else {
        s
    };
    if body.len() > 0 && all_digits(body) && digits_value(body) <= u64::MAX {
        Some(digits_value(body) as u64)
    } else {
        None
    }
}

proof fn lemma_digits_value_grows(s: Seq<char>, i: int)
    requires
        0 <= i <= s.len(),
        all_digits(s),
    ensures
        digits_value(s.subrange(0, i)) <= digits_value(s),
    decreases s.len() - i,
{
    if i < s.len() {
        lemma_digits_value_grows(s, i + 1);
        let p = s.subrange(0, i + 1);
        assert(p.drop_last() =~= s.subrange(0, i));
        assert(is_digit(s[i]));
        assert(digits_value(p) == digits_value(s.subrange(0, i)) * 10 + ((s[i] as nat) - 48) as nat);
        assert(digits_value(s.subrange(0, i)) <= digits_value(p)) by (nonlinear_arith)
            requires
                digits_value(p) == digits_value(s.subrange(0, i)) * 10 + ((s[i] as nat) - 48) as nat,
        ;
    } else {
        assert(s.subrange(0, i) =~= s);
    }
}

/// What a `u64` parse accepts: nothing from an empty text or a lone `+`; a
/// leading `+` is skipped; any other character that is not an ASCII digit
/// makes it fail; one digit is its value; and one more digit after a run
/// of digits multiplies the value by ten and adds it, failing once the
/// value no longer fits in a `u64`.
pub proof fn lemma_parse_u64(t: Seq<char>, c: char)
    ensures
        parse_u64(Seq::<char>::empty()) is None,
        parse_u64(seq!['+']) is None,
        t.len() > 0 && t[0] != '+' ==> parse_u64(seq!['+'] + t) == parse_u64(t),
        forall|i: int|
            0 <= i < t.len() && !('0' <= #[trigger] t[i] <= '9') && !(i == 0 && t[i] == '+')
                ==> parse_u64(t) is None,
        '0' <= c <= '9' ==> parse_u64(seq![c]) == Some(((c as u32) - 48) as u64),
        t.len() > 0 && '0' <= c <= '9' && (forall|i: int| 0 <= i < t.len() ==> '0' <= #[trigger] t[i] <= '9')
            ==> parse_u64(t.push(c)) == match parse_u64(t) {
            Some(v) => if v * 10 + ((c as u32) - 48) <= u64::MAX {
                Some((v * 10 + ((c as u32) - 48)) as u64)
            } else {
                None::<u64>
            },
            None => None::<u64>,
        },
{
    let p = seq!['+'] + t;
    assert(p.drop_first() =~= t);
    assert forall|i: int|
        0 <= i < t.len() && !('0' <= #[trigger] t[i] <= '9') && !(i == 0 && t[i] == '+')
            implies parse_u64(t) is None by {
        if t[0] == '+' {
            assert(t.drop_first()[i - 1] == t[i]);
        }
    }
    let one = seq![c];
    assert(one.drop_last() =~= Seq::<char>::empty());
    if t.len() > 0 && '0' <= c <= '9' && (forall|i: int| 0 <= i < t.len() ==> '0' <= #[trigger] t[i] <= '9') {
        let u = t.push(c);
        assert(u.drop_last() =~= t);
        assert(all_digits(t));
        assert(all_digits(u)) by {
            assert forall|i: int| 0 <= i < u.len() implies is_digit(#[trigger] u[i]) by {
                if i < t.len() {
                    assert(u[i] == t[i]);
                }
            }
        }
        assert(t[0] != '+');
        assert(u[0] == t[0]);
        let v = digits_value(t);
        assert(digits_value(u) == v * 10 + ((c as nat) - 48) as nat);
        assert(v <= v * 10 + ((c as nat) - 48) as nat) by (nonlinear_arith)
            requires c as nat >= 48;
    }
}

/// `s.parse::<u64>().unwrap_or(0)`.
pub fn parse_u64_or_zero(s: &str) -> (r: u64)
    ensures
        r == match parse_u64(s@) {
            Some(v) => v,
            None => 0,
        },
{
    let n = s.unicode_len();
    let mut start: usize = 0;
    if n > 0 && s.get_char(0) == '+' {
        start = 1;
    }
    let ghost body = if s@.len() > 0 && s@[0] == '+' {
        s@.drop_first()
    } else {
        s@
    };
    assert(body =~= s@.subrange(start as int, n as int));
    if start == n {
        return 0;
    }
    let mut value: u64 = 0;
    let mut i: usize = start;
    while i < n
        invariant
            n == s@.len(),
            start <= i <= n,
            body == s@.subrange(start as int, n as int),
            body == (if s@.len() > 0 && s@[0] == '+' {
                s@.drop_first()
            } else {
                s@
            }),
            all_digits(s@.subrange(start as int, i as int)),
            value as nat == digits_value(s@.subrange(start as int, i as int)),
        decreases n - i,
    {
        let c = s.get_char(i);
        let ghost prefix = s@.subrange(start as int, i as int);
        let ghost next = s@.subrange(start as int, i + 1);
        assert(next.drop_last() =~= prefix);
        assert(next.last() == c);
        if !('0' <= c && c <= '9') {
            assert(body[i - start] == c);
            assert(!all_digits(body));
            return 0;
        }
        let d: u64 = (c as u32 - 48) as u64;
        assert(digits_value(next) == value * 10 + d);
        assert(all_digits(next)) by {
            assert forall|k: int| 0 <= k < next.len() implies is_digit(#[trigger] next[k]) by {
                if k < prefix.len() {
                    assert(next[k] == prefix[k]);
                }
            }
        }
        if value > (u64::MAX - d) / 10 {
            assert(value * 10 + d > u64::MAX) by (nonlinear_arith)
                requires
                    value > (u64::MAX - d) / 10,
                    d <= 9,
            ;
            proof {
                if all_digits(body) {
                    lemma_digits_value_grows(body, i + 1 - start);
                    assert(body.subrange(0, i + 1 - start) =~= next);
                    assert(digits_value(body) > u64::MAX);
                }
            }
            return 0;
        }
        assert(value * 10 + d <= u64::MAX) by (nonlinear_arith)
            requires
                value <= (u64::MAX - d) / 10,
                d <= 9,
        ;
        value = value * 10 + d;
        i = i + 1;
    }
    value
}


/// Decimal text is one or more ASCII digits, with no leading zero except
/// for zero itself (`"0"`), and its digits have the value `n`.
pub proof fn lemma_decimal_digits(n: nat)
    ensures
        decimal(n).len() > 0,
        all_digits(decimal(n)),
        forall|i: int| 0 <= i < decimal(n).len() ==> '0' <= #[trigger] decimal(n)[i] <= '9',
        digits_value(decimal(n)) == n,
        decimal(n)[0] != '+',
        n == 0 ==> decimal(n) == seq!['0'],
        n > 0 ==> decimal(n)[0] != '0',
        n < 10 ==> decimal(n).len() == 1,
        n >= 10 ==> decimal(n).len() == decimal(n / 10).len() + 1,
    decreases n,
{
    if n >= 10 {
        lemma_decimal_digits(n / 10);
        let d = decimal(n);
        assert(d.drop_last() =~= decimal(n / 10));
        assert forall|i: int| 0 <= i < d.len() implies is_digit(#[trigger] d[i]) by {
            if i < d.len() - 1 {
                assert(d[i] == decimal(n / 10)[i]);
            }
        }
        assert(d[0] == decimal(n / 10)[0]);
        assert(d.last() == digit_char(n % 10));
        assert((digit_char(n % 10) as nat) == 48 + n % 10);
        assert(digits_value(d) == digits_value(decimal(n / 10)) * 10 + n % 10);
        assert((n / 10) * 10 + n % 10 == n) by (nonlinear_arith);
    } else {
        let d = decimal(n);
        assert((digit_char(n) as nat) == 48 + n);
        assert(d.drop_last() =~= Seq::<char>::empty());
        assert(digits_value(d) == digits_value(d.drop_last()) * 10 + ((d.last() as nat) - 48) as nat);
        assert(digits_value(d.drop_last()) == 0);
    }
}

/// A number written in decimal reads back as the same number.
pub proof fn lemma_decimal_reads_back(n: u64)
    ensures
        parse_u64(decimal(n as nat)) == Some(n),
{
    lemma_decimal_digits(n as nat);
}

/// The player names typed in the form: the comma-separated pieces of the
/// input, each trimmed and lowercased.
pub open spec fn player_names(s: Seq<char>) -> Seq<Seq<char>> {
    split_on(s, ',').map_values(|p: Seq<char>| lowercase_of(trimmed(p)))
}

/// Splits the usernames field into player names: at every comma, each piece
/// trimmed and lowercased. Empty pieces are kept.
pub fn parse_usernames(s: &str) -> (r: Vec<String>)
    ensures
        r@.len() == player_names(s@).len(),
        forall|k: int| 0 <= k < r@.len() ==> #[trigger] r@[k]@ == player_names(s@)[k],
        r@.len() == split_on(s@, ',').len(),
        forall|k: int|
            0 <= k < r@.len() ==> #[trigger] r@[k]@ == lowercase_of(
                trimmed(split_on(s@, ',')[k]),
            ),
{
    let pieces = split_commas(s);
    let mut names: Vec<String> = Vec::new();
    let mut i: usize = 0;
    while i < pieces.len()
        invariant
            i <= pieces@.len(),
            pieces@.len() == split_on(s@, ',').len(),
            forall|k: int| 0 <= k < pieces@.len() ==> #[trigger] pieces@[k]@ == split_on(s@, ',')[k],
            names@.len() == i,
            forall|k: int| 0 <= k < i ==> #[trigger] names@[k]@ == player_names(s@)[k],
        decreases pieces@.len() - i,
    {
        let piece = trim(pieces[i].as_str());
        let name = to_lowercase(piece);
        names.push(name);
        i = i + 1;
    }
    names
}

} // verus!
