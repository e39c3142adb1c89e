//! Text primitives shared by the generators: number rendering, bit counting,
//! line splitting and string comparison.

use vstd::prelude::*;

verus! {

/// Appends one character to the end of a string.
///
/// Calls `String::push`, which the standard library documents as appending
/// the given `char` to the end of the `String`.
#[verifier::external_body]
pub(crate) fn push_char(s: &mut String, c: char)
    ensures
        final(s)@ == old(s)@.push(c),
{
    s.push(c);
}

/// The character for digit `d` (0 to 15) in lowercase hexadecimal notation.
pub open spec fn digit_char(d: nat) -> char {
    if d < 10 {
        (d + 48) as char
    } else {
        (d + 87) as char
    }
}

/// The value of a digit character, the inverse of `digit_char`.
pub open spec fn digit_value(c: char) -> int {
    if '0' <= c <= '9' {
        c as int - 48
    } else {
        c as int - 87
    }
}

/// The digits of `n` in radix `r`, most significant first, without leading
/// zeros (`0` renders as a single `0`). This is what `{}` (radix 10) and
/// `{:x}` (radix 16) print for an unsigned integer.
pub open spec fn radix_digits(n: nat, r: nat) -> Seq<char>
    decreases n,
{
    if r < 2 || n < r {
        seq![digit_char(n)]
    } else {
        proof {
            assert(n / r < n) by (nonlinear_arith)
                requires
                    r >= 2,
                    n >= r,
            ;
        }
        radix_digits(n / r, r).push(digit_char(n % r))
    }
}

/// Decimal rendering of `n`.
pub open spec fn dec(n: nat) -> Seq<char> {
    radix_digits(n, 10)
}

/// Lowercase hexadecimal rendering of `n`, without a prefix.
pub open spec fn hex(n: nat) -> Seq<char> {
    radix_digits(n, 16)
}

/// The number that a sequence of digits denotes in radix `r`.
pub open spec fn digits_value(s: Seq<char>, r: nat) -> int
    decreases s.len(),
{
    if s.len() == 0 {
        0
    } else {
        digits_value(s.drop_last(), r) * r + digit_value(s.last())
    }
}

fn digit(d: u64) -> (c: char)
    requires
        d < 16,
    ensures
        c == digit_char(d as nat),
{
    let b: u8 = d as u8;
    if b < 10 {
        (b + 48) as char
    } else {
        (b + 87) as char
    }
}

/// Renders `n` in radix `r` (between 2 and 16).
pub fn radix_string(n: u64, r: u64) -> (s: String)
    requires
        2 <= r <= 16,
    ensures
        s@ == radix_digits(n as nat, r as nat),
    decreases n,
{
    if n < r {
        let mut s = String::new();
        push_char(&mut s, digit(n));
        s
    } else {
        assert(n / r < n) by (nonlinear_arith)
            requires
                r >= 2,
                n >= r,
        ;
        let mut s = radix_string(n / r, r);
        push_char(&mut s, digit(n % r));
        s
    }
}

/// Renders `n` in decimal, as `format!("{}", n)` does.
pub fn dec_string(n: u64) -> (s: String)
    ensures
        s@ == dec(n as nat),
{
    radix_string(n, 10)
}

/// Renders `n` in lowercase hexadecimal, as `format!("{:x}", n)` does.
pub fn hex_string(n: u64) -> (s: String)
    ensures
        s@ == hex(n as nat),
{
    radix_string(n, 16)
}

/// A rendered number denotes the number it was rendered from, in every radix
/// from 2 to 16.
pub proof fn lemma_radix_digits_value(n: nat, r: nat)
    requires
        2 <= r <= 16,
    ensures
        digits_value(radix_digits(n, r), r) == n,
        radix_digits(n, r).len() >= 1,
        forall|i: int|
            0 <= i < radix_digits(n, r).len() ==> 0 <= #[trigger] digit_value(
                radix_digits(n, r)[i],
            ) < r,
    decreases n,
{
    if n < r {
        let s = radix_digits(n, r);
        assert(s.drop_last() =~= Seq::<char>::empty());
        assert(digit_value(digit_char(n)) == n);
        assert(digits_value(s.drop_last(), r) == 0);
        assert(0 * r == 0) by (nonlinear_arith);
        assert(digits_value(s, r) == 0 * r + n);
    } else {
        assert(n / r < n) by (nonlinear_arith)
            requires
                r >= 2,
                n >= r,
        ;
        lemma_radix_digits_value(n / r, r);
        let s = radix_digits(n, r);
        assert(s.drop_last() =~= radix_digits(n / r, r));
        assert(0 <= n % r < r) by (nonlinear_arith)
            requires
                r >= 2,
        ;
        assert(digit_value(digit_char(n % r)) == n % r);
        assert((n / r) * r + n % r == n) by (nonlinear_arith)
            requires
                r >= 2,
        ;
        assert(s.last() == digit_char(n % r));
        assert(digits_value(s, r) == digits_value(radix_digits(n / r, r), r) * r + digit_value(
            digit_char(n % r),
        ));
        let q = digits_value(radix_digits(n / r, r), r);
        assert(q == n / r);
        assert(q * r == (n / r) * r);
        assert forall|i: int| 0 <= i < s.len() implies 0 <= #[trigger] digit_value(s[i]) < r by {
            if i < s.len() - 1 {
                assert(s[i] == radix_digits(n / r, r)[i]);
            }
        }
    }
}

/// The number of ones in the binary representation of `n`.
pub open spec fn popcount(n: nat) -> nat
    decreases n,
{
    if n == 0 {
        0
    } else {
        popcount(n / 2) + n % 2
    }
}

proof fn lemma_popcount_le(n: nat)
    ensures
        popcount(n) <= n,
    decreases n,
{
    if n > 0 {
        lemma_popcount_le(n / 2);
    }
}

/// Counts the ones in the binary representation of `n`, as `u64::count_ones`
/// does.
pub fn count_ones(n: u64) -> (c: u64)
    ensures
        c == popcount(n as nat),
{
    let mut v: u64 = n;
    let mut c: u64 = 0;
    proof {
        lemma_popcount_le(n as nat);
    }
    while v > 0
        invariant
            c + popcount(v as nat) == popcount(n as nat),
            popcount(n as nat) <= n,
        decreases v,
    {
        c = c + v % 2;
        v = v / 2;
    }
    c
}

/// The ASCII uppercase form of `c`; other characters are kept.
pub open spec fn upper(c: char) -> char {
    if 'a' <= c <= 'z' {
        ((c as int) - 32) as char
    } else {
        c
    }
}

/// The ASCII lowercase form of `c`; other characters are kept.
pub open spec fn lower(c: char) -> char {
    if 'A' <= c <= 'Z' {
        ((c as int) + 32) as char
    } else {
        c
    }
}

/// Maps an ASCII lowercase letter to uppercase, as `char::to_ascii_uppercase`.
pub fn to_upper(c: char) -> (r: char)
    ensures
        r == upper(c),
{
    if 'a' <= c && c <= 'z' {
        let b: u8 = c as u8;
        (b - 32) as char
    } else {
        c
    }
}

/// Maps an ASCII uppercase letter to lowercase, as `char::to_ascii_lowercase`.
pub fn to_lower(c: char) -> (r: char)
    ensures
        r == lower(c),
{
    if 'A' <= c && c <= 'Z' {
        let b: u8 = c as u8;
        (b + 32) as char
    } else {
        c
    }
}

/// A line as `str::lines` yields it: without its `\n`, and without the `\r`
/// of a `\r\n` ending.
pub open spec fn strip_cr(line: Seq<char>) -> Seq<char> {
    if line.len() > 0 && line.last() == '\r' {
        line.drop_last()
    } else {
        line
    }
}

/// The lines of `s` that follow a partial line `cur`, as `str::lines` splits
/// them: a line ends at each `\n` (a `\r` just before it is dropped), and a
/// last line without `\n` is kept when it is not empty.
pub open spec fn lines_from(s: Seq<char>, cur: Seq<char>) -> Seq<Seq<char>>
    decreases s.len(),
{
    if s.len() == 0 {
        if cur.len() == 0 {
            seq![]
        } else {
            seq![cur]
        }
    } else if s[0] == '\n' {
        seq![strip_cr(cur)] + lines_from(s.drop_first(), seq![])
    } else {
        lines_from(s.drop_first(), cur.push(s[0]))
    }
}

/// The lines of `s`, as `str::lines` yields them.
pub open spec fn lines(s: Seq<char>) -> Seq<Seq<char>> {
    lines_from(s, seq![])
}

/// The views of a vector of strings.
pub open spec fn views(v: Seq<String>) -> Seq<Seq<char>> {
    v.map_values(|l: String| l@)
}

/// The partial line that `cur` and a held-back `\r` stand for.
spec fn pending(cur: Seq<char>, cr: bool) -> Seq<char> {
    if cr {
        cur.push('\r')
    } else {
        cur
    }
}

/// Splits `s` into its lines, as `s.lines()` does.
pub fn split_lines(s: &str) -> (v: Vec<String>)
    ensures
        views(v@) == lines(s@),
{
    let mut v: Vec<String> = Vec::new();
    let mut cur = String::new();
    let mut cr = false;
    assert(s@.skip(0) =~= s@);
    assert(views(v@) =~= Seq::<Seq<char>>::empty());
    for c in it: s.chars()
        invariant
            it.seq() == s@,
            views(v@) + lines_from(s@.skip(it.index() as int), pending(cur@, cr)) == lines(s@),
            !cr ==> (cur@.len() == 0 || cur@.last() != '\r'),
    {
        let ghost i = it.index() as int;
        let ghost p = pending(cur@, cr);
        assert(s@.skip(i).drop_first() =~= s@.skip(i + 1));
        assert(s@.skip(i)[0] == c);
        if c == '\n' {
            assert(strip_cr(p) =~= cur@);
            let ghost v0 = v@;
            v.push(cur);
            cur = String::new();
            cr = false;
            assert(views(v@) =~= views(v0) + seq![strip_cr(p)]);
        } else if c == '\r' {
            if cr {
                push_char(&mut cur, '\r');
            }
            cr = true;
        } else {
            if cr {
                push_char(&mut cur, '\r');
            }
            push_char(&mut cur, c);
            cr = false;
        }
    }
    assert(s@.skip(s@.len() as int) =~= Seq::<char>::empty());
    if cr {
        push_char(&mut cur, '\r');
    }
    let ghost v0 = v@;
    if cur.as_str().unicode_len() > 0 {
        v.push(cur);
        assert(views(v@) =~= views(v0) + seq![pending(cur@, false)]);
    }
    v
}

/// Whether two strings hold the same characters.
pub fn str_eq(a: &str, b: &str) -> (r: bool)
    ensures
        r == (a@ == b@),
{
    let n = a.unicode_len();
    let m = b.unicode_len();
    if n != m {
        return false;
    }
    let mut i: usize = 0;
    while i < n
        invariant
            n == a@.len(),
            m == b@.len(),
            n == m,
            i <= n,
            forall|j: int| 0 <= j < i ==> a@[j] == b@[j],
        decreases n - i,
    {
        if a.get_char(i) != b.get_char(i) {
            return false;
        }
        i = i + 1;
    }
    assert(a@ =~= b@);
    true
}

/// `n` copies of `s`, one after the other.
pub open spec fn repeat(s: Seq<char>, n: nat) -> Seq<char>
    decreases n,
{
    if n == 0 {
        seq![]
    } else {
        repeat(s, (n - 1) as nat) + s
    }
}

/// Lines joined back with `\n` between them.
pub open spec fn join_lines(ls: Seq<Seq<char>>) -> Seq<char>
    decreases ls.len(),
{
    if ls.len() == 0 {
        seq![]
    } else if ls.len() == 1 {
        ls[0]
    } else {
        ls[0] + seq!['\n'] + join_lines(ls.drop_first())
    }
}

/// `s` without the `\n` that ends it, if one does.
pub open spec fn without_final_newline(s: Seq<char>) -> Seq<char> {
    if s.len() > 0 && s.last() == '\n' {
        s.drop_last()
    } else {
        s
    }
}

proof fn lemma_lines_from_join(s: Seq<char>, cur: Seq<char>)
    requires
        !s.contains('\r'),
        !cur.contains('\r'),
        !cur.contains('\n'),
    ensures
        join_lines(lines_from(s, cur)) == without_final_newline(cur + s),
        (lines_from(s, cur).len() == 0) == (s.len() == 0 && cur.len() == 0),
        forall|i: int| 0 <= i < lines_from(s, cur).len() ==> !(#[trigger] lines_from(s, cur)[i]).contains('\n'),
    decreases s.len(),
{
    if s.len() == 0 {
        assert(cur + s =~= cur);
    } else if s[0] == '\n' {
        let rest = s.drop_first();
        assert forall|i: int| 0 <= i < rest.len() implies rest[i] != '\r' by {
            assert(rest[i] == s[i + 1]);
        }
        lemma_lines_from_join(rest, seq![]);
        let tail = lines_from(rest, seq![]);
        assert(strip_cr(cur) == cur) by {
            if cur.len() > 0 {
                assert(cur[cur.len() - 1] != '\r');
            }
        }
        let all = seq![cur] + tail;
        assert(lines_from(s, cur) == all);
        assert(all.drop_first() =~= tail);
        assert(seq![] + rest =~= rest);
        if tail.len() == 0 {
            assert(cur + s =~= cur.push('\n'));
            assert((cur + s).drop_last() =~= cur);
        } else {
            assert(cur + s =~= cur + seq!['\n'] + rest);
            assert(rest.len() > 0);
            assert(without_final_newline(cur + s) =~= cur + seq!['\n'] + without_final_newline(rest));
        }
        assert forall|i: int| 0 <= i < all.len() implies !(#[trigger] all[i]).contains('\n') by {
            if i > 0 {
                assert(all[i] == tail[i - 1]);
            }
        }
    } else {
        let rest = s.drop_first();
        assert forall|i: int| 0 <= i < rest.len() implies rest[i] != '\r' by {
            assert(rest[i] == s[i + 1]);
        }
        let c2 = cur.push(s[0]);
        assert forall|i: int| 0 <= i < c2.len() implies c2[i] != '\r' && c2[i] != '\n' by {
            if i < cur.len() {
                assert(c2[i] == cur[i]);
            } else {
                assert(c2[i] == s[0]);
            }
        }
        lemma_lines_from_join(rest, c2);
        assert(c2 + rest =~= cur + s);
    }
}

/// Splitting text without carriage returns into lines loses nothing but
/// the line ends: no line holds `\n`, and joining the lines with `\n`
/// gives the text back, without its final `\n` if it had one.
pub proof fn lemma_lines_join(s: Seq<char>)
    requires
        !s.contains('\r'),
    ensures
        join_lines(lines(s)) == without_final_newline(s),
        forall|i: int| 0 <= i < lines(s).len() ==> !(#[trigger] lines(s)[i]).contains('\n'),
{
    lemma_lines_from_join(s, seq![]);
    assert(seq![] + s =~= s);
}

} // verus!
