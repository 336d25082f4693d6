//! Character-level helpers over `str`, `String` and `Vec<char>`.

use vstd::prelude::*;

verus! {

/// The characters of `s`, in order.
pub fn chars_of(s: &str) -> (res: Vec<char>)
    ensures
        res@ == s@,
{
    let mut res: Vec<char> = Vec::new();
    for c in it: s.chars()
        invariant
            res@ == it.seq().take(it.index() as int),
            it.seq() == s@,
    {
        res.push(c);
    }
    res
}

} // verus!

verus! {

/// Appends one character to a `String` (`String::push`).
#[verifier::external_body]
pub(crate) fn push_char(s: &mut String, c: char)
    ensures
        final(s)@ == old(s)@.push(c),
{
    s.push(c);
}

/// A `String` holding exactly the characters of `chars`.
pub fn string_of(chars: &Vec<char>) -> (res: String)
    ensures
        res@ == chars@,
{
    let mut res = String::new();
    let mut i: usize = 0;
    while i < chars.len()
        invariant
            i <= chars.len(),
            res@ == chars@.take(i as int),
        decreases chars.len() - i,
    {
        push_char(&mut res, chars[i]);
        assert(chars@.take(i + 1) == chars@.take(i as int).push(chars@[i as int]));
        i = i + 1;
    }
    assert(chars@.take(chars.len() as int) == chars@);
    res
}

// ---------------------------------------------------------------------
// Decimal digits
// ---------------------------------------------------------------------

/// Whether `c` is an ASCII decimal digit.
pub open spec fn is_digit(c: char) -> bool {
    '0' <= c && c <= '9'
}

/// The value of the ASCII decimal digit `c`.
pub open spec fn digit_value(c: char) -> int {
    c as int - '0' as int
}

/// The ASCII character of the decimal digit `d` (`0 <= d < 10`).
pub open spec fn digit_char(d: int) -> char {
    (d + '0' as int) as char
}

/// Whether every character of `s` is an ASCII decimal digit.
pub open spec fn all_digits(s: Seq<char>) -> bool {
    forall|i: int| 0 <= i < s.len() ==> is_digit(#[trigger] s[i])
}

/// The number written in base ten by the digit string `s` (leading zeros allowed).
pub open spec fn digits_value(s: Seq<char>) -> int
    decreases s.len(),
{
    if s.len() == 0 {
        0
    } else {
        10 * digits_value(s.drop_last()) + digit_value(s.last())
    }
}

/// The shortest base-ten digit string of `n` (no leading zeros; "0" for zero).
pub open spec fn nat_decimal(n: nat) -> Seq<char>
    decreases n,
{
    if n < 10 {
        seq![digit_char(n as int)]
    } else {
        nat_decimal(n / 10).push(digit_char((n % 10) as int))
    }
}

/// How an integer is displayed: an optional minus sign, then its decimal digits.
pub open spec fn int_decimal(v: int) -> Seq<char> {
    if v < 0 {
        seq!['-'] + nat_decimal((-v) as nat)
    } else {
        nat_decimal(v as nat)
    }
}

/// The result of reading `s` as a signed 32-bit decimal integer: an optional
/// `+` or `-` sign followed by at least one ASCII digit and nothing else, whose
/// value lies in the range of `i32`; `None` otherwise.
pub open spec fn parse_i32_spec(s: Seq<char>) -> Option<i32> {
    let negative = s.len() > 0 && s[0] == '-';
    let body = if s.len() > 0 && (s[0] == '-' || s[0] == '+') {
        s.skip(1)
    } else {
        s
    };
    let magnitude = digits_value(body);
    let v = if negative {
        -magnitude
    } else {
        magnitude
    };
    if body.len() == 0 || !all_digits(body) || v < i32::MIN || v > i32::MAX {
        None
    } else {
        Some(v as i32)
    }
}

proof fn lemma_digits_value_nonneg(s: Seq<char>)
    requires
        all_digits(s),
    ensures
        digits_value(s) >= 0,
    decreases s.len(),
{
    if s.len() > 0 {
        assert(all_digits(s.drop_last()));
        lemma_digits_value_nonneg(s.drop_last());
        assert(is_digit(s[s.len() - 1]));
    }
}

/// The value of a digit string is at least the value of any of its prefixes.
proof fn lemma_digits_value_prefix(s: Seq<char>, k: int)
    requires
        all_digits(s),
        0 <= k <= s.len(),
    ensures
        digits_value(s.take(k)) <= digits_value(s),
    decreases s.len(),
{
    if k < s.len() {
        assert(all_digits(s.drop_last()));
        lemma_digits_value_prefix(s.drop_last(), k);
        assert(s.drop_last().take(k) == s.take(k));
        lemma_digits_value_nonneg(s.drop_last());
        assert(is_digit(s[s.len() - 1]));
    } else {
        assert(s.take(k) == s);
    }
}

/// Reads `s[start..]` as a signed 32-bit decimal integer.
pub fn parse_i32(s: &Vec<char>, start: usize) -> (res: Option<i32>)
    requires
        start <= s.len(),
    ensures
        res == parse_i32_spec(s@.skip(start as int)),
{
    let ghost whole = s@.skip(start as int);
    let mut i = start;
    let mut negative = false;
    if i < s.len() && (s[i] == '-' || s[i] == '+') {
        negative = s[i] == '-';
        i = i + 1;
    }
    let ghost body = s@.skip(i as int);
    assert(negative == (whole.len() > 0 && whole[0] == '-'));
    assert(body == if whole.len() > 0 && (whole[0] == '-' || whole[0] == '+') {
        whole.skip(1)
    } else {
        whole
    });
    if i == s.len() {
        return None;
    }
    let mut acc: i64 = 0;
    let body_start = i;
    while i < s.len()
        invariant
            body_start <= i <= s.len(),
            body == s@.skip(body_start as int),
            whole == s@.skip(start as int),
            body == if whole.len() > 0 && (whole[0] == '-' || whole[0] == '+') {
                whole.skip(1)
            } else {
                whole
            },
            negative == (whole.len() > 0 && whole[0] == '-'),
            body.len() > 0,
            all_digits(body.take(i - body_start)),
            acc == digits_value(body.take(i - body_start)),
            0 <= acc <= 2147483648,
        decreases s.len() - i,
    {
        let c = s[i];
        if !('0' <= c && c <= '9') {
            assert(body[i - body_start] == c);
            return None;
        }
        let d = (c as u32 - '0' as u32) as i64;
        let ghost k = i - body_start;
        assert(body.take(k + 1).drop_last() == body.take(k));
        assert(body.take(k + 1).last() == c);
        acc = acc * 10 + d;
        i = i + 1;
        assert(all_digits(body.take(k + 1))) by {
            assert forall|j: int| 0 <= j < k + 1 implies is_digit(#[trigger] body.take(k + 1)[j]) by {
                if j < k {
                    assert(body.take(k + 1)[j] == body.take(k)[j]);
                }
            }
        }
        if acc > 2147483648 {
            proof {
                if all_digits(body) {
                    lemma_digits_value_prefix(body, k + 1);
                }
            }
            return None;
        }
    }
    assert(body.take(i - body_start) == body);
    if negative {
        Some((-acc) as i32)
    } else if acc > 2147483647 {
        None
    } else {
        Some(acc as i32)
    }
}

/// Appends the decimal digits of `n` to `out`.
fn push_decimal(out: &mut Vec<char>, n: u64)
    ensures
        final(out)@ == old(out)@ + nat_decimal(n as nat),
    decreases n,
{
    if n >= 10 {
        push_decimal(out, n / 10);
    }
    let d = (n % 10) as u8;
    let c = (48u8 + d) as char;
    assert(c == digit_char((n % 10) as int));
    out.push(c);
}

/// The decimal text of `v`, as `i32`'s `Display` writes it.
pub fn i32_to_decimal(v: i32) -> (res: String)
    ensures
        res@ == int_decimal(v as int),
{
    let mut out: Vec<char> = Vec::new();
    if v < 0 {
        out.push('-');
        let m: i64 = -(v as i64);
        push_decimal(&mut out, m as u64);
    } else {
        push_decimal(&mut out, v as u64);
    }
    string_of(&out)
}

} // verus!

verus! {

// ---------------------------------------------------------------------
// Lines
// ---------------------------------------------------------------------

/// A line as a reader hands it out after a newline: one trailing carriage
/// return, if there is one, is dropped.
pub open spec fn strip_cr(line: Seq<char>) -> Seq<char> {
    if line.len() > 0 && line.last() == '\r' {
        line.drop_last()
    } else {
        line
    }
}

/// Scanning `s` from the left: the lines completed by a newline so far, and
/// the characters read since the last newline.
pub open spec fn line_scan(s: Seq<char>) -> (Seq<Seq<char>>, Seq<char>)
    decreases s.len(),
{
    if s.len() == 0 {
        (Seq::empty(), Seq::empty())
    } else {
        let prev = line_scan(s.drop_last());
        if s.last() == '\n' {
            (prev.0.push(strip_cr(prev.1)), Seq::empty())
        } else {
            (prev.0, prev.1.push(s.last()))
        }
    }
}

/// The lines of `s` as a buffered reader yields them: split at each `\n`,
/// a `\r` right before a `\n` dropped, and a last line without newline kept
/// when it is not empty.
pub open spec fn split_lines(s: Seq<char>) -> Seq<Seq<char>> {
    let scan = line_scan(s);
    if scan.1.len() == 0 {
        scan.0
    } else {
        scan.0.push(scan.1)
    }
}

/// The concatenation of `lines`, in order.
pub open spec fn concat_lines(lines: Seq<Seq<char>>) -> Seq<char>
    decreases lines.len(),
{
    if lines.len() == 0 {
        Seq::empty()
    } else {
        concat_lines(lines.drop_last()) + lines.last()
    }
}

/// The views of a vector of character vectors.
pub open spec fn views_of(v: Seq<Vec<char>>) -> Seq<Seq<char>> {
    v.map_values(|l: Vec<char>| l@)
}

/// Splits `s` into lines, as `split_lines` states.
pub fn lines_of(s: &Vec<char>) -> (res: Vec<Vec<char>>)
    ensures
        views_of(res@) == split_lines(s@),
{
    let mut done: Vec<Vec<char>> = Vec::new();
    let mut cur: Vec<char> = Vec::new();
    let mut i: usize = 0;
    while i < s.len()
        invariant
            i <= s.len(),
            (views_of(done@), cur@) == line_scan(s@.take(i as int)),
        decreases s.len() - i,
    {
        let c = s[i];
        assert(s@.take(i + 1).drop_last() == s@.take(i as int));
        assert(s@.take(i + 1).last() == c);
        if c == '\n' {
            let n = cur.len();
            if n > 0 && cur[n - 1] == '\r' {
                cur.pop();
            }
            let line = cur;
            let ghost before = done@;
            done.push(line);
            cur = Vec::new();
            assert(views_of(done@) =~= views_of(before).push(line@));
        } else {
            cur.push(c);
        }
        i = i + 1;
    }
    assert(s@.take(s.len() as int) == s@);
    if cur.len() > 0 {
        let ghost before = done@;
        done.push(cur);
        assert(views_of(done@) =~= views_of(before).push(views_of(done@).last()));
    }
    done
}

/// Appends the characters of every non-empty line of `lines[from..]` to a
/// new vector, in order.
pub fn join_lines_from(lines: &Vec<Vec<char>>, from: usize) -> (res: Vec<char>)
    requires
        from <= lines.len(),
    ensures
        res@ == concat_lines(views_of(lines@).skip(from as int)),
{
    let ghost ls = views_of(lines@).skip(from as int);
    let mut res: Vec<char> = Vec::new();
    let mut i = from;
    while i < lines.len()
        invariant
            from <= i <= lines.len(),
            ls == views_of(lines@).skip(from as int),
            res@ == concat_lines(ls.take(i - from)),
        decreases lines.len() - i,
    {
        let line = &lines[i];
        let ghost k = i - from;
        assert(ls.take(k + 1).drop_last() == ls.take(k));
        assert(ls.take(k + 1).last() == line@);
        if line.len() != 0 {
            let mut j: usize = 0;
            let ghost start = res@;
            while j < line.len()
                invariant
                    j <= line.len(),
                    res@ == start + line@.take(j as int),
                decreases line.len() - j,
            {
                res.push(line[j]);
                assert(line@.take(j + 1) == line@.take(j as int).push(line@[j as int]));
                j = j + 1;
            }
            assert(line@.take(line.len() as int) == line@);
        } else {
            assert(line@ == Seq::<char>::empty());
            assert(res@ + line@ == res@);
        }
        i = i + 1;
    }
    assert(ls.take(lines.len() - from) == ls);
    res
}

/// Characters without a line break only extend the line being read.
pub proof fn lemma_line_scan_no_newline(prefix: Seq<char>, rest: Seq<char>)
    requires
        !rest.contains('\n'),
    ensures
        line_scan(prefix + rest) == (line_scan(prefix).0, line_scan(prefix).1 + rest),
    decreases rest.len(),
{
    if rest.len() == 0 {
        assert(prefix + rest =~= prefix);
        assert(line_scan(prefix).1 + rest =~= line_scan(prefix).1);
    } else {
        let shorter = rest.drop_last();
        assert(!shorter.contains('\n')) by {
            if shorter.contains('\n') {
                let i = choose|i: int| 0 <= i < shorter.len() && shorter[i] == '\n';
                assert(rest[i] == '\n');
            }
        }
        lemma_line_scan_no_newline(prefix, shorter);
        assert((prefix + rest).drop_last() =~= prefix + shorter);
        assert((prefix + rest).last() == rest.last());
        assert(rest.last() != '\n') by {
            assert(rest[rest.len() - 1] == rest.last());
        }
        assert(line_scan(prefix).1 + rest =~= (line_scan(prefix).1 + shorter).push(rest.last()));
    }
}

proof fn lemma_nat_decimal_digits(n: nat)
    ensures
        nat_decimal(n).len() > 0,
        all_digits(nat_decimal(n)),
        digits_value(nat_decimal(n)) == n,
    decreases n,
{
    let d = nat_decimal(n);
    if n < 10 {
        assert(d.drop_last() =~= Seq::<char>::empty());
        assert(d.last() == digit_char(n as int));
        assert(digit_value(digit_char(n as int)) == n);
        assert(digits_value(d.drop_last()) == 0);
        assert(digits_value(d) == 10 * digits_value(d.drop_last()) + digit_value(d.last()));
    } else {
        lemma_nat_decimal_digits(n / 10);
        assert(d.drop_last() =~= nat_decimal(n / 10));
        assert(d.last() == digit_char((n % 10) as int));
        assert(digit_value(digit_char((n % 10) as int)) == n % 10);
        assert(n == 10 * (n / 10) + n % 10);
        assert(digits_value(d) == 10 * digits_value(d.drop_last()) + digit_value(d.last()));
        assert forall|i: int| 0 <= i < d.len() implies is_digit(#[trigger] d[i]) by {
            if i < d.len() - 1 {
                assert(d[i] == nat_decimal(n / 10)[i]);
            }
        }
    }
}

/// Reading back what `i32_to_decimal` writes gives the same number.
pub proof fn decimal_reads_back(v: i32)
    ensures
        parse_i32_spec(int_decimal(v as int)) == Some(v),
{
    let t = int_decimal(v as int);
    if v < 0 {
        let m = (-v) as nat;
        lemma_nat_decimal_digits(m);
        assert(t.skip(1) =~= nat_decimal(m));
        assert(t[0] == '-');
    } else {
        lemma_nat_decimal_digits(v as nat);
        assert(is_digit(t[0]));
    }
}

/// The decimal text of an integer is not empty, ends in a digit, and holds
/// only digits and a leading minus sign, so no line break.
pub proof fn lemma_int_decimal_shape(v: int)
    ensures
        int_decimal(v).len() > 0,
        is_digit(int_decimal(v).last()),
        !int_decimal(v).contains('\n'),
{
    let t = int_decimal(v);
    if v < 0 {
        let d = nat_decimal((-v) as nat);
        lemma_nat_decimal_digits((-v) as nat);
        assert(t.last() == d.last());
        assert(is_digit(d[d.len() - 1]));
        assert(!t.contains('\n')) by {
            if t.contains('\n') {
                let i = choose|i: int| 0 <= i < t.len() && t[i] == '\n';
                assert(i > 0);
                assert(t[i] == d[i - 1]);
                assert(is_digit(d[i - 1]));
            }
        }
    } else {
        lemma_nat_decimal_digits(v as nat);
        assert(is_digit(t[t.len() - 1]));
        assert(!t.contains('\n')) by {
            if t.contains('\n') {
                let i = choose|i: int| 0 <= i < t.len() && t[i] == '\n';
                assert(is_digit(t[i]));
            }
        }
    }
}

/// Reading more text never changes the lines already completed.
pub proof fn lemma_line_scan_extends(prefix: Seq<char>, rest: Seq<char>)
    ensures
        line_scan(prefix + rest).0.len() >= line_scan(prefix).0.len(),
        forall|i: int|
            0 <= i < line_scan(prefix).0.len() ==> #[trigger] line_scan(prefix + rest).0[i]
                == line_scan(prefix).0[i],
    decreases rest.len(),
{
    if rest.len() == 0 {
        assert(prefix + rest =~= prefix);
    } else {
        let shorter = rest.drop_last();
        lemma_line_scan_extends(prefix, shorter);
        assert((prefix + rest).drop_last() =~= prefix + shorter);
    }
}

proof fn lemma_line_scan_has_no_newline(s: Seq<char>)
    ensures
        !line_scan(s).1.contains('\n'),
        forall|i: int| 0 <= i < line_scan(s).0.len() ==> !(#[trigger] line_scan(s).0[i]).contains('\n'),
    decreases s.len(),
{
    if s.len() > 0 {
        lemma_line_scan_has_no_newline(s.drop_last());
        let prev = line_scan(s.drop_last());
        if s.last() == '\n' {
            assert(!strip_cr(prev.1).contains('\n')) by {
                if strip_cr(prev.1).contains('\n') {
                    let i = choose|i: int| 0 <= i < strip_cr(prev.1).len() && strip_cr(prev.1)[i] == '\n';
                    assert(prev.1[i] == '\n');
                }
            }
            assert(forall|i: int| 0 <= i < prev.0.len() ==> prev.0.push(strip_cr(prev.1))[i] == prev.0[i]);
        } else {
            assert(!prev.1.push(s.last()).contains('\n')) by {
                if prev.1.push(s.last()).contains('\n') {
                    let i = choose|i: int| 0 <= i < prev.1.push(s.last()).len() && prev.1.push(s.last())[i] == '\n';
                    if i < prev.1.len() {
                        assert(prev.1[i] == '\n');
                    }
                }
            }
        }
    }
}

/// No line holds a line break, and a non-empty text without a line break is
/// one line, as it is.
pub proof fn lines_hold_no_newline(s: Seq<char>)
    ensures
        forall|i: int| 0 <= i < split_lines(s).len() ==> !(#[trigger] split_lines(s)[i]).contains('\n'),
        !s.contains('\n') && s.len() > 0 ==> split_lines(s) == seq![s],
{
    lemma_line_scan_has_no_newline(s);
    let scan = line_scan(s);
    if scan.1.len() != 0 {
        assert(forall|i: int| 0 <= i < scan.0.len() ==> scan.0.push(scan.1)[i] == scan.0[i]);
    }
    if !s.contains('\n') && s.len() > 0 {
        let empty = Seq::<char>::empty();
        lemma_line_scan_no_newline(empty, s);
        assert(empty + s =~= s);
        assert(line_scan(empty) == (Seq::<Seq<char>>::empty(), empty));
        assert(empty + s =~= s);
        assert(Seq::<Seq<char>>::empty().push(s) =~= seq![s]);
    }
}

} // verus!
