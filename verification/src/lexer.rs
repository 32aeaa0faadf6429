//! The words of a line of an export file, and the numbers they spell.

use vstd::prelude::*;

verus! {

/// The value of a digit in the given radix, if the byte is one.
pub open spec fn digit_of(b: u8, radix: nat) -> Option<nat> {
    let v: int = if 48 <= b <= 57 {
        b - 48
    } else if 97 <= b <= 122 {
        b - 87
    } else if 65 <= b <= 90 {
        b - 55
    } else {
        radix as int
    };
    if v < radix {
        Some(v as nat)
    } else {
        None
    }
}

/// The number that a sequence of digits spells, if every byte is a digit.
pub open spec fn digits_value(s: Seq<u8>, radix: nat) -> Option<nat>
    decreases s.len(),
{
    if s.len() == 0 {
        Some(0)
    } else {
        match (digits_value(s.drop_last(), radix), digit_of(s.last(), radix)) {
            (Some(v), Some(d)) => Some(v * radix + d),
            _ => None,
        }
    }
}

/// The digits of a word: the word without the plus sign that may stand at
/// its front.
pub open spec fn digits_part(s: Seq<u8>) -> Seq<u8> {
    if s.len() > 0 && s[0] == 43 {
        s.skip(1)
    } else {
        s
    }
}

/// The number that a word spells: at least one digit, a plus sign in front
/// of them or none, and a value of at most `max`.
pub open spec fn number_of(s: Seq<u8>, radix: nat, max: nat) -> Option<nat> {
    let body = digits_part(s);
    if body.len() == 0 {
        None
    } else {
        match digits_value(body, radix) {
            Some(v) => if v <= max {
                Some(v)
            } else {
                None
            },
            None => None,
        }
    }
}

/// A longer sequence of digits spells no smaller number.
pub proof fn lemma_digits_grow(s: Seq<u8>, n: int, radix: nat)
    requires
        0 <= n <= s.len(),
        radix >= 1,
        digits_value(s, radix) is Some,
    ensures
        digits_value(s.take(n), radix) is Some,
        digits_value(s.take(n), radix).unwrap() <= digits_value(s, radix).unwrap(),
    decreases s.len() - n,
{
    if n == s.len() {
        assert(s.take(n) =~= s);
    } else {
        let t = s.drop_last();
        assert(t.take(n) =~= s.take(n));
        lemma_digits_grow(t, n, radix);
        let v = digits_value(t, radix).unwrap();
        assert(v * radix >= v) by (nonlinear_arith)
            requires
                radix >= 1,
                v >= 0,
        ;
    }
}

/// The value of the digit `b`, if it is one in the given radix.
pub fn digit(b: u8, radix: u8) -> (r: Option<u8>)
    ensures
        r is Some <==> digit_of(b, radix as nat) is Some,
        r is Some ==> r.unwrap() == digit_of(b, radix as nat).unwrap(),
{
    let v: u8 = if 48 <= b && b <= 57 {
        b - 48
    } else if 97 <= b && b <= 122 {
        b - 87
    } else if 65 <= b && b <= 90 {
        b - 55
    } else {
        radix
    };
    if v < radix {
        Some(v)
    } else {
        None
    }
}

/// The number that the word spells in the given radix, if it spells one of
/// at most `max`.
pub fn parse_number(word: &Vec<u8>, radix: u8, max: u128) -> (r: Option<u128>)
    requires
        radix >= 1,
    ensures
        r is Some <==> number_of(word@, radix as nat, max as nat) is Some,
        r is Some ==> r.unwrap() == number_of(word@, radix as nat, max as nat).unwrap(),
{
    let start: usize = if word.len() > 0 && word[0] == 43 {
        1
    } else {
        0
    };
    let ghost body = digits_part(word@);
    assert(body =~= word@.skip(start as int));
    if start == word.len() {
        return None;
    }
    let mut acc: u128 = 0;
    let mut i: usize = start;
    assert(body.take(0) =~= Seq::<u8>::empty());
    while i < word.len()
        invariant
            start <= i <= word.len(),
            radix >= 1,
            body == word@.skip(start as int),
            body == digits_part(word@),
            body.len() == word.len() - start,
            body.len() > 0,
            digits_value(body.take(i - start), radix as nat) == Some(acc as nat),
            acc <= max,
        decreases word.len() - i,
    {
        let ghost seen = body.take(i - start + 1);
        let ghost whole = digits_value(body, radix as nat);
        proof {
            assert(seen.drop_last() =~= body.take(i - start));
            assert(seen.last() == word@[i as int]);
            assert(digits_value(seen, radix as nat) == match (
                digits_value(seen.drop_last(), radix as nat),
                digit_of(seen.last(), radix as nat),
            ) {
                (Some(v), Some(d)) => Some(v * radix as nat + d),
                _ => None,
            });
            if whole is Some {
                lemma_digits_grow(body, i - start + 1, radix as nat);
            }
        }
        let d = match digit(word[i], radix) {
            Some(d) => d,
            None => {
                assert(whole is None);
                return None;
            },
        };
        let next = match acc.checked_mul(radix as u128) {
            Some(m) => m.checked_add(d as u128),
            None => None,
        };
        match next {
            Some(v) => {
                if v > max {
                    assert(whole is Some ==> whole.unwrap() > max);
                    return None;
                }
                acc = v;
            },
            None => {
                assert(acc * radix + d > u128::MAX);
                assert(whole is Some ==> whole.unwrap() > max);
                return None;
            },
        }
        i += 1;
    }
    assert(body.take(body.len() as int) =~= body);
    Some(acc)
}

/// The length of the word at the front of `s`: the bytes up to the first
/// space.
pub open spec fn run_len(s: Seq<u8>) -> nat
    decreases s.len(),
{
    if s.len() == 0 || s[0] == 32 {
        0
    } else {
        1 + run_len(s.skip(1))
    }
}

/// The words of a line: the runs of bytes between its spaces, none of them
/// empty.
pub open spec fn words_of(s: Seq<u8>) -> Seq<Seq<u8>>
    decreases s.len(),
{
    if s.len() == 0 {
        Seq::empty()
    } else if s[0] == 32 {
        words_of(s.skip(1))
    } else {
        let n = run_len(s);
        if 0 < n <= s.len() {
            seq![s.take(n as int)] + words_of(s.skip(n as int))
        } else {
            Seq::empty()
        }
    }
}

/// What the words hold, byte by byte.
pub open spec fn views(ws: Seq<Vec<u8>>) -> Seq<Seq<u8>> {
    Seq::new(ws.len(), |i: int| ws[i]@)
}

/// A run of bytes without a space that ends at a space or at the end of
/// the line is the word at the front.
pub proof fn lemma_run_is(s: Seq<u8>, n: int)
    requires
        0 <= n <= s.len(),
        forall|j: int| 0 <= j < n ==> s[j] != 32,
        n < s.len() ==> s[n] == 32,
    ensures
        run_len(s) == n,
    decreases s.len(),
{
    if s.len() == 0 || s[0] == 32 {
    } else {
        assert forall|j: int| 0 <= j < n - 1 implies s.skip(1)[j] != 32 by {
            assert(s.skip(1)[j] == s[j + 1]);
        }
        lemma_run_is(s.skip(1), n - 1);
    }
}

/// Splits a line into its words.
pub fn split_words(line: &Vec<u8>) -> (out: Vec<Vec<u8>>)
    ensures
        views(out@) == words_of(line@),
{
    let mut out: Vec<Vec<u8>> = Vec::new();
    let mut i: usize = 0;
    assert(line@.skip(0) =~= line@);
    assert(views(out@) =~= Seq::<Seq<u8>>::empty());
    while i < line.len()
        invariant
            i <= line.len(),
            words_of(line@) == views(out@) + words_of(line@.skip(i as int)),
        decreases line.len() - i,
    {
        let ghost rest = line@.skip(i as int);
        if line[i] == 32 {
            assert(rest.skip(1) =~= line@.skip(i + 1));
            i += 1;
        } else {
            let mut word: Vec<u8> = Vec::new();
            let mut j: usize = i;
            while j < line.len() && line[j] != 32
                invariant
                    i <= j <= line.len(),
                    word@ == line@.subrange(i as int, j as int),
                    forall|x: int| i <= x < j ==> line@[x] != 32,
                decreases line.len() - j,
            {
                word.push(line[j]);
                assert(word@ =~= line@.subrange(i as int, j + 1));
                j += 1;
            }
            proof {
                assert forall|x: int| 0 <= x < j - i implies rest[x] != 32 by {
                    assert(rest[x] == line@[i + x]);
                }
                lemma_run_is(rest, j - i);
                assert(rest.take(j - i) =~= word@);
                assert(rest.skip(j - i) =~= line@.skip(j as int));
            }
            let ghost before = views(out@);
            out.push(word);
            assert(views(out@) =~= before + seq![word@]);
            i = j;
        }
    }
    assert(words_of(line@.skip(line.len() as int)) =~= Seq::<Seq<u8>>::empty());
    out
}

/// The length of the line at the front of `s`: the bytes up to the first
/// line feed.
pub open spec fn line_len(s: Seq<u8>) -> nat
    decreases s.len(),
{
    if s.len() == 0 || s[0] == 10 {
        0
    } else {
        1 + line_len(s.skip(1))
    }
}

/// The lines of a text: the runs of bytes that its line feeds end, and what
/// follows the last line feed if anything does.
pub open spec fn lines_of(s: Seq<u8>) -> Seq<Seq<u8>>
    decreases s.len(),
{
    if s.len() == 0 {
        Seq::empty()
    } else {
        let n = line_len(s);
        if n < s.len() {
            seq![s.take(n as int)] + lines_of(s.skip(n as int + 1))
        } else {
            seq![s]
        }
    }
}

/// A run of bytes without a line feed that ends at one or at the end of
/// the text is the line at the front.
pub proof fn lemma_line_is(s: Seq<u8>, n: int)
    requires
        0 <= n <= s.len(),
        forall|j: int| 0 <= j < n ==> s[j] != 10,
        n < s.len() ==> s[n] == 10,
    ensures
        line_len(s) == n,
    decreases s.len(),
{
    if s.len() == 0 || s[0] == 10 {
    } else {
        assert forall|j: int| 0 <= j < n - 1 implies s.skip(1)[j] != 10 by {
            assert(s.skip(1)[j] == s[j + 1]);
        }
        lemma_line_is(s.skip(1), n - 1);
    }
}

/// Splits a text into its lines.
pub fn split_lines(text: &Vec<u8>) -> (out: Vec<Vec<u8>>)
    ensures
        views(out@) == lines_of(text@),
{
    let mut out: Vec<Vec<u8>> = Vec::new();
    let mut i: usize = 0;
    assert(text@.skip(0) =~= text@);
    assert(views(out@) =~= Seq::<Seq<u8>>::empty());
    while i < text.len()
        invariant
            i <= text.len(),
            lines_of(text@) == views(out@) + lines_of(text@.skip(i as int)),
        decreases text.len() - i,
    {
        let ghost rest = text@.skip(i as int);
        let mut line: Vec<u8> = Vec::new();
        let mut j: usize = i;
        while j < text.len() && text[j] != 10
            invariant
                i <= j <= text.len(),
                line@ == text@.subrange(i as int, j as int),
                forall|x: int| i <= x < j ==> text@[x] != 10,
            decreases text.len() - j,
        {
            line.push(text[j]);
            assert(line@ =~= text@.subrange(i as int, j + 1));
            j += 1;
        }
        proof {
            assert forall|x: int| 0 <= x < j - i implies rest[x] != 10 by {
                assert(rest[x] == text@[i + x]);
            }
            lemma_line_is(rest, j - i);
            assert(rest.take(j - i) =~= line@);
        }
        let ghost before = views(out@);
        out.push(line);
        assert(views(out@) =~= before + seq![line@]);
        if j < text.len() {
            assert(rest.skip(j - i + 1) =~= text@.skip(j + 1));
            i = j + 1;
        } else {
            assert(rest =~= line@);
            assert(lines_of(text@.skip(j as int)) =~= Seq::<Seq<u8>>::empty());
            i = j;
        }
    }
    assert(lines_of(text@.skip(text.len() as int)) =~= Seq::<Seq<u8>>::empty());
    out
}

/// Whether a byte is white space: a blank, a tab, a line feed, a vertical
/// tab, a form feed or a carriage return.
pub open spec fn is_space(b: u8) -> bool {
    b == 32 || (9 <= b <= 13)
}

/// A line without the white space at its end.
pub open spec fn trimmed(s: Seq<u8>) -> Seq<u8>
    decreases s.len(),
{
    if s.len() > 0 && is_space(s.last()) {
        trimmed(s.drop_last())
    } else {
        s
    }
}

/// Drops the white space at the end of a line.
pub fn trim_end(line: &Vec<u8>) -> (out: Vec<u8>)
    ensures
        out@ == trimmed(line@),
{
    let mut n: usize = line.len();
    assert(line@.take(n as int) =~= line@);
    while n > 0 && (line[n - 1] == 32 || (9 <= line[n - 1] && line[n - 1] <= 13))
        invariant
            n <= line.len(),
            trimmed(line@) == trimmed(line@.take(n as int)),
        decreases n,
    {
        assert(line@.take(n as int).drop_last() =~= line@.take(n - 1));
        n -= 1;
    }
    let mut out: Vec<u8> = Vec::new();
    let mut i: usize = 0;
    while i < n
        invariant
            i <= n <= line.len(),
            out@ == line@.take(i as int),
        decreases n - i,
    {
        out.push(line[i]);
        assert(out@ =~= line@.take(i + 1));
        i += 1;
    }
    out
}

} // verus!
