//! Text: decimal numbers, prefixes, lines.
use vstd::prelude::*;

verus! {

/// `String::push`: appends one character.
pub assume_specification[ String::push ](s: &mut String, c: char)
    ensures
        final(s)@ == old(s)@.push(c),
;

/// The character of a decimal digit.
pub open spec fn digit(d: nat) -> char {
    (48 + d) as char
}

/// A number in decimal, without leading zeros.
pub open spec fn decimal(n: nat) -> Seq<char>
    decreases n,
{
    if n < 10 {
        seq![digit(n)]
    } else {
        decimal(n / 10).push(digit(n % 10))
    }
}

/// `true` or `false`.
pub open spec fn truth(b: bool) -> Seq<char> {
    if b {
        "true"@
    } else {
        "false"@
    }
}

/// Appends a number in decimal.
pub fn push_decimal(s: &mut String, n: u64)
    ensures
        final(s)@ == old(s)@ + decimal(n as nat),
    decreases n,
{
    if n >= 10 {
        push_decimal(s, n / 10);
    }
    let d: u8 = (n % 10) as u8;
    s.push((48 + d) as char);
    assert(s@ =~= old(s)@ + decimal(n as nat));
}

/// A host and a port.
pub open spec fn endpoint(host: Seq<char>, port: u16) -> Seq<char> {
    host + ":"@ + decimal(port as nat)
}

/// A prefix with a host and a port behind it.
pub fn with_endpoint(prefix: &str, host: &str, port: u16) -> (r: String)
    ensures
        r@ == prefix@ + endpoint(host@, port),
{
    let mut s = prefix.to_owned();
    s.append(host);
    s.append(":");
    push_decimal(&mut s, port as u64);
    assert(s@ =~= prefix@ + endpoint(host@, port));
    s
}

/// A prefix with a number in decimal behind it.
pub fn numbered(prefix: &str, n: u64) -> (r: String)
    ensures
        r@ == prefix@ + decimal(n as nat),
{
    let mut s = prefix.to_owned();
    push_decimal(&mut s, n);
    s
}

/// Whether two texts are the same.
pub fn same_text(a: &str, b: &str) -> (r: bool)
    ensures
        r == (a@ == b@),
{
    let a = a.to_owned();
    let b = b.to_owned();
    a == b
}

/// The characters of a text.
pub fn characters(text: &str) -> (r: Vec<char>)
    ensures
        r@ == text@,
{
    let mut out: Vec<char> = Vec::new();
    for c in it: text.chars()
        invariant
            it.seq() == text@,
            out@ == text@.take(it.index()),
    {
        out.push(c);
        assert(out@ =~= text@.take(it.index() + 1));
    }
    assert(text@.take(text@.len() as int) =~= text@);
    out
}

/// Whether a text begins with a prefix.
pub fn starts_with(text: &str, prefix: &str) -> (r: bool)
    ensures
        r == prefix@.is_prefix_of(text@),
{
    let t = characters(text);
    let p = characters(prefix);
    if p.len() > t.len() {
        return false;
    }
    let mut i: usize = 0;
    while i < p.len()
        invariant
            i <= p.len() <= t.len(),
            t@ == text@,
            p@ == prefix@,
            forall|j: int| 0 <= j < i ==> #[trigger] p@[j] == t@[j],
        decreases p.len() - i,
    {
        if p[i] != t[i] {
            assert(text@.subrange(0, prefix@.len() as int)[i as int] == text@[i as int]);
            return false;
        }
        i = i + 1;
    }
    assert(prefix@ =~= text@.subrange(0, prefix@.len() as int));
    true
}

/// A line break first occurs at `i`.
pub open spec fn breaks_at(s: Seq<char>, i: int) -> bool {
    0 <= i < s.len() && s[i] == '\n' && forall|j: int| 0 <= j < i ==> #[trigger] s[j] != '\n'
}

/// A line without the carriage return that ends it.
pub open spec fn without_return(s: Seq<char>) -> Seq<char> {
    if s.len() > 0 && s.last() == '\r' {
        s.drop_last()
    } else {
        s
    }
}

/// The lines of a text. A line ends at a line feed, which may follow a carriage return; behind
/// the last line feed there is a line only where there is a character.
pub open spec fn lines_of(s: Seq<char>) -> Seq<Seq<char>>
    decreases s.len(),
{
    if exists|i: int| breaks_at(s, i) {
        let i = choose|i: int| breaks_at(s, i);
        if breaks_at(s, i) {
            seq![without_return(s.take(i))] + lines_of(s.skip(i + 1))
        } else {
            Seq::empty()
        }
    } else if s.len() > 0 {
        seq![s]
    } else {
        Seq::empty()
    }
}

/// The lines of a text.
pub fn lines(text: &str) -> (r: Vec<String>)
    ensures
        r.deep_view() == lines_of(text@),
{
    let all = characters(text);
    let mut out: Vec<String> = Vec::new();
    let mut current: String = String::new();
    let mut returned = false;
    let mut i: usize = 0;
    let ghost mut start: int = 0;
    assert(text@.skip(0) =~= text@);
    assert(out.deep_view() + lines_of(text@) =~= lines_of(text@));
    while i < all.len()
        invariant
            all@ == text@,
            0 <= start <= i <= all.len(),
            out.deep_view() + lines_of(text@.skip(start)) == lines_of(text@),
            text@.subrange(start, i as int) == if returned {
                current@.push('\r')
            } else {
                current@
            },
            !returned && current@.len() > 0 ==> current@.last() != '\r',
            forall|j: int| start <= j < i ==> #[trigger] text@[j] != '\n',
        decreases all.len() - i,
    {
        let c = all[i];
        let ghost line = text@.subrange(start, i as int);
        let ghost rest = text@.skip(start);
        let ghost before = out.deep_view();
        assert(text@.subrange(start, i + 1) =~= line.push(c));
        if c == '\n' {
            proof {
                assert(rest.take(i - start) =~= line);
                assert(breaks_at(rest, i - start)) by {
                    assert forall|j: int| 0 <= j < i - start implies #[trigger] rest[j] != '\n' by {
                        assert(text@[start + j] != '\n');
                    }
                }
                let k = choose|k: int| breaks_at(rest, k);
                assert(k == i - start);
                assert(rest.skip(k + 1) =~= text@.skip(i + 1));
                if returned {
                    assert(without_return(line) =~= current@);
                }
            }
            out.push(current);
            proof {
                start = i + 1;
                assert(out.deep_view() =~= before.push(without_return(line)));
                assert(out.deep_view() + lines_of(text@.skip(start)) =~= before + (seq![
                    without_return(line),
                ] + lines_of(text@.skip(start))));
            }
            current = String::new();
            returned = false;
            assert(text@.subrange(start, i + 1) =~= current@);
        } else {
            if returned {
                current.push('\r');
            }
            if c == '\r' {
                returned = true;
            } else {
                returned = false;
                current.push(c);
            }
        }
        i = i + 1;
    }
    if returned {
        current.push('\r');
    }
    let ghost rest = text@.skip(start);
    let ghost before = out.deep_view();
    proof {
        assert(rest =~= text@.subrange(start, i as int));
        assert(rest == current@);
        assert forall|k: int| !breaks_at(rest, k) by {
            if 0 <= k < rest.len() {
                assert(text@[start + k] != '\n');
            }
        }
    }
    if !current.as_str().is_empty() {
        out.push(current);
        assert(out.deep_view() =~= before + seq![rest]);
    } else {
        assert(out.deep_view() =~= before + Seq::<Seq<char>>::empty());
    }
    out
}

/// `format!("{:?}", text)`: what the standard library's `Debug` makes of a text.
pub uninterp spec fn quoted(text: Seq<char>) -> Seq<char>;

/// The `Debug` form of a text, as `std::fmt` writes it: in quotation marks, with the
/// characters escaped that it escapes. It depends on the text alone, and `quoted` names it;
/// which characters are escaped is not said.
#[verifier::external_body]
pub(crate) fn quote(text: &str) -> (r: String)
    ensures
        r@ == quoted(text@),
{
    format!("{:?}", text)
}

/// Decimals have digits only, and at least one.
pub proof fn lemma_decimal_digits(n: nat)
    ensures
        decimal(n).len() >= 1,
        forall|i: int| 0 <= i < decimal(n).len() ==> '0' <= #[trigger] decimal(n)[i] <= '9',
    decreases n,
{
    if n >= 10 {
        lemma_decimal_digits(n / 10);
    }
}

/// Different numbers have different decimals.
pub proof fn lemma_decimal_injective(a: nat, b: nat)
    requires
        decimal(a) == decimal(b),
    ensures
        a == b,
    decreases a,
{
    assert(decimal(a).last() == digit(a % 10) && decimal(b).last() == digit(b % 10));
    assert(digit(a % 10) as int == 48 + a % 10 && digit(b % 10) as int == 48 + b % 10);
    if a >= 10 {
        lemma_decimal_digits(a / 10);
        if b >= 10 {
            assert(decimal(a).drop_last() =~= decimal(a / 10));
            assert(decimal(b).drop_last() =~= decimal(b / 10));
            lemma_decimal_injective(a / 10, b / 10);
        }
    } else if b >= 10 {
        lemma_decimal_digits(b / 10);
    }
}

/// The number that digits stand for.
pub open spec fn number_of(digits: Seq<char>) -> int
    decreases digits.len(),
{
    if digits.len() == 0 {
        0
    } else {
        number_of(digits.drop_last()) * 10 + (digits.last() as int - 48)
    }
}

/// A number in decimal stands for that number, and does not begin with a zero unless it is zero.
pub proof fn lemma_decimal_stands_for_number(n: nat)
    ensures
        number_of(decimal(n)) == n,
        n > 0 ==> decimal(n)[0] != '0',
        n == 0 ==> decimal(n) == seq!['0'],
    decreases n,
{
    assert(digit(n % 10) as int == 48 + n % 10);
    lemma_decimal_digits(n);
    if n >= 10 {
        lemma_decimal_stands_for_number(n / 10);
        lemma_decimal_digits(n / 10);
        assert(decimal(n).drop_last() =~= decimal(n / 10));
    } else {
        assert(decimal(n).drop_last().len() == 0);
        assert(number_of(decimal(n).drop_last()) == 0);
    }
}

/// A host and a port stand on the two sides of a colon.
pub proof fn lemma_endpoint_sides(host: Seq<char>, port: u16)
    ensures
        endpoint(host, port).take(host.len() as int) == host,
        endpoint(host, port)[host.len() as int] == ':',
        number_of(endpoint(host, port).skip(host.len() as int + 1)) == port,
{
    reveal_strlit(":");
    assert(endpoint(host, port).take(host.len() as int) =~= host);
    assert(endpoint(host, port).skip(host.len() as int + 1) =~= decimal(port as nat));
    lemma_decimal_stands_for_number(port as nat);
}

/// Truth values are written as words.
pub proof fn lemma_truth_words()
    ensures
        truth(true) == "true"@,
        truth(false) == "false"@,
{
}

/// What stands before the first line feed is the first line, without a carriage return at its
/// end; the other lines are those of what stands behind it. Where there is no line feed, all of
/// the text is one line as it is, if there is any text.
pub proof fn lemma_first_line(line: Seq<char>, rest: Seq<char>)
    requires
        forall|i: int| 0 <= i < line.len() ==> #[trigger] line[i] != '\n',
    ensures
        lines_of(line + seq!['\n'] + rest) == seq![
            if line.len() > 0 && line[line.len() - 1] == '\r' {
                line.take(line.len() - 1)
            } else {
                line
            },
        ] + lines_of(rest),
        line.len() > 0 ==> lines_of(line) == seq![line],
        line.len() == 0 ==> lines_of(line).len() == 0,
{
    let s = line + seq!['\n'] + rest;
    let n = line.len() as int;
    assert(s[n] == '\n');
    assert forall|j: int| 0 <= j < n implies #[trigger] s[j] != '\n' by {
        assert(line[j] != '\n');
    }
    assert(breaks_at(s, n));
    let i = choose|i: int| breaks_at(s, i);
    assert(breaks_at(s, i));
    assert(i == n) by {
        if i < n {
            assert(s[i] != '\n');
        } else if n < i {
            assert(s[n] != '\n');
        }
    }
    assert(s.take(n) =~= line);
    assert(s.skip(n + 1) =~= rest);
    if line.len() > 0 {
        assert(line.drop_last() =~= line.take(n - 1));
    }
    assert forall|k: int| !breaks_at(line, k) by {
        if 0 <= k < line.len() {
            assert(line[k] != '\n');
        }
    }
}

} // verus!
