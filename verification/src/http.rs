//! The head of an HTTP request: its lines, its request line, and the
//! body length it announces.
use vstd::prelude::*;
use crate::text::{chars_of, occurs_at, string_of_range, sub_chars, trim_range, trimmed};

verus! {

/// Largest body the proxy accepts, in bytes (12 MiB).
pub const MAX_PAYLOAD_SIZE: usize = 1024 * 1024 * 12;

/// Why a request was refused before its body was read.
#[derive(Debug, PartialEq, Eq, Structural)]
pub enum RequestError {
    /// The announced body is larger than [`MAX_PAYLOAD_SIZE`].
    MaxPayloadSize,
}

/// Whether a line of `bytes_read` bytes ends the head: the blank line
/// (`\r\n`) and end of input both read fewer than three bytes.
pub fn is_head_end(bytes_read: usize) -> (r: bool)
    ensures
        r == (bytes_read < 3),
{
    bytes_read < 3
}

/// The number of characters of `s` before its first `\n` (all of them
/// when there is none).
pub open spec fn line_end(s: Seq<char>) -> nat
    decreases s.len(),
{
    if s.len() == 0 {
        0
    } else if s[0] == '\n' {
        0
    } else {
        1 + line_end(s.drop_first())
    }
}

/// A line never ends past the end of its text.
pub proof fn lemma_line_end_bound(s: Seq<char>)
    ensures
        line_end(s) <= s.len(),
        line_end(s) < s.len() ==> s[line_end(s) as int] == '\n',
    decreases s.len(),
{
    if s.len() > 0 && s[0] != '\n' {
        lemma_line_end_bound(s.drop_first());
    }
}

/// `l` without one trailing carriage return.
pub open spec fn strip_cr(l: Seq<char>) -> Seq<char> {
    if l.len() > 0 && l.last() == '\r' {
        l.drop_last()
    } else {
        l
    }
}

/// The lines of `s` as `str::lines` yields them: split after each `\n`,
/// the `\n` and one `\r` before it removed; a final line without `\n`
/// is kept as it is, and no empty line follows a final `\n`.
pub open spec fn lines_of(s: Seq<char>) -> Seq<Seq<char>>
    decreases s.len(),
{
    if s.len() == 0 {
        seq![]
    } else {
        let n = line_end(s);
        proof {
            lemma_line_end_bound(s);
        }
        if n < s.len() {
            seq![strip_cr(s.take(n as int))] + lines_of(s.skip((n + 1) as int))
        } else {
            seq![s]
        }
    }
}

/// The text after the last `:` of `l`, or all of `l` when it has none
/// (the last piece of `l.split(':')`).
pub open spec fn after_last_colon(l: Seq<char>) -> Seq<char>
    decreases l.len(),
{
    if l.len() == 0 {
        l
    } else if l.last() == ':' {
        seq![]
    } else {
        after_last_colon(l.drop_last()).push(l.last())
    }
}

/// Whether every character of `s` is an ASCII digit.
pub open spec fn all_digits(s: Seq<char>) -> bool {
    forall|i: int| 0 <= i < s.len() ==> '0' <= #[trigger] s[i] <= '9'
}

/// The number that the decimal digits `s` denote.
pub open spec fn digits_value(s: Seq<char>) -> nat
    decreases s.len(),
{
    if s.len() == 0 {
        0
    } else {
        (digits_value(s.drop_last()) * 10 + ((s.last() as int) - 48)) as nat
    }
}

/// What `s.parse::<usize>()` gives: an optional `+`, then one or more
/// ASCII digits whose value fits in `usize`.
pub open spec fn parse_usize_spec(s: Seq<char>) -> Option<usize> {
    let d = if s.len() > 0 && s[0] == '+' {
        s.drop_first()
    } else {
        s
    };
    if d.len() > 0 && all_digits(d) && digits_value(d) <= usize::MAX {
        Some(digits_value(d) as usize)
    } else {
        None
    }
}

/// Whether header line `l` announces the body length.
pub open spec fn is_length_line(l: Seq<char>) -> bool {
    "Content-Length"@.is_prefix_of(l)
}

/// The value a length line announces, when it is a number.
pub open spec fn length_value(l: Seq<char>) -> Option<usize> {
    parse_usize_spec(trimmed(after_last_colon(l)))
}

/// The body length announced by the last length line of `ls`, or 0.
pub open spec fn content_length_spec(ls: Seq<Seq<char>>) -> usize
    decreases ls.len(),
{
    if ls.len() == 0 {
        0
    } else if is_length_line(ls.last()) {
        length_value(ls.last()).unwrap()
    } else {
        content_length_spec(ls.drop_last())
    }
}

/// A head the proxy can read: it has a line, and each length line
/// carries a number.
pub open spec fn head_well_formed(head: Seq<char>) -> bool {
    let ls = lines_of(head);
    &&& ls.len() > 0
    &&& forall|i: int| 0 <= i < ls.len() && is_length_line(#[trigger] ls[i]) ==> length_value(ls[i]) is Some
}

/// Digits before position `k` never denote more than all of them.
proof fn lemma_digits_prefix(s: Seq<char>, k: int)
    requires
        all_digits(s),
        0 <= k <= s.len(),
    ensures
        digits_value(s.take(k)) <= digits_value(s),
    decreases s.len(),
{
    if k < s.len() {
        assert(s.drop_last().take(k) =~= s.take(k));
        lemma_digits_prefix(s.drop_last(), k);
    } else {
        assert(s.take(k) =~= s);
    }
}

/// `cs[from..to].parse::<usize>()`.
pub fn parse_usize(cs: &Vec<char>, from: usize, to: usize) -> (r: Option<usize>)
    requires
        from <= to <= cs@.len(),
    ensures
        r == parse_usize_spec(cs@.subrange(from as int, to as int)),
{
    let ghost s = cs@.subrange(from as int, to as int);
    let mut a = from;
    if a < to && cs[a] == '+' {
        a = a + 1;
    }
    let ghost d = cs@.subrange(a as int, to as int);
    assert(d =~= (if s.len() > 0 && s[0] == '+' { s.drop_first() } else { s }));
    if a == to {
        return None;
    }
    let mut v: usize = 0;
    let mut k = a;
    assert(d.take(0) =~= Seq::<char>::empty());
    while k < to
        invariant
            from <= a <= k <= to <= cs@.len(),
            d == cs@.subrange(a as int, to as int),
            s == cs@.subrange(from as int, to as int),
            d == (if s.len() > 0 && s[0] == '+' { s.drop_first() } else { s }),
            d.len() > 0,
            all_digits(d.take(k - a)),
            v as nat == digits_value(d.take(k - a)),
        decreases to - k,
    {
        let c = cs[k];
        if !('0' <= c && c <= '9') {
            assert(d[k - a] == c);
            return None;
        }
        let dv = (c as u32 - 48) as usize;
        assert(dv as int == (c as int) - 48);
        assert(d.take(k - a + 1).drop_last() =~= d.take(k - a));
        assert(d.take(k - a + 1).last() == c);
        match v.checked_mul(10) {
            Some(m) => match m.checked_add(dv) {
                Some(nv) => {
                    v = nv;
                },
                None => {
                    proof {
                        if all_digits(d) {
                            lemma_digits_prefix(d, k - a + 1);
                        }
                    }
                    return None;
                },
            },
            None => {
                proof {
                    if all_digits(d) {
                        lemma_digits_prefix(d, k - a + 1);
                    }
                }
                return None;
            },
        }
        k = k + 1;
        assert(all_digits(d.take(k - a)));
    }
    assert(d.take(k - a) =~= d);
    Some(v)
}

/// The position just after the last `:` of `cs[from..to]`, or `from`.
fn after_colon_start(cs: &Vec<char>, from: usize, to: usize) -> (r: usize)
    requires
        from <= to <= cs@.len(),
    ensures
        from <= r <= to,
        cs@.subrange(r as int, to as int) == after_last_colon(cs@.subrange(from as int, to as int)),
{
    let ghost l = cs@.subrange(from as int, to as int);
    let mut j = to;
    assert(l =~= l.take(to - from) + cs@.subrange(to as int, to as int));
    while j > from && cs[j - 1] != ':'
        invariant
            from <= j <= to <= cs@.len(),
            l == cs@.subrange(from as int, to as int),
            after_last_colon(l) == after_last_colon(l.take(j - from)) + cs@.subrange(
                j as int,
                to as int,
            ),
        decreases j,
    {
        let ghost t = l.take(j - from);
        assert(t.drop_last() =~= l.take(j - 1 - from));
        assert(t.last() == cs@[j - 1]);
        assert(cs@.subrange(j - 1, to as int) =~= seq![cs@[j - 1]] + cs@.subrange(
            j as int,
            to as int,
        ));
        assert(after_last_colon(t) == after_last_colon(t.drop_last()).push(t.last()));
        assert(after_last_colon(t) + cs@.subrange(j as int, to as int) =~= after_last_colon(
            t.drop_last(),
        ) + cs@.subrange(j - 1, to as int));
        j = j - 1;
    }
    let ghost t = l.take(j - from);
    if j > from {
        assert(t.last() == cs@[j - 1]);
    }
    assert(after_last_colon(t) =~= Seq::<char>::empty());
    assert(after_last_colon(l) =~= cs@.subrange(j as int, to as int));
    j
}

/// The value a length line `cs[from..to]` announces.
fn line_length_value(cs: &Vec<char>, from: usize, to: usize) -> (r: Option<usize>)
    requires
        from <= to <= cs@.len(),
    ensures
        r == length_value(cs@.subrange(from as int, to as int)),
{
    let c = after_colon_start(cs, from, to);
    let (a, b) = trim_range(cs, c, to);
    parse_usize(cs, a, b)
}

/// The end of the line of `cs` that starts at `pos`: the index of the
/// next `\n`, or the length of `cs`.
fn find_line_end(cs: &Vec<char>, pos: usize) -> (e: usize)
    requires
        pos <= cs@.len(),
    ensures
        pos <= e <= cs@.len(),
        e == pos + line_end(cs@.skip(pos as int)),
{
    let mut k = pos;
    while k < cs.len() && cs[k] != '\n'
        invariant
            pos <= k <= cs@.len(),
            line_end(cs@.skip(pos as int)) == (k - pos) + line_end(cs@.skip(k as int)),
        decreases cs@.len() - k,
    {
        assert(cs@.skip(k as int).drop_first() =~= cs@.skip(k + 1));
        k = k + 1;
    }
    k
}

/// The lines of `cs` starting at `pos`, as `lines_of` gives them, one
/// line and the rest.
proof fn lemma_lines_step(cs: Seq<char>, pos: int, e: int)
    requires
        0 <= pos < cs.len(),
        e == pos + line_end(cs.skip(pos)),
    ensures
        e < cs.len() ==> lines_of(cs.skip(pos)) == seq![strip_cr(cs.subrange(pos, e))]
            + lines_of(cs.skip(e + 1)),
        e >= cs.len() ==> lines_of(cs.skip(pos)) == seq![cs.subrange(pos, cs.len() as int)],
{
    let s = cs.skip(pos);
    lemma_line_end_bound(s);
    assert(s.take(e - pos) =~= cs.subrange(pos, e));
    if e < cs.len() {
        assert(s.skip(e - pos + 1) =~= cs.skip(e + 1));
    } else {
        assert(s =~= cs.subrange(pos, cs.len() as int));
    }
}

/// Whether a request head is one [`parse_request`] can read (see
/// [`head_well_formed`]).
pub fn check_head(head: &str) -> (r: bool)
    ensures
        r == head_well_formed(head@),
{
    scan_head(head).is_some()
}

/// Reads the lines of `head`: its first line and the announced body
/// length, or `None` when the head is not well formed.
fn scan_head(head: &str) -> (r: Option<(String, usize)>)
    ensures
        r is Some <==> head_well_formed(head@),
        r matches Some((line, n)) ==> line@ == lines_of(head@)[0] && n == content_length_spec(
            lines_of(head@),
        ),
{
    let cs = chars_of(head);
    let n = cs.len();
    let pattern = chars_of("Content-Length");
    let mut pos: usize = 0;
    let mut first: Option<String> = None;
    let mut size: usize = 0;
    let mut ok = true;
    let ghost mut seen: Seq<Seq<char>> = seq![];
    assert(cs@.skip(0) =~= cs@);
    while pos < n
        invariant
            pos <= n == cs@.len(),
            pattern@ == "Content-Length"@,
            lines_of(cs@) == seen + lines_of(cs@.skip(pos as int)),
            first is None <==> seen.len() == 0,
            first matches Some(f) ==> seen.len() > 0 && f@ == seen[0],
            ok ==> size == content_length_spec(seen),
            ok <==> (forall|i: int|
                0 <= i < seen.len() && is_length_line(#[trigger] seen[i]) ==> length_value(seen[i]) is Some),
        decreases n - pos,
    {
        let e = find_line_end(&cs, pos);
        proof {
            lemma_lines_step(cs@, pos as int, e as int);
        }
        let stop = if e < n && e > pos && cs[e - 1] == '\r' {
            e - 1
        } else {
            e
        };
        let ghost line = cs@.subrange(pos as int, stop as int);
        proof {
            if e < n {
                assert(line =~= strip_cr(cs@.subrange(pos as int, e as int)));
            }
        }
        let lv = sub_chars(&cs, pos, stop);
        if first.is_none() {
            first = Some(string_of_range(&cs, pos, stop));
        }
        let is_len = occurs_at(&lv, 0, &pattern);
        assert(lv@.skip(0) =~= lv@);
        if is_len {
            match line_length_value(&cs, pos, stop) {
                Some(v) => {
                    size = v;
                },
                None => {
                    ok = false;
                },
            }
        }
        proof {
            let ns = seen.push(line);
            assert(ns.drop_last() =~= seen);
            assert(ns.last() == line);
            if e < n {
                assert(seen + lines_of(cs@.skip(pos as int)) =~= ns + lines_of(
                    cs@.skip(e + 1),
                ));
            } else {
                assert(cs@.skip(n as int) =~= Seq::<char>::empty());
                assert(seen + lines_of(cs@.skip(pos as int)) =~= ns + lines_of(
                    cs@.skip(n as int),
                ));
            }
            assert forall|i: int|
                0 <= i < ns.len() && is_length_line(#[trigger] ns[i])
                    implies length_value(ns[i]) is Some || !ok by {
                if i < seen.len() {
                    assert(ns[i] == seen[i]);
                }
            }
            seen = ns;
        }
        pos = if e < n {
            e + 1
        } else {
            n
        };
    }
    assert(cs@.skip(n as int) =~= Seq::<char>::empty());
    assert(seen =~= lines_of(cs@));
    match first {
        Some(f) => {
            if ok {
                Some((f, size))
            } else {
                None
            }
        },
        None => None,
    }
}

/// Reads a request head (the text up to and including its blank line):
/// gives its first line and the body length that its last
/// `Content-Length` line announces (0 without one), or refuses a body
/// longer than [`MAX_PAYLOAD_SIZE`].
pub fn parse_request(head: &str) -> (r: Result<(String, usize), RequestError>)
    requires
        head_well_formed(head@),
    ensures
        content_length_spec(lines_of(head@)) > MAX_PAYLOAD_SIZE <==> r is Err,
        r matches Ok((line, n)) ==> line@ == lines_of(head@)[0] && n == content_length_spec(
            lines_of(head@),
        ),
        r matches Err(e) ==> e == RequestError::MaxPayloadSize,
{
    let (line, n) = scan_head(head).unwrap();
    if n > MAX_PAYLOAD_SIZE {
        Err(RequestError::MaxPayloadSize)
    } else {
        Ok((line, n))
    }
}

} // verus!
