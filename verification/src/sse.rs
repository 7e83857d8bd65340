//! The framing of a streamed reply: server-sent events.
//!
//! Events are separated by an empty line.  The payload of an event is what its
//! `data:` lines carry.
use vstd::prelude::*;
use vstd::slice::slice_subrange;
use vstd::utf8::{decode_utf8, valid_utf8};

use crate::text::{chars_at, chars_of, occurs_at, starts_with, text_of};

verus! {

// ---------------------------------------------------------------------------
// Event boundaries
// ---------------------------------------------------------------------------
/// Whether an empty line with CRLF line ends stands in `s` at `i`.
pub open spec fn crlf_at(s: Seq<u8>, i: int) -> bool {
    &&& 0 <= i
    &&& i + 4 <= s.len()
    &&& s[i] == 13
    &&& s[i + 1] == 10
    &&& s[i + 2] == 13
    &&& s[i + 3] == 10
}

/// Whether an empty line with LF line ends stands in `s` at `i`.
pub open spec fn lf_at(s: Seq<u8>, i: int) -> bool {
    0 <= i && i + 2 <= s.len() && s[i] == 10 && s[i + 1] == 10
}

/// Whether `p` is the first place with an empty line with CRLF line ends.
pub open spec fn first_crlf(s: Seq<u8>, p: int) -> bool {
    crlf_at(s, p) && forall|i: int| 0 <= i < p ==> !#[trigger] crlf_at(s, i)
}

/// Whether `p` is the first place with an empty line with LF line ends.
pub open spec fn first_lf(s: Seq<u8>, p: int) -> bool {
    lf_at(s, p) && forall|i: int| 0 <= i < p ==> !#[trigger] lf_at(s, i)
}

/// Whether an empty line with CRLF line ends stands anywhere in `s`.
pub open spec fn has_crlf(s: Seq<u8>) -> bool {
    exists|i: int| #[trigger] crlf_at(s, i)
}

/// Whether `p` is where the first event of `s` ends: an empty line with CRLF
/// line ends is looked for first, in all of `s`, and only if there is none an
/// empty line with LF line ends.
pub open spec fn ends_event(s: Seq<u8>, p: int) -> bool {
    if has_crlf(s) {
        first_crlf(s, p)
    } else {
        first_lf(s, p)
    }
}

/// Where the first event of `s` ends, if it does.
pub open spec fn boundary(s: Seq<u8>) -> Option<int> {
    if exists|p: int| #[trigger] ends_event(s, p) {
        Some(choose|p: int| #[trigger] ends_event(s, p))
    } else {
        None
    }
}

pub proof fn lemma_boundary_is_unique(s: Seq<u8>, p: int)
    requires
        ends_event(s, p),
    ensures
        boundary(s) == Some(p),
{
    let q = choose|q: int| #[trigger] ends_event(s, q);
    assert(ends_event(s, q));
    if has_crlf(s) {
        assert(crlf_at(s, p) && crlf_at(s, q));
    } else {
        assert(lf_at(s, p) && lf_at(s, q));
    }
}

/// What [`boundary`] gives ends an event.
pub proof fn lemma_boundary_ends_event(s: Seq<u8>)
    requires
        boundary(s) is Some,
    ensures
        ends_event(s, boundary(s)->0),
        0 <= boundary(s)->0,
        boundary(s)->0 + 2 <= s.len(),
        crlf_at(s, boundary(s)->0) || lf_at(s, boundary(s)->0),
{
}

/// Where the first event of a buffer ends (the empty line excluded), if it
/// does.
pub fn find_event_boundary(buf: &[u8]) -> (r: Option<usize>)
    ensures
        match r {
            Some(p) => boundary(buf@) == Some(p as int),
            None => boundary(buf@) is None,
        },
{
    let n = buf.len();
    let mut i: usize = 0;
    while n >= 4 && i <= n - 4
        invariant
            n == buf@.len(),
            i <= n,
            forall|j: int| 0 <= j < i ==> !#[trigger] crlf_at(buf@, j),
        decreases n - i,
    {
        if buf[i] == 13 && buf[i + 1] == 10 && buf[i + 2] == 13 && buf[i + 3] == 10 {
            assert(crlf_at(buf@, i as int));
            proof {
                lemma_boundary_is_unique(buf@, i as int);
            }
            return Some(i);
        }
        i += 1;
    }
    assert(!has_crlf(buf@)) by {
        assert forall|j: int| !#[trigger] crlf_at(buf@, j) by {}
    }
    let mut i: usize = 0;
    while n >= 2 && i <= n - 2
        invariant
            n == buf@.len(),
            i <= n,
            !has_crlf(buf@),
            forall|j: int| 0 <= j < i ==> !#[trigger] lf_at(buf@, j),
        decreases n - i,
    {
        if buf[i] == 10 && buf[i + 1] == 10 {
            assert(lf_at(buf@, i as int));
            proof {
                lemma_boundary_is_unique(buf@, i as int);
            }
            return Some(i);
        }
        i += 1;
    }
    assert forall|p: int| !#[trigger] ends_event(buf@, p) by {
        assert(!lf_at(buf@, p));
    }
    None
}

/// The length of the empty line that `s` begins with.
pub open spec fn separator_len(s: Seq<u8>) -> int {
    if crlf_at(s, 0) {
        4
    } else if lf_at(s, 0) {
        2
    } else {
        0
    }
}

/// Drops the empty line that a buffer begins with, and says how long it was.
pub fn strip_boundary_prefix(buf: &mut Vec<u8>) -> (r: usize)
    ensures
        r == separator_len(old(buf)@),
        final(buf)@ == old(buf)@.skip(r as int),
{
    let n = buf.len();
    let r: usize = if n >= 4 && buf[0] == 13 && buf[1] == 10 && buf[2] == 13 && buf[3] == 10 {
        4
    } else if n >= 2 && buf[0] == 10 && buf[1] == 10 {
        2
    } else {
        0
    };
    drop_front(buf, r);
    r
}

/// Drops the first `n` bytes of a buffer.
fn drop_front(buf: &mut Vec<u8>, n: usize)
    requires
        n <= old(buf)@.len(),
    ensures
        final(buf)@ == old(buf)@.skip(n as int),
{
    let rest = buf.split_off(n);
    *buf = rest;
    assert(buf@ =~= old(buf)@.skip(n as int));
}

/// What follows the event of `s` that ends at `p`.
pub open spec fn after_event(s: Seq<u8>, p: int) -> Seq<u8> {
    s.skip(p).skip(separator_len(s.skip(p)))
}

/// The separator is not left behind.
pub proof fn lemma_after_event(s: Seq<u8>, p: int)
    requires
        crlf_at(s, p) || lf_at(s, p),
    ensures
        after_event(s, p) == s.skip(
            p + (if crlf_at(s, p) {
                4int
            } else {
                2int
            }),
        ),
        after_event(s, p).len() < s.len(),
{
    assert(crlf_at(s.skip(p), 0) == crlf_at(s, p));
    assert(lf_at(s.skip(p), 0) == lf_at(s, p));
    assert(after_event(s, p) =~= s.skip(
        p + (if crlf_at(s, p) {
            4int
        } else {
            2int
        }),
    ));
}

/// Takes the first event off a buffer, if it has ended.
pub fn take_event(buf: &mut Vec<u8>) -> (r: Option<Vec<u8>>)
    ensures
        match r {
            Some(event) => boundary(old(buf)@) matches Some(p) && event@ == old(buf)@.take(p)
                && final(buf)@ == after_event(old(buf)@, p),
            None => boundary(old(buf)@) is None && final(buf)@ == old(buf)@,
        },
{
    match find_event_boundary(buf.as_slice()) {
        None => None,
        Some(p) => {
            proof {
                lemma_boundary_ends_event(buf@);
            }
            let mut rest = buf.split_off(p);
            std::mem::swap(buf, &mut rest);
            assert(rest@ =~= old(buf)@.take(p as int));
            assert(buf@ =~= old(buf)@.skip(p as int));
            let _ = strip_boundary_prefix(buf);
            Some(rest)
        },
    }
}

// ---------------------------------------------------------------------------
// The payload of an event
// ---------------------------------------------------------------------------
/// Where the first line of `s` ends: at a line feed, or at the end of `s`.
pub open spec fn line_end(s: Seq<char>) -> int
    decreases s.len(),
{
    if s.len() == 0 || s[0] == '\n' {
        0
    } else {
        1 + line_end(s.skip(1))
    }
}

/// A line without the carriage return that belongs to its line end.
pub open spec fn chomp(line: Seq<char>) -> Seq<char> {
    if line.len() > 0 && line.last() == '\r' {
        line.drop_last()
    } else {
        line
    }
}

/// The lines of `s`: each ends with LF or CRLF, but the last need not end so.
pub open spec fn lines(s: Seq<char>) -> Seq<Seq<char>>
    decreases s.len(),
{
    let e = line_end(s);
    if s.len() == 0 {
        seq![]
    } else if 0 <= e < s.len() {
        seq![chomp(s.take(e))] + lines(s.skip(e + 1))
    } else {
        seq![s]
    }
}

/// `s` without the spaces that it begins with.
pub open spec fn trim_spaces(s: Seq<char>) -> Seq<char>
    decreases s.len(),
{
    if s.len() > 0 && s[0] == ' ' {
        trim_spaces(s.skip(1))
    } else {
        s
    }
}

/// What the line carries: one value if it is a `data:` line.
pub open spec fn line_data(line: Seq<char>) -> Seq<Seq<char>> {
    if starts_with(line, "data:"@) {
        seq![trim_spaces(line.skip(5))]
    } else {
        seq![]
    }
}

/// What the lines carry.
pub open spec fn data_values(ls: Seq<Seq<char>>) -> Seq<Seq<char>>
    decreases ls.len(),
{
    if ls.len() == 0 {
        seq![]
    } else {
        line_data(ls[0]) + data_values(ls.skip(1))
    }
}

/// The texts one after the other, with a line feed between each two.
pub open spec fn joined(parts: Seq<Seq<char>>) -> Seq<char>
    decreases parts.len(),
{
    if parts.len() == 0 {
        seq![]
    } else if parts.len() == 1 {
        parts[0]
    } else {
        joined(parts.drop_last()) + seq!['\n'] + parts.last()
    }
}

/// The payload of an event: nothing if it is not text or has no `data:` line.
pub open spec fn payload(event: Seq<u8>) -> Option<Seq<char>> {
    if !valid_utf8(event) {
        None
    } else {
        let values = data_values(lines(decode_utf8(event)));
        if values.len() == 0 {
            None
        } else {
            Some(joined(values))
        }
    }
}

proof fn lemma_line_end(s: Seq<char>, from: int, to: int)
    requires
        0 <= from <= to <= s.len(),
        forall|i: int| from <= i < to ==> s[i] != '\n',
        to == s.len() || s[to] == '\n',
    ensures
        line_end(s.skip(from)) == to - from,
    decreases to - from,
{
    let rest = s.skip(from);
    if from < to {
        assert(rest.skip(1) =~= s.skip(from + 1));
        lemma_line_end(s, from + 1, to);
    }
}

/// A copy of the characters of `s` from `from` to `to`.
fn copy_chars(s: &[char], from: usize, to: usize) -> (r: Vec<char>)
    requires
        from <= to <= s@.len(),
    ensures
        r@ == s@.subrange(from as int, to as int),
{
    vstd::slice::slice_to_vec(slice_subrange(s, from, to))
}

/// What a line carries, if it is a `data:` line.
fn data_of_line(line: &[char]) -> (r: Option<Vec<char>>)
    ensures
        line_data(line@) == match r {
            Some(v) => seq![v@],
            None => seq![],
        },
{
    let prefix = chars_of("data:");
    proof {
        reveal_strlit("data:");
    }
    if !chars_at(line, prefix.as_slice(), 0) {
        return None;
    }
    assert(occurs_at(line@, "data:"@, 0));
    let mut from: usize = 5;
    while from < line.len() && line[from] == ' '
        invariant
            5 <= from <= line@.len(),
            trim_spaces(line@.skip(5)) == trim_spaces(line@.skip(from as int)),
        decreases line@.len() - from,
    {
        assert(line@.skip(from as int).skip(1) =~= line@.skip(from + 1));
        from += 1;
    }
    let r = copy_chars(line, from, line.len());
    assert(r@ =~= line@.skip(from as int));
    Some(r)
}

proof fn lemma_data_cons(line: Seq<char>, rest: Seq<Seq<char>>)
    ensures
        data_values(seq![line] + rest) == line_data(line) + data_values(rest),
{
    assert((seq![line] + rest).skip(1) =~= rest);
}

/// The texts that hold the given characters, as values.
spec fn texts(parts: Seq<Vec<char>>) -> Seq<Seq<char>> {
    parts.map_values(|v: Vec<char>| v@)
}

/// What the lines of `s` carry.
fn data_of_text(s: &[char]) -> (r: Vec<Vec<char>>)
    ensures
        texts(r@) == data_values(lines(s@)),
{
    let mut r: Vec<Vec<char>> = Vec::new();
    let mut from: usize = 0;
    assert(s@.skip(0) =~= s@);
    assert(texts(r@) =~= seq![]);
    assert(seq![] + data_values(lines(s@)) =~= data_values(lines(s@)));
    while from < s.len()
        invariant
            from <= s@.len(),
            texts(r@) + data_values(lines(s@.skip(from as int))) == data_values(lines(s@)),
        decreases s@.len() - from,
    {
        let mut to: usize = from;
        while to < s.len() && s[to] != '\n'
            invariant
                from <= to <= s@.len(),
                forall|i: int| from <= i < to ==> s@[i] != '\n',
            decreases s@.len() - to,
        {
            to += 1;
        }
        proof {
            lemma_line_end(s@, from as int, to as int);
        }
        let ghost rest = s@.skip(from as int);
        let ghost before = r@;
        let end: usize = if to < s.len() && to > from && s[to - 1] == '\r' {
            to - 1
        } else {
            to
        };
        let line = copy_chars(s, from, end);
        let next: usize = if to < s.len() {
            to + 1
        } else {
            to
        };
        proof {
            if to < s@.len() {
                assert(rest.take(to - from) =~= s@.subrange(from as int, to as int));
                assert(line@ =~= chomp(rest.take(to - from)));
                assert(rest.skip(to - from + 1) =~= s@.skip(next as int));
            } else {
                assert(line@ =~= rest);
                assert(s@.skip(next as int) =~= seq![]);
                assert(seq![rest] + lines(s@.skip(next as int)) =~= seq![rest]);
            }
            assert(lines(rest) == seq![line@] + lines(s@.skip(next as int)));
            lemma_data_cons(line@, lines(s@.skip(next as int)));
        }
        match data_of_line(line.as_slice()) {
            Some(v) => {
                r.push(v);
                assert(texts(r@) =~= texts(before) + seq![v@]);
            },
            None => {},
        }
        assert(texts(r@) =~= texts(before) + line_data(line@));
        assert(texts(r@) + data_values(lines(s@.skip(next as int))) =~= texts(before) + (line_data(
            line@,
        ) + data_values(lines(s@.skip(next as int)))));
        from = next;
    }
    assert(s@.skip(from as int) =~= seq![]);
    assert(texts(r@) + seq![] =~= texts(r@));
    r
}

/// The texts one after the other, with a line feed between each two.
fn join_lines(parts: &[Vec<char>]) -> (r: Vec<char>)
    ensures
        r@ == joined(texts(parts@)),
{
    let mut r: Vec<char> = Vec::new();
    let mut i: usize = 0;
    assert(texts(parts@).take(0) =~= seq![]);
    while i < parts.len()
        invariant
            i <= parts@.len(),
            r@ == joined(texts(parts@).take(i as int)),
        decreases parts@.len() - i,
    {
        let ghost all = texts(parts@);
        let ghost before = r@;
        if i > 0 {
            r.push('\n');
        }
        let mut part = copy_chars(parts[i].as_slice(), 0, parts[i].len());
        assert(part@ =~= parts@[i as int]@);
        r.append(&mut part);
        i += 1;
        proof {
            assert(all.take(i as int).drop_last() =~= all.take(i - 1));
            assert(all.take(i as int).last() == parts@[i - 1]@);
            if i == 1 {
                assert(r@ =~= parts@[0]@);
            } else {
                assert(r@ =~= before + seq!['\n'] + parts@[i - 1]@);
            }
        }
    }
    assert(texts(parts@).take(i as int) =~= texts(parts@));
    r
}

/// The payload of an event, if it has one.
pub fn event_payload(event: &[u8]) -> (r: Option<String>)
    ensures
        match r {
            Some(s) => payload(event@) == Some(s@),
            None => payload(event@) is None,
        },
{
    match std::str::from_utf8(event) {
        Err(_) => None,
        Ok(text) => {
            let chars = chars_of(text);
            let values = data_of_text(chars.as_slice());
            assert(texts(values@).len() == values@.len());
            if values.len() == 0 {
                None
            } else {
                let all = join_lines(values.as_slice());
                Some(text_of(all.as_slice()))
            }
        },
    }
}

} // verus!
