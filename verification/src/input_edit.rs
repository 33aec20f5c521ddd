//! UTF-8 aware editing of the input line.  Cursor positions are character
//! indices; `byte_offset` maps them to byte offsets.
use vstd::prelude::*;
use vstd::string::*;
use vstd::utf8::*;
use crate::text::{chars_of, string_of};

verus! {

/// `char::len_utf8`: the number of bytes of the UTF-8 encoding of `c`.
pub assume_specification[ char::len_utf8 ](c: char) -> (r: usize)
    ensures
        r == encode_scalar(c as u32).len(),
;

pub open spec fn min_nat(a: int, b: int) -> int {
    if a <= b {
        a
    } else {
        b
    }
}

/// Byte offset of character index `char_idx` in `s`, clamped to the end.
pub open spec fn byte_offset_spec(s: Seq<char>, char_idx: int) -> int {
    encode_utf8(s.take(min_nat(char_idx, s.len() as int))).len() as int
}

/// `s` with `ch` inserted at character index `pos` (clamped to the end),
/// and the cursor after the inserted character.
pub open spec fn insert_spec(s: Seq<char>, pos: int, ch: char) -> (Seq<char>, int) {
    let p = min_nat(pos, s.len() as int);
    (s.take(p).push(ch) + s.skip(p), p + 1)
}

/// Backspace: the character before `pos` is removed and the cursor moves
/// left; at the start of the line, or past its end, nothing is removed and
/// the cursor is clamped.
pub open spec fn delete_before_spec(s: Seq<char>, pos: int) -> (Seq<char>, int) {
    if pos == 0 || pos > s.len() {
        (s, min_nat(pos, s.len() as int))
    } else {
        (s.take(pos - 1) + s.skip(pos), pos - 1)
    }
}

/// Delete: the character at `pos` is removed, if there is one.
pub open spec fn delete_at_spec(s: Seq<char>, pos: int) -> Seq<char> {
    if pos >= s.len() {
        s
    } else {
        s.take(pos) + s.skip(pos + 1)
    }
}

proof fn lemma_encode_push(a: Seq<char>, c: char)
    ensures
        encode_utf8(a.push(c)) == encode_utf8(a) + encode_scalar(c as u32),
    decreases a.len(),
{
    if a.len() == 0 {
        assert(a.push(c).drop_first() =~= Seq::<char>::empty());
        assert(encode_utf8(Seq::<char>::empty()) =~= Seq::<u8>::empty());
        assert(encode_utf8(a.push(c)) =~= encode_scalar(c as u32));
    } else {
        assert(a.push(c).drop_first() =~= a.drop_first().push(c));
        lemma_encode_push(a.drop_first(), c);
        assert(encode_utf8(a.push(c)) =~= encode_utf8(a) + encode_scalar(c as u32));
    }
}

proof fn lemma_encode_prefix_len(s: Seq<char>, k: int)
    requires
        0 <= k <= s.len(),
    ensures
        encode_utf8(s.take(k)).len() <= encode_utf8(s).len(),
    decreases s.len() - k,
{
    if k < s.len() {
        lemma_encode_prefix_len(s, k + 1);
        assert(s.take(k + 1) =~= s.take(k).push(s[k]));
        lemma_encode_push(s.take(k), s[k]);
    } else {
        assert(s.take(k) =~= s);
    }
}

/// Character index → byte offset; an index past the end gives the length.
pub fn byte_offset(s: &str, char_idx: usize) -> (r: usize)
    ensures
        r == byte_offset_spec(s@, char_idx as int),
{
    let total = s.as_bytes().len();
    let cs = chars_of(s);
    let n = if char_idx < cs.len() {
        char_idx
    } else {
        cs.len()
    };
    let mut off: usize = 0;
    let mut i: usize = 0;
    while i < n
        invariant
            n <= cs.len(),
            cs@ == s@,
            total == encode_utf8(s@).len(),
            i <= n,
            off == encode_utf8(s@.take(i as int)).len(),
        decreases n - i,
    {
        proof {
            assert(s@.take(i + 1) =~= s@.take(i as int).push(s@[i as int]));
            lemma_encode_push(s@.take(i as int), s@[i as int]);
            lemma_encode_prefix_len(s@, i + 1);
        }
        off = off + cs[i].len_utf8();
        i = i + 1;
    }
    off
}

/// A vector of the characters of `v` with `ch` inserted at `p`.
fn spliced(v: &Vec<char>, p: usize, skip_from: usize, ch: Option<char>) -> (r: Vec<char>)
    requires
        p <= skip_from <= v.len(),
    ensures
        r@ == (match ch {
            Some(c) => v@.take(p as int).push(c),
            None => v@.take(p as int),
        }) + v@.skip(skip_from as int),
{
    let mut r: Vec<char> = Vec::new();
    let mut i: usize = 0;
    while i < p
        invariant
            p <= v.len(),
            i <= p,
            r@ == v@.take(i as int),
        decreases p - i,
    {
        r.push(v[i]);
        i = i + 1;
        assert(r@ =~= v@.take(i as int));
    }
    match ch {
        Some(c) => r.push(c),
        None => {},
    }
    let ghost head = r@;
    let mut j: usize = skip_from;
    while j < v.len()
        invariant
            skip_from <= j <= v.len(),
            r@ == head + v@.subrange(skip_from as int, j as int),
        decreases v.len() - j,
    {
        r.push(v[j]);
        j = j + 1;
        assert(r@ =~= head + v@.subrange(skip_from as int, j as int));
    }
    assert(v@.subrange(skip_from as int, v.len() as int) =~= v@.skip(skip_from as int));
    r
}

/// Inserts `ch` at character position `pos` (clamped to the end) and returns
/// the new cursor position, `pos + 1`.
pub fn insert_char(input: &mut String, pos: usize, ch: char) -> (r: usize)
    ensures
        (final(input)@, r as int) == insert_spec(old(input)@, pos as int, ch),
{
    let cs = chars_of(input.as_str());
    let p = if pos < cs.len() {
        pos
    } else {
        cs.len()
    };
    let v = spliced(&cs, p, p, Some(ch));
    let vl = v.len();
    assert(vl == cs@.len() + 1);
    *input = string_of(&v);
    p + 1
}

/// Backspace at `pos`: removes the character before it and returns `pos - 1`;
/// at the start (or past the end) nothing changes and the clamped position
/// is returned.
pub fn delete_before(input: &mut String, pos: usize) -> (r: usize)
    ensures
        (final(input)@, r as int) == delete_before_spec(old(input)@, pos as int),
{
    let cs = chars_of(input.as_str());
    if pos == 0 || pos > cs.len() {
        return if pos < cs.len() {
            pos
        } else {
            cs.len()
        };
    }
    let v = spliced(&cs, pos - 1, pos, None);
    *input = string_of(&v);
    pos - 1
}

/// Delete at `pos`: removes the character under the cursor; the cursor
/// stays.  Past the end nothing changes.
pub fn delete_at(input: &mut String, pos: usize)
    ensures
        final(input)@ == delete_at_spec(old(input)@, pos as int),
{
    let cs = chars_of(input.as_str());
    if pos >= cs.len() {
        return;
    }
    let v = spliced(&cs, pos, pos + 1, None);
    *input = string_of(&v);
}

/// Backspace right after inserting a character undoes the insertion: the
/// line is as before and the cursor is back at the (clamped) position.
pub proof fn law_backspace_undoes_insert(s: Seq<char>, pos: int, ch: char)
    requires
        0 <= pos,
    ensures
        delete_before_spec(insert_spec(s, pos, ch).0, insert_spec(s, pos, ch).1) == (
            s,
            min_nat(pos, s.len() as int),
        ),
{
    let p = min_nat(pos, s.len() as int);
    let t = s.take(p).push(ch) + s.skip(p);
    assert(t.take(p) =~= s.take(p));
    assert(t.skip(p + 1) =~= s.skip(p));
    assert(t.take(p) + t.skip(p + 1) =~= s);
}

/// Delete at `pos` removes the same character as Backspace at `pos + 1`.
pub proof fn law_delete_at_is_backspace_after(s: Seq<char>, pos: int)
    requires
        0 <= pos < s.len(),
    ensures
        delete_at_spec(s, pos) == delete_before_spec(s, pos + 1).0,
{
}

/// Every cursor position a line edit returns lies within the edited line.
pub proof fn law_cursor_stays_in_line(s: Seq<char>, pos: int, ch: char)
    requires
        0 <= pos,
    ensures
        0 <= insert_spec(s, pos, ch).1 <= insert_spec(s, pos, ch).0.len(),
        0 <= delete_before_spec(s, pos).1 <= delete_before_spec(s, pos).0.len(),
{
}

} // verus!
