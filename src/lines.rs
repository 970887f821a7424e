//! Rendered text as a sequence of lines, and the splitting of
//! documentation text into lines.

use vstd::prelude::*;
use crate::text::push_char;

verus! {

/// `2 * d` spaces.
pub open spec fn indent(d: nat) -> Seq<char> {
    Seq::new(2 * d, |i: int| ' ')
}

/// Each line followed by a newline.
pub open spec fn lines_text(ls: Seq<Seq<char>>) -> Seq<char>
    decreases ls.len(),
{
    if ls.len() == 0 {
        Seq::empty()
    } else {
        lines_text(ls.drop_last()) + ls.last() + seq!['\n']
    }
}

pub proof fn lemma_lines_text_concat(a: Seq<Seq<char>>, b: Seq<Seq<char>>)
    ensures
        lines_text(a + b) == lines_text(a) + lines_text(b),
    decreases b.len(),
{
    if b.len() == 0 {
        assert(a + b =~= a);
        assert(lines_text(a) + lines_text(b) =~= lines_text(a));
    } else {
        assert((a + b).drop_last() =~= a + b.drop_last());
        lemma_lines_text_concat(a, b.drop_last());
        assert(lines_text(a + b) =~= lines_text(a) + lines_text(b));
    }
}

pub proof fn lemma_lines_text_push(a: Seq<Seq<char>>, l: Seq<char>)
    ensures
        lines_text(a.push(l)) == lines_text(a) + l + seq!['\n'],
{
    assert(a.push(l).drop_last() == a);
}

/// Blocks of lines with one empty line between consecutive blocks.
pub open spec fn sep_blocks(bs: Seq<Seq<Seq<char>>>) -> Seq<Seq<char>>
    decreases bs.len(),
{
    if bs.len() == 0 {
        Seq::empty()
    } else if bs.len() == 1 {
        bs[0]
    } else {
        sep_blocks(bs.drop_last()) + seq![Seq::<char>::empty()] + bs.last()
    }
}

/// The blocks one after another.
pub open spec fn cat_blocks(bs: Seq<Seq<Seq<char>>>) -> Seq<Seq<char>>
    decreases bs.len(),
{
    if bs.len() == 0 {
        Seq::empty()
    } else {
        cat_blocks(bs.drop_last()) + bs.last()
    }
}

/// Whether `c` is a white-space character (the Unicode `White_Space`
/// property).
pub open spec fn is_ws(c: char) -> bool {
    let u = c as u32;
    (9 <= u <= 13) || u == 32 || u == 0x85 || u == 0xA0 || u == 0x1680 || (0x2000 <= u <= 0x200A)
        || u == 0x2028 || u == 0x2029 || u == 0x202F || u == 0x205F || u == 0x3000
}

/// Whether a line holds nothing but white space.
pub open spec fn is_blank(l: Seq<char>) -> bool {
    forall|i: int| 0 <= i < l.len() ==> is_ws(#[trigger] l[i])
}

/// The pieces of `s` between newline characters (at least one piece).
pub open spec fn split_nl(s: Seq<char>) -> Seq<Seq<char>>
    decreases s.len(),
{
    if s.len() == 0 {
        seq![Seq::empty()]
    } else {
        let p = split_nl(s.drop_last());
        if s.last() == '\n' {
            p.push(Seq::empty())
        } else {
            p.update(p.len() - 1, p.last().push(s.last()))
        }
    }
}

pub proof fn lemma_split_nl_len(s: Seq<char>)
    ensures
        split_nl(s).len() >= 1,
    decreases s.len(),
{
    if s.len() > 0 {
        lemma_split_nl_len(s.drop_last());
    }
}

/// A line without the carriage return that ended it, if any.
pub open spec fn strip_cr(l: Seq<char>) -> Seq<char> {
    if l.len() > 0 && l.last() == '\r' {
        l.drop_last()
    } else {
        l
    }
}

pub open spec fn strip_all(ls: Seq<Seq<char>>) -> Seq<Seq<char>> {
    ls.map_values(|l: Seq<char>| strip_cr(l))
}

/// The lines of `s`: split at newlines, a carriage return before a newline
/// dropped, and no empty line after a final newline.
pub open spec fn lines_of(s: Seq<char>) -> Seq<Seq<char>> {
    let p = split_nl(s);
    let full = strip_all(p.drop_last());
    if p.last().len() > 0 {
        full.push(p.last())
    } else {
        full
    }
}

pub open spec fn vv(v: Seq<Vec<char>>) -> Seq<Seq<char>> {
    v.map_values(|x: Vec<char>| x@)
}

/// The lines of `cs`.
pub fn split_lines(cs: &Vec<char>) -> (r: Vec<Vec<char>>)
    ensures
        vv(r@) == lines_of(cs@),
{
    let mut done: Vec<Vec<char>> = Vec::new();
    let mut cur: Vec<char> = Vec::new();
    let ghost mut raw: Seq<Seq<char>> = Seq::empty();
    let mut i: usize = 0;
    assert(cs@.take(0) =~= Seq::<char>::empty());
    assert(raw.push(cur@) =~= seq![Seq::<char>::empty()]);
    assert(vv(done@) =~= strip_all(raw));
    while i < cs.len()
        invariant
            0 <= i <= cs@.len(),
            split_nl(cs@.take(i as int)) == raw.push(cur@),
            vv(done@) == strip_all(raw),
        decreases cs@.len() - i,
    {
        let c = cs[i];
        assert(cs@.take(i + 1).drop_last() == cs@.take(i as int));
        assert(cs@.take(i + 1).last() == c);
        if c == '\n' {
            let mut line = cur;
            let ghost before = line@;
            if line.len() > 0 && line[line.len() - 1] == '\r' {
                line.pop();
                assert(line@ == before.drop_last());
            }
            assert(line@ == strip_cr(before));
            proof {
                assert(raw.push(before).push(Seq::empty()) == raw.push(before).push(Seq::<char>::empty()));
                assert(vv(done@).len() == done@.len());
                assert(strip_all(raw).len() == raw.len());
                assert(done@.len() == raw.len());
                assert(vv(done@.push(line))[done@.len() as int] == line@);
                assert(strip_all(raw.push(before))[raw.len() as int] == strip_cr(before));
                assert forall|j: int| 0 <= j < done@.len() + 1 implies #[trigger] vv(done@.push(line))[j] == strip_all(raw.push(before))[j] by {
                    if j < done@.len() {
                        assert(vv(done@)[j] == strip_all(raw)[j]);
                    }
                }
                assert(vv(done@.push(line)) =~= strip_all(raw.push(before)));
                raw = raw.push(before);
            }
            done.push(line);
            cur = Vec::new();
            assert(raw.push(cur@) =~= split_nl(cs@.take(i + 1)));
        } else {
            let ghost before = cur@;
            cur.push(c);
            assert(raw.push(before).update(raw.len() as int, before.push(c)) =~= raw.push(cur@));
        }
        i = i + 1;
    }
    assert(cs@.take(i as int) == cs@);
    let ghost p = split_nl(cs@);
    assert(p.drop_last() == raw);
    assert(p.last() == cur@);
    if cur.len() > 0 {
        let ghost last = cur@;
        assert(vv(done@.push(cur)) =~= vv(done@).push(last));
        done.push(cur);
    }
    done
}

/// Whether `c` is a white-space character.
pub fn is_ws_char(c: char) -> (r: bool)
    ensures
        r == is_ws(c),
{
    let u = c as u32;
    (9 <= u && u <= 13) || u == 32 || u == 0x85 || u == 0xA0 || u == 0x1680 || (0x2000 <= u && u
        <= 0x200A) || u == 0x2028 || u == 0x2029 || u == 0x202F || u == 0x205F || u == 0x3000
}

/// Whether a line holds nothing but white space.
pub fn is_blank_line(l: &Vec<char>) -> (r: bool)
    ensures
        r == is_blank(l@),
{
    let mut i: usize = 0;
    while i < l.len()
        invariant
            0 <= i <= l@.len(),
            forall|k: int| 0 <= k < i ==> is_ws(#[trigger] l@[k]),
        decreases l@.len() - i,
    {
        if !is_ws_char(l[i]) {
            return false;
        }
        i = i + 1;
    }
    true
}

/// Appends `2 * depth` spaces.
pub fn push_indent(out: &mut String, depth: usize)
    ensures
        final(out)@ == old(out)@ + indent(depth as nat),
{
    let ghost start = out@;
    let mut k: usize = 0;
    while k < depth
        invariant
            0 <= k <= depth,
            out@ == start + indent(k as nat),
        decreases depth - k,
    {
        push_char(out, ' ');
        push_char(out, ' ');
        assert(start + indent((k + 1) as nat) =~= start + indent(k as nat) + seq![' '] + seq![' ']);
        assert(out@ =~= start + indent((k + 1) as nat));
        k = k + 1;
    }
}

} // verus!
