use vstd::prelude::*;

verus! {

/// Column width of the job name in listings.
pub const NAME_WIDTH: usize = 20;
/// Column width of the schedule in listings.
pub const CRON_WIDTH: usize = 20;
/// Column width of the message in listings; longer messages are wrapped.
pub const DETAIL_WIDTH: usize = 40;
/// Column width of the sound flag in listings.
pub const SOUND_WIDTH: usize = 8;
/// Column width of the creation time in listings.
pub const CREATED_WIDTH: usize = 20;
/// Width of a whole listing row.
pub const TOTAL_WIDTH: usize = NAME_WIDTH + CRON_WIDTH + DETAIL_WIDTH + SOUND_WIDTH + CREATED_WIDTH;

/// The characters that separate words: Unicode's White_Space property.
pub open spec fn is_space_code(c: u32) -> bool {
    (0x09 <= c && c <= 0x0d) || c == 0x20 || c == 0x85 || c == 0xa0 || c == 0x1680 || (0x2000
        <= c && c <= 0x200a) || c == 0x2028 || c == 0x2029 || c == 0x202f || c == 0x205f || c
        == 0x3000
}

pub open spec fn is_space(c: char) -> bool {
    is_space_code(c as u32)
}

/// Reads the first `i` characters of `s`: the words completed so far and the
/// word still being read.
pub open spec fn scan(s: Seq<char>, i: int) -> (Seq<Seq<char>>, Seq<char>)
    decreases i,
{
    if i <= 0 {
        (Seq::empty(), Seq::empty())
    } else {
        let (done, part) = scan(s, i - 1);
        if is_space(s[i - 1]) {
            if part.len() > 0 {
                (done.push(part), Seq::empty())
            } else {
                (done, Seq::empty())
            }
        } else {
            (done, part.push(s[i - 1]))
        }
    }
}

/// The maximal runs of non-space characters of `s`, in order.
pub open spec fn words(s: Seq<char>) -> Seq<Seq<char>> {
    let (done, part) = scan(s, s.len() as int);
    if part.len() > 0 {
        done.push(part)
    } else {
        done
    }
}

/// The number of bytes that `c` takes in UTF-8.
pub open spec fn utf8_len(c: char) -> int {
    if (c as u32) < 0x80 {
        1
    } else if (c as u32) < 0x800 {
        2
    } else if (c as u32) < 0x10000 {
        3
    } else {
        4
    }
}

/// The number of bytes that `s` takes in UTF-8.
pub open spec fn byte_len(s: Seq<char>) -> int
    decreases s.len(),
{
    if s.len() == 0 {
        0
    } else {
        byte_len(s.drop_last()) + utf8_len(s.last())
    }
}

proof fn lemma_byte_len_concat(a: Seq<char>, b: Seq<char>)
    ensures
        byte_len(a + b) == byte_len(a) + byte_len(b),
    decreases b.len(),
{
    if b.len() == 0 {
        assert(a + b =~= a);
    } else {
        assert((a + b).drop_last() =~= a + b.drop_last());
        lemma_byte_len_concat(a, b.drop_last());
    }
}

proof fn lemma_byte_len_at_least_len(s: Seq<char>)
    ensures
        byte_len(s) >= s.len(),
    decreases s.len(),
{
    if s.len() > 0 {
        lemma_byte_len_at_least_len(s.drop_last());
    }
}

/// `n` capped at `cap`.
pub open spec fn clamp(n: int, cap: int) -> int {
    if n < cap {
        n
    } else {
        cap
    }
}

/// Places one word: it joins the current line when the line, a space and the
/// word fit in `width` bytes, otherwise it starts a new line.
pub open spec fn place(
    acc: (Seq<Seq<char>>, Seq<char>),
    w: Seq<char>,
    width: int,
) -> (Seq<Seq<char>>, Seq<char>) {
    let (lines, cur) = acc;
    if byte_len(cur) + byte_len(w) + 1 <= width {
        (lines, if cur.len() == 0 { w } else { cur + seq![' '] + w })
    } else {
        (if cur.len() > 0 { lines.push(cur) } else { lines }, w)
    }
}

/// Greedy layout of a word sequence: the finished lines and the open one.
pub open spec fn layout(ws: Seq<Seq<char>>, width: int) -> (Seq<Seq<char>>, Seq<char>)
    decreases ws.len(),
{
    if ws.len() == 0 {
        (Seq::empty(), Seq::empty())
    } else {
        place(layout(ws.drop_last(), width), ws.last(), width)
    }
}

/// A text that fits in `width` bytes is one line as it stands; a longer one
/// is laid out word by word, whitespace runs collapsing to single spaces.
pub open spec fn wrapped(s: Seq<char>, width: int) -> Seq<Seq<char>> {
    if byte_len(s) <= width {
        seq![s]
    } else {
        let (lines, cur) = layout(words(s), width);
        if cur.len() > 0 {
            lines.push(cur)
        } else {
            lines
        }
    }
}

pub open spec fn lines_view(v: Seq<String>) -> Seq<Seq<char>> {
    v.map_values(|l: String| l@)
}

pub(crate) fn is_space_char(c: char) -> (r: bool)
    ensures
        r == is_space(c),
{
    let x = c as u32;
    (0x09 <= x && x <= 0x0d) || x == 0x20 || x == 0x85 || x == 0xa0 || x == 0x1680 || (0x2000
        <= x && x <= 0x200a) || x == 0x2028 || x == 0x2029 || x == 0x202f || x == 0x205f || x
        == 0x3000
}

fn push_line(lines: &mut Vec<String>, line: String)
    ensures
        lines_view(final(lines)@) == lines_view(old(lines)@).push(line@),
{
    lines.push(line);
    assert(lines_view(lines@) =~= lines_view(old(lines)@).push(line@));
}

fn utf8_width(c: char) -> (r: u128)
    ensures
        r == utf8_len(c),
{
    let x = c as u32;
    if x < 0x80 {
        1
    } else if x < 0x800 {
        2
    } else if x < 0x10000 {
        3
    } else {
        4
    }
}

fn place_word(
    lines: &mut Vec<String>,
    cur: &mut String,
    cur_len: &mut u128,
    w: &str,
    w_len: u128,
    width: usize,
)
    requires
        *old(cur_len) == clamp(byte_len(old(cur)@), width + 1),
        w_len == clamp(byte_len(w@), width + 1),
    ensures
        (lines_view(final(lines)@), final(cur)@) == place(
            (lines_view(old(lines)@), old(cur)@),
            w@,
            width as int,
        ),
        *final(cur_len) == clamp(byte_len(final(cur)@), width + 1),
{
    proof {
        lemma_byte_len_at_least_len(old(cur)@);
    }
    if *cur_len + w_len + 1 <= width as u128 {
        if *cur_len == 0 {
            *cur = String::from_str(w);
            *cur_len = w_len;
        } else {
            let ghost before = cur@;
            cur.append(" ");
            cur.append(w);
            proof {
                reveal_strlit(" ");
                lemma_byte_len_concat(before, seq![' ']);
                lemma_byte_len_concat(before + seq![' '], w@);
                assert(byte_len(seq![' ']) == 1) by {
                    let sp = seq![' '];
                    assert(sp.drop_last() =~= Seq::<char>::empty());
                    assert(byte_len(sp.drop_last()) == 0);
                    assert(sp.last() == ' ');
                    assert((' ' as u32) == 32);
                    assert(utf8_len(' ') == 1);
                }
            }
            *cur_len = *cur_len + 1 + w_len;
        }
    } else {
        if *cur_len > 0 {
            push_line(lines, cur.clone());
        }
        *cur = String::from_str(w);
        *cur_len = w_len;
    }
}

/// Wraps `text` into lines of at most `width` bytes, breaking between words
/// (a single word longer than the width stays whole on its own line).
pub fn wrap_text(text: &str, width: usize) -> (lines: Vec<String>)
    ensures
        lines_view(lines@) == wrapped(text@, width as int),
{
    let n = text.unicode_len();
    let cap: u128 = width as u128 + 1;
    let mut total: u128 = 0;
    let mut i: usize = 0;
    assert(text@.subrange(0, 0) =~= Seq::<char>::empty());
    while i < n
        invariant
            n == text@.len(),
            0 <= i <= n,
            cap == width + 1,
            total == clamp(byte_len(text@.subrange(0, i as int)), cap as int),
        decreases n - i,
    {
        let c = text.get_char(i);
        assert(text@.subrange(0, i + 1).drop_last() =~= text@.subrange(0, i as int));
        let t = total + utf8_width(c);
        total = if t < cap {
            t
        } else {
            cap
        };
        i = i + 1;
    }
    assert(text@.subrange(0, n as int) =~= text@);
    let mut lines: Vec<String> = Vec::new();
    if total <= width as u128 {
        push_line(&mut lines, String::from_str(text));
        assert(lines_view(lines@) =~= seq![text@]);
        return lines;
    }
    let mut cur = String::new();
    let mut cur_len: u128 = 0;
    let mut start: usize = 0;
    let mut w_len: u128 = 0;
    let mut i: usize = 0;
    let ghost mut done: Seq<Seq<char>> = Seq::empty();
    assert(cur@ =~= Seq::<char>::empty());
    while i < n
        invariant
            n == text@.len(),
            cap == width + 1,
            start <= i <= n,
            scan(text@, i as int) == (done, text@.subrange(start as int, i as int)),
            layout(done, width as int) == (lines_view(lines@), cur@),
            cur_len == clamp(byte_len(cur@), cap as int),
            w_len == clamp(byte_len(text@.subrange(start as int, i as int)), cap as int),
        decreases n - i,
    {
        let c = text.get_char(i);
        if is_space_char(c) {
            if start < i {
                let w = text.substring_char(start, i);
                proof {
                    assert(done.push(w@).drop_last() =~= done);
                }
                place_word(&mut lines, &mut cur, &mut cur_len, w, w_len, width);
                proof {
                    done = done.push(w@);
                }
            }
            start = i + 1;
            w_len = 0;
            assert(text@.subrange(start as int, start as int) =~= Seq::<char>::empty());
        } else {
            assert(text@.subrange(start as int, i + 1) =~= text@.subrange(
                start as int,
                i as int,
            ).push(c));
            assert(text@.subrange(start as int, i + 1).drop_last() =~= text@.subrange(
                start as int,
                i as int,
            ));
            let t = w_len + utf8_width(c);
            w_len = if t < cap {
                t
            } else {
                cap
            };
        }
        i = i + 1;
    }
    if start < n {
        let w = text.substring_char(start, n);
        proof {
            assert(done.push(w@).drop_last() =~= done);
        }
        place_word(&mut lines, &mut cur, &mut cur_len, w, w_len, width);
        proof {
            done = done.push(w@);
        }
    }
    assert(words(text@) == done);
    proof {
        lemma_byte_len_at_least_len(cur@);
    }
    if cur_len > 0 {
        push_line(&mut lines, cur);
    }
    lines
}

} // verus!
