use vstd::prelude::*;
use vstd::utf8::{char_is_scalar, encode_scalar, encode_utf8};

use crate::text::{chars_of, concat_chars, slice_chars, string_of};

verus! {

/// The most bytes one message may hold.
pub const MESSAGE_LIMIT: usize = 2000;

/// The most lines of output one message shows.
pub const MAX_OUTPUT_LINES: usize = 45;

/// The length of `s` in bytes, encoded as UTF-8 (what `str::len` counts).
pub open spec fn byte_len(s: Seq<char>) -> nat {
    encode_utf8(s).len()
}

/// The number of bytes that `c` takes in UTF-8.
pub open spec fn width(c: char) -> nat {
    encode_scalar(c as u32).len()
}

/// Encoding a concatenation encodes each part in turn.
pub proof fn lemma_encode_concat(a: Seq<char>, b: Seq<char>)
    ensures
        encode_utf8(a + b) == encode_utf8(a) + encode_utf8(b),
    decreases a.len(),
{
    if a.len() == 0 {
        assert(a + b =~= b);
        assert(encode_utf8(a) =~= Seq::<u8>::empty());
        assert(encode_utf8(a) + encode_utf8(b) =~= encode_utf8(b));
    } else {
        assert((a + b).drop_first() =~= a.drop_first() + b);
        lemma_encode_concat(a.drop_first(), b);
        assert(encode_utf8(a + b) =~= encode_scalar(a[0] as u32) + (encode_utf8(a.drop_first())
            + encode_utf8(b)));
    }
}

/// The byte length of a concatenation is the sum of the parts' lengths.
pub proof fn lemma_byte_len_concat(a: Seq<char>, b: Seq<char>)
    ensures
        byte_len(a + b) == byte_len(a) + byte_len(b),
{
    lemma_encode_concat(a, b);
}

/// One more character adds its width to the byte length.
pub proof fn lemma_byte_len_push(s: Seq<char>, c: char)
    ensures
        byte_len(s.push(c)) == byte_len(s) + width(c),
{
    lemma_encode_concat(s, seq![c]);
    assert(s + seq![c] =~= s.push(c));
    assert(seq![c].drop_first() =~= Seq::<char>::empty());
    assert(encode_utf8(Seq::<char>::empty()) =~= Seq::<u8>::empty());
    assert(seq![c][0] == c);
    assert(encode_utf8(seq![c]) =~= encode_scalar(c as u32) + Seq::<u8>::empty());
}

/// A prefix of `s` takes no more bytes than `s`.
pub proof fn lemma_byte_len_prefix(s: Seq<char>, k: int)
    requires
        0 <= k <= s.len(),
    ensures
        byte_len(s.subrange(0, k)) <= byte_len(s),
{
    lemma_byte_len_concat(s.subrange(0, k), s.subrange(k, s.len() as int));
    assert(s.subrange(0, k) + s.subrange(k, s.len() as int) =~= s);
}

/// The number of bytes that `c` takes in UTF-8.
pub fn char_width(c: char) -> (r: usize)
    ensures
        r == width(c),
        1 <= r <= 4,
{
    proof {
        char_is_scalar(c);
    }
    let u = c as u32;
    if u < 0x80 {
        1
    } else if u < 0x800 {
        2
    } else if u < 0x10000 {
        3
    } else {
        4
    }
}

/// The longest prefix of `s` whose UTF-8 encoding takes at most `limit` bytes: `s` cut at the
/// last character boundary at or before byte `limit`.
pub open spec fn longest_fit(s: Seq<char>, limit: nat) -> Seq<char>
    decreases s.len(),
{
    if s.len() == 0 || byte_len(s) <= limit {
        s
    } else {
        longest_fit(s.drop_last(), limit)
    }
}

proof fn lemma_longest_fit(s: Seq<char>, limit: nat, k: int)
    requires
        0 <= k <= s.len(),
        byte_len(s.subrange(0, k)) <= limit,
        k == s.len() || byte_len(s.subrange(0, k + 1)) > limit,
    ensures
        longest_fit(s, limit) == s.subrange(0, k),
    decreases s.len(),
{
    if k == s.len() {
        assert(s.subrange(0, k) =~= s);
    } else {
        lemma_byte_len_prefix(s, k + 1);
        let t = s.drop_last();
        assert(t.subrange(0, k) =~= s.subrange(0, k));
        if k + 1 < s.len() {
            assert(t.subrange(0, k + 1) =~= s.subrange(0, k + 1));
        }
        lemma_longest_fit(t, limit, k);
    }
}

/// The length of the longest prefix of `v` that fits in `limit` bytes.
fn fit_len(v: &Vec<char>, limit: usize) -> (k: usize)
    ensures
        k <= v.len(),
        v@.subrange(0, k as int) == longest_fit(v@, limit as nat),
{
    let mut k: usize = 0;
    let mut used: usize = 0;
    assert(v@.subrange(0, 0) =~= Seq::<char>::empty());
    assert(encode_utf8(Seq::<char>::empty()) =~= Seq::<u8>::empty());
    while k < v.len()
        invariant
            k <= v.len(),
            used <= limit,
            used == byte_len(v@.subrange(0, k as int)),
        decreases v.len() - k,
    {
        let w = char_width(v[k]);
        proof {
            assert(v@.subrange(0, k as int).push(v@[k as int]) =~= v@.subrange(0, k + 1));
            lemma_byte_len_push(v@.subrange(0, k as int), v@[k as int]);
        }
        if w > limit - used {
            proof {
                lemma_longest_fit(v@, limit as nat, k as int);
            }
            return k;
        }
        used = used + w;
        k = k + 1;
    }
    proof {
        lemma_longest_fit(v@, limit as nat, k as int);
    }
    k
}

/// `line` without one trailing carriage return.
pub open spec fn strip_cr(line: Seq<char>) -> Seq<char> {
    if line.len() > 0 && line.last() == '\r' {
        line.drop_last()
    } else {
        line
    }
}

/// The lines of `s` from position `from` on, where `cur` is what of the current line was read
/// before `from`. Lines end at each line feed, a carriage return just before a line feed is not
/// part of its line, and a final line feed starts no empty line (as `str::lines` yields them).
pub open spec fn lines_acc(s: Seq<char>, from: int, cur: Seq<char>) -> Seq<Seq<char>>
    decreases s.len() - from,
{
    if from < 0 || from >= s.len() {
        if cur.len() > 0 {
            seq![cur]
        } else {
            Seq::empty()
        }
    } else if s[from] == '\n' {
        seq![strip_cr(cur)] + lines_acc(s, from + 1, Seq::empty())
    } else {
        lines_acc(s, from + 1, cur.push(s[from]))
    }
}

/// The lines of `s`, as `str::lines` yields them.
pub open spec fn lines(s: Seq<char>) -> Seq<Seq<char>> {
    lines_acc(s, 0, Seq::empty())
}

/// The lines `ls` joined with a line feed between each two.
pub open spec fn join_lines(ls: Seq<Seq<char>>) -> Seq<char>
    decreases ls.len(),
{
    if ls.len() == 0 {
        Seq::empty()
    } else if ls.len() == 1 {
        ls[0]
    } else {
        join_lines(ls.drop_last()) + seq!['\n'] + ls.last()
    }
}

proof fn lemma_lines_acc_nonempty(s: Seq<char>, i: int, cur: Seq<char>)
    requires
        0 <= i <= s.len(),
        i < s.len() || cur.len() > 0,
    ensures
        lines_acc(s, i, cur).len() > 0,
    decreases s.len() - i,
{
    if i < s.len() && s[i] != '\n' {
        lemma_lines_acc_nonempty(s, i + 1, cur.push(s[i]));
    }
}

proof fn lemma_join_prepend(x: Seq<char>, rest: Seq<Seq<char>>)
    requires
        rest.len() > 0,
    ensures
        join_lines(seq![x] + rest) == x + seq!['\n'] + join_lines(rest),
    decreases rest.len(),
{
    let all = seq![x] + rest;
    assert(all.drop_last() =~= seq![x] + rest.drop_last());
    if rest.len() == 1 {
        assert(all.drop_last() =~= seq![x]);
        assert(join_lines(seq![x]) == x);
    } else {
        lemma_join_prepend(x, rest.drop_last());
        assert(all.last() == rest.last());
    }
}

proof fn lemma_join_lines_acc_len(s: Seq<char>, i: int, cur: Seq<char>, k: int)
    requires
        0 <= i <= s.len(),
        0 <= k <= lines_acc(s, i, cur).len(),
    ensures
        byte_len(join_lines(lines_acc(s, i, cur).take(k))) <= byte_len(cur) + byte_len(
            s.subrange(i, s.len() as int),
        ),
    decreases s.len() - i,
{
    let ls = lines_acc(s, i, cur);
    let rest = s.subrange(i, s.len() as int);
    if k == 0 {
        assert(ls.take(0) =~= Seq::<Seq<char>>::empty());
        assert(encode_utf8(Seq::<char>::empty()) =~= Seq::<u8>::empty());
    } else if i == s.len() {
        assert(ls.take(k) =~= seq![cur]);
    } else {
        let c = s[i];
        assert(rest =~= seq![c] + s.subrange(i + 1, s.len() as int));
        lemma_byte_len_concat(seq![c], s.subrange(i + 1, s.len() as int));
        lemma_byte_len_push(Seq::<char>::empty(), c);
        assert(Seq::<char>::empty().push(c) =~= seq![c]);
        assert(encode_utf8(Seq::<char>::empty()) =~= Seq::<u8>::empty());
        if c == '\n' {
            let line = strip_cr(cur);
            let tail = lines_acc(s, i + 1, Seq::empty());
            assert(ls == seq![line] + tail);
            if line.len() < cur.len() {
                lemma_byte_len_prefix(cur, cur.len() - 1);
                assert(cur.subrange(0, cur.len() - 1) =~= line);
            }
            assert(width('\n') == 1);
            if k == 1 {
                assert(ls.take(1) =~= seq![line]);
            } else {
                assert(ls.take(k) =~= seq![line] + tail.take(k - 1));
                lemma_join_prepend(line, tail.take(k - 1));
                lemma_join_lines_acc_len(s, i + 1, Seq::empty(), k - 1);
                lemma_byte_len_concat(line + seq!['\n'], join_lines(tail.take(k - 1)));
                lemma_byte_len_push(line, '\n');
                assert(line + seq!['\n'] =~= line.push('\n'));
            }
        } else {
            lemma_join_lines_acc_len(s, i + 1, cur.push(c), k);
            lemma_byte_len_push(cur, c);
        }
    }
}

/// The first lines of `s`, joined by line feeds, take no more bytes than `s`.
proof fn lemma_join_lines_len(s: Seq<char>, k: int)
    requires
        0 <= k <= lines(s).len(),
    ensures
        byte_len(join_lines(lines(s).take(k))) <= byte_len(s),
{
    lemma_join_lines_acc_len(s, 0, Seq::empty(), k);
    assert(s.subrange(0, s.len() as int) =~= s);
    assert(encode_utf8(Seq::<char>::empty()) =~= Seq::<u8>::empty());
}

/// The first `max` lines of `v` joined by line feeds, and whether `v` has more lines than that.
fn head_lines(v: &Vec<char>, max: usize) -> (r: (Vec<char>, bool))
    ensures
        r.1 == (lines(v@).len() > max),
        r.1 ==> r.0@ == join_lines(lines(v@).take(max as int)),
{
    let mut out: Vec<char> = Vec::new();
    let mut cur: Vec<char> = Vec::new();
    let mut count: usize = 0;
    let mut i: usize = 0;
    let ghost mut done: Seq<Seq<char>> = Seq::empty();
    proof {
        assert(lines(v@) =~= done + lines_acc(v@, 0, cur@));
        assert(out@ =~= Seq::<char>::empty());
    }
    while i < v.len() && count < max
        invariant
            i <= v.len(),
            count <= max,
            done.len() == count,
            count == max ==> cur@.len() == 0,
            lines(v@) == done + lines_acc(v@, i as int, cur@),
            out@ == join_lines(done),
        decreases v.len() - i,
    {
        let c = v[i];
        if c == '\n' {
            let line = if cur.len() > 0 && cur[cur.len() - 1] == '\r' {
                assert(cur@.subrange(0, cur@.len() - 1) =~= cur@.drop_last());
                slice_chars(&cur, 0, cur.len() - 1)
            } else {
                cur
            };
            assert(line@ == strip_cr(cur@));
            proof {
                assert(done + lines_acc(v@, i as int, cur@) =~= done.push(line@) + lines_acc(
                    v@,
                    i + 1,
                    Seq::empty(),
                ));
                assert(done.push(line@).drop_last() =~= done);
            }
            if count > 0 {
                out.push('\n');
            }
            out = concat_chars(&out, &line);
            proof {
                if count == 0 {
                    assert(out@ =~= line@);
                } else {
                    assert(out@ =~= join_lines(done) + seq!['\n'] + line@);
                }
                done = done.push(line@);
            }
            cur = Vec::new();
            count = count + 1;
        } else {
            cur.push(c);
        }
        i = i + 1;
    }
    let more = count == max && i < v.len();
    proof {
        if count == max && i < v.len() {
            lemma_lines_acc_nonempty(v@, i as int, cur@);
            assert(lines(v@).take(max as int) =~= done);
        } else if count == max {
            assert(lines_acc(v@, i as int, cur@) =~= Seq::<Seq<char>>::empty());
        }
    }
    (out, more)
}

/// Whether `body` and `end` together take more bytes than one message holds.
pub open spec fn over_limit(body: Seq<char>, end: Seq<char>) -> bool {
    byte_len(body) + byte_len(end) > MESSAGE_LIMIT
}

/// Whether `body` must be cut, by bytes or by lines, so that a notice has to follow it.
pub open spec fn needs_notice(body: Seq<char>, end: Seq<char>) -> bool {
    over_limit(body, end) || lines(body).len() > MAX_OUTPUT_LINES
}

/// The bytes left for the body once `end` and `notice` are placed (none where they fill it).
pub open spec fn room(end: Seq<char>, notice: Seq<char>) -> nat {
    if byte_len(end) + byte_len(notice) >= MESSAGE_LIMIT {
        0
    } else {
        (MESSAGE_LIMIT - byte_len(end) - byte_len(notice)) as nat
    }
}

/// What is kept of `body`: cut at the last character boundary that leaves room for `end` and
/// `notice` where the whole is over the limit, then held to its first lines where it has too many.
pub open spec fn cut_body(body: Seq<char>, end: Seq<char>, notice: Seq<char>) -> Seq<char> {
    let b = if over_limit(body, end) {
        longest_fit(body, room(end, notice))
    } else {
        body
    };
    if lines(b).len() > MAX_OUTPUT_LINES {
        join_lines(lines(b).take(MAX_OUTPUT_LINES as int))
    } else {
        b
    }
}

/// The message for `body` closed by `end`: unchanged where it fits, else what is kept of the
/// body, then `end`, then `notice`.
pub open spec fn trimmed(body: Seq<char>, end: Seq<char>, notice: Seq<char>) -> Seq<char> {
    if needs_notice(body, end) {
        cut_body(body, end, notice) + end + notice
    } else {
        body + end
    }
}

proof fn lemma_longest_fit_prefix(s: Seq<char>, limit: nat)
    ensures
        longest_fit(s, limit).len() <= s.len(),
        longest_fit(s, limit) == s.take(longest_fit(s, limit).len() as int),
        s.len() > 0 ==> byte_len(longest_fit(s, limit)) <= limit,
    decreases s.len(),
{
    if s.len() == 0 || byte_len(s) <= limit {
        assert(s.take(s.len() as int) =~= s);
    } else {
        let t = s.drop_last();
        lemma_longest_fit_prefix(t, limit);
        let k = longest_fit(t, limit).len() as int;
        assert(t.take(k) =~= s.take(k));
        if t.len() == 0 {
            assert(encode_utf8(t) =~= Seq::<u8>::empty());
        }
    }
}

/// Text that fits in one message, by bytes and by lines, is sent as it is, with no notice.
pub proof fn lemma_fitting_text_kept(body: Seq<char>, end: Seq<char>, notice: Seq<char>)
    requires
        !over_limit(body, end),
        lines(body).len() <= MAX_OUTPUT_LINES,
    ensures
        !needs_notice(body, end),
        trimmed(body, end, notice) == body + end,
{
}

/// Text over the byte limit is its kept body, then `end`, then `notice`, and fits in one
/// message whenever `end` and `notice` do. Where the cut leaves few enough lines, the kept body
/// is a prefix of `body` that ends on a character boundary and fits the room left.
pub proof fn lemma_over_limit_cut(body: Seq<char>, end: Seq<char>, notice: Seq<char>)
    requires
        over_limit(body, end),
    ensures
        trimmed(body, end, notice) == cut_body(body, end, notice) + end + notice,
        byte_len(cut_body(body, end, notice)) <= room(end, notice),
        byte_len(end) + byte_len(notice) <= MESSAGE_LIMIT ==> byte_len(trimmed(body, end, notice))
            <= MESSAGE_LIMIT,
        lines(longest_fit(body, room(end, notice))).len() <= MAX_OUTPUT_LINES ==> {
            let p = cut_body(body, end, notice);
            &&& p == body.take(p.len() as int)
            &&& byte_len(p) <= room(end, notice)
            &&& byte_len(end) + byte_len(notice) <= MESSAGE_LIMIT ==> byte_len(
                trimmed(body, end, notice),
            ) <= MESSAGE_LIMIT
        },
{
    let limit = room(end, notice);
    lemma_longest_fit_prefix(body, limit);
    if body.len() == 0 {
        assert(encode_utf8(body) =~= Seq::<u8>::empty());
    }
    let b = longest_fit(body, limit);
    if lines(b).len() > MAX_OUTPUT_LINES {
        lemma_join_lines_len(b, MAX_OUTPUT_LINES as int);
    }
    let p = cut_body(body, end, notice);
    lemma_byte_len_concat(p + end, notice);
    lemma_byte_len_concat(p, end);
}

/// Text within the byte limit but with too many lines keeps its first lines, joined by line
/// feeds, then `end`, then `notice`.
pub proof fn lemma_too_many_lines(body: Seq<char>, end: Seq<char>, notice: Seq<char>)
    requires
        !over_limit(body, end),
        lines(body).len() > MAX_OUTPUT_LINES,
    ensures
        lines(body).take(MAX_OUTPUT_LINES as int).len() == MAX_OUTPUT_LINES,
        trimmed(body, end, notice) == join_lines(lines(body).take(MAX_OUTPUT_LINES as int)) + end
            + notice,
{
}

fn over_limit_exec(body: &str, end: &str) -> (r: bool)
    ensures
        r == over_limit(body@, end@),
{
    let b = body.as_bytes().len();
    let e = end.as_bytes().len();
    e > MESSAGE_LIMIT || b > MESSAGE_LIMIT - e
}

/// Whether `body` closed by `end` has to be cut, so that a truncation notice is wanted.
pub fn needs_truncation(body: &str, end: &str) -> (r: bool)
    ensures
        r == needs_notice(body@, end@),
{
    if over_limit_exec(body, end) {
        return true;
    }
    let bv = chars_of(body);
    let (_, more) = head_lines(&bv, MAX_OUTPUT_LINES);
    more
}

/// The message for `body` closed by `end`, with `notice` after it where the body had to be cut.
pub fn trim_text_with(body: &str, end: &str, notice: &str) -> (r: String)
    ensures
        r@ == trimmed(body@, end@, notice@),
        over_limit(body@, end@) && byte_len(end@) + byte_len(notice@) <= MESSAGE_LIMIT
            ==> byte_len(r@) <= MESSAGE_LIMIT,
{
    let over = over_limit_exec(body, end);
    let bv = chars_of(body);
    let b1 = if over {
        let e = end.as_bytes().len();
        let n = notice.as_bytes().len();
        let space: usize = if e >= MESSAGE_LIMIT || n >= MESSAGE_LIMIT - e {
            0
        } else {
            MESSAGE_LIMIT - e - n
        };
        let k = fit_len(&bv, space);
        proof {
            lemma_longest_fit_prefix(bv@, space as nat);
            if bv@.len() == 0 {
                assert(encode_utf8(bv@) =~= Seq::<u8>::empty());
            }
        }
        slice_chars(&bv, 0, k)
    } else {
        bv
    };
    let (head, more) = head_lines(&b1, MAX_OUTPUT_LINES);
    let ev = chars_of(end);
    if over || more {
        let b2 = if more {
            head
        } else {
            b1
        };
        let nv = chars_of(notice);
        let all = concat_chars(&concat_chars(&b2, &ev), &nv);
        proof {
            if more {
                lemma_join_lines_len(b1@, MAX_OUTPUT_LINES as int);
            }
            lemma_byte_len_concat(b2@ + ev@, nv@);
            lemma_byte_len_concat(b2@, ev@);
        }
        string_of(&all)
    } else {
        string_of(&concat_chars(&b1, &ev))
    }
}

/// The message for `body` closed by `end`. The notice is produced only where the body has to be
/// cut, and then once.
pub fn trim_text<F: FnOnce() -> String>(body: &str, end: &str, notice: F) -> (r: String)
    requires
        notice.requires(()),
    ensures
        !needs_notice(body@, end@) ==> r@ == body@ + end@,
        needs_notice(body@, end@) ==> exists|n: String|
            {
                &&& notice.ensures((), n)
                &&& r@ == trimmed(body@, end@, n@)
                &&& over_limit(body@, end@) && byte_len(end@) + byte_len(n@) <= MESSAGE_LIMIT
                    ==> byte_len(r@) <= MESSAGE_LIMIT
            },
{
    if needs_truncation(body, end) {
        let n = notice();
        trim_text_with(body, end, n.as_str())
    } else {
        trim_text_with(body, end, "")
    }
}

} // verus!
