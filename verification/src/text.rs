//! Character-level helpers shared by the clipboard picker and dictation:
//! Unicode whitespace, trimming and the one-line preview of a text.
use vstd::prelude::*;

verus! {

/// The Unicode `White_Space` property, which is what `char::is_whitespace`
/// and `str::trim` go by.
pub open spec fn is_ws(c: char) -> bool {
    let u = c as u32;
    ||| (9 <= u && u <= 13)
    ||| u == 32
    ||| u == 0x85
    ||| u == 0xA0
    ||| u == 0x1680
    ||| (0x2000 <= u && u <= 0x200A)
    ||| u == 0x2028
    ||| u == 0x2029
    ||| u == 0x202F
    ||| u == 0x205F
    ||| u == 0x3000
}

/// `s` without its leading whitespace.
pub open spec fn trim_start(s: Seq<char>) -> Seq<char>
    decreases s.len(),
{
    if s.len() > 0 && is_ws(s[0]) {
        trim_start(s.drop_first())
    } else {
        s
    }
}

/// `s` without its trailing whitespace.
pub open spec fn trim_end(s: Seq<char>) -> Seq<char>
    decreases s.len(),
{
    if s.len() > 0 && is_ws(s.last()) {
        trim_end(s.drop_last())
    } else {
        s
    }
}

/// `s` without leading and trailing whitespace.
pub open spec fn trim(s: Seq<char>) -> Seq<char> {
    trim_end(trim_start(s))
}

/// The words of `s` (maximal runs of non-whitespace) joined by single
/// spaces: appending whitespace changes nothing, and a character that
/// follows whitespace which itself follows a word starts a new word.
pub open spec fn collapse_ws(s: Seq<char>) -> Seq<char>
    decreases s.len(),
{
    if s.len() == 0 {
        Seq::empty()
    } else {
        let init = collapse_ws(s.drop_last());
        let c = s.last();
        if is_ws(c) {
            init
        } else if init.len() > 0 && is_ws(s[s.len() - 2]) {
            init.push(' ').push(c)
        } else {
            init.push(c)
        }
    }
}

/// The longest preview of a text that the clipboard picker shows.
pub const PREVIEW_MAX_CHARS: usize = 120;

/// What the picker shows of a text: its words on one line, cut to
/// `PREVIEW_MAX_CHARS` characters followed by `...` when longer.
pub open spec fn preview_of(s: Seq<char>) -> Seq<char> {
    let one_line = collapse_ws(s);
    if one_line.len() <= PREVIEW_MAX_CHARS {
        one_line
    } else {
        one_line.take(PREVIEW_MAX_CHARS as int) + seq!['.', '.', '.']
    }
}

/// Appends one character to a string (std `String::push`).
#[verifier::external_body]
pub(crate) fn push_char(s: &mut String, c: char)
    ensures
        final(s)@ == old(s)@.push(c),
{
    s.push(c);
}

/// Whether `c` is Unicode whitespace, as `char::is_whitespace` answers.
pub fn is_whitespace(c: char) -> (b: bool)
    ensures
        b == is_ws(c),
{
    let u = c as u32;
    (9 <= u && u <= 13) || u == 32 || u == 0x85 || u == 0xA0 || u == 0x1680 || (0x2000 <= u && u
        <= 0x200A) || u == 0x2028 || u == 0x2029 || u == 0x202F || u == 0x205F || u == 0x3000
}

/// The characters of `text`, in order.
pub fn chars_of(text: &str) -> (v: Vec<char>)
    ensures
        v@ == text@,
{
    let mut v: Vec<char> = Vec::new();
    for c in it: text.chars()
        invariant
            it.seq() == text@,
            v@ == text@.take(it.index() as int),
    {
        proof {
            assert(text@.take(it.index() + 1) =~= text@.take(it.index() as int).push(c));
        }
        v.push(c);
    }
    proof {
        assert(text@.take(text@.len() as int) =~= text@);
    }
    v
}

/// A string holding `v[from..to]`.
pub fn string_from_range(v: &Vec<char>, from: usize, to: usize) -> (s: String)
    requires
        from <= to <= v.len(),
    ensures
        s@ == v@.subrange(from as int, to as int),
{
    let mut s = String::new();
    let mut i = from;
    while i < to
        invariant
            from <= i <= to <= v.len(),
            s@ == v@.subrange(from as int, i as int),
        decreases to - i,
    {
        push_char(&mut s, v[i]);
        proof {
            assert(v@.subrange(from as int, i + 1) =~= v@.subrange(from as int, i as int).push(
                v@[i as int],
            ));
        }
        i = i + 1;
    }
    s
}

proof fn lemma_trim_start_step(s: Seq<char>, i: int)
    requires
        0 <= i < s.len(),
        is_ws(s[i]),
    ensures
        trim_start(s.subrange(i, s.len() as int)) == trim_start(s.subrange(i + 1, s.len() as int)),
{
    let sub = s.subrange(i, s.len() as int);
    assert(sub.drop_first() =~= s.subrange(i + 1, s.len() as int));
}

/// `text` without leading and trailing whitespace, as `str::trim` gives it.
pub fn trimmed(text: &str) -> (t: String)
    ensures
        t@ == trim(text@),
{
    let v = chars_of(text);
    let n = v.len();
    let mut i: usize = 0;
    assert(v@.subrange(0, n as int) =~= v@);
    while i < n && is_whitespace(v[i])
        invariant
            i <= n == v@.len(),
            trim_start(v@) == trim_start(v@.subrange(i as int, n as int)),
        decreases n - i,
    {
        proof {
            lemma_trim_start_step(v@, i as int);
        }
        i = i + 1;
    }
    let ghost start = v@.subrange(i as int, n as int);
    assert(trim_start(v@) == start) by {
        if i < n {
            assert(start[0] == v@[i as int]);
        }
    }
    let mut j: usize = n;
    while j > i && is_whitespace(v[j - 1])
        invariant
            i <= j <= n == v@.len(),
            start == v@.subrange(i as int, n as int),
            trim_end(start) == trim_end(v@.subrange(i as int, j as int)),
        decreases j,
    {
        proof {
            let sub = v@.subrange(i as int, j as int);
            assert(sub.drop_last() =~= v@.subrange(i as int, j - 1));
        }
        j = j - 1;
    }
    assert(trim_end(start) == v@.subrange(i as int, j as int)) by {
        let sub = v@.subrange(i as int, j as int);
        if j > i {
            assert(sub.last() == v@[j - 1]);
        }
    }
    string_from_range(&v, i, j)
}

/// The words of `text` on one line, separated by single spaces.
pub fn collapse_whitespace(text: &str) -> (r: String)
    ensures
        r@ == collapse_ws(text@),
{
    let v = chars_of(text);
    let n = v.len();
    let mut out = String::new();
    let mut i: usize = 0;
    while i < n
        invariant
            i <= n == v@.len(),
            v@ == text@,
            out@ == collapse_ws(v@.take(i as int)),
        decreases n - i,
    {
        let c = v[i];
        let ghost pre = v@.take(i as int);
        let ghost next = v@.take(i + 1);
        proof {
            assert(next.drop_last() =~= pre);
            assert(next.last() == c);
            if i > 0 {
                assert(next[next.len() - 2] == v@[i - 1]);
            }
        }
        if !is_whitespace(c) {
            if i > 0 && is_whitespace(v[i - 1]) && out.unicode_len() > 0 {
                push_char(&mut out, ' ');
            }
            push_char(&mut out, c);
        }
        i = i + 1;
    }
    proof {
        assert(v@.take(n as int) =~= v@);
    }
    out
}

/// What the clipboard picker shows of an entry: its words on one line, cut
/// to `PREVIEW_MAX_CHARS` characters and marked with `...` when longer.
pub fn preview_text(text: &str) -> (r: String)
    ensures
        r@ == preview_of(text@),
{
    let one_line = collapse_whitespace(text);
    let len = one_line.unicode_len();
    if len <= PREVIEW_MAX_CHARS {
        return one_line;
    }
    let v = chars_of(one_line.as_str());
    let mut out = string_from_range(&v, 0, PREVIEW_MAX_CHARS);
    push_char(&mut out, '.');
    push_char(&mut out, '.');
    push_char(&mut out, '.');
    proof {
        assert(v@.subrange(0, PREVIEW_MAX_CHARS as int) =~= v@.take(PREVIEW_MAX_CHARS as int));
        assert(out@ =~= v@.take(PREVIEW_MAX_CHARS as int) + seq!['.', '.', '.']);
    }
    out
}

/// The collapsed text is a single line of words: no longer than the text,
/// its only whitespace is single spaces between words, and it neither starts
/// nor ends with a space.
pub proof fn lemma_collapse_ws_shape(s: Seq<char>)
    ensures
        ({
            let c = collapse_ws(s);
            &&& c.len() <= s.len()
            &&& forall|i: int| 0 <= i < c.len() && is_ws(#[trigger] c[i]) ==> c[i] == ' '
            &&& c.len() > 0 ==> !is_ws(c[0]) && !is_ws(c.last())
            &&& forall|i: int| 0 <= i < c.len() - 1 && is_ws(#[trigger] c[i]) ==> !is_ws(c[i + 1])
        }),
    decreases s.len(),
{
    if s.len() > 0 {
        lemma_collapse_ws_shape(s.drop_last());
        let init = collapse_ws(s.drop_last());
        let c = collapse_ws(s);
        assert(is_ws(' '));
        if !is_ws(s.last()) {
            if init.len() > 0 && is_ws(s[s.len() - 2]) {
                let d = s.drop_last();
                assert(d.last() == s[s.len() - 2]);
                lemma_collapse_ws_shape(d.drop_last());
                assert(init == collapse_ws(d.drop_last()));
                assert(c =~= init.push(' ').push(s.last()));
                assert(c[0] == init[0]);
                assert forall|i: int| 0 <= i < c.len() - 1 && is_ws(#[trigger] c[i]) implies !is_ws(
                    c[i + 1],
                ) by {
                    if i < init.len() - 1 {
                        assert(c[i] == init[i] && c[i + 1] == init[i + 1]);
                    } else if i == init.len() - 1 {
                        assert(c[i] == init.last());
                    }
                }
                assert forall|i: int| 0 <= i < c.len() && is_ws(#[trigger] c[i]) implies c[i]
                    == ' ' by {
                    if i < init.len() {
                        assert(c[i] == init[i]);
                    }
                }
            } else {
                assert(c =~= init.push(s.last()));
                if init.len() > 0 {
                    assert(c[0] == init[0]);
                }
                assert forall|i: int| 0 <= i < c.len() - 1 && is_ws(#[trigger] c[i]) implies !is_ws(
                    c[i + 1],
                ) by {
                    if i < init.len() - 1 {
                        assert(c[i] == init[i] && c[i + 1] == init[i + 1]);
                    } else {
                        assert(c[i] == init.last());
                    }
                }
                assert forall|i: int| 0 <= i < c.len() && is_ws(#[trigger] c[i]) implies c[i]
                    == ' ' by {
                    if i < init.len() {
                        assert(c[i] == init[i]);
                    }
                }
            }
        }
    }
}

proof fn lemma_trim_start_head(s: Seq<char>)
    ensures
        trim_start(s).len() == 0 || !is_ws(trim_start(s)[0]),
    decreases s.len(),
{
    if s.len() > 0 && is_ws(s[0]) {
        lemma_trim_start_head(s.drop_first());
    }
}

proof fn lemma_trim_end_prefix(s: Seq<char>)
    ensures
        trim_end(s).len() <= s.len(),
        trim_end(s) =~= s.take(trim_end(s).len() as int),
        trim_end(s).len() == 0 || !is_ws(trim_end(s).last()),
    decreases s.len(),
{
    if s.len() > 0 && is_ws(s.last()) {
        lemma_trim_end_prefix(s.drop_last());
        assert(s.drop_last().take(trim_end(s).len() as int) =~= s.take(trim_end(s).len() as int));
    }
}

/// Trimming a trimmed text changes nothing.
pub proof fn lemma_trim_idempotent(s: Seq<char>)
    ensures
        trim(trim(s)) == trim(s),
{
    let u = trim_start(s);
    let t = trim_end(u);
    lemma_trim_start_head(s);
    lemma_trim_end_prefix(u);
    if t.len() > 0 {
        assert(t[0] == u[0]);
    }
    assert(trim_start(t) == t);
    assert(trim_end(t) == t);
}

/// A preview is at most `PREVIEW_MAX_CHARS` characters and the `...` mark.
pub proof fn lemma_preview_len(s: Seq<char>)
    ensures
        preview_of(s).len() <= PREVIEW_MAX_CHARS + 3,
        collapse_ws(s).len() <= PREVIEW_MAX_CHARS ==> preview_of(s) == collapse_ws(s),
{
}

} // verus!
