//! Text clipboard history: newest first, duplicates promoted to the top,
//! bounded by a capacity, browsed a page at a time in the picker.
use vstd::prelude::*;

use crate::persistence::{ClipboardConfig, PathStyle};
use crate::text::{trim, trimmed};

verus! {

/// Initializes the clipboard module.
pub fn init() {
}

/// What the picker asks of its host after a frame.
#[derive(Debug, Clone, PartialEq, Eq)]
pub enum ClipboardUiAction {
    Stay,
    Close,
    Paste(String),
}

/// The texts held by a vector of strings.
pub open spec fn texts(v: Seq<String>) -> Seq<Seq<char>> {
    v.map_values(|s: String| s@)
}

/// `s` with every occurrence of `t` taken out, the rest in order.
pub open spec fn without(s: Seq<Seq<char>>, t: Seq<char>) -> Seq<Seq<char>>
    decreases s.len(),
{
    if s.len() == 0 {
        Seq::empty()
    } else {
        let rest = without(s.drop_last(), t);
        if s.last() == t {
            rest
        } else {
            rest.push(s.last())
        }
    }
}

/// The first `n` elements of `s`, or all of `s` when it is shorter.
pub open spec fn truncated<A>(s: Seq<A>, n: int) -> Seq<A> {
    if n < s.len() {
        s.take(n)
    } else {
        s
    }
}

/// The history after recording `t`: `t` first, then the older entries
/// without `t`, cut to `capacity`.
pub open spec fn history_with(entries: Seq<Seq<char>>, t: Seq<char>, capacity: int) -> Seq<
    Seq<char>,
> {
    truncated(seq![t] + without(entries, t), capacity)
}

/// No text occurs twice in `s`.
pub open spec fn no_duplicates(s: Seq<Seq<char>>) -> bool {
    forall|i: int, j: int| 0 <= i < j < s.len() ==> s[i] != s[j]
}

/// What `without` keeps: each element of the result is an element of `s`
/// other than `t`, every element of `s` other than `t` is kept, and the
/// result is no longer than `s`.
pub proof fn lemma_without_members(s: Seq<Seq<char>>, t: Seq<char>)
    ensures
        forall|x: Seq<char>| #[trigger] without(s, t).contains(x) <==> (s.contains(x) && x != t),
        without(s, t).len() <= s.len(),
    decreases s.len(),
{
    if s.len() > 0 {
        let init = s.drop_last();
        let last = s.last();
        lemma_without_members(init, t);
        let w = without(init, t);
        let r = without(s, t);
        assert(r == if last == t {
            w
        } else {
            w.push(last)
        });
        assert forall|x: Seq<char>| #[trigger] r.contains(x) implies (s.contains(x) && x != t) by {
            if last != t && x == last {
                assert(s[s.len() - 1] == x);
            } else {
                if last != t {
                    let k = choose|k: int| 0 <= k < r.len() && r[k] == x;
                    assert(k < w.len());
                    assert(w[k] == x);
                }
                assert(w.contains(x));
                assert(init.contains(x));
                let k = choose|k: int| 0 <= k < init.len() && init[k] == x;
                assert(s[k] == x);
            }
        }
        assert forall|x: Seq<char>| s.contains(x) && x != t implies #[trigger] r.contains(x) by {
            let k = choose|k: int| 0 <= k < s.len() && s[k] == x;
            if k < s.len() - 1 {
                assert(init[k] == x);
                assert(init.contains(x));
                assert(w.contains(x));
                let j = choose|j: int| 0 <= j < w.len() && w[j] == x;
                if last != t {
                    assert(r[j] == x);
                }
            } else {
                assert(x == last);
                assert(r[r.len() - 1] == x);
            }
        }
    }
}

/// Taking out `t` from a sequence that does not hold it changes nothing,
/// and taking it out twice is taking it out once.
pub proof fn lemma_without_absent(s: Seq<Seq<char>>, t: Seq<char>)
    requires
        !s.contains(t),
    ensures
        without(s, t) == s,
    decreases s.len(),
{
    if s.len() > 0 {
        let init = s.drop_last();
        assert(!init.contains(t)) by {
            if init.contains(t) {
                let k = choose|k: int| 0 <= k < init.len() && init[k] == t;
                assert(s[k] == t);
            }
        }
        lemma_without_absent(init, t);
        assert(s.last() != t) by {
            assert(s[s.len() - 1] == s.last());
        }
        assert(init.push(s.last()) =~= s);
    }
}

/// Taking out `t` from a sequence that starts with `t` is taking it out of
/// the rest.
proof fn lemma_without_prepend(u: Seq<Seq<char>>, t: Seq<char>)
    ensures
        without(seq![t] + u, t) == without(u, t),
    decreases u.len(),
{
    let s = seq![t] + u;
    if u.len() == 0 {
        assert(s.drop_last() =~= Seq::<Seq<char>>::empty());
        assert(s.last() == t);
        assert(without(s.drop_last(), t) =~= Seq::<Seq<char>>::empty());
        assert(without(s, t) == without(s.drop_last(), t));
    } else {
        lemma_without_prepend(u.drop_last(), t);
        assert(s.drop_last() =~= seq![t] + u.drop_last());
        assert(s.last() == u.last());
    }
}

/// Taking out `t` keeps a sequence free of duplicates.
proof fn lemma_without_no_duplicates(s: Seq<Seq<char>>, t: Seq<char>)
    requires
        no_duplicates(s),
    ensures
        no_duplicates(without(s, t)),
    decreases s.len(),
{
    if s.len() > 0 {
        let init = s.drop_last();
        assert(no_duplicates(init)) by {
            assert forall|i: int, j: int| 0 <= i < j < init.len() implies init[i] != init[j] by {
                assert(init[i] == s[i] && init[j] == s[j]);
            }
        }
        lemma_without_no_duplicates(init, t);
        lemma_without_members(init, t);
        let w = without(init, t);
        if s.last() != t {
            assert(!w.contains(s.last())) by {
                if init.contains(s.last()) {
                    let k = choose|k: int| 0 <= k < init.len() && init[k] == s.last();
                    assert(s[k] == s[s.len() - 1]);
                }
            }
            let r = w.push(s.last());
            assert forall|i: int, j: int| 0 <= i < j < r.len() implies r[i] != r[j] by {
                if j == r.len() - 1 {
                    assert(r[i] == w[i]);
                    assert(w.contains(w[i]));
                }
            }
        }
    }
}

/// Recording a text `t` with a capacity of at least one: `t` comes first
/// and occurs once, the history holds at most `capacity` entries, every
/// entry was already recorded or is `t`, and a history without duplicates
/// stays without duplicates.
pub proof fn lemma_history_with(s: Seq<Seq<char>>, t: Seq<char>, capacity: int)
    requires
        capacity >= 1,
    ensures
        ({
            let h = history_with(s, t, capacity);
            &&& 1 <= h.len() <= capacity
            &&& h[0] == t
            &&& forall|i: int| 1 <= i < h.len() ==> #[trigger] h[i] != t
            &&& forall|x: Seq<char>| #[trigger] h.contains(x) ==> x == t || s.contains(x)
            &&& no_duplicates(s) ==> no_duplicates(h)
        }),
{
    let w = without(s, t);
    lemma_without_members(s, t);
    let full = seq![t] + w;
    let h = history_with(s, t, capacity);
    assert(forall|i: int| 0 <= i < h.len() ==> #[trigger] h[i] == full[i]);
    assert forall|i: int| 1 <= i < h.len() implies #[trigger] h[i] != t by {
        assert(full[i] == w[i - 1]);
        assert(w.contains(w[i - 1]));
    }
    assert forall|x: Seq<char>| #[trigger] h.contains(x) implies x == t || s.contains(x) by {
        let k = choose|k: int| 0 <= k < h.len() && h[k] == x;
        if k > 0 {
            assert(full[k] == w[k - 1]);
            assert(w.contains(w[k - 1]));
        }
    }
    if no_duplicates(s) {
        lemma_without_no_duplicates(s, t);
        assert forall|i: int, j: int| 0 <= i < j < h.len() implies h[i] != h[j] by {
            assert(full[j] == w[j - 1]);
            if i > 0 {
                assert(full[i] == w[i - 1]);
            } else {
                assert(w.contains(w[j - 1]));
            }
        }
    }
}

/// Recording the same text twice leaves the history as recording it once.
pub proof fn lemma_history_with_idempotent(s: Seq<Seq<char>>, t: Seq<char>, capacity: int)
    requires
        capacity >= 1,
    ensures
        history_with(history_with(s, t, capacity), t, capacity) == history_with(s, t, capacity),
{
    let w = without(s, t);
    lemma_without_members(s, t);
    let h = history_with(s, t, capacity);
    let w2 = truncated(w, capacity - 1);
    assert(h =~= seq![t] + w2);
    assert(!w2.contains(t)) by {
        if w2.contains(t) {
            let k = choose|k: int| 0 <= k < w2.len() && w2[k] == t;
            assert(w[k] == t);
            assert(w.contains(t));
        }
    }
    lemma_without_prepend(w2, t);
    lemma_without_absent(w2, t);
    assert(history_with(h, t, capacity) =~= h);
}

/// Number of picker pages for `n` entries, `page_size` to a page (a page
/// size of 0 counts as 1).
pub open spec fn page_count_spec(n: int, page_size: int) -> int {
    let ps = if page_size < 1 {
        1
    } else {
        page_size
    };
    if n == 0 {
        0
    } else {
        (n + ps - 1) / ps
    }
}

/// First index of page `page`, clamped to `n`.
pub open spec fn page_start_spec(n: int, page_size: int, page: int) -> int {
    let ps = if page_size < 1 {
        1
    } else {
        page_size
    };
    if n == 0 {
        0
    } else if page * ps < n {
        page * ps
    } else {
        n
    }
}

/// One past the last index of page `page`, clamped to `n`.
pub open spec fn page_end_spec(n: int, page_size: int, page: int) -> int {
    let ps = if page_size < 1 {
        1
    } else {
        page_size
    };
    let start = page_start_spec(n, page_size, page);
    if n == 0 {
        0
    } else if start + ps < n {
        start + ps
    } else {
        n
    }
}

/// Number of picker pages for `entry_count` entries.
pub fn page_count(entry_count: usize, page_size: usize) -> (r: usize)
    ensures
        r == page_count_spec(entry_count as int, page_size as int),
{
    if entry_count == 0 {
        return 0;
    }
    let ps = if page_size < 1 {
        1
    } else {
        page_size
    };
    let q = entry_count / ps;
    proof {
        if entry_count % ps != 0 {
            assert(q < usize::MAX) by (nonlinear_arith)
                requires
                    ps >= 2,
                    q == entry_count / ps,
            ;
        }
    }
    let r = if entry_count % ps != 0 {
        q + 1
    } else {
        q
    };
    proof {
        let n = entry_count as int;
        let p = ps as int;
        assert(n == p * (n / p) + n % p) by (nonlinear_arith)
            requires
                p > 0,
        ;
        assert((n + p - 1) / p == (if n % p != 0 {
            n / p + 1
        } else {
            n / p
        })) by (nonlinear_arith)
            requires
                p > 0,
                n >= 0,
                n == p * (n / p) + n % p,
                0 <= n % p < p,
        ;
    }
    r
}

/// The entry indices shown on page `page`.
pub fn page_range(entry_count: usize, page_size: usize, page: usize) -> (r: std::ops::Range<usize>)
    ensures
        r.start == page_start_spec(entry_count as int, page_size as int, page as int),
        r.end == page_end_spec(entry_count as int, page_size as int, page as int),
{
    if entry_count == 0 {
        return 0..0;
    }
    let ps = if page_size < 1 {
        1
    } else {
        page_size
    };
    let count = page_count(entry_count, ps);
    proof {
        let n = entry_count as int;
        let p = ps as int;
        let k = page as int;
        assert((k * p < n) <==> (k < (n + p - 1) / p)) by (nonlinear_arith)
            requires
                p >= 1,
                n >= 1,
                k >= 0,
        ;
        if k < (n + p - 1) / p {
            assert(k * p < n);
        }
    }
    let start = if page < count {
        page * ps
    } else {
        entry_count
    };
    let end = if ps < entry_count - start {
        start + ps
    } else {
        entry_count
    };
    start..end
}

/// Every index below `n` lies on page `i / page_size`, and that page's
/// range is within `[0, n]` and not empty.
pub proof fn lemma_index_on_its_page(n: int, page_size: int, i: int)
    requires
        page_size >= 1,
        0 <= i < n,
    ensures
        page_start_spec(n, page_size, i / page_size) <= i < page_end_spec(
            n,
            page_size,
            i / page_size,
        ),
        0 <= i / page_size < page_count_spec(n, page_size),
        0 <= page_start_spec(n, page_size, i / page_size) < page_end_spec(
            n,
            page_size,
            i / page_size,
        ) <= n,
{
    let p = i / page_size;
    assert(p * page_size <= i < p * page_size + page_size) by (nonlinear_arith)
        requires
            page_size >= 1,
            i >= 0,
            p == i / page_size,
    ;
    assert(p < (n + page_size - 1) / page_size) by (nonlinear_arith)
        requires
            page_size >= 1,
            0 <= i < n,
            p == i / page_size,
            p * page_size <= i,
    ;
    assert(p >= 0) by (nonlinear_arith)
        requires
            page_size >= 1,
            i >= 0,
            p == i / page_size,
    ;
}

/// The pages partition the entries: with `n > 0` entries there is at
/// least one page; the first page starts at 0, each page holds between one
/// and `page_size` entries (a page size of 0 counting as 1) and ends where
/// the next one starts, the last ends at `n`, and every page past the last
/// is empty at `n`.
pub proof fn lemma_pages_partition(n: int, page_size: int)
    requires
        n > 0,
        page_size >= 0,
    ensures
        page_count_spec(n, page_size) >= 1,
        page_start_spec(n, page_size, 0) == 0,
        page_end_spec(n, page_size, page_count_spec(n, page_size) - 1) == n,
        forall|g: int|
            0 <= g < page_count_spec(n, page_size) ==> 0 < #[trigger] page_end_spec(n, page_size, g)
                - page_start_spec(n, page_size, g) <= if page_size < 1 {
                1
            } else {
                page_size
            },
        forall|g: int|
            0 <= g < page_count_spec(n, page_size) - 1 ==> #[trigger] page_end_spec(n, page_size, g)
                == page_start_spec(n, page_size, g + 1),
        forall|g: int|
            g >= page_count_spec(n, page_size) ==> #[trigger] page_start_spec(n, page_size, g) == n
                && page_end_spec(n, page_size, g) == n,
{
    let p = if page_size < 1 {
        1
    } else {
        page_size
    };
    let k = page_count_spec(n, page_size);
    assert(k == (n + p - 1) / p);
    assert(k >= 1) by {
        lemma_page_index(n, p, 0);
    }
    assert forall|g: int| 0 <= g < k implies 0 < #[trigger] page_end_spec(n, page_size, g)
        - page_start_spec(n, page_size, g) <= p by {
        lemma_page_index(n, p, g);
    }
    assert forall|g: int| 0 <= g < k - 1 implies #[trigger] page_end_spec(n, page_size, g)
        == page_start_spec(n, page_size, g + 1) by {
        lemma_page_index(n, p, g);
        lemma_page_index(n, p, g + 1);
        assert((g + 1) * p == g * p + p) by (nonlinear_arith);
    }
    assert(page_end_spec(n, page_size, k - 1) == n) by {
        lemma_page_index(n, p, k - 1);
        lemma_page_index(n, p, k);
        assert(k * p == (k - 1) * p + p) by (nonlinear_arith);
    }
    assert forall|g: int| g >= k implies #[trigger] page_start_spec(n, page_size, g) == n
        && page_end_spec(n, page_size, g) == n by {
        lemma_page_index(n, p, g);
    }
}

proof fn lemma_page_index(n: int, p: int, g: int)
    requires
        p >= 1,
        n >= 1,
        g >= 0,
    ensures
        (g * p < n) <==> (g < (n + p - 1) / p),
{
    assert((g * p < n) <==> (g < (n + p - 1) / p)) by (nonlinear_arith)
        requires
            p >= 1,
            n >= 1,
            g >= 0,
    ;
}

/// The history as loaded from disk: empty entries are dropped.
pub fn history_entries(raw: Vec<String>) -> (r: Vec<String>)
    ensures
        texts(r@) == without(texts(raw@), Seq::<char>::empty()),
{
    let mut r: Vec<String> = Vec::new();
    let mut i: usize = 0;
    while i < raw.len()
        invariant
            i <= raw.len(),
            texts(r@) == without(texts(raw@.take(i as int)), Seq::<char>::empty()),
        decreases raw.len() - i,
    {
        let e = &raw[i];
        proof {
            assert(texts(raw@.take(i + 1)).drop_last() =~= texts(raw@.take(i as int)));
            assert(texts(raw@.take(i + 1)).last() == raw@[i as int]@);
        }
        if e.unicode_len() > 0 {
            let ghost before = r@;
            r.push(e.clone());
            proof {
                assert(texts(r@) =~= texts(before).push(raw@[i as int]@)) by {
                    assert(r@ == before.push(raw@[i as int]));
                }
            }
        } else {
            assert(e@ =~= Seq::<char>::empty());
        }
        i = i + 1;
    }
    proof {
        assert(raw@.take(raw.len() as int) =~= raw@);
    }
    r
}

/// The first `capacity` entries.
pub fn trim_entries(entries: Vec<String>, capacity: usize) -> (r: Vec<String>)
    ensures
        r@ == truncated(entries@, capacity as int),
{
    let mut entries = entries;
    entries.truncate(capacity);
    entries
}

/// The selection and page (in that order) after the picker's up arrow, with
/// `n` entries and `ps` entries to a page: the previous entry (staying at
/// the first) and its page; nothing changes without entries.
pub open spec fn key_up(n: int, ps: int, pos: (int, int)) -> (int, int) {
    if n == 0 {
        pos
    } else {
        let s = if pos.0 > 0 {
            pos.0 - 1
        } else {
            0
        };
        (s, s / ps)
    }
}

/// The selection and page after the down arrow: the next entry (staying at
/// the last) and its page; nothing changes without entries.
pub open spec fn key_down(n: int, ps: int, pos: (int, int)) -> (int, int) {
    if n == 0 {
        pos
    } else {
        let s = if pos.0 + 1 < n {
            pos.0 + 1
        } else {
            n - 1
        };
        (s, s / ps)
    }
}

/// The selection and page after the left arrow: the previous page and its
/// first entry; nothing changes on the first page.
pub open spec fn key_left(ps: int, pos: (int, int)) -> (int, int) {
    if pos.1 == 0 {
        pos
    } else {
        ((pos.1 - 1) * ps, pos.1 - 1)
    }
}

/// The selection and page after the right arrow: the next page and its
/// first entry; nothing changes on the last page.
pub open spec fn key_right(n: int, ps: int, pos: (int, int)) -> (int, int) {
    if pos.1 + 1 >= page_count_spec(n, ps) {
        pos
    } else {
        ((pos.1 + 1) * ps, pos.1 + 1)
    }
}

/// The selection and page after one frame's arrow keys, applied in the
/// order up, down, left, right.
pub open spec fn picker_keys(
    n: int,
    ps: int,
    pos: (int, int),
    up: bool,
    down: bool,
    left: bool,
    right: bool,
) -> (int, int) {
    let p1 = if up {
        key_up(n, ps, pos)
    } else {
        pos
    };
    let p2 = if down {
        key_down(n, ps, p1)
    } else {
        p1
    };
    let p3 = if left {
        key_left(ps, p2)
    } else {
        p2
    };
    if right {
        key_right(n, ps, p3)
    } else {
        p3
    }
}

/// The selection and page brought into range for `n` entries, `ps` to a
/// page: the selection is cut to the last entry, the page to the last page
/// and to the selection's page; both are 0 without entries.
pub open spec fn clamped_position(n: int, ps: int, pos: (int, int)) -> (int, int) {
    if n == 0 {
        (0, 0)
    } else {
        let sel = if pos.0 < n - 1 {
            pos.0
        } else {
            n - 1
        };
        let last_page = page_count_spec(n, ps) - 1;
        let p1 = if pos.1 < last_page {
            pos.1
        } else {
            last_page
        };
        (sel, if p1 < sel / ps {
            p1
        } else {
            sel / ps
        })
    }
}

/// One arrow key alone, from a selection on an entry and a page not past
/// the selection's page: Left turns back one page and selects its first
/// entry (nothing on the first page), Right turns forward one page and
/// selects its first entry (nothing on the last page), Up selects the
/// previous entry and Down the next (staying at the ends), each showing the
/// new selection's page. Left never raises the page and Right never lowers
/// it.
pub proof fn lemma_picker_single_keys(n: int, ps: int, sel: int, page: int)
    requires
        ps >= 1,
        0 <= sel < n,
        0 <= page <= sel / ps,
    ensures
        ({
            let (s2, p2) = picker_keys(n, ps, (sel, page), false, false, true, false);
            &&& p2 <= page
            &&& page > 0 ==> p2 == page - 1 && s2 == p2 * ps
            &&& page == 0 ==> p2 == 0 && s2 == sel
        }),
        ({
            let (s2, p2) = picker_keys(n, ps, (sel, page), false, false, false, true);
            &&& p2 >= page
            &&& page + 1 < (n + ps - 1) / ps ==> p2 == page + 1 && s2 == p2 * ps
            &&& page + 1 >= (n + ps - 1) / ps ==> p2 == page && s2 == sel
            &&& 0 <= s2 < n
        }),
        ({
            let (s2, p2) = picker_keys(n, ps, (sel, page), true, false, false, false);
            &&& s2 == if sel > 0 {
                sel - 1
            } else {
                0
            }
            &&& p2 * ps <= s2 < p2 * ps + ps
        }),
        ({
            let (s2, p2) = picker_keys(n, ps, (sel, page), false, true, false, false);
            &&& s2 == if sel + 1 < n {
                sel + 1
            } else {
                n - 1
            }
            &&& p2 * ps <= s2 < p2 * ps + ps
        }),
{
    let r = picker_keys(n, ps, (sel, page), false, false, false, true);
    if page + 1 < (n + ps - 1) / ps {
        lemma_page_index(n, ps, page + 1);
        assert(r.0 == (page + 1) * ps);
    }
    let u = if sel > 0 {
        sel - 1
    } else {
        0
    };
    let d = if sel + 1 < n {
        sel + 1
    } else {
        n - 1
    };
    assert((u / ps) * ps <= u < (u / ps) * ps + ps) by (nonlinear_arith)
        requires
            ps >= 1,
            u >= 0,
    ;
    assert((d / ps) * ps <= d < (d / ps) * ps + ps) by (nonlinear_arith)
        requires
            ps >= 1,
            d >= 0,
    ;
}

/// Selection and paging state of the clipboard history.
#[derive(Debug, Clone)]
pub struct ClipboardState {
    config: ClipboardConfig,
    entries: Vec<String>,
    selected_index: usize,
    page: usize,
}

impl ClipboardState {
    pub closed spec fn config_spec(self) -> ClipboardConfig {
        self.config
    }

    pub closed spec fn entries_spec(self) -> Seq<Seq<char>> {
        texts(self.entries@)
    }

    pub closed spec fn selected_spec(self) -> int {
        self.selected_index as int
    }

    pub closed spec fn page_spec(self) -> int {
        self.page as int
    }

    /// The configuration is normalized; with no entries the selection and
    /// page are 0, otherwise the selection is an entry and the page does
    /// not lie past the selection's page.
    pub open spec fn wf(self) -> bool {
        &&& self.config_spec().is_normalized()
        &&& self.entries_spec().len() == 0 ==> self.selected_spec() == 0 && self.page_spec() == 0
        &&& self.entries_spec().len() > 0 ==> {
            &&& 0 <= self.selected_spec() < self.entries_spec().len()
            &&& 0 <= self.page_spec() <= self.selected_spec()
                / self.config_spec().panel_page_size as int
        }
    }

    /// The page count for the current entries.
    pub open spec fn page_count_view(self) -> int {
        page_count_spec(self.entries_spec().len() as int, self.config_spec().panel_page_size as int)
    }

    /// A state with the normalized configuration, the given entries, and the
    /// first entry selected on the first page.
    pub fn new(config: ClipboardConfig, entries: Vec<String>) -> (s: Self)
        ensures
            s.wf(),
            s.config_spec() == config.normalized_spec(),
            s.entries_spec() == texts(entries@),
            s.selected_spec() == 0,
            s.page_spec() == 0,
    {
        let mut state = ClipboardState {
            config: config.normalized(),
            entries,
            selected_index: 0,
            page: 0,
        };
        state.normalize_selection();
        state
    }

    /// Records a copied text. A text that is blank once trimmed is ignored
    /// (`false`, nothing changes); otherwise the trimmed text becomes the
    /// first entry, any older copy of it is dropped, the history is cut to
    /// the capacity, and the first entry is selected on the first page.
    pub fn add_entry(&mut self, text: String) -> (changed: bool)
        requires
            old(self).wf(),
        ensures
            final(self).wf(),
            changed == (trim(text@).len() > 0),
            !changed ==> *final(self) == *old(self),
            changed ==> {
                &&& final(self).entries_spec() == history_with(
                    old(self).entries_spec(),
                    trim(text@),
                    old(self).config_spec().capacity as int,
                )
                &&& final(self).config_spec() == old(self).config_spec()
                &&& final(self).selected_spec() == 0
                &&& final(self).page_spec() == 0
            },
    {
        let t = trimmed(text.as_str());
        if t.unicode_len() == 0 {
            return false;
        }
        let ghost old_entries = texts(self.entries@);
        let mut kept: Vec<String> = Vec::new();
        let mut i: usize = 0;
        while i < self.entries.len()
            invariant
                i <= self.entries.len(),
                old_entries == texts(self.entries@),
                texts(kept@) == without(texts(self.entries@.take(i as int)), t@),
            decreases self.entries.len() - i,
        {
            proof {
                assert(texts(self.entries@.take(i + 1)).drop_last() =~= texts(
                    self.entries@.take(i as int),
                ));
                assert(texts(self.entries@.take(i + 1)).last() == self.entries@[i as int]@);
            }
            if self.entries[i] != t {
                let e = self.entries[i].clone();
                let ghost before = kept@;
                kept.push(e);
                proof {
                    assert(texts(kept@) =~= texts(before).push(self.entries@[i as int]@)) by {
                        assert(kept@ == before.push(self.entries@[i as int]));
                    }
                }
            }
            i = i + 1;
        }
        proof {
            assert(self.entries@.take(self.entries.len() as int) =~= self.entries@);
        }
        let ghost t_view = t@;
        kept.insert(0, t);
        proof {
            assert(texts(kept@) =~= seq![t_view] + without(old_entries, t_view));
        }
        kept.truncate(self.config.capacity);
        proof {
            let full = seq![t_view] + without(old_entries, t_view);
            if (self.config.capacity as int) < full.len() {
                assert(texts(kept@) =~= full.take(self.config.capacity as int));
            }
        }
        self.entries = kept;
        self.selected_index = 0;
        self.page = 0;
        true
    }

    /// Applies a new configuration: it is normalized, the history is cut to
    /// the new capacity and the selection kept in range. Returns whether the
    /// configuration or the number of entries changed.
    pub fn reload_config(&mut self, config: ClipboardConfig) -> (changed: bool)
        requires
            old(self).wf(),
        ensures
            final(self).wf(),
            final(self).config_spec() == config.normalized_spec(),
            final(self).entries_spec() == truncated(
                old(self).entries_spec(),
                config.normalized_spec().capacity as int,
            ),
            changed == (config.normalized_spec() != old(self).config_spec()
                || final(self).entries_spec().len() != old(self).entries_spec().len()),
            (final(self).selected_spec(), final(self).page_spec()) == clamped_position(
                final(self).entries_spec().len() as int,
                config.normalized_spec().panel_page_size as int,
                (old(self).selected_spec(), old(self).page_spec()),
            ),
    {
        let config = config.normalized();
        let old_config = self.config;
        let old_len = self.entries.len();
        self.config = config;
        self.entries.truncate(self.config.capacity);
        proof {
            let cap = self.config.capacity as int;
            if cap < old(self).entries@.len() {
                assert(texts(self.entries@) =~= texts(old(self).entries@).take(cap));
            }
        }
        self.normalize_selection();
        self.config != old_config || self.entries.len() != old_len
    }

    /// The entries, newest first.
    pub fn entries(&self) -> (r: &[String])
        ensures
            texts(r@) == self.entries_spec(),
    {
        self.entries.as_slice()
    }

    /// The selected entry's index.
    pub fn selected_index(&self) -> (r: usize)
        ensures
            r == self.selected_spec(),
    {
        self.selected_index
    }

    /// The page shown.
    pub fn page(&self) -> (r: usize)
        ensures
            r == self.page_spec(),
    {
        self.page
    }

    /// The configuration in force.
    pub fn config(&self) -> (r: ClipboardConfig)
        ensures
            r == self.config_spec(),
    {
        self.config
    }

    /// The selected entry, if there is one.
    pub fn selected_text(&self) -> (r: Option<String>)
        ensures
            match r {
                Some(t) => 0 <= self.selected_spec() < self.entries_spec().len() && t@
                    == self.entries_spec()[self.selected_spec()],
                None => !(0 <= self.selected_spec() < self.entries_spec().len()),
            },
    {
        if self.selected_index < self.entries.len() {
            Some(self.entries[self.selected_index].clone())
        } else {
            None
        }
    }

    /// The entry indices on the page shown.
    pub fn current_page_range(&self) -> (r: std::ops::Range<usize>)
        requires
            self.wf(),
        ensures
            r.start == page_start_spec(
                self.entries_spec().len() as int,
                self.config_spec().panel_page_size as int,
                self.page_spec(),
            ),
            r.end == page_end_spec(
                self.entries_spec().len() as int,
                self.config_spec().panel_page_size as int,
                self.page_spec(),
            ),
            r.start <= r.end <= self.entries_spec().len(),
    {
        let n = self.entries.len();
        let ps = self.config.panel_page_size;
        proof {
            if n > 0 {
                assert(self.page * ps <= self.selected_index) by (nonlinear_arith)
                    requires
                        ps >= 1,
                        self.page <= self.selected_index / ps,
                ;
            }
        }
        page_range(n, ps, self.page)
    }

    /// Number of pages of the history.
    pub fn page_count(&self) -> (r: usize)
        ensures
            r == self.page_count_view(),
    {
        page_count(self.entries.len(), self.config.panel_page_size)
    }

    /// Selects the previous entry (staying at the first) and shows its page.
    pub fn move_selection_up(&mut self)
        requires
            old(self).wf(),
        ensures
            final(self).wf(),
            final(self).entries_spec() == old(self).entries_spec(),
            final(self).config_spec() == old(self).config_spec(),
            old(self).entries_spec().len() == 0 ==> *final(self) == *old(self),
            old(self).entries_spec().len() > 0 ==> {
                &&& final(self).selected_spec() == if old(self).selected_spec() > 0 {
                    old(self).selected_spec() - 1
                } else {
                    0
                }
                &&& final(self).page_spec() == final(self).selected_spec()
                    / old(self).config_spec().panel_page_size as int
            },
    {
        if self.entries.len() == 0 {
            return;
        }
        self.selected_index = if self.selected_index > 0 {
            self.selected_index - 1
        } else {
            0
        };
        self.page = self.selected_index / self.config.panel_page_size;
    }

    /// Selects the next entry (staying at the last) and shows its page.
    pub fn move_selection_down(&mut self)
        requires
            old(self).wf(),
        ensures
            final(self).wf(),
            final(self).entries_spec() == old(self).entries_spec(),
            final(self).config_spec() == old(self).config_spec(),
            old(self).entries_spec().len() == 0 ==> *final(self) == *old(self),
            old(self).entries_spec().len() > 0 ==> {
                &&& final(self).selected_spec() == if old(self).selected_spec() + 1 < old(
                    self,
                ).entries_spec().len() {
                    old(self).selected_spec() + 1
                } else {
                    old(self).entries_spec().len() - 1
                }
                &&& final(self).page_spec() == final(self).selected_spec()
                    / old(self).config_spec().panel_page_size as int
            },
    {
        if self.entries.len() == 0 {
            return;
        }
        let next = self.selected_index + 1;
        self.selected_index = if next < self.entries.len() {
            next
        } else {
            self.entries.len() - 1
        };
        self.page = self.selected_index / self.config.panel_page_size;
    }

    /// Shows the previous page, selecting its first entry; nothing happens
    /// on the first page.
    pub fn previous_page(&mut self)
        requires
            old(self).wf(),
        ensures
            final(self).wf(),
            final(self).entries_spec() == old(self).entries_spec(),
            final(self).config_spec() == old(self).config_spec(),
            old(self).page_spec() == 0 ==> *final(self) == *old(self),
            old(self).page_spec() > 0 ==> {
                &&& final(self).page_spec() == old(self).page_spec() - 1
                &&& final(self).selected_spec() == final(self).page_spec()
                    * old(self).config_spec().panel_page_size as int
            },
    {
        if self.page == 0 {
            return;
        }
        let ps = self.config.panel_page_size;
        proof {
            assert((self.page - 1) * ps <= self.selected_index) by (nonlinear_arith)
                requires
                    ps >= 1,
                    1 <= self.page <= self.selected_index / ps,
            ;
        }
        self.page = self.page - 1;
        self.selected_index = self.page * ps;
        proof {
            assert(self.selected_index / ps == self.page) by (nonlinear_arith)
                requires
                    ps >= 1,
                    self.selected_index == self.page * ps,
            ;
        }
    }

    /// Shows the next page, selecting its first entry; nothing happens on
    /// the last page.
    pub fn next_page(&mut self)
        requires
            old(self).wf(),
        ensures
            final(self).wf(),
            final(self).entries_spec() == old(self).entries_spec(),
            final(self).config_spec() == old(self).config_spec(),
            old(self).page_spec() + 1 >= old(self).page_count_view() ==> *final(self) == *old(
                self,
            ),
            old(self).page_spec() + 1 < old(self).page_count_view() ==> {
                &&& final(self).page_spec() == old(self).page_spec() + 1
                &&& final(self).selected_spec() == final(self).page_spec()
                    * old(self).config_spec().panel_page_size as int
            },
    {
        let count = self.page_count();
        if self.page >= count || count - self.page <= 1 {
            return;
        }
        let ps = self.config.panel_page_size;
        let n = self.entries.len();
        proof {
            let p1 = self.page + 1;
            let ni = n as int;
            let pi = ps as int;
            assert(p1 * pi < ni) by (nonlinear_arith)
                requires
                    pi >= 1,
                    ni > 0,
                    p1 < (ni + pi - 1) / pi,
            ;
        }
        self.page = self.page + 1;
        self.selected_index = self.page * ps;
        proof {
            assert(self.selected_index / ps == self.page) by (nonlinear_arith)
                requires
                    ps >= 1,
                    self.selected_index == self.page * ps,
            ;
        }
    }

    /// Brings the selection into range: it is cut to the last entry, and the
    /// page is cut to the last page and to the selection's page.
    pub fn normalize_selection(&mut self)
        requires
            old(self).config_spec().is_normalized(),
        ensures
            final(self).wf(),
            final(self).entries_spec() == old(self).entries_spec(),
            final(self).config_spec() == old(self).config_spec(),
            old(self).entries_spec().len() == 0 ==> final(self).selected_spec() == 0
                && final(self).page_spec() == 0,
            old(self).entries_spec().len() > 0 ==> {
                let n = old(self).entries_spec().len() as int;
                let ps = old(self).config_spec().panel_page_size as int;
                let sel = if old(self).selected_spec() < n - 1 {
                    old(self).selected_spec()
                } else {
                    n - 1
                };
                let last_page = old(self).page_count_view() - 1;
                let p1 = if old(self).page_spec() < last_page {
                    old(self).page_spec()
                } else {
                    last_page
                };
                &&& final(self).selected_spec() == sel
                &&& final(self).page_spec() == if p1 < sel / ps {
                    p1
                } else {
                    sel / ps
                }
            },
    {
        let n = self.entries.len();
        if n == 0 {
            self.selected_index = 0;
            self.page = 0;
            return;
        }
        if self.selected_index > n - 1 {
            self.selected_index = n - 1;
        }
        let count = self.page_count();
        let last_page = if count > 0 {
            count - 1
        } else {
            0
        };
        let mut page = self.page;
        if page > last_page {
            page = last_page;
        }
        let sel_page = self.selected_index / self.config.panel_page_size;
        if page > sel_page {
            page = sel_page;
        }
        self.page = page;
        proof {
            let ps = self.config.panel_page_size as int;
            assert(count >= 1) by (nonlinear_arith)
                requires
                    ps >= 1,
                    n >= 1,
                    count == (n + ps - 1) / ps,
            ;
        }
    }

    /// Applies the picker's arrow keys of one frame, in the order up, down,
    /// left (previous page), right (next page).
    pub fn handle_keys(&mut self, up: bool, down: bool, left: bool, right: bool)
        requires
            old(self).wf(),
        ensures
            final(self).wf(),
            final(self).entries_spec() == old(self).entries_spec(),
            final(self).config_spec() == old(self).config_spec(),
            (final(self).selected_spec(), final(self).page_spec()) == picker_keys(
                old(self).entries_spec().len() as int,
                old(self).config_spec().panel_page_size as int,
                (old(self).selected_spec(), old(self).page_spec()),
                up,
                down,
                left,
                right,
            ),
            !up && !down && left && !right ==> ({
                let (p0, s0) = (old(self).page_spec(), old(self).selected_spec());
                let (p1, s1) = (final(self).page_spec(), final(self).selected_spec());
                let ps = old(self).config_spec().panel_page_size as int;
                &&& p0 > 0 ==> p1 == p0 - 1 && s1 == p1 * ps
                &&& p0 == 0 ==> p1 == 0 && s1 == s0
            }),
            !up && !down && !left && right ==> ({
                let (p0, s0) = (old(self).page_spec(), old(self).selected_spec());
                let (p1, s1) = (final(self).page_spec(), final(self).selected_spec());
                let ps = old(self).config_spec().panel_page_size as int;
                let count = old(self).page_count_view();
                &&& p0 + 1 < count ==> p1 == p0 + 1 && s1 == p1 * ps
                &&& p0 + 1 >= count ==> p1 == p0 && s1 == s0
            }),
            up && !down && !left && !right && old(self).entries_spec().len() > 0 ==> ({
                let s0 = old(self).selected_spec();
                final(self).selected_spec() == if s0 > 0 {
                    s0 - 1
                } else {
                    0
                }
            }),
            !up && down && !left && !right && old(self).entries_spec().len() > 0 ==> ({
                let s0 = old(self).selected_spec();
                let n = old(self).entries_spec().len() as int;
                final(self).selected_spec() == if s0 + 1 < n {
                    s0 + 1
                } else {
                    n - 1
                }
            }),
    {
        if up {
            self.move_selection_up();
        }
        if down {
            self.move_selection_down();
        }
        if left {
            self.previous_page();
        }
        if right {
            self.next_page();
        }
    }

    /// Selects the entry `index` (a click in the picker), leaving the page
    /// as it is.
    pub fn select(&mut self, index: usize)
        requires
            old(self).wf(),
            old(self).page_spec() <= index as int / old(self).config_spec().panel_page_size as int,
            index < old(self).entries_spec().len(),
        ensures
            final(self).wf(),
            final(self).entries_spec() == old(self).entries_spec(),
            final(self).config_spec() == old(self).config_spec(),
            final(self).selected_spec() == index,
            final(self).page_spec() == old(self).page_spec(),
    {
        self.selected_index = index;
    }

    /// The picker's decision for a frame: Escape closes it; Enter pastes the
    /// selected entry, or closes it when there is none; otherwise nothing.
    pub fn picker_action(&self, escape: bool, enter: bool) -> (r: ClipboardUiAction)
        ensures
            escape ==> r == ClipboardUiAction::Close,
            !escape && !enter ==> r == ClipboardUiAction::Stay,
            !escape && enter ==> match r {
                ClipboardUiAction::Paste(t) => 0 <= self.selected_spec()
                    < self.entries_spec().len() && t@ == self.entries_spec()[self.selected_spec()],
                ClipboardUiAction::Close => !(0 <= self.selected_spec()
                    < self.entries_spec().len()),
                ClipboardUiAction::Stay => false,
            },
    {
        if escape {
            return ClipboardUiAction::Close;
        }
        if enter {
            return match self.selected_text() {
                Some(t) => ClipboardUiAction::Paste(t),
                None => ClipboardUiAction::Close,
            };
        }
        ClipboardUiAction::Stay
    }

    /// The page indicator of the picker: the page shown counted from 1 (0
    /// when there are no entries) and the number of pages.
    pub fn page_indicator(&self) -> (r: (usize, usize))
        requires
            self.wf(),
        ensures
            r.0 == if self.entries_spec().len() == 0 {
                0
            } else {
                self.page_spec() + 1
            },
            r.1 == self.page_count_view(),
    {
        let page = if self.entries.len() == 0 {
            0
        } else {
            self.page + 1
        };
        (page, self.page_count())
    }
}

/// The clipboard history of the application: the picker state and where
/// the history is kept on disk. Reading and writing that file is left to
/// the caller, which is told when the history must be saved.
#[derive(Debug, Clone)]
pub struct ClipboardManager {
    state: ClipboardState,
    history_path: String,
    monitor_started: bool,
}

impl ClipboardManager {
    pub open spec fn wf(self) -> bool {
        self.state_spec().wf()
    }

    pub closed spec fn state_spec(self) -> ClipboardState {
        self.state
    }

    pub closed spec fn history_path_spec(self) -> Seq<char> {
        self.history_path@
    }

    pub closed spec fn monitor_started_spec(self) -> bool {
        self.monitor_started
    }

    /// A manager for the history kept in the default location under `home`,
    /// starting from the entries read from there (`None` when they could
    /// not be read).
    pub fn new(
        config: ClipboardConfig,
        style: PathStyle,
        home: Option<&str>,
        loaded: Option<Vec<String>>,
    ) -> (m: Self)
        ensures
            m.wf(),
            m.history_path_spec() == crate::persistence::join_path(
                style,
                crate::persistence::trinity_dir_spec(
                    style,
                    match home {
                        Some(h) => Some(h@),
                        None => None,
                    },
                ),
                "clipboard_history.json"@,
            ),
            m.state_spec().config_spec() == config.normalized_spec(),
            m.state_spec().entries_spec() == match loaded {
                Some(v) => truncated(
                    without(texts(v@), Seq::<char>::empty()),
                    config.normalized_spec().capacity as int,
                ),
                None => Seq::<Seq<char>>::empty(),
            },
            !m.monitor_started_spec(),
    {
        Self::new_with_path(config, crate::persistence::clipboard_history_path(style, home), loaded)
    }

    /// A manager for the history kept at `history_path`, starting from the
    /// entries read from there (`None` when they could not be read): empty
    /// entries are dropped and the rest cut to the normalized capacity; the
    /// first entry is selected.
    pub fn new_with_path(config: ClipboardConfig, history_path: String, loaded: Option<
        Vec<String>,
    >) -> (m: Self)
        ensures
            m.wf(),
            m.history_path_spec() == history_path@,
            m.state_spec().config_spec() == config.normalized_spec(),
            m.state_spec().entries_spec() == match loaded {
                Some(v) => truncated(
                    without(texts(v@), Seq::<char>::empty()),
                    config.normalized_spec().capacity as int,
                ),
                None => Seq::<Seq<char>>::empty(),
            },
            m.state_spec().selected_spec() == 0,
            m.state_spec().page_spec() == 0,
            !m.monitor_started_spec(),
    {
        let config = config.normalized();
        let entries = match loaded {
            Some(raw) => {
                let kept = history_entries(raw);
                let cut = trim_entries(kept, config.capacity);
                proof {
                    let cap = config.capacity as int;
                    if cap < kept@.len() {
                        assert(texts(cut@) =~= texts(kept@).take(cap));
                    }
                }
                cut
            },
            None => Vec::new(),
        };
        proof {
            if loaded is None {
                assert(texts(entries@) =~= Seq::<Seq<char>>::empty());
            }
        }
        ClipboardManager {
            state: ClipboardState::new(config, entries),
            history_path,
            monitor_started: false,
        }
    }

    /// Marks the clipboard monitor as started; `true` exactly the first
    /// time, when the caller is to start it.
    pub fn start_monitoring(&mut self) -> (start: bool)
        ensures
            start == !old(self).monitor_started_spec(),
            final(self).monitor_started_spec(),
            final(self).state_spec() == old(self).state_spec(),
            final(self).history_path_spec() == old(self).history_path_spec(),
    {
        let start = !self.monitor_started;
        self.monitor_started = true;
        start
    }

    /// Applies a new clipboard configuration; `true` when the history must
    /// be saved again.
    pub fn reload_config(&mut self, config: ClipboardConfig) -> (save: bool)
        requires
            old(self).wf(),
        ensures
            final(self).wf(),
            final(self).history_path_spec() == old(self).history_path_spec(),
            final(self).monitor_started_spec() == old(self).monitor_started_spec(),
            final(self).state_spec().config_spec() == config.normalized_spec(),
            final(self).state_spec().entries_spec() == truncated(
                old(self).state_spec().entries_spec(),
                config.normalized_spec().capacity as int,
            ),
            save == (config.normalized_spec() != old(self).state_spec().config_spec()
                || final(self).state_spec().entries_spec().len() != old(
                self,
            ).state_spec().entries_spec().len()),
    {
        self.state.reload_config(config)
    }

    /// Records a text read from the system clipboard; `true` when it was
    /// recorded and the history must be saved.
    pub fn record(&mut self, text: String) -> (save: bool)
        requires
            old(self).wf(),
        ensures
            final(self).wf(),
            final(self).history_path_spec() == old(self).history_path_spec(),
            final(self).monitor_started_spec() == old(self).monitor_started_spec(),
            save == (trim(text@).len() > 0),
            !save ==> final(self).state_spec() == old(self).state_spec(),
            save ==> final(self).state_spec().entries_spec() == history_with(
                old(self).state_spec().entries_spec(),
                trim(text@),
                old(self).state_spec().config_spec().capacity as int,
            ),
    {
        self.state.add_entry(text)
    }

    /// The history, newest first.
    pub fn entries(&self) -> (r: Vec<String>)
        ensures
            texts(r@) == self.state_spec().entries_spec(),
    {
        let e = self.state.entries();
        let mut r: Vec<String> = Vec::new();
        let mut i: usize = 0;
        while i < e.len()
            invariant
                i <= e.len(),
                texts(e@) == self.state_spec().entries_spec(),
                texts(r@) == texts(e@).take(i as int),
            decreases e.len() - i,
        {
            let ghost before = r@;
            r.push(e[i].clone());
            proof {
                assert(r@ == before.push(e@[i as int]));
                assert(texts(r@) =~= texts(before).push(e@[i as int]@));
                assert(texts(r@) =~= texts(e@).take(i + 1));
            }
            i = i + 1;
        }
        proof {
            assert(texts(e@).take(e.len() as int) =~= texts(e@));
        }
        r
    }

    /// Where the history is kept.
    pub fn history_path(&self) -> (r: &str)
        ensures
            r@ == self.history_path_spec(),
    {
        self.history_path.as_str()
    }

    /// The picker state.
    pub fn state(&self) -> (r: &ClipboardState)
        ensures
            *r == self.state_spec(),
    {
        &self.state
    }

    /// One frame of the picker: the arrow keys move the selection or the
    /// page, then Escape closes, Enter pastes the selected entry (or closes
    /// when there is none), and otherwise the picker stays.
    pub fn show_inside(
        &mut self,
        up: bool,
        down: bool,
        left: bool,
        right: bool,
        escape: bool,
        enter: bool,
    ) -> (action: ClipboardUiAction)
        requires
            old(self).wf(),
        ensures
            final(self).wf(),
            final(self).history_path_spec() == old(self).history_path_spec(),
            final(self).monitor_started_spec() == old(self).monitor_started_spec(),
            final(self).state_spec().entries_spec() == old(self).state_spec().entries_spec(),
            final(self).state_spec().config_spec() == old(self).state_spec().config_spec(),
            (final(self).state_spec().selected_spec(), final(self).state_spec().page_spec())
                == picker_keys(
                old(self).state_spec().entries_spec().len() as int,
                old(self).state_spec().config_spec().panel_page_size as int,
                (old(self).state_spec().selected_spec(), old(self).state_spec().page_spec()),
                up,
                down,
                left,
                right,
            ),
            escape ==> action == ClipboardUiAction::Close,
            !escape && !enter ==> action == ClipboardUiAction::Stay,
            !escape && enter ==> match action {
                ClipboardUiAction::Paste(t) => {
                    let st = final(self).state_spec();
                    t@ == st.entries_spec()[st.selected_spec()]
                },
                ClipboardUiAction::Close => final(self).state_spec().entries_spec().len() == 0,
                ClipboardUiAction::Stay => false,
            },
    {
        self.state.handle_keys(up, down, left, right);
        self.state.picker_action(escape, enter)
    }

    /// Selects an entry clicked in the picker.
    pub fn select(&mut self, index: usize)
        requires
            old(self).wf(),
            old(self).state_spec().page_spec() <= index as int / old(
                self,
            ).state_spec().config_spec().panel_page_size as int,
            index < old(self).state_spec().entries_spec().len(),
        ensures
            final(self).wf(),
            final(self).history_path_spec() == old(self).history_path_spec(),
            final(self).monitor_started_spec() == old(self).monitor_started_spec(),
            final(self).state_spec().entries_spec() == old(self).state_spec().entries_spec(),
            final(self).state_spec().selected_spec() == index,
    {
        self.state.select(index);
    }
}

/// Remembers the last text seen on the system clipboard, so that a text is
/// offered to the history once until the clipboard changes.
#[derive(Debug, Clone)]
pub struct ClipboardWatcher {
    last_seen: String,
}

impl ClipboardWatcher {
    pub closed spec fn last_seen_spec(self) -> Seq<char> {
        self.last_seen@
    }

    /// A watcher that has seen nothing yet.
    pub fn new() -> (w: Self)
        ensures
            w.last_seen_spec() == Seq::<char>::empty(),
    {
        ClipboardWatcher { last_seen: String::new() }
    }

    /// The clipboard now holds `text`: it is returned when it differs from
    /// the last text seen, which it then becomes.
    pub fn observe(&mut self, text: String) -> (fresh: Option<String>)
        ensures
            text@ == old(self).last_seen_spec() ==> fresh is None && final(self).last_seen_spec()
                == old(self).last_seen_spec(),
            text@ != old(self).last_seen_spec() ==> final(self).last_seen_spec() == text@,
            text@ != old(self).last_seen_spec() ==> (fresh matches Some(t) && t@ == text@),
    {
        if text == self.last_seen {
            None
        } else {
            self.last_seen = text.clone();
            Some(text)
        }
    }
}

} // verus!
