//! Error bookkeeping of a run: failures counted by error code, the error panel
//! drawn from them (most frequent first, codes alphabetical among equals, at
//! most [`ERROR_PANEL_LEN`] rows) and the text of the last failure.
use vstd::prelude::*;

use crate::contract::ErrorCount;
use crate::text::{
    chars_of, chars_lt, dec, lemma_lex_irreflexive, lemma_lex_total, lemma_lex_transitive, lex_lt,
    join, joined, push_char, push_decimal, push_str, same_text, views,
};

verus! {

/// Rows of the error panel.
pub const ERROR_PANEL_LEN: usize = 12;

/// A tally row as a plain pair: code and count.
pub open spec fn row(e: ErrorCount) -> (Seq<char>, u64) {
    (e.code@, e.count)
}

/// Rows as plain pairs.
pub open spec fn rows(s: Seq<ErrorCount>) -> Seq<(Seq<char>, u64)> {
    s.map_values(|e: ErrorCount| row(e))
}

/// Panel order: `a` is shown above `b` when it counts more failures, or as
/// many with a code that sorts first.
pub open spec fn shown_before(a: (Seq<char>, u64), b: (Seq<char>, u64)) -> bool {
    a.1 > b.1 || (a.1 == b.1 && lex_lt(a.0, b.0))
}

/// Whether `k` is the code of one of the rows.
pub open spec fn lists(panel: Seq<(Seq<char>, u64)>, k: Seq<char>) -> bool {
    exists|i: int| 0 <= i < panel.len() && #[trigger] panel[i].0 == k
}

/// `panel` is the error panel of `counts`: rows of the tally in panel order,
/// as many as fit, and every code left out comes after every row shown.
pub open spec fn is_panel(panel: Seq<(Seq<char>, u64)>, counts: Map<Seq<char>, u64>) -> bool {
    &&& panel.len() == if counts.dom().len() < ERROR_PANEL_LEN {
        counts.dom().len()
    } else {
        ERROR_PANEL_LEN as nat
    }
    &&& forall|i: int|
        0 <= i < panel.len() ==> counts.contains_key(#[trigger] panel[i].0) && counts[panel[i].0]
            == panel[i].1
    &&& forall|i: int, j: int| 0 <= i < j < panel.len() ==> shown_before(panel[i], panel[j])
    &&& forall|k: Seq<char>|
        #[trigger] counts.contains_key(k) && !lists(panel, k) ==> forall|i: int|
            0 <= i < panel.len() ==> shown_before(#[trigger] panel[i], (k, counts[k]))
}

/// The tally as a map from code to count.
pub open spec fn map_of(s: Seq<ErrorCount>) -> Map<Seq<char>, u64>
    decreases s.len(),
{
    if s.len() == 0 {
        Map::empty()
    } else {
        map_of(s.drop_last()).insert(s.last().code@, s.last().count)
    }
}

/// No code appears twice.
pub open spec fn distinct_codes(s: Seq<ErrorCount>) -> bool {
    forall|i: int, j: int| 0 <= i < j < s.len() ==> s[i].code@ != s[j].code@
}

proof fn lemma_map_of(s: Seq<ErrorCount>)
    requires
        distinct_codes(s),
    ensures
        map_of(s).dom().finite(),
        map_of(s).dom().len() == s.len(),
        forall|k: Seq<char>|
            #[trigger] map_of(s).contains_key(k) <==> exists|i: int|
                0 <= i < s.len() && s[i].code@ == k,
        forall|i: int| 0 <= i < s.len() ==> map_of(s)[#[trigger] s[i].code@] == s[i].count,
    decreases s.len(),
{
    if s.len() > 0 {
        let rest = s.drop_last();
        lemma_map_of(rest);
        assert(!map_of(rest).contains_key(s.last().code@)) by {
            if map_of(rest).contains_key(s.last().code@) {
                let i = choose|i: int| 0 <= i < rest.len() && rest[i].code@ == s.last().code@;
                assert(s[i].code@ == s[s.len() - 1].code@);
            }
        }
        assert forall|k: Seq<char>| #[trigger] map_of(s).contains_key(k) implies exists|i: int|
            0 <= i < s.len() && s[i].code@ == k by {
            if k != s.last().code@ {
                let i = choose|i: int| 0 <= i < rest.len() && rest[i].code@ == k;
                assert(s[i].code@ == k);
            } else {
                assert(s[s.len() - 1].code@ == k);
            }
        }
        assert forall|k: Seq<char>| (exists|i: int| 0 <= i < s.len() && s[i].code@ == k) implies #[trigger] map_of(s).contains_key(k) by {
            let i = choose|i: int| 0 <= i < s.len() && s[i].code@ == k;
            if i < s.len() - 1 {
                assert(rest[i].code@ == k);
            }
        }
        assert forall|i: int| 0 <= i < s.len() implies map_of(s)[#[trigger] s[i].code@]
            == s[i].count by {
            if i < s.len() - 1 {
                assert(rest[i] == s[i]);
                assert(s[i].code@ != s[s.len() - 1].code@);
            }
        }
    }
}

proof fn lemma_map_of_update(s: Seq<ErrorCount>, k: int, e: ErrorCount)
    requires
        distinct_codes(s),
        0 <= k < s.len(),
        e.code@ == s[k].code@,
    ensures
        distinct_codes(s.update(k, e)),
        map_of(s.update(k, e)) == map_of(s).insert(e.code@, e.count),
    decreases s.len(),
{
    let t = s.update(k, e);
    assert(distinct_codes(t)) by {
        assert forall|i: int, j: int| 0 <= i < j < t.len() implies t[i].code@ != t[j].code@ by {
            assert(s[i].code@ != s[j].code@);
        }
    }
    if k == s.len() - 1 {
        assert(t.drop_last() =~= s.drop_last());
        lemma_map_of(s.drop_last());
        lemma_map_of(s);
        assert(map_of(t) =~= map_of(s).insert(e.code@, e.count)) by {
            assert(map_of(s) == map_of(s.drop_last()).insert(s.last().code@, s.last().count));
        }
    } else {
        lemma_map_of_update(s.drop_last(), k, e);
        assert(t.drop_last() =~= s.drop_last().update(k, e));
        assert(s.last().code@ != e.code@) by {
            assert(s[k].code@ != s[s.len() - 1].code@);
        }
        assert(map_of(t) =~= map_of(s).insert(e.code@, e.count));
    }
}

/// Failures of a run counted by error code, with the last failure's text.
#[derive(Debug)]
pub struct ErrorTally {
    counts: Vec<ErrorCount>,
    last: String,
}

impl ErrorTally {
    /// Failures counted so far, by code.
    pub closed spec fn counts(&self) -> Map<Seq<char>, u64> {
        map_of(self.counts@)
    }

    /// The text of the last failure (empty when there was none).
    pub closed spec fn last_text(&self) -> Seq<char> {
        self.last@
    }

    /// The internal table has one row per code.
    pub closed spec fn wf(&self) -> bool {
        distinct_codes(self.counts@)
    }

    /// An empty tally.
    pub fn new() -> (r: Self)
        ensures
            r.wf(),
            r.counts() == Map::<Seq<char>, u64>::empty(),
            r.last_text() == Seq::<char>::empty(),
    {
        ErrorTally { counts: Vec::new(), last: String::new() }
    }

    /// Forgets every failure (a new run starts with a clean panel).
    pub fn reset(&mut self)
        ensures
            final(self).wf(),
            final(self).counts() == Map::<Seq<char>, u64>::empty(),
            final(self).last_text() == Seq::<char>::empty(),
    {
        self.counts = Vec::new();
        self.last = String::new();
    }

    /// Failures counted for `code` (0 when none).
    pub fn count(&self, code: &str) -> (r: u64)
        requires
            self.wf(),
        ensures
            r == if self.counts().contains_key(code@) {
                self.counts()[code@]
            } else {
                0
            },
    {
        proof {
            lemma_map_of(self.counts@);
        }
        let mut i: usize = 0;
        while i < self.counts.len()
            invariant
                i <= self.counts@.len(),
                distinct_codes(self.counts@),
                forall|j: int| 0 <= j < i ==> self.counts@[j].code@ != code@,
            decreases self.counts.len() - i,
        {
            if same_text(self.counts[i].code.as_str(), code) {
                proof {
                    lemma_map_of(self.counts@);
                }
                return self.counts[i].count;
            }
            i = i + 1;
        }
        proof {
            lemma_map_of(self.counts@);
        }
        0
    }

    /// Counts one failure of `code` and keeps `message` as the last failure.
    pub fn add(&mut self, code: &str, message: String)
        requires
            old(self).wf(),
            !old(self).counts().contains_key(code@) || old(self).counts()[code@] < u64::MAX,
        ensures
            final(self).wf(),
            final(self).counts() == old(self).counts().insert(
                code@,
                if old(self).counts().contains_key(code@) {
                    (old(self).counts()[code@] + 1) as u64
                } else {
                    1
                },
            ),
            final(self).last_text() == message@,
    {
        proof {
            lemma_map_of(self.counts@);
        }
        let ghost start = self.counts@;
        let mut i: usize = 0;
        while i < self.counts.len()
            invariant
                i <= self.counts@.len(),
                self.counts@ == start,
                start == old(self).counts@,
                distinct_codes(start),
                !map_of(start).contains_key(code@) || map_of(start)[code@] < u64::MAX,
                forall|j: int| 0 <= j < i ==> start[j].code@ != code@,
            decreases self.counts.len() - i,
        {
            if same_text(self.counts[i].code.as_str(), code) {
                proof {
                    lemma_map_of(start);
                    assert(map_of(start)[start[i as int].code@] == start[i as int].count);
                }
                let count = self.counts[i].count + 1;
                let mut text = String::new();
                push_str(&mut text, code);
                let entry = ErrorCount { code: text, count };
                self.counts.set(i, entry);
                proof {
                    lemma_map_of_update(start, i as int, entry);
                }
                self.last = message;
                return;
            }
            i = i + 1;
        }
        proof {
            lemma_map_of(start);
        }
        let mut text = String::new();
        push_str(&mut text, code);
        self.counts.push(ErrorCount { code: text, count: 1 });
        proof {
            let pushed = self.counts@;
            assert(pushed.drop_last() =~= start);
            assert(distinct_codes(pushed));
        }
        self.last = message;
    }

    /// The text of the last failure.
    pub fn last_error(&self) -> (r: String)
        ensures
            r@ == self.last_text(),
    {
        let mut r = String::new();
        push_str(&mut r, self.last.as_str());
        r
    }

    /// The error panel: most frequent codes first, ties by code, at most
    /// [`ERROR_PANEL_LEN`] rows.
    pub fn panel(&self) -> (r: Vec<ErrorCount>)
        requires
            self.wf(),
        ensures
            is_panel(rows(r@), self.counts()),
    {
        let s = &self.counts;
        let mut top: Vec<ErrorCount> = Vec::new();
        let ghost mut from: Seq<int> = Seq::empty();
        let mut i: usize = 0;
        while i < s.len()
            invariant
                i <= s@.len(),
                distinct_codes(s@),
                panel_inv(s@, i as int, top@, from),
            decreases s.len() - i,
        {
            let code = chars_of(s[i].code.as_str());
            let count = s[i].count;
            let mut p: usize = 0;
            while p < top.len() && !comes_first(&code, count, &top[p])
                invariant
                    p <= top@.len(),
                    code@ == s@[i as int].code@,
                    count == s@[i as int].count,
                    forall|a: int|
                        0 <= a < p ==> !shown_before(row(s@[i as int]), row(#[trigger] top@[a])),
                decreases top.len() - p,
            {
                p = p + 1;
            }
            if p < ERROR_PANEL_LEN {
                let ghost before = top@;
                let mut text = String::new();
                push_str(&mut text, s[i].code.as_str());
                let copy = ErrorCount { code: text, count };
                top.insert(p, copy);
                if top.len() > ERROR_PANEL_LEN {
                    top.truncate(ERROR_PANEL_LEN);
                }
                proof {
                    lemma_panel_insert(s@, i as int, before, from, p as int, copy);
                    from = cut(from.insert(p as int, i as int));
                    assert(top@ == cut(before.insert(p as int, copy)));
                }
            } else {
                proof {
                    lemma_panel_skip(s@, i as int, top@, from);
                }
            }
            i = i + 1;
        }
        proof {
            lemma_panel_done(s@, top@, from);
        }
        top
    }
}

/// Whether a row with `code` and `count` is shown above `other`.
fn comes_first(code: &Vec<char>, count: u64, other: &ErrorCount) -> (r: bool)
    ensures
        r == shown_before((code@, count), row(*other)),
{
    if count > other.count {
        return true;
    }
    if count < other.count {
        return false;
    }
    let other_code = chars_of(other.code.as_str());
    chars_lt(code, &other_code)
}

/// The first `ERROR_PANEL_LEN` elements.
pub open spec fn cut<A>(s: Seq<A>) -> Seq<A> {
    if s.len() > ERROR_PANEL_LEN {
        s.subrange(0, ERROR_PANEL_LEN as int)
    } else {
        s
    }
}

/// Rows in panel order.
pub open spec fn in_order(t: Seq<ErrorCount>) -> bool {
    forall|a: int, b: int| 0 <= a < b < t.len() ==> shown_before(row(t[a]), row(t[b]))
}

/// Each row of `t` is the row of `s` that `f` names, among the first `i`.
pub open spec fn drawn_from(s: Seq<ErrorCount>, i: int, t: Seq<ErrorCount>, f: Seq<int>) -> bool {
    &&& f.len() == t.len()
    &&& forall|a: int| 0 <= a < t.len() ==> 0 <= #[trigger] f[a] < i && row(t[a]) == row(s[f[a]])
}

/// Every one of the first `i` rows of `s` that `f` does not name comes after
/// every row of `t`.
pub open spec fn left_out_after(s: Seq<ErrorCount>, i: int, t: Seq<ErrorCount>, f: Seq<int>) -> bool {
    forall|j: int, a: int|
        0 <= j < i && 0 <= a < t.len() && !f.contains(j) ==> shown_before(
            row(#[trigger] t[a]),
            row(#[trigger] s[j]),
        )
}

/// What the panel loop keeps after the first `i` rows of `s`: `top` holds
/// the best rows so far in panel order, `from` says where each came from,
/// and every row not kept comes after all kept ones.
pub open spec fn panel_inv(s: Seq<ErrorCount>, i: int, top: Seq<ErrorCount>, from: Seq<int>) -> bool {
    &&& top.len() == if i < ERROR_PANEL_LEN {
        i
    } else {
        ERROR_PANEL_LEN as int
    }
    &&& drawn_from(s, i, top, from)
    &&& in_order(top)
    &&& i <= ERROR_PANEL_LEN ==> forall|j: int| 0 <= j < i ==> from.contains(j)
    &&& left_out_after(s, i, top, from)
}

proof fn lemma_order_transitive(x: (Seq<char>, u64), y: (Seq<char>, u64), z: (Seq<char>, u64))
    requires
        shown_before(x, y),
        shown_before(y, z),
    ensures
        shown_before(x, z),
{
    if x.1 == z.1 {
        lemma_lex_transitive(x.0, y.0, z.0);
    }
}

proof fn lemma_order_total(x: (Seq<char>, u64), y: (Seq<char>, u64))
    ensures
        x.0 != y.0 ==> (shown_before(x, y) || shown_before(y, x)),
        !(shown_before(x, y) && shown_before(y, x)),
        !shown_before(x, x),
{
    lemma_lex_total(x.0, y.0);
    lemma_lex_irreflexive(x.0);
}

proof fn lemma_insert_in_order(top: Seq<ErrorCount>, p: int, c: ErrorCount)
    requires
        in_order(top),
        0 <= p <= top.len(),
        forall|a: int| 0 <= a < p ==> shown_before(row(#[trigger] top[a]), row(c)),
        p < top.len() ==> shown_before(row(c), row(top[p])),
    ensures
        in_order(top.insert(p, c)),
{
    let t1 = top.insert(p, c);
    assert forall|b: int| p <= b < top.len() implies shown_before(row(c), row(#[trigger] top[b])) by {
        if b > p {
            lemma_order_transitive(row(c), row(top[p]), row(top[b]));
        }
    }
    assert forall|a: int, b: int| 0 <= a < b < t1.len() implies shown_before(
        row(t1[a]),
        row(t1[b]),
    ) by {
        if b < p {
        } else if b == p {
            assert(t1[a] == top[a]);
        } else if a == p {
            assert(t1[b] == top[b - 1]);
        } else if a < p {
            assert(t1[b] == top[b - 1]);
            lemma_order_transitive(row(top[a]), row(c), row(top[b - 1]));
        } else {
            assert(t1[a] == top[a - 1]);
            assert(t1[b] == top[b - 1]);
        }
    }
}

proof fn lemma_insert_drawn(
    s: Seq<ErrorCount>,
    i: int,
    top: Seq<ErrorCount>,
    from: Seq<int>,
    p: int,
    c: ErrorCount,
)
    requires
        drawn_from(s, i, top, from),
        0 <= p <= top.len(),
        0 <= i < s.len(),
        row(c) == row(s[i]),
    ensures
        drawn_from(s, i + 1, top.insert(p, c), from.insert(p, i)),
{
    let t1 = top.insert(p, c);
    let f1 = from.insert(p, i);
    assert forall|a: int| 0 <= a < t1.len() implies 0 <= #[trigger] f1[a] < i + 1 && row(t1[a])
        == row(s[f1[a]]) by {
        if a > p {
            assert(f1[a] == from[a - 1]);
            assert(t1[a] == top[a - 1]);
        }
    }
}

proof fn lemma_cut_keeps(s: Seq<ErrorCount>, i: int, t: Seq<ErrorCount>, f: Seq<int>)
    requires
        drawn_from(s, i, t, f),
        in_order(t),
    ensures
        drawn_from(s, i, cut(t), cut(f)),
        in_order(cut(t)),
{
    if t.len() > ERROR_PANEL_LEN {
        assert forall|a: int| 0 <= a < cut(t).len() implies 0 <= #[trigger] cut(f)[a] < i && row(
            cut(t)[a],
        ) == row(s[cut(f)[a]]) by {
            assert(cut(f)[a] == f[a]);
            assert(cut(t)[a] == t[a]);
        }
        assert forall|a: int, b: int| 0 <= a < b < cut(t).len() implies shown_before(
            row(cut(t)[a]),
            row(cut(t)[b]),
        ) by {
            assert(cut(t)[a] == t[a]);
            assert(cut(t)[b] == t[b]);
        }
    }
}

/// Indices named before stay named after an insertion and a cut, except
/// the one that falls off the end.
proof fn lemma_insert_names(from: Seq<int>, p: int, i: int, j: int)
    requires
        0 <= p <= from.len(),
        from.len() <= ERROR_PANEL_LEN,
        p < ERROR_PANEL_LEN,
        from.contains(j),
    ensures
        cut(from.insert(p, i)).contains(j) || (from.len() >= ERROR_PANEL_LEN && from.insert(p, i)[ERROR_PANEL_LEN as int] == j),
{
    let f1 = from.insert(p, i);
    let a = choose|a: int| 0 <= a < from.len() && from[a] == j;
    let a1 = if a < p {
        a
    } else {
        a + 1
    };
    assert(f1[a1] == j);
    if f1.len() > ERROR_PANEL_LEN && a1 < ERROR_PANEL_LEN {
        assert(cut(f1)[a1] == j);
    } else if f1.len() <= ERROR_PANEL_LEN {
        assert(cut(f1)[a1] == j);
    } else {
        assert(a1 == ERROR_PANEL_LEN);
    }
}

proof fn lemma_insert_left_out(
    s: Seq<ErrorCount>,
    i: int,
    top: Seq<ErrorCount>,
    from: Seq<int>,
    p: int,
    c: ErrorCount,
)
    requires
        0 <= i < s.len(),
        top.len() == if i < ERROR_PANEL_LEN {
            i
        } else {
            ERROR_PANEL_LEN as int
        },
        from.len() == top.len(),
        in_order(top),
        in_order(top.insert(p, c)),
        i <= ERROR_PANEL_LEN ==> forall|j: int| 0 <= j < i ==> from.contains(j),
        left_out_after(s, i, top, from),
        0 <= p <= top.len(),
        p < ERROR_PANEL_LEN,
        row(c) == row(s[i]),
        from.insert(p, i).len() > ERROR_PANEL_LEN ==> from.insert(p, i)[ERROR_PANEL_LEN as int] != i,
        from.insert(p, i).len() > ERROR_PANEL_LEN ==> row(top.insert(p, c)[ERROR_PANEL_LEN as int])
            == row(s[from.insert(p, i)[ERROR_PANEL_LEN as int]]),
        p < top.len() ==> shown_before(row(c), row(top[p])),
    ensures
        left_out_after(s, i + 1, cut(top.insert(p, c)), cut(from.insert(p, i))),
{
    let t1 = top.insert(p, c);
    let f1 = from.insert(p, i);
    let t2 = cut(t1);
    let f2 = cut(f1);
    assert(f2[p] == i);
    assert forall|j: int, a: int|
        0 <= j < i + 1 && 0 <= a < t2.len() && !f2.contains(j) implies shown_before(
        row(#[trigger] t2[a]),
        row(#[trigger] s[j]),
    ) by {
        assert(t2[a] == t1[a]);
        if from.contains(j) {
            lemma_insert_names(from, p, i, j);
            assert(shown_before(row(t1[a]), row(t1[ERROR_PANEL_LEN as int])));
        } else if j < i {
            assert(i > ERROR_PANEL_LEN) by {
                if i <= ERROR_PANEL_LEN {
                    assert(from.contains(j));
                }
            }
            if a == p {
                assert(shown_before(row(top[p]), row(s[j])));
                lemma_order_transitive(row(c), row(top[p]), row(s[j]));
            } else if a < p {
                assert(t1[a] == top[a]);
            } else {
                assert(t1[a] == top[a - 1]);
            }
        }
    }
}

proof fn lemma_panel_insert(
    s: Seq<ErrorCount>,
    i: int,
    top: Seq<ErrorCount>,
    from: Seq<int>,
    p: int,
    c: ErrorCount,
)
    requires
        0 <= i < s.len(),
        distinct_codes(s),
        panel_inv(s, i, top, from),
        0 <= p <= top.len(),
        p < ERROR_PANEL_LEN,
        row(c) == row(s[i]),
        forall|a: int| 0 <= a < p ==> !shown_before(row(s[i]), row(#[trigger] top[a])),
        p < top.len() ==> shown_before(row(s[i]), row(top[p])),
    ensures
        panel_inv(s, i + 1, cut(top.insert(p, c)), cut(from.insert(p, i))),
{
    let t1 = top.insert(p, c);
    let f1 = from.insert(p, i);
    let f2 = cut(f1);
    assert forall|a: int| 0 <= a < p implies shown_before(row(#[trigger] top[a]), row(c)) by {
        assert(s[from[a]].code@ != s[i].code@);
        lemma_order_total(row(top[a]), row(c));
    }
    lemma_insert_in_order(top, p, c);
    lemma_insert_drawn(s, i, top, from, p, c);
    lemma_cut_keeps(s, i + 1, t1, f1);
    assert(f1[p] == i);
    assert(f1.len() > ERROR_PANEL_LEN ==> f1[ERROR_PANEL_LEN as int] != i) by {
        if f1.len() > ERROR_PANEL_LEN {
            assert(f1[ERROR_PANEL_LEN as int] == from[ERROR_PANEL_LEN - 1]);
        }
    }
    lemma_insert_left_out(s, i, top, from, p, c);
    assert(f2[p] == i);
    if i + 1 <= ERROR_PANEL_LEN {
        assert forall|j: int| 0 <= j < i + 1 implies f2.contains(j) by {
            if j < i {
                lemma_insert_names(from, p, i, j);
            }
        }
    }
}

proof fn lemma_panel_skip(s: Seq<ErrorCount>, i: int, top: Seq<ErrorCount>, from: Seq<int>)
    requires
        0 <= i < s.len(),
        distinct_codes(s),
        panel_inv(s, i, top, from),
        top.len() >= ERROR_PANEL_LEN,
        forall|a: int| 0 <= a < top.len() ==> !shown_before(row(s[i]), row(#[trigger] top[a])),
    ensures
        panel_inv(s, i + 1, top, from),
{
    assert(!from.contains(i));
    assert forall|j: int, a: int|
        0 <= j < i + 1 && 0 <= a < top.len() && !from.contains(j) implies shown_before(
        row(#[trigger] top[a]),
        row(#[trigger] s[j]),
    ) by {
        if j == i {
            assert(s[from[a]].code@ != s[i].code@);
            lemma_order_total(row(top[a]), row(s[i]));
        }
    }
}

proof fn lemma_panel_done(s: Seq<ErrorCount>, top: Seq<ErrorCount>, from: Seq<int>)
    requires
        distinct_codes(s),
        panel_inv(s, s.len() as int, top, from),
    ensures
        is_panel(rows(top), map_of(s)),
{
    lemma_map_of(s);
    let panel = rows(top);
    let counts = map_of(s);
    assert forall|i: int| 0 <= i < panel.len() implies counts.contains_key(#[trigger] panel[i].0)
        && counts[panel[i].0] == panel[i].1 by {
        assert(panel[i] == row(top[i]));
        assert(row(top[i]) == row(s[from[i]]));
        assert(s[from[i]].code@ == panel[i].0);
    }
    assert forall|i: int, j: int| 0 <= i < j < panel.len() implies shown_before(
        panel[i],
        panel[j],
    ) by {
        assert(panel[i] == row(top[i]));
        assert(panel[j] == row(top[j]));
    }
    assert forall|k: Seq<char>| #[trigger] counts.contains_key(k) && !lists(panel, k) implies forall|i: int|
        0 <= i < panel.len() ==> shown_before(#[trigger] panel[i], (k, counts[k])) by {
        let j = choose|j: int| 0 <= j < s.len() && s[j].code@ == k;
        assert(!from.contains(j)) by {
            if from.contains(j) {
                let a = choose|a: int| 0 <= a < from.len() && from[a] == j;
                assert(panel[a] == row(top[a]));
                assert(panel[a].0 == k);
            }
        }
        assert(row(s[j]) == (k, counts[k]));
        assert forall|i: int| 0 <= i < panel.len() implies shown_before(#[trigger] panel[i], (k, counts[k])) by {
            assert(panel[i] == row(top[i]));
        }
    }
}

/// How many panel rows a stop summary names.
pub const SUMMARY_ROWS: usize = 3;

/// One row of a stop summary: `code×count`.
pub open spec fn summary_item(row: (Seq<char>, u64)) -> Seq<char> {
    row.0 + seq!['×'] + dec(row.1 as nat)
}

/// The error summary of a stop: the first [`SUMMARY_ROWS`] rows of the
/// panel as `code×count` joined by `、`, or `无` when there was no error.
pub open spec fn summary_text(panel: Seq<(Seq<char>, u64)>) -> Seq<char> {
    if panel.len() == 0 {
        "无"@
    } else {
        joined(
            panel.take(
                if panel.len() < SUMMARY_ROWS {
                    panel.len() as int
                } else {
                    SUMMARY_ROWS as int
                },
            ).map_values(|row: (Seq<char>, u64)| summary_item(row)),
            "、"@,
        )
    }
}

/// The error summary of a stop.
pub fn error_summary(panel: &Vec<ErrorCount>) -> (r: String)
    ensures
        r@ == summary_text(rows(panel@)),
{
    if panel.len() == 0 {
        let mut r = String::new();
        push_str(&mut r, "无");
        return r;
    }
    let ghost shown = rows(panel@).take(
        if panel@.len() < SUMMARY_ROWS {
            panel@.len() as int
        } else {
            SUMMARY_ROWS as int
        },
    ).map_values(|row: (Seq<char>, u64)| summary_item(row));
    let mut items: Vec<String> = Vec::new();
    let mut i: usize = 0;
    while i < panel.len() && i < SUMMARY_ROWS
        invariant
            i <= panel@.len(),
            i <= SUMMARY_ROWS,
            items@.len() == i,
            forall|j: int| 0 <= j < i ==> #[trigger] items@[j]@ == summary_item(row(panel@[j])),
        decreases panel.len() - i,
    {
        let mut item = String::new();
        push_str(&mut item, panel[i].code.as_str());
        push_char(&mut item, '×');
        push_decimal(&mut item, panel[i].count);
        items.push(item);
        i = i + 1;
    }
    assert(views(items@) =~= shown);
    join(&items, "、")
}

} // verus!
