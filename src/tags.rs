//! Tag normalisation: comma splitting, trimming, ordering and deduplication.
use vstd::prelude::*;
use crate::text::{trim, trim_str};

verus! {

/// The comma-separated fields of `s`, in order; there is always at least one.
pub open spec fn fields(s: Seq<char>) -> Seq<Seq<char>>
    decreases s.len(),
{
    if s.len() == 0 {
        seq![Seq::<char>::empty()]
    } else {
        let p = fields(s.drop_last());
        if s.last() == ',' {
            p.push(Seq::<char>::empty())
        } else {
            p.update(p.len() - 1, p.last().push(s.last()))
        }
    }
}

/// The trimmed fields that are left non-empty, in order.
pub open spec fn kept(fs: Seq<Seq<char>>) -> Seq<Seq<char>>
    decreases fs.len(),
{
    if fs.len() == 0 {
        Seq::empty()
    } else {
        let r = kept(fs.drop_last());
        if trim(fs.last()).len() > 0 {
            r.push(trim(fs.last()))
        } else {
            r
        }
    }
}

/// Every tag piece given by a list of raw tag strings, in input order, repeats included.
pub open spec fn all_pieces(tags: Seq<Seq<char>>) -> Seq<Seq<char>>
    decreases tags.len(),
{
    if tags.len() == 0 {
        Seq::empty()
    } else {
        all_pieces(tags.drop_last()) + kept(fields(tags.last()))
    }
}

/// The texts of a sequence of strings.
pub open spec fn strs(v: Seq<String>) -> Seq<Seq<char>> {
    v.map_values(|s: String| s@)
}

/// Strict lexicographic order by code point, the order of `String`'s `Ord`.
pub open spec fn text_lt(a: Seq<char>, b: Seq<char>) -> bool
    decreases a.len(),
{
    if a.len() == 0 {
        b.len() > 0
    } else if b.len() == 0 {
        false
    } else if a[0] != b[0] {
        a[0] < b[0]
    } else {
        text_lt(a.drop_first(), b.drop_first())
    }
}

/// Sorted ascending with no element repeated.
pub open spec fn strictly_sorted(s: Seq<Seq<char>>) -> bool {
    forall|i: int, j: int| 0 <= i < j < s.len() ==> text_lt(#[trigger] s[i], #[trigger] s[j])
}

/// What a normalised tag list is: exactly the pieces, each once, in order.
pub open spec fn is_normalized_of(r: Seq<Seq<char>>, tags: Seq<Seq<char>>) -> bool {
    &&& strictly_sorted(r)
    &&& r.to_set() == all_pieces(tags).to_set()
}

pub proof fn lemma_text_lt_total(a: Seq<char>, b: Seq<char>)
    ensures
        a == b || text_lt(a, b) || text_lt(b, a),
    decreases a.len(),
{
    if a.len() > 0 && b.len() > 0 && a[0] == b[0] {
        lemma_text_lt_total(a.drop_first(), b.drop_first());
        if a.drop_first() == b.drop_first() {
            assert(a == seq![a[0]] + a.drop_first());
            assert(b == seq![b[0]] + b.drop_first());
        }
    } else if a.len() == 0 && b.len() == 0 {
        assert(a == b);
    } else if a.len() > 0 && b.len() > 0 {
        assert(a[0] != b[0]);
    }
}

pub proof fn lemma_text_lt_transitive(a: Seq<char>, b: Seq<char>, c: Seq<char>)
    requires
        text_lt(a, b),
        text_lt(b, c),
    ensures
        text_lt(a, c),
    decreases a.len(),
{
    if a.len() > 0 && b.len() > 0 && c.len() > 0 && a[0] == b[0] && b[0] == c[0] {
        lemma_text_lt_transitive(a.drop_first(), b.drop_first(), c.drop_first());
    }
}

proof fn lemma_to_set_push(s: Seq<Seq<char>>, t: Seq<char>)
    ensures
        s.push(t).to_set() == s.to_set().insert(t),
{
    assert forall|x: Seq<char>| s.push(t).contains(x) <==> s.to_set().insert(t).contains(x) by {
        if s.push(t).contains(x) {
            let k = choose|k: int| 0 <= k < s.push(t).len() && s.push(t)[k] == x;
            if k < s.len() {
                assert(s[k] == x);
            }
        }
        if s.contains(x) {
            let k = choose|k: int| 0 <= k < s.len() && s[k] == x;
            assert(s.push(t)[k] == x);
        }
        assert(s.push(t)[s.len() as int] == t);
    }
    assert(s.push(t).to_set() =~= s.to_set().insert(t));
}

/// Code-point lexicographic comparison of two strings.
pub fn str_lt(a: &str, b: &str) -> (r: bool)
    ensures
        r == text_lt(a@, b@),
{
    let n = a.unicode_len();
    let m = b.unicode_len();
    let mut k: usize = 0;
    assert(a@.subrange(0, n as int) == a@);
    assert(b@.subrange(0, m as int) == b@);
    while k < n && k < m
        invariant
            k <= n,
            k <= m,
            n == a@.len(),
            m == b@.len(),
            text_lt(a@, b@) == text_lt(a@.subrange(k as int, n as int), b@.subrange(k as int, m as int)),
        decreases n - k,
    {
        let x = a.get_char(k);
        let y = b.get_char(k);
        let ghost sa = a@.subrange(k as int, n as int);
        let ghost sb = b@.subrange(k as int, m as int);
        assert(sa[0] == x && sb[0] == y);
        if x != y {
            return x < y;
        }
        assert(sa.drop_first() == a@.subrange(k + 1, n as int));
        assert(sb.drop_first() == b@.subrange(k + 1, m as int));
        k = k + 1;
    }
    k < m
}

/// Puts `t` into its place in a strictly sorted list, unless it is there already.
fn insert_sorted(out: &mut Vec<String>, t: String)
    requires
        strictly_sorted(strs(old(out)@)),
    ensures
        strictly_sorted(strs(final(out)@)),
        strs(final(out)@).to_set() == strs(old(out)@).to_set().insert(t@),
        forall|x: Seq<char>| strs(final(out)@).contains(x) ==> x == t@ || strs(old(out)@).contains(x),
{
    let ghost before = strs(out@);
    let mut i: usize = 0;
    while i < out.len() && str_lt(out[i].as_str(), t.as_str())
        invariant
            i <= out.len(),
            out@ == old(out)@,
            forall|k: int| 0 <= k < i ==> text_lt(#[trigger] strs(out@)[k], t@),
        decreases out.len() - i,
    {
        i = i + 1;
    }
    if i < out.len() && out[i] == t {
        assert(strs(out@)[i as int] == t@);
        assert(strs(out@).to_set().insert(t@) =~= strs(out@).to_set());
        return;
    }
    proof {
        if i < out.len() {
            lemma_text_lt_total(strs(out@)[i as int], t@);
        }
    }
    out.insert(i, t);
    proof {
        let after = strs(out@);
        assert(after == before.subrange(0, i as int).push(t@) + before.subrange(i as int, before.len() as int));
        assert forall|a: int, b: int| 0 <= a < b < after.len() implies text_lt(#[trigger] after[a], #[trigger] after[b]) by {
            if b < i {
            } else if a < i && b == i {
            } else if a < i && b > i {
                assert(after[a] == before[a] && after[b] == before[b - 1]);
            } else if a == i {
                assert(after[b] == before[b - 1]);
                if b - 1 > i {
                    lemma_text_lt_transitive(t@, before[i as int], before[b - 1]);
                }
            } else {
                assert(after[a] == before[a - 1] && after[b] == before[b - 1]);
            }
        }
        assert forall|x: Seq<char>| after.contains(x) <==> before.to_set().insert(t@).contains(x) by {
            if after.contains(x) {
                let k = choose|k: int| 0 <= k < after.len() && after[k] == x;
                if k < i {
                    assert(before[k] == x);
                } else if k > i {
                    assert(before[k - 1] == x);
                }
            }
            if before.contains(x) {
                let k = choose|k: int| 0 <= k < before.len() && before[k] == x;
                if k < i {
                    assert(after[k] == x);
                } else {
                    assert(after[k + 1] == x);
                }
            }
            assert(after[i as int] == t@);
        }
        assert(after.to_set() =~= before.to_set().insert(t@));
    }
}

/// Every element is a non-empty text.
pub open spec fn all_non_empty(s: Seq<Seq<char>>) -> bool {
    forall|i: int| 0 <= i < s.len() ==> (#[trigger] s[i]).len() > 0
}

proof fn lemma_kept_push(prefix: Seq<Seq<char>>, done: Seq<Seq<char>>, f: Seq<char>)
    ensures
        (prefix + kept(done.push(f))).to_set() == (if trim(f).len() > 0 {
            (prefix + kept(done)).to_set().insert(trim(f))
        } else {
            (prefix + kept(done)).to_set()
        }),
{
    assert(done.push(f).drop_last() == done);
    if trim(f).len() > 0 {
        assert(prefix + kept(done).push(trim(f)) == (prefix + kept(done)).push(trim(f)));
        lemma_to_set_push(prefix + kept(done), trim(f));
    }
}

proof fn lemma_fields_step(s: Seq<char>, done: Seq<Seq<char>>, start: int, pos: int)
    requires
        0 <= start <= pos < s.len(),
        fields(s.subrange(0, pos)) == done.push(s.subrange(start, pos)),
    ensures
        s[pos] == ',' ==> fields(s.subrange(0, pos + 1)) == done.push(s.subrange(start, pos)).push(
            s.subrange(pos + 1, pos + 1),
        ),
        s[pos] != ',' ==> fields(s.subrange(0, pos + 1)) == done.push(s.subrange(start, pos + 1)),
{
    let sp = s.subrange(0, pos + 1);
    assert(sp.drop_last() == s.subrange(0, pos));
    assert(sp.last() == s[pos]);
    assert(s.subrange(pos + 1, pos + 1) == Seq::<char>::empty());
    assert(s.subrange(start, pos).push(s[pos]) == s.subrange(start, pos + 1));
    let p = done.push(s.subrange(start, pos));
    assert(p.update(p.len() - 1, p.last().push(s[pos])) == done.push(s.subrange(start, pos + 1)));
}

/// Adds the trimmed field to the sorted list where it is non-empty.
fn add_field(out: &mut Vec<String>, field: &str)
    requires
        strictly_sorted(strs(old(out)@)),
        all_non_empty(strs(old(out)@)),
    ensures
        strictly_sorted(strs(final(out)@)),
        all_non_empty(strs(final(out)@)),
        strs(final(out)@).to_set() == (if trim(field@).len() > 0 {
            strs(old(out)@).to_set().insert(trim(field@))
        } else {
            strs(old(out)@).to_set()
        }),
{
    let t = trim_str(field);
    if t.as_str().unicode_len() > 0 {
        insert_sorted(out, t);
        assert forall|i: int| 0 <= i < strs(out@).len() implies (#[trigger] strs(out@)[i]).len() > 0 by {
            assert(strs(out@).contains(strs(out@)[i]));
            if strs(old(out)@).contains(strs(out@)[i]) {
                let k = choose|k: int| 0 <= k < strs(old(out)@).len() && strs(old(out)@)[k] == strs(out@)[i];
            }
        }
    }
}

/// Splits each tag on commas, trims the pieces, drops the empty ones, and returns
/// the rest sorted ascending without repeats.
pub fn normalize_tags(tags: Vec<String>) -> (r: Vec<String>)
    ensures
        is_normalized_of(strs(r@), strs(tags@)),
        all_non_empty(strs(r@)),
{
    let mut out: Vec<String> = Vec::new();
    let ghost views = strs(tags@);
    let mut ti: usize = 0;
    assert(views.subrange(0, 0) == Seq::<Seq<char>>::empty());
    assert(strs(out@).to_set() == Set::<Seq<char>>::empty());
    while ti < tags.len()
        invariant
            ti <= tags.len(),
            views == strs(tags@),
            strictly_sorted(strs(out@)),
            all_non_empty(strs(out@)),
            strs(out@).to_set() == all_pieces(views.subrange(0, ti as int)).to_set(),
        decreases tags.len() - ti,
    {
        let s = tags[ti].as_str();
        let n = s.unicode_len();
        let mut start: usize = 0;
        let mut pos: usize = 0;
        let ghost prefix = all_pieces(views.subrange(0, ti as int));
        let ghost mut done: Seq<Seq<char>> = Seq::empty();
        assert(s@.subrange(0, 0) == Seq::<char>::empty());
        assert(prefix + kept(done) == prefix);
        while pos < n
            invariant
                start <= pos <= n,
                n == s@.len(),
                fields(s@.subrange(0, pos as int)) == done.push(s@.subrange(start as int, pos as int)),
                strictly_sorted(strs(out@)),
                all_non_empty(strs(out@)),
                strs(out@).to_set() == (prefix + kept(done)).to_set(),
            decreases n - pos,
        {
            proof {
                lemma_fields_step(s@, done, start as int, pos as int);
            }
            if s.get_char(pos) == ',' {
                let field = s.substring_char(start, pos);
                add_field(&mut out, field);
                proof {
                    lemma_kept_push(prefix, done, field@);
                    done = done.push(field@);
                }
                start = pos + 1;
            }
            pos = pos + 1;
        }
        let field = s.substring_char(start, n);
        add_field(&mut out, field);
        proof {
            lemma_kept_push(prefix, done, field@);
            assert(s@.subrange(0, n as int) == s@);
            let next = views.subrange(0, ti + 1);
            assert(next.drop_last() == views.subrange(0, ti as int));
            assert(next.last() == s@);
        }
        ti = ti + 1;
    }
    assert(views.subrange(0, tags@.len() as int) == views);
    out
}

} // verus!
