//! Operations on a text given as its grapheme clusters.

use crate::classify::{
    cluster_at, find_among, first_from, last_from, lemma_overlay_done, lemma_overlay_found, mark,
    occurs_at, overlay,
};
use crate::highlighting::{color_of, fg_color, fg_reset, fg_reset_sequence, fg_sequence, Type};
use crate::text::{clusters_view, lemma_flatten_extend, push_char, push_clusters, push_str};
use vstd::prelude::*;

verus! {

/// The text of clusters `g` with `c` put before cluster `at`, or after the
/// last one.
pub open spec fn spliced(g: Seq<Seq<char>>, at: int, c: char) -> Seq<char> {
    if at >= g.len() {
        g.flatten().push(c)
    } else {
        g.take(at).flatten().push(c) + g.skip(at).flatten()
    }
}

/// The text of clusters `g` without cluster `at`; all of it when there is
/// none.
pub open spec fn removed(g: Seq<Seq<char>>, at: int) -> Seq<char> {
    if at >= g.len() {
        g.flatten()
    } else {
        g.take(at).flatten() + g.skip(at + 1).flatten()
    }
}

/// The text of the clusters before `at`.
pub open spec fn head_of(g: Seq<Seq<char>>, at: int) -> Seq<char> {
    if at >= g.len() {
        g.flatten()
    } else {
        g.take(at).flatten()
    }
}

/// The text of the clusters from `at` on.
pub open spec fn tail_of(g: Seq<Seq<char>>, at: int) -> Seq<char> {
    if at >= g.len() {
        Seq::empty()
    } else {
        g.skip(at).flatten()
    }
}

/// An optional index as a mathematical integer.
pub open spec fn as_int(o: Option<usize>) -> Option<int> {
    match o {
        Some(x) => Some(x as int),
        None => None,
    }
}

/// `o` moved up by `d`.
pub open spec fn shift(o: Option<int>, d: int) -> Option<int> {
    match o {
        Some(x) => Some(x + d),
        None => None,
    }
}

/// The characters of clusters `from..to` of `g`, one after another.
fn concat_clusters(g: &Vec<Vec<char>>, from: usize, to: usize) -> (r: Vec<char>)
    requires
        from <= to <= g@.len(),
    ensures
        r@ == clusters_view(g@).subrange(from as int, to as int).flatten(),
{
    let ghost gv = clusters_view(g@);
    let mut out: Vec<char> = Vec::new();
    let mut i: usize = from;
    assert(gv.subrange(from as int, from as int) =~= Seq::<Seq<char>>::empty());
    while i < to
        invariant
            from <= i <= to <= g@.len(),
            gv == clusters_view(g@),
            out@ == gv.subrange(from as int, i as int).flatten(),
        decreases to - i,
    {
        let cs = &g[i];
        let ghost before = out@;
        let mut j: usize = 0;
        while j < cs.len()
            invariant
                j <= cs@.len(),
                out@ == before + cs@.take(j as int),
            decreases cs@.len() - j,
        {
            out.push(cs[j]);
            j += 1;
            assert(out@ =~= before + cs@.take(j as int));
        }
        assert(cs@.take(j as int) =~= cs@);
        proof {
            lemma_flatten_extend(gv, from as int, i as int);
        }
        i += 1;
    }
    out
}

/// Whether `q` occurs in `w` at offset `p`.
pub(crate) fn occurs(w: &Vec<char>, q: &Vec<char>, p: usize) -> (r: bool)
    requires
        p + q@.len() <= w@.len(),
    ensures
        r == occurs_at(w@, q@, p as int),
{
    let n = w.len();
    let mut j: usize = 0;
    while j < q.len()
        invariant
            n == w@.len(),
            j <= q@.len(),
            p + q@.len() <= w@.len(),
            forall|t: int| 0 <= t < j ==> w@[p + t] == q@[t],
        decreases q@.len() - j,
    {
        if w[p + j] != q[j] {
            assert(w@.subrange(p as int, p + q@.len())[j as int] != q@[j as int]);
            return false;
        }
        j += 1;
    }
    assert(w@.subrange(p as int, p + q@.len()) =~= q@);
    true
}

/// The first offset at which `q` occurs in `w`.
fn first_occurrence(w: &Vec<char>, q: &Vec<char>) -> (r: Option<usize>)
    requires
        q@.len() > 0,
    ensures
        as_int(r) == first_from(w@, q@, 0),
{
    let mut p: usize = 0;
    while p <= w.len() && q.len() <= w.len() - p
        invariant
            q@.len() > 0,
            first_from(w@, q@, 0) == first_from(w@, q@, p as int),
        decreases w@.len() + 1 - p,
    {
        if occurs(w, q, p) {
            return Some(p);
        }
        p += 1;
    }
    None
}

/// The last offset at which `q` occurs in `w`.
fn last_occurrence(w: &Vec<char>, q: &Vec<char>) -> (r: Option<usize>)
    ensures
        as_int(r) == last_from(w@, q@, w@.len() - q@.len()),
{
    if q.len() > w.len() {
        return None;
    }
    let mut p: usize = w.len() - q.len();
    loop
        invariant
            p + q@.len() <= w@.len(),
            last_from(w@, q@, w@.len() - q@.len()) == last_from(w@, q@, p as int),
        decreases p,
    {
        if occurs(w, q, p) {
            return Some(p);
        }
        if p == 0 {
            assert(last_from(w@, q@, -1) == None::<int>);
            return None;
        }
        p -= 1;
    }
}

/// The index, among clusters `start..end` of `g`, of the cluster that starts
/// at character offset `p` of their concatenation.
fn cluster_index(g: &Vec<Vec<char>>, start: usize, end: usize, p: usize) -> (r: Option<usize>)
    requires
        start <= end <= g@.len(),
    ensures
        as_int(r) == cluster_at(clusters_view(g@).subrange(start as int, end as int), p as int),
        r matches Some(k) ==> start + k < end,
{
    let ghost gv = clusters_view(g@);
    let ghost gw = gv.subrange(start as int, end as int);
    let mut k: usize = start;
    let mut rest: usize = p;
    while k < end
        invariant
            start <= k <= end <= g@.len(),
            gv == clusters_view(g@),
            gw == gv.subrange(start as int, end as int),
            cluster_at(gw, p as int) == shift(
                cluster_at(gv.subrange(k as int, end as int), rest as int),
                k - start,
            ),
        decreases end - k,
    {
        assert(gv.subrange(k as int, end as int)[0] == g@[k as int]@);
        if rest == 0 {
            return Some(k - start);
        }
        if rest < g[k].len() {
            return None;
        }
        assert(gv.subrange(k as int, end as int).drop_first() =~= gv.subrange(k + 1, end as int));
        rest -= g[k].len();
        k += 1;
    }
    None
}

/// The class shown for cluster `i`: the entry at the same index of the
/// highlighting, or `Normal` past its end.
pub open spec fn shown_type(h: Seq<Type>, i: int) -> Type {
    if 0 <= i < h.len() {
        h[i]
    } else {
        Type::Normal
    }
}

/// How a cluster is shown: its first character, with a tab as a space.
pub open spec fn shown_char(c: char) -> char {
    if c == '\t' {
        ' '
    } else {
        c
    }
}

/// The display of clusters `i..end` of `g` when the colour in force is that
/// of `cur`: a colour change wherever the class changes, then the character.
pub open spec fn render_from(g: Seq<Seq<char>>, h: Seq<Type>, i: int, end: int, cur: Type) -> Seq<
    char,
>
    decreases end - i,
{
    if i < 0 || i >= end || i >= g.len() {
        Seq::empty()
    } else if g[i].len() == 0 {
        render_from(g, h, i + 1, end, cur)
    } else {
        let t = shown_type(h, i);
        let change = if t != cur {
            fg_sequence(color_of(t))
        } else {
            Seq::empty()
        };
        change.push(shown_char(g[i][0])) + render_from(g, h, i + 1, end, t)
    }
}

/// The display of clusters `start..end` of `g`, clipped to `g`, with the
/// default colour set first and reset last.
pub open spec fn render_among(g: Seq<Seq<char>>, h: Seq<Type>, start: int, end: int) -> Seq<char> {
    let e = if end < g.len() {
        end
    } else {
        g.len() as int
    };
    let s = if start < e {
        start
    } else {
        e
    };
    fg_sequence(color_of(Type::Normal)) + render_from(g, h, s, e, Type::Normal) + fg_reset_sequence()
}


/// Where `q` is found among the clusters `g` from cluster `at`: forward
/// among clusters `at..`, the first occurrence; backward among clusters
/// `..at`, the last. The index returned is that of the cluster where it
/// starts.
pub fn find_in_clusters(g: &Vec<Vec<char>>, q: &Vec<char>, at: usize, forward: bool) -> (r: Option<
    usize,
>)
    ensures
        as_int(r) == find_among(clusters_view(g@), q@, at as int, forward),
        r matches Some(k) ==> k < g@.len() && (forward ==> at <= k),
{
    if at > g.len() || q.len() == 0 {
        return None;
    }
    let start = if forward {
        at
    } else {
        0
    };
    let end = if forward {
        g.len()
    } else {
        at
    };
    let w = concat_clusters(g, start, end);
    let p = if forward {
        first_occurrence(&w, q)
    } else {
        last_occurrence(&w, q)
    };
    match p {
        Some(p) => match cluster_index(g, start, end, p) {
            Some(k) => Some(start + k),
            None => None,
        },
        None => None,
    }
}

/// The text of the clusters `g` with `c` put before cluster `at`.
pub fn splice(g: &Vec<Vec<char>>, at: usize, c: char) -> (r: String)
    ensures
        r@ == spliced(clusters_view(g@), at as int, c),
{
    let ghost gv = clusters_view(g@);
    let k = if at < g.len() {
        at
    } else {
        g.len()
    };
    let mut result = String::new();
    push_clusters(&mut result, g, 0, k);
    push_char(&mut result, c);
    push_clusters(&mut result, g, k, g.len());
    assert(gv.subrange(0, k as int) =~= gv.take(k as int));
    assert(gv.subrange(k as int, gv.len() as int) =~= gv.skip(k as int));
    assert(gv.take(gv.len() as int) =~= gv);
    assert(gv.skip(gv.len() as int) =~= Seq::<Seq<char>>::empty());
    result
}

/// The text of the clusters `g` without cluster `at`.
pub fn remove_cluster(g: &Vec<Vec<char>>, at: usize) -> (r: String)
    ensures
        r@ == removed(clusters_view(g@), at as int),
{
    let ghost gv = clusters_view(g@);
    let mut result = String::new();
    if at >= g.len() {
        push_clusters(&mut result, g, 0, g.len());
        assert(gv.subrange(0, gv.len() as int) =~= gv);
        return result;
    }
    push_clusters(&mut result, g, 0, at);
    push_clusters(&mut result, g, at + 1, g.len());
    assert(gv.subrange(0, at as int) =~= gv.take(at as int));
    assert(gv.subrange(at + 1, gv.len() as int) =~= gv.skip(at + 1));
    result
}

/// The texts of the clusters `g` before and from cluster `at`.
pub fn split_at_cluster(g: &Vec<Vec<char>>, at: usize) -> (r: (String, String))
    ensures
        r.0@ == head_of(clusters_view(g@), at as int),
        r.1@ == tail_of(clusters_view(g@), at as int),
{
    let ghost gv = clusters_view(g@);
    let k = if at < g.len() {
        at
    } else {
        g.len()
    };
    let mut head = String::new();
    push_clusters(&mut head, g, 0, k);
    let mut tail = String::new();
    push_clusters(&mut tail, g, k, g.len());
    assert(gv.subrange(0, k as int) =~= gv.take(k as int));
    assert(gv.subrange(k as int, gv.len() as int) =~= gv.skip(k as int));
    assert(gv.take(gv.len() as int) =~= gv);
    assert(gv.skip(gv.len() as int) =~= Seq::<Seq<char>>::empty());
    (head, tail)
}

/// Clusters `start..end` of `g`, clipped to `g`, ready for a terminal: a
/// colour change wherever the class in `h` changes, tabs shown as spaces,
/// and the colour reset at the end. Cluster `i` takes the class at index `i`
/// of `h`.
pub fn render_clusters(g: &Vec<Vec<char>>, h: &Vec<Type>, start: usize, end: usize) -> (r: String)
    ensures
        r@ == render_among(clusters_view(g@), h@, start as int, end as int),
{
    let e = if end < g.len() {
        end
    } else {
        g.len()
    };
    let s = if start < e {
        start
    } else {
        e
    };
    let ghost gv = clusters_view(g@);
    let mut result = String::new();
    let mut cur = Type::Normal;
    let first = fg_color(cur.to_color());
    push_str(&mut result, first.as_str());
    let ghost total = result@ + render_from(gv, h@, s as int, e as int, Type::Normal);
    let mut i = s;
    while i < e
        invariant
            s <= i <= e <= g@.len(),
            gv == clusters_view(g@),
            result@ + render_from(gv, h@, i as int, e as int, cur) == total,
        decreases e - i,
    {
        let ghost before = result@;
        let ghost cur0 = cur;
        let cluster = &g[i];
        if cluster.len() > 0 {
            let t = if i < h.len() {
                h[i]
            } else {
                Type::Normal
            };
            if t != cur {
                cur = t;
                let change = fg_color(t.to_color());
                push_str(&mut result, change.as_str());
            }
            let c = cluster[0];
            push_char(&mut result, if c == '\t' {
                ' '
            } else {
                c
            });
            assert(before + render_from(gv, h@, i as int, e as int, cur0) =~= result@ + render_from(
                gv,
                h@,
                i + 1,
                e as int,
                cur,
            ));
        }
        i += 1;
    }
    assert(result@ + render_from(gv, h@, i as int, e as int, cur) =~= result@);
    push_str(&mut result, fg_reset());
    result
}

/// Marks as `Match`, over `m` entries of `h` each, every occurrence of `q`
/// found forward from the first of the clusters `g`.
pub fn mark_matches(h: &mut Vec<Type>, g: &Vec<Vec<char>>, q: &Vec<char>, m: usize)
    ensures
        final(h)@ == overlay(old(h)@, clusters_view(g@), q@, 0, m as int),
{
    if m == 0 {
        return;
    }
    let ghost gv = clusters_view(g@);
    let ghost h0 = h@;
    let mut search_index: usize = 0;
    loop
        invariant
            gv == clusters_view(g@),
            m > 0,
            h0 == old(h)@,
            overlay(h0, gv, q@, 0, m as int) == overlay(h@, gv, q@, search_index as int, m as int),
        ensures
            overlay(h0, gv, q@, 0, m as int) == h@,
        decreases (if search_index <= g@.len() {
            g@.len() + 1 - search_index
        } else {
            0
        }),
    {
        match find_in_clusters(g, q, search_index, true) {
            Some(k) => {
                match k.checked_add(m) {
                    Some(next) => {
                        proof {
                            lemma_overlay_found(h@, gv, q@, search_index as int, m as int, k as int);
                        }
                        let ghost hb = h@;
                        let stop = if next < h.len() {
                            next
                        } else {
                            h.len()
                        };
                        let mut i: usize = k;
                        while i < stop
                            invariant
                                k <= i,
                                i == k || i <= stop,
                                k < next,
                                stop as int == (if next < hb.len() {
                                    next as int
                                } else {
                                    hb.len() as int
                                }),
                                h@ == mark(hb, k as int, i as int),
                            decreases stop - i,
                        {
                            h.set(i, Type::Match);
                            i += 1;
                            assert(h@ =~= mark(hb, k as int, i as int));
                        }
                        assert(h@ =~= mark(hb, k as int, next as int));
                        search_index = next;
                    },
                    None => {
                        proof {
                            lemma_overlay_done(h@, gv, q@, search_index as int, m as int);
                        }
                        break ;
                    },
                }
            },
            None => {
                proof {
                    lemma_overlay_done(h@, gv, q@, search_index as int, m as int);
                }
                break ;
            },
        }
    }
}

} // verus!
