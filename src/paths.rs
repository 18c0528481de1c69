//! Splitting of a colon-separated path list.
use vstd::prelude::*;

verus! {

broadcast use vstd::seq_lib::group_seq_properties;

/// The segments of `s` delimited by `:`, in order, empty ones included.
/// A string with `n` colons has `n + 1` segments.
pub open spec fn segments(s: Seq<char>) -> Seq<Seq<char>>
    decreases s.len(),
{
    if s.len() == 0 {
        seq![Seq::empty()]
    } else {
        let init = segments(s.drop_last());
        if s.last() == ':' {
            init.push(Seq::empty())
        } else {
            init.update(init.len() - 1, init.last().push(s.last()))
        }
    }
}

/// Whether a segment names a path, that is, is not empty.
pub open spec fn is_path(seg: Seq<char>) -> bool {
    seg.len() > 0
}

/// The paths of a colon-separated list: its segments, empty ones dropped.
pub open spec fn path_list(s: Seq<char>) -> Seq<Seq<char>> {
    segments(s).filter(|seg: Seq<char>| is_path(seg))
}

/// The first path of a list, if there is one.
pub open spec fn primary_of(list: Seq<Seq<char>>) -> Option<Seq<char>> {
    if list.len() > 0 {
        Some(list[0])
    } else {
        None
    }
}

/// Every string has at least one segment.
pub proof fn lemma_segments_nonempty(s: Seq<char>)
    ensures
        segments(s).len() >= 1,
    decreases s.len(),
{
    if s.len() > 0 {
        lemma_segments_nonempty(s.drop_last());
    }
}

/// A string without a colon is a single segment.
pub proof fn lemma_segments_no_colon(s: Seq<char>)
    requires
        !s.contains(':'),
    ensures
        segments(s) == seq![s],
    decreases s.len(),
{
    if s.len() > 0 {
        let init = s.drop_last();
        assert(!init.contains(':')) by {
            if init.contains(':') {
                let k = choose|k: int| 0 <= k < init.len() && init[k] == ':';
                assert(s[k] == ':');
            }
        }
        lemma_segments_no_colon(init);
        assert(s.last() != ':') by {
            assert(s[s.len() - 1] == s.last());
        }
        assert(init.push(s.last()) =~= s);
        assert(segments(s) =~= seq![s]);
    }
}

/// No segment holds a colon.
pub proof fn lemma_segments_colon_free(s: Seq<char>)
    ensures
        forall|k: int| 0 <= k < segments(s).len() ==> !(#[trigger] segments(s)[k]).contains(':'),
    decreases s.len(),
{
    if s.len() > 0 {
        let init = segments(s.drop_last());
        lemma_segments_colon_free(s.drop_last());
        lemma_segments_nonempty(s.drop_last());
        if s.last() != ':' {
            let last = init.last().push(s.last());
            assert(!last.contains(':')) by {
                if last.contains(':') {
                    let m = choose|m: int| 0 <= m < last.len() && last[m] == ':';
                    assert(init.last()[m] == ':');
                    assert(init[init.len() - 1].contains(':'));
                }
            }
        }
    }
}

/// Every entry of a split list is a non-empty path without a colon.
pub proof fn lemma_path_list_entries(s: Seq<char>)
    ensures
        forall|k: int|
            0 <= k < path_list(s).len() ==> (#[trigger] path_list(s)[k]).len() > 0 && !path_list(
                s,
            )[k].contains(':'),
{
    lemma_segments_colon_free(s);
    assert forall|k: int| 0 <= k < path_list(s).len() implies (#[trigger] path_list(s)[k]).len()
        > 0 && !path_list(s)[k].contains(':') by {
        segments(s).lemma_filter_pred(|seg: Seq<char>| is_path(seg), k);
        assert(path_list(s).contains(path_list(s)[k]));
        segments(s).lemma_filter_contains_rev(|seg: Seq<char>| is_path(seg), path_list(s)[k]);
        let m = choose|m: int| 0 <= m < segments(s).len() && segments(s)[m] == path_list(s)[k];
        assert(!segments(s)[m].contains(':'));
    }
}

/// The empty string holds no path.
pub proof fn lemma_path_list_empty()
    ensures
        path_list(Seq::empty()) == Seq::<Seq<char>>::empty(),
{
    assert(segments(Seq::empty()) == seq![Seq::<char>::empty()]);
    reveal_with_fuel(Seq::filter, 2);
    assert(path_list(Seq::empty()) =~= Seq::<Seq<char>>::empty());
}

/// A colon-separated list held as text, split on demand.
pub struct ColonSeparatedPaths {
    paths: String,
}

impl View for ColonSeparatedPaths {
    type V = Seq<char>;

    closed spec fn view(&self) -> Seq<char> {
        self.paths@
    }
}

impl ColonSeparatedPaths {
    /// Holds `paths` as the list's text.
    pub fn new(paths: String) -> (r: Self)
        ensures
            r@ == paths@,
    {
        ColonSeparatedPaths { paths }
    }

    /// The paths of the list, in order of appearance, empty segments dropped.
    pub fn iter(&self) -> (r: Vec<String>)
        ensures
            r@.map_values(|p: String| p@) == path_list(self@),
    {
        let s: &str = self.paths.as_str();
        let n: usize = s.unicode_len();
        let mut out: Vec<String> = Vec::new();
        let mut start: usize = 0;
        let mut i: usize = 0;
        proof {
            lemma_segments_nonempty(s@.take(0));
            assert(s@.take(0) =~= Seq::<char>::empty());
            assert(out@.map_values(|p: String| p@) =~= segments(s@.take(0)).drop_last().filter(
                |seg: Seq<char>| is_path(seg),
            ));
        }
        while i < n
            invariant
                n == s@.len(),
                s@ == self@,
                start <= i <= n,
                segments(s@.take(i as int)).len() >= 1,
                segments(s@.take(i as int)).last() == s@.subrange(start as int, i as int),
                out@.map_values(|p: String| p@) == segments(s@.take(i as int)).drop_last().filter(
                    |seg: Seq<char>| is_path(seg),
                ),
            decreases n - i,
        {
            let c = s.get_char(i);
            let ghost prev = segments(s@.take(i as int));
            let ghost next = segments(s@.take(i + 1));
            proof {
                assert(s@.take(i + 1).drop_last() =~= s@.take(i as int));
                assert(s@.take(i + 1).last() == c);
                prev.drop_last().lemma_filter_push(prev.last(), |seg: Seq<char>| is_path(seg));
                assert(prev =~= prev.drop_last().push(prev.last()));
            }
            if c == ':' {
                let ghost before = out@.map_values(|p: String| p@);
                if start < i {
                    let seg = s.substring_char(start, i).to_owned();
                    out.push(seg);
                    assert(out@.map_values(|p: String| p@) =~= before.push(prev.last()));
                } else {
                    assert(prev.last().len() == 0);
                }
                start = i + 1;
                proof {
                    assert(next == prev.push(Seq::empty()));
                    assert(next.drop_last() =~= prev);
                    assert(s@.subrange(start as int, i + 1) =~= Seq::<char>::empty());
                    assert(out@.map_values(|p: String| p@) =~= next.drop_last().filter(
                        |seg: Seq<char>| is_path(seg),
                    ));
                }
            } else {
                proof {
                    assert(next.drop_last() =~= prev.drop_last());
                    assert(s@.subrange(start as int, i + 1) =~= s@.subrange(
                        start as int,
                        i as int,
                    ).push(c));
                }
            }
            i = i + 1;
        }
        let ghost all = segments(s@);
        proof {
            assert(s@.take(n as int) =~= s@);
            all.drop_last().lemma_filter_push(all.last(), |seg: Seq<char>| is_path(seg));
            assert(all =~= all.drop_last().push(all.last()));
        }
        if start < n {
            let seg = s.substring_char(start, n).to_owned();
            out.push(seg);
        }
        proof {
            assert(out@.map_values(|p: String| p@) =~= path_list(s@));
        }
        out
    }
}

} // verus!
