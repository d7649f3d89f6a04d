//! The playlist: the media files of a directory, sorted, with a cyclic cursor.

use vstd::prelude::*;
use vstd::string::*;
use crate::text::{eq_ignoring_case, extension, extension_of, file_name, file_name_of, same_ignoring_case};

verus! {

/// Whether `a` stands at or before `b` in the order of a dictionary, character codes
/// deciding.
pub open spec fn lex_le(a: Seq<char>, b: Seq<char>) -> bool
    decreases a.len(),
{
    if a.len() == 0 {
        true
    } else if b.len() == 0 {
        false
    } else if a[0] != b[0] {
        a[0] < b[0]
    } else {
        lex_le(a.drop_first(), b.drop_first())
    }
}

/// Whether each text of `s` stands at or before those behind it.
pub open spec fn sorted_texts(s: Seq<Seq<char>>) -> bool {
    forall|i: int, j: int| 0 <= i < j < s.len() ==> lex_le(s[i], s[j])
}

/// Of two texts one stands at or before the other.
pub proof fn lemma_lex_total(a: Seq<char>, b: Seq<char>)
    ensures
        lex_le(a, b) || lex_le(b, a),
    decreases a.len(),
{
    if a.len() > 0 && b.len() > 0 {
        if a[0] == b[0] {
            lemma_lex_total(a.drop_first(), b.drop_first());
        } else {
        }
    }
}

/// The order passes on: from `a` to `b` and from `b` to `c` gives from `a` to `c`.
pub proof fn lemma_lex_transitive(a: Seq<char>, b: Seq<char>, c: Seq<char>)
    requires
        lex_le(a, b),
        lex_le(b, c),
    ensures
        lex_le(a, c),
    decreases a.len(),
{
    if a.len() > 0 && b.len() > 0 && c.len() > 0 && a[0] == b[0] && b[0] == c[0] {
        lemma_lex_transitive(a.drop_first(), b.drop_first(), c.drop_first());
    }
}

/// Two texts that stand at or before each other are the same text.
pub proof fn lemma_lex_antisymmetric(a: Seq<char>, b: Seq<char>)
    requires
        lex_le(a, b),
        lex_le(b, a),
    ensures
        a == b,
    decreases a.len(),
{
    if a.len() > 0 && b.len() > 0 {
        lemma_lex_antisymmetric(a.drop_first(), b.drop_first());
        assert(a =~= seq![a[0]] + a.drop_first());
        assert(b =~= seq![b[0]] + b.drop_first());
    } else {
        assert(a =~= b);
    }
}

/// Two texts that agree on their first `k` characters are ordered as what follows.
pub proof fn lemma_lex_skip(a: Seq<char>, b: Seq<char>, k: int)
    requires
        0 <= k <= a.len(),
        k <= b.len(),
        forall|j: int| 0 <= j < k ==> a[j] == b[j],
    ensures
        lex_le(a, b) == lex_le(a.skip(k), b.skip(k)),
    decreases k,
{
    if k > 0 {
        lemma_lex_skip(a, b, k - 1);
        let x = a.skip(k - 1);
        let y = b.skip(k - 1);
        assert(x[0] == a[k - 1] && y[0] == b[k - 1]);
        assert(x.drop_first() =~= a.skip(k));
        assert(y.drop_first() =~= b.skip(k));
    } else {
        assert(a.skip(0) =~= a);
        assert(b.skip(0) =~= b);
    }
}

/// Whether `a` stands at or before `b` in the order of a dictionary.
pub fn text_le(a: &str, b: &str) -> (r: bool)
    ensures
        r == lex_le(a@, b@),
{
    let n = a.unicode_len();
    let m = b.unicode_len();
    let mut i: usize = 0;
    while i < n && i < m
        invariant
            n == a@.len(),
            m == b@.len(),
            i <= n,
            i <= m,
            forall|j: int| 0 <= j < i ==> a@[j] == b@[j],
        decreases n - i,
    {
        let x = a.get_char(i);
        let y = b.get_char(i);
        if x != y {
            proof {
                lemma_lex_skip(a@, b@, i as int);
            }
            return x < y;
        }
        i += 1;
    }
    proof {
        lemma_lex_skip(a@, b@, i as int);
    }
    i == n
}

/// Whether the path names a media file: its extension is MOV, MPEG or MP4, in upper or
/// lower case.
pub open spec fn is_media(path: Seq<char>) -> bool {
    let ext = extension_of(file_name_of(path));
    same_ignoring_case(ext, "MOV"@) || same_ignoring_case(ext, "MPEG"@) || same_ignoring_case(
        ext,
        "MP4"@,
    )
}

/// Whether the path names a media file.
pub fn is_media_path(path: &str) -> (b: bool)
    ensures
        b == is_media(path@),
{
    let ext = extension(file_name(path));
    eq_ignoring_case(ext, "MOV") || eq_ignoring_case(ext, "MPEG") || eq_ignoring_case(ext, "MP4")
}

/// The media paths among `candidates`, in the order in which they stand there.
pub open spec fn media_among(candidates: Seq<Seq<char>>) -> Seq<Seq<char>> {
    candidates.filter(|p: Seq<char>| is_media(p))
}

/// What a playlist holds: the paths in playing order and the position of the current
/// one.
pub struct PlaylistView {
    pub paths: Seq<Seq<char>>,
    pub cursor: nat,
}

impl PlaylistView {
    /// The invariant of a playlist: it is not empty, sorted, and the cursor lies in it.
    pub open spec fn wf(self) -> bool {
        self.paths.len() > 0 && self.cursor < self.paths.len() && sorted_texts(self.paths)
    }

    /// The path under the cursor.
    pub open spec fn current(self) -> Seq<char> {
        self.paths[self.cursor as int]
    }

    /// The playlist with the cursor one step on, from the last path to the first.
    pub open spec fn advanced(self) -> PlaylistView {
        PlaylistView {
            paths: self.paths,
            cursor: if self.cursor + 1 == self.paths.len() {
                0
            } else {
                self.cursor + 1
            },
        }
    }

    /// The playlist with the cursor one step back, from the first path to the last.
    pub open spec fn receded(self) -> PlaylistView {
        PlaylistView {
            paths: self.paths,
            cursor: if self.cursor == 0 {
                (self.paths.len() - 1) as nat
            } else {
                (self.cursor - 1) as nat
            },
        }
    }

    /// The playlist after `n` steps back.
    pub open spec fn receded_times(self, n: nat) -> PlaylistView
        decreases n,
    {
        if n == 0 {
            self
        } else {
            self.receded().receded_times((n - 1) as nat)
        }
    }
}

/// A sorted, cyclic list of media paths with a cursor on the current one.
#[derive(Debug, Clone, PartialEq, Eq)]
pub struct MediaPlaylist {
    paths: Vec<String>,
    cursor: usize,
}

impl View for MediaPlaylist {
    type V = PlaylistView;

    closed spec fn view(&self) -> PlaylistView {
        PlaylistView { paths: self.paths.deep_view(), cursor: self.cursor as nat }
    }
}

/// Puts `path` into the sorted `paths`, behind the paths that stand at or before it.
pub fn insert_sorted(paths: &mut Vec<String>, path: String)
    requires
        sorted_texts(old(paths).deep_view()),
    ensures
        sorted_texts(final(paths).deep_view()),
        final(paths).deep_view().to_multiset() == old(paths).deep_view().to_multiset().insert(
            path@,
        ),
        final(paths)@.len() == old(paths)@.len() + 1,
{
    let ghost before = paths.deep_view();
    let mut k: usize = 0;
    while k < paths.len() && text_le(paths[k].as_str(), path.as_str())
        invariant
            k <= paths@.len(),
            paths.deep_view() == before,
            forall|i: int| 0 <= i < k ==> lex_le(before[i], path@),
        decreases paths@.len() - k,
    {
        k += 1;
    }
    paths.insert(k, path);
    proof {
        let after = paths.deep_view();
        assert(after =~= before.insert(k as int, path@));
        assert forall|i: int, j: int| 0 <= i < j < after.len() implies lex_le(
            after[i],
            after[j],
        ) by {
            if j < k {
                assert(after[i] == before[i] && after[j] == before[j]);
            } else if j == k {
                assert(after[i] == before[i]);
            } else if i < k {
                assert(after[i] == before[i] && after[j] == before[j - 1]);
            } else if i == k {
                lemma_lex_total(before[k as int], path@);
                if j - 1 > k {
                    lemma_lex_transitive(path@, before[k as int], before[j - 1]);
                }
                assert(after[j] == before[j - 1]);
            } else {
                assert(after[i] == before[i - 1] && after[j] == before[j - 1]);
            }
        }
        assert(after.remove(k as int) =~= before);
        vstd::seq_lib::to_multiset_remove(after, k as int);
        after.to_multiset_ensures();
        assert(after.contains(after[k as int]));
        assert(after.to_multiset() =~= before.to_multiset().insert(path@));
    }
}

impl MediaPlaylist {
    /// The invariant of the type.
    pub open spec fn wf(&self) -> bool {
        self@.wf()
    }

    /// The playlist of the media paths among `candidates`, sorted, with the cursor on the
    /// first. There is none where no candidate is a media path.
    pub fn new(candidates: &Vec<String>) -> (r: Option<MediaPlaylist>)
        ensures
            r is None <==> media_among(candidates.deep_view()).len() == 0,
            r matches Some(p) ==> p.wf() && p@.cursor == 0 && p@.paths.to_multiset()
                == media_among(candidates.deep_view()).to_multiset(),
    {
        let ghost all = candidates.deep_view();
        let mut paths: Vec<String> = Vec::new();
        let mut i: usize = 0;
        proof {
            reveal(Seq::filter);
            assert(all.take(0) =~= Seq::<Seq<char>>::empty());
            assert(paths.deep_view() =~= Seq::<Seq<char>>::empty());
            assert(media_among(all.take(0)) =~= Seq::<Seq<char>>::empty());
        }
        while i < candidates.len()
            invariant
                i <= candidates@.len(),
                all == candidates.deep_view(),
                sorted_texts(paths.deep_view()),
                paths.deep_view().to_multiset() == media_among(all.take(i as int)).to_multiset(),
                paths@.len() == media_among(all.take(i as int)).len(),
            decreases candidates@.len() - i,
        {
            proof {
                reveal(Seq::filter);
                let prev = all.take(i as int);
                let next = all.take(i + 1);
                let last = next.last();
                assert(next.drop_last() =~= prev);
                assert(last == candidates@[i as int]@);
                assert(media_among(next) == if is_media(last) {
                    media_among(prev).push(last)
                } else {
                    media_among(prev)
                });
                vstd::seq_lib::to_multiset_build(media_among(prev), last);
            }
            if is_media_path(candidates[i].as_str()) {
                insert_sorted(&mut paths, candidates[i].clone());
            }
            i += 1;
        }
        assert(all.take(i as int) =~= all);
        if paths.len() == 0 {
            None
        } else {
            Some(MediaPlaylist { paths, cursor: 0 })
        }
    }

    /// The number of paths.
    pub fn len(&self) -> (n: usize)
        ensures
            n == self@.paths.len(),
    {
        self.paths.len()
    }

    /// The position of the current path.
    pub fn cursor(&self) -> (c: usize)
        ensures
            c == self@.cursor,
    {
        self.cursor
    }

    /// The current path.
    pub fn current(&self) -> (r: &String)
        requires
            self.wf(),
        ensures
            r@ == self@.current(),
    {
        &self.paths[self.cursor]
    }

    /// The path at position `i`.
    pub fn get(&self, i: usize) -> (r: &String)
        requires
            i < self@.paths.len(),
        ensures
            r@ == self@.paths[i as int],
    {
        &self.paths[i]
    }

    /// Moves the cursor one step on, from the last path to the first.
    pub fn advance(&mut self)
        requires
            old(self).wf(),
        ensures
            final(self)@ == old(self)@.advanced(),
            final(self).wf(),
    {
        if self.cursor == self.paths.len() - 1 {
            self.cursor = 0;
        } else {
            self.cursor = self.cursor + 1;
        }
    }

    /// Moves the cursor one step back, from the first path to the last.
    pub fn recede(&mut self)
        requires
            old(self).wf(),
        ensures
            final(self)@ == old(self)@.receded(),
            final(self).wf(),
    {
        if self.cursor == 0 {
            self.cursor = self.paths.len() - 1;
        } else {
            self.cursor = self.cursor - 1;
        }
    }
}

/// Where the cursor stands after `k` steps back, `k` no more than the number of paths.
pub proof fn lemma_receded_times(p: PlaylistView, k: nat)
    requires
        p.wf(),
        k <= p.paths.len(),
    ensures
        p.receded_times(k).paths == p.paths,
        p.receded_times(k).cursor == if k <= p.cursor {
            p.cursor - k
        } else {
            p.cursor + p.paths.len() - k
        },
    decreases k,
{
    if k > 0 {
        lemma_receded_times(p.receded(), (k - 1) as nat);
    }
}

/// As many steps back as the playlist has paths lead to the path one began on.
pub proof fn lemma_recede_full_circle(p: PlaylistView)
    requires
        p.wf(),
    ensures
        p.receded_times(p.paths.len()) == p,
{
    lemma_receded_times(p, p.paths.len());
}

/// A step back undoes a step on, and a step on undoes a step back.
pub proof fn lemma_advance_recede(p: PlaylistView)
    requires
        p.wf(),
    ensures
        p.advanced().receded() == p,
        p.receded().advanced() == p,
{
}

/// Two sorted lists of the same texts, each as often in the one as in the other, are
/// the same list: what a playlist is made of decides its order.
pub proof fn lemma_sorted_texts_unique(a: Seq<Seq<char>>, b: Seq<Seq<char>>)
    requires
        sorted_texts(a),
        sorted_texts(b),
        a.to_multiset() == b.to_multiset(),
    ensures
        a == b,
    decreases a.len(),
{
    a.to_multiset_ensures();
    b.to_multiset_ensures();
    if a.len() == 0 {
        assert(a =~= b);
    } else {
        assert(a.contains(a[0]));
        assert(b.contains(b[0]));
        assert(b.to_multiset().count(a[0]) > 0);
        assert(a.to_multiset().count(b[0]) > 0);
        let i = choose|i: int| 0 <= i < b.len() && b[i] == a[0];
        let j = choose|j: int| 0 <= j < a.len() && a[j] == b[0];
        if i > 0 {
            assert(lex_le(b[0], b[i]));
        } else {
            lemma_lex_total(b[0], b[0]);
        }
        if j > 0 {
            assert(lex_le(a[0], a[j]));
        } else {
            lemma_lex_total(a[0], a[0]);
        }
        lemma_lex_antisymmetric(a[0], b[0]);
        let x = a.drop_first();
        let y = b.drop_first();
        assert(a.remove(0) =~= x);
        assert(b.remove(0) =~= y);
        vstd::seq_lib::to_multiset_remove(a, 0);
        vstd::seq_lib::to_multiset_remove(b, 0);
        assert forall|p: int, q: int| 0 <= p < q < x.len() implies lex_le(x[p], x[q]) by {
            assert(lex_le(a[p + 1], a[q + 1]));
        }
        assert forall|p: int, q: int| 0 <= p < q < y.len() implies lex_le(y[p], y[q]) by {
            assert(lex_le(b[p + 1], b[q + 1]));
        }
        lemma_sorted_texts_unique(x, y);
        assert(a =~= seq![a[0]] + x);
        assert(b =~= seq![b[0]] + y);
    }
}

} // verus!
