//! The transcoder's work on clips: which clips are joined into which reel, and in what
//! order.

use vstd::prelude::*;
use vstd::string::*;
use crate::clip::ClipType;
use crate::playlist::{insert_sorted, sorted_texts};
use crate::text::{file_name, file_name_of, file_stem, signed_decimal, signed_decimal_string, stem_of};

verus! {

/// Whether `s` ends in `tail`.
pub open spec fn ends_in(s: Seq<char>, tail: Seq<char>) -> bool {
    s.len() >= tail.len() && s.skip(s.len() - tail.len()) =~= tail
}

/// Whether `s` ends in `tail`.
pub fn ends_with(s: &str, tail: &str) -> (b: bool)
    ensures
        b == ends_in(s@, tail@),
{
    let n = s.unicode_len();
    let m = tail.unicode_len();
    if n < m {
        return false;
    }
    let mut i: usize = 0;
    while i < m
        invariant
            n == s@.len(),
            m == tail@.len(),
            m <= n,
            i <= m,
            forall|j: int| 0 <= j < i ==> s@[n - m + j] == tail@[j],
        decreases m - i,
    {
        if s.get_char(n - m + i) != tail.get_char(i) {
            assert(s@.skip(n - m)[i as int] != tail@[i as int]);
            return false;
        }
        i += 1;
    }
    true
}

/// The category that a clip's file carries in its stem, if any: offense before
/// defense.
pub open spec fn tag_of(path: Seq<char>) -> Option<ClipType> {
    let stem = stem_of(file_name_of(path));
    if ends_in(stem, "Off"@) {
        Some(ClipType::Offense)
    } else if ends_in(stem, "Def"@) {
        Some(ClipType::Defense)
    } else {
        None
    }
}

/// The category that a clip's file carries in its stem, if any.
pub fn clip_tag(path: &str) -> (r: Option<ClipType>)
    ensures
        r == tag_of(path@),
{
    let stem = file_stem(file_name(path));
    if ends_with(stem, "Off") {
        Some(ClipType::Offense)
    } else if ends_with(stem, "Def") {
        Some(ClipType::Defense)
    } else {
        None
    }
}

/// A reel: the clips of one category, or all of them.
#[derive(Debug, Copy, Clone, PartialEq, Eq, Structural)]
pub enum Reel {
    Offense,
    Defense,
    All,
}

/// Whether the clip at `path` goes into `reel`.
pub open spec fn belongs(path: Seq<char>, reel: Reel) -> bool {
    match reel {
        Reel::Offense => tag_of(path) == Some(ClipType::Offense),
        Reel::Defense => tag_of(path) == Some(ClipType::Defense),
        Reel::All => true,
    }
}

/// The clips among `paths` that go into `reel`, in the order in which they stand
/// there.
pub open spec fn members(paths: Seq<Seq<char>>, reel: Reel) -> Seq<Seq<char>> {
    paths.filter(|p: Seq<char>| belongs(p, reel))
}

/// The file name of a reel.
pub open spec fn reel_name(reel: Reel) -> Seq<char> {
    match reel {
        Reel::Offense => "condensed_offense.mp4"@,
        Reel::Defense => "condensed_defense.mp4"@,
        Reel::All => "condensed_all.mp4"@,
    }
}

/// The reels in the order in which they are made.
pub open spec fn all_reels() -> Seq<Reel> {
    seq![Reel::Offense, Reel::Defense, Reel::All]
}

/// The reels that are made of the clips at `paths`: those with at least one clip.
pub open spec fn reels_of(paths: Seq<Seq<char>>) -> Seq<Reel> {
    all_reels().filter(|reel: Reel| members(paths, reel).len() > 0)
}

/// The line of the index that names the clip at `path`.
pub open spec fn index_line(path: Seq<char>) -> Seq<char> {
    "file '"@ + path + "'\n"@
}

/// The index that the transcoder reads: one line for each clip, in order.
pub open spec fn index_text(paths: Seq<Seq<char>>) -> Seq<char>
    decreases paths.len(),
{
    if paths.len() == 0 {
        Seq::<char>::empty()
    } else {
        index_text(paths.drop_last()) + index_line(paths.last())
    }
}

/// One run of the transcoder: the clips that it joins, in order, the index that
/// names them to it, and the name of the reel that it writes.
#[derive(Debug, Clone, PartialEq, Eq)]
pub struct ConcatTask {
    pub reel: Reel,
    pub output_name: String,
    pub sources: Vec<String>,
    pub index: String,
}

impl ConcatTask {
    /// Whether the task is the one that makes `reel` of the clips at `paths`: its clips
    /// are those of the reel, sorted, and index and name are theirs.
    pub open spec fn makes(&self, reel: Reel, paths: Seq<Seq<char>>) -> bool {
        &&& self.reel == reel
        &&& self.output_name@ == reel_name(reel)
        &&& sorted_texts(self.sources.deep_view())
        &&& self.sources.deep_view().to_multiset() == members(paths, reel).to_multiset()
        &&& self.index@ == index_text(self.sources.deep_view())
    }
}

/// Whether the clip at `path` goes into `reel`.
pub fn goes_into(path: &str, reel: Reel) -> (b: bool)
    ensures
        b == belongs(path@, reel),
{
    match reel {
        Reel::Offense => match clip_tag(path) {
            Some(ClipType::Offense) => true,
            _ => false,
        },
        Reel::Defense => match clip_tag(path) {
            Some(ClipType::Defense) => true,
            _ => false,
        },
        Reel::All => true,
    }
}

/// The clips among `paths` that go into `reel`, sorted.
fn select_sorted(paths: &Vec<String>, reel: Reel) -> (r: Vec<String>)
    ensures
        sorted_texts(r.deep_view()),
        r.deep_view().to_multiset() == members(paths.deep_view(), reel).to_multiset(),
        r@.len() == members(paths.deep_view(), reel).len(),
{
    let ghost all = paths.deep_view();
    let mut r: Vec<String> = Vec::new();
    let mut i: usize = 0;
    proof {
        reveal(Seq::filter);
        assert(all.take(0) =~= Seq::<Seq<char>>::empty());
        assert(r.deep_view() =~= Seq::<Seq<char>>::empty());
        assert(members(all.take(0), reel) =~= Seq::<Seq<char>>::empty());
    }
    while i < paths.len()
        invariant
            i <= paths@.len(),
            all == paths.deep_view(),
            sorted_texts(r.deep_view()),
            r.deep_view().to_multiset() == members(all.take(i as int), reel).to_multiset(),
            r@.len() == members(all.take(i as int), reel).len(),
        decreases paths@.len() - i,
    {
        proof {
            reveal(Seq::filter);
            let prev = all.take(i as int);
            let next = all.take(i + 1);
            let last = next.last();
            assert(next.drop_last() =~= prev);
            assert(last == paths@[i as int]@);
            assert(members(next, reel) == if belongs(last, reel) {
                members(prev, reel).push(last)
            } else {
                members(prev, reel)
            });
            vstd::seq_lib::to_multiset_build(members(prev, reel), last);
        }
        if goes_into(paths[i].as_str(), reel) {
            insert_sorted(&mut r, paths[i].clone());
        }
        i += 1;
    }
    assert(all.take(i as int) =~= all);
    r
}

/// The index that names the clips at `paths` to the transcoder.
pub fn index_of(paths: &Vec<String>) -> (r: String)
    ensures
        r@ == index_text(paths.deep_view()),
{
    let ghost all = paths.deep_view();
    let mut r = String::new();
    let mut i: usize = 0;
    assert(all.take(0) =~= Seq::<Seq<char>>::empty());
    while i < paths.len()
        invariant
            i <= paths@.len(),
            all == paths.deep_view(),
            r@ == index_text(all.take(i as int)),
        decreases paths@.len() - i,
    {
        proof {
            assert(all.take(i + 1).drop_last() =~= all.take(i as int));
            assert(all.take(i + 1).last() == paths@[i as int]@);
        }
        let ghost before = r@;
        r.append("file '");
        r.append(paths[i].as_str());
        r.append("'\n");
        assert(r@ =~= before + index_line(paths@[i as int]@));
        i += 1;
    }
    assert(all.take(i as int) =~= all);
    r
}

/// The file name of a reel.
pub fn name_of_reel(reel: Reel) -> (r: &'static str)
    ensures
        r@ == reel_name(reel),
{
    match reel {
        Reel::Offense => "condensed_offense.mp4",
        Reel::Defense => "condensed_defense.mp4",
        Reel::All => "condensed_all.mp4",
    }
}

/// The task that makes `reel` of the clips at `paths`, if the reel has a clip.
fn task_for(paths: &Vec<String>, reel: Reel) -> (r: Option<ConcatTask>)
    ensures
        r is Some <==> members(paths.deep_view(), reel).len() > 0,
        r matches Some(task) ==> task.makes(reel, paths.deep_view()),
{
    let sources = select_sorted(paths, reel);
    if sources.len() == 0 {
        None
    } else {
        let index = index_of(&sources);
        Some(ConcatTask { reel, output_name: String::from_str(name_of_reel(reel)), sources, index })
    }
}

/// Plans the joining of the clips at `paths`, the files of a clips directory, into
/// reels: one task for the offense clips, one for the defense clips and one for all
/// clips, in this order, each left out where it has no clip.
pub fn concat(paths: &Vec<String>) -> (tasks: Vec<ConcatTask>)
    ensures
        tasks@.len() == reels_of(paths.deep_view()).len(),
        forall|i: int|
            0 <= i < tasks@.len() ==> (#[trigger] tasks@[i]).makes(
                reels_of(paths.deep_view())[i],
                paths.deep_view(),
            ),
{
    let ghost all = paths.deep_view();
    let mut tasks: Vec<ConcatTask> = Vec::new();
    proof {
        reveal(Seq::filter);
        lemma_reels_of(all);
    }
    match task_for(paths, Reel::Offense) {
        Some(task) => tasks.push(task),
        None => {},
    }
    match task_for(paths, Reel::Defense) {
        Some(task) => tasks.push(task),
        None => {},
    }
    match task_for(paths, Reel::All) {
        Some(task) => tasks.push(task),
        None => {},
    }
    tasks
}

/// The reels that are made, written out: each of the three that has a clip.
pub open spec fn reels_listed(paths: Seq<Seq<char>>) -> Seq<Reel> {
    (if members(paths, Reel::Offense).len() > 0 {
        seq![Reel::Offense]
    } else {
        Seq::<Reel>::empty()
    }) + (if members(paths, Reel::Defense).len() > 0 {
        seq![Reel::Defense]
    } else {
        Seq::<Reel>::empty()
    }) + (if members(paths, Reel::All).len() > 0 {
        seq![Reel::All]
    } else {
        Seq::<Reel>::empty()
    })
}

/// `reels_of` lists each of the three reels that has a clip, in their order.
pub proof fn lemma_reels_of(paths: Seq<Seq<char>>)
    ensures
        reels_of(paths) == reels_listed(paths),
{
    reveal(Seq::filter);
    let keep = |reel: Reel| members(paths, reel).len() > 0;
    let three = all_reels();
    let two = three.drop_last();
    let one = two.drop_last();
    assert(one.drop_last() =~= Seq::<Reel>::empty());
    assert(one.drop_last().filter(keep) =~= Seq::<Reel>::empty());
    assert(one.last() == Reel::Offense);
    assert(two.last() == Reel::Defense);
    assert(three.last() == Reel::All);
    assert(one.filter(keep) =~= if keep(Reel::Offense) {
        seq![Reel::Offense]
    } else {
        Seq::<Reel>::empty()
    });
    assert(two.filter(keep) =~= one.filter(keep) + if keep(Reel::Defense) {
        seq![Reel::Defense]
    } else {
        Seq::<Reel>::empty()
    });
    assert(three.filter(keep) =~= two.filter(keep) + if keep(Reel::All) {
        seq![Reel::All]
    } else {
        Seq::<Reel>::empty()
    });
    assert(reels_of(paths) =~= reels_listed(paths));
}

/// Of clips that are all tagged as offense, at least one, the offense reel and the
/// reel of all clips are made, and no defense reel.
pub proof fn lemma_offense_only(paths: Seq<Seq<char>>)
    requires
        paths.len() > 0,
        forall|i: int| 0 <= i < paths.len() ==> tag_of(paths[i]) == Some(ClipType::Offense),
    ensures
        reels_of(paths) == seq![Reel::Offense, Reel::All],
{
    lemma_reels_of(paths);
    let off = |p: Seq<char>| belongs(p, Reel::Offense);
    let def = |p: Seq<char>| belongs(p, Reel::Defense);
    let all = |p: Seq<char>| belongs(p, Reel::All);
    assert(off(paths[0]));
    assert(all(paths[0]));
    paths.lemma_filter_contains(off, 0);
    paths.lemma_filter_contains(all, 0);
    assert(members(paths, Reel::Offense).len() > 0);
    assert(members(paths, Reel::All).len() > 0);
    if members(paths, Reel::Defense).len() > 0 {
        let m = members(paths, Reel::Defense);
        paths.lemma_filter_pred(def, 0);
        paths.lemma_filter_contains_rev(def, m[0]);
        assert(paths.contains(m[0]));
        let i = choose|i: int| 0 <= i < paths.len() && paths[i] == m[0];
        assert(tag_of(paths[i]) == Some(ClipType::Offense));
        assert(false);
    }
    assert(reels_listed(paths) =~= seq![Reel::Offense, Reel::All]);
}

/// What is said of a transcoder that ended with a failure: its exit code, a question
/// mark where it has none, and what it wrote to its error stream.
pub open spec fn failure_text(code: Option<i32>, errors: Seq<char>) -> Seq<char> {
    "error from ffmpeg[code:"@ + (match code {
        Some(c) => signed_decimal(c as int),
        None => "?"@,
    }) + "]: "@ + errors
}

/// What is said of a transcoder that ended with a failure.
pub fn failure_message(code: Option<i32>, errors: &str) -> (r: String)
    ensures
        r@ == failure_text(code, errors@),
{
    let mut r = String::from_str("error from ffmpeg[code:");
    match code {
        Some(c) => {
            let digits = signed_decimal_string(c as i64);
            r.append(digits.as_str());
        },
        None => {
            r.append("?");
        },
    }
    r.append("]: ");
    r.append(errors);
    r
}

/// What is said where the transcoder could not be started.
pub open spec fn not_started_text() -> Seq<char> {
    "could not execute ffmpeg"@
}

/// The outcome of one run of the transcoder: success, or what is said of its failure.
/// A run that could not be started has failed, whatever the other values say.
pub open spec fn outcome_of(
    started: bool,
    succeeded: bool,
    code: Option<i32>,
    errors: Seq<char>,
) -> Result<(), Seq<char>> {
    if !started {
        Err(not_started_text())
    } else if succeeded {
        Ok(())
    } else {
        Err(failure_text(code, errors))
    }
}

/// The outcome of one run of the transcoder, from whether it could be started, whether
/// it ended with success, its exit code and what it wrote to its error stream.
pub fn run_outcome(started: bool, succeeded: bool, code: Option<i32>, errors: &str) -> (r: Result<
    (),
    String,
>)
    ensures
        match r {
            Ok(_) => outcome_of(started, succeeded, code, errors@) is Ok,
            Err(message) => outcome_of(started, succeeded, code, errors@) == Err::<(), Seq<char>>(
                message@,
            ),
        },
{
    if !started {
        Err(String::from_str("could not execute ffmpeg"))
    } else if succeeded {
        Ok(())
    } else {
        Err(failure_message(code, errors))
    }
}

/// The outcome of a concatenation, from the outcomes of its runs in their order: it
/// has failed where a run has failed, and then says what the last such run said.
pub fn concat_result(outcomes: &Vec<Result<(), String>>) -> (r: Result<(), String>)
    ensures
        r is Ok <==> forall|i: int| 0 <= i < outcomes@.len() ==> outcomes@[i] is Ok,
        r matches Err(message) ==> exists|i: int|
            {
                &&& 0 <= i < outcomes@.len()
                &&& #[trigger] outcomes@[i] is Err
                &&& outcomes@[i]->Err_0@ == message@
                &&& forall|j: int| i < j < outcomes@.len() ==> outcomes@[j] is Ok
            },
{
    let mut k: usize = outcomes.len();
    while k > 0
        invariant
            k <= outcomes@.len(),
            forall|j: int| k <= j < outcomes@.len() ==> outcomes@[j] is Ok,
        decreases k,
    {
        match &outcomes[k - 1] {
            Err(message) => {
                assert(outcomes@[k - 1] is Err);
                return Err(message.clone());
            },
            Ok(_) => {},
        }
        k -= 1;
    }
    Ok(())
}

} // verus!
