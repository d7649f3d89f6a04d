//! Ascending sets of timestamps, and the steps from a time to a mark.

use vstd::prelude::*;

verus! {

/// Whether every element of `s` is smaller than the one after it.
pub open spec fn strictly_ascending(s: Seq<u64>) -> bool {
    forall|i: int, j: int| 0 <= i < j < s.len() ==> s[i] < s[j]
}

/// The number of marks of `s` that lie before `x`.
pub open spec fn count_before(s: Seq<u64>, x: u64) -> nat
    decreases s.len(),
{
    if s.len() == 0 {
        0
    } else {
        count_before(s.drop_last(), x) + if s.last() < x { 1nat } else { 0nat }
    }
}

/// The number of marks of `s` that lie at or before `x`.
pub open spec fn count_up_to(s: Seq<u64>, x: u64) -> nat
    decreases s.len(),
{
    if s.len() == 0 {
        0
    } else {
        count_up_to(s.drop_last(), x) + if s.last() <= x { 1nat } else { 0nat }
    }
}

/// The smallest mark at or after `x`, if there is one.
pub open spec fn next_mark(s: Seq<u64>, x: u64) -> Option<u64> {
    let k = count_before(s, x);
    if k < s.len() {
        Some(s[k as int])
    } else {
        None
    }
}

/// The largest mark at or before `x`, if there is one.
pub open spec fn current_mark(s: Seq<u64>, x: u64) -> Option<u64> {
    let k = count_up_to(s, x);
    if k > 0 {
        Some(s[k - 1])
    } else {
        None
    }
}

/// The mark one step before the largest mark at or before `x`; that largest mark itself
/// where nothing precedes it; nothing where no mark lies at or before `x`.
pub open spec fn previous_mark(s: Seq<u64>, x: u64) -> Option<u64> {
    let k = count_up_to(s, x);
    if k >= 2 {
        Some(s[k - 2])
    } else if k == 1 {
        Some(s[0])
    } else {
        None
    }
}

/// In an ascending sequence the marks before `x` are exactly a prefix.
pub proof fn lemma_count_before(s: Seq<u64>, x: u64)
    requires
        strictly_ascending(s),
    ensures
        count_before(s, x) <= s.len(),
        forall|i: int| 0 <= i < count_before(s, x) ==> s[i] < x,
        forall|i: int| count_before(s, x) <= i < s.len() ==> s[i] >= x,
    decreases s.len(),
{
    if s.len() > 0 {
        let t = s.drop_last();
        lemma_count_before(t, x);
        assert(forall|i: int| 0 <= i < t.len() ==> t[i] == s[i]);
        if s.last() < x {
            assert forall|i: int| 0 <= i < s.len() implies s[i] < x by {
                if i < s.len() - 1 {
                    assert(s[i] < s[s.len() - 1]);
                }
            }
            if count_before(t, x) < t.len() {
                assert(t[count_before(t, x) as int] >= x);
            }
        }
    }
}

/// In an ascending sequence the marks at or before `x` are exactly a prefix.
pub proof fn lemma_count_up_to(s: Seq<u64>, x: u64)
    requires
        strictly_ascending(s),
    ensures
        count_up_to(s, x) <= s.len(),
        forall|i: int| 0 <= i < count_up_to(s, x) ==> s[i] <= x,
        forall|i: int| count_up_to(s, x) <= i < s.len() ==> s[i] > x,
    decreases s.len(),
{
    if s.len() > 0 {
        let t = s.drop_last();
        lemma_count_up_to(t, x);
        assert(forall|i: int| 0 <= i < t.len() ==> t[i] == s[i]);
        if s.last() <= x {
            assert forall|i: int| 0 <= i < s.len() implies s[i] <= x by {
                if i < s.len() - 1 {
                    assert(s[i] < s[s.len() - 1]);
                }
            }
            if count_up_to(t, x) < t.len() {
                assert(t[count_up_to(t, x) as int] > x);
            }
        }
    }
}

/// A prefix of an ascending sequence that ends where the marks stop being before `x`
/// has as many marks as lie before `x`.
pub proof fn lemma_count_before_is(s: Seq<u64>, x: u64, k: int)
    requires
        strictly_ascending(s),
        0 <= k <= s.len(),
        forall|i: int| 0 <= i < k ==> s[i] < x,
        forall|i: int| k <= i < s.len() ==> s[i] >= x,
    ensures
        count_before(s, x) == k,
{
    lemma_count_before(s, x);
    let c = count_before(s, x) as int;
    if c < k {
        assert(s[c] >= x);
    } else if c > k {
        assert(s[k] < x);
    }
}

/// A prefix of an ascending sequence that ends where the marks stop being at or before
/// `x` has as many marks as lie at or before `x`.
pub proof fn lemma_count_up_to_is(s: Seq<u64>, x: u64, k: int)
    requires
        strictly_ascending(s),
        0 <= k <= s.len(),
        forall|i: int| 0 <= i < k ==> s[i] <= x,
        forall|i: int| k <= i < s.len() ==> s[i] > x,
    ensures
        count_up_to(s, x) == k,
{
    lemma_count_up_to(s, x);
    let c = count_up_to(s, x) as int;
    if c < k {
        assert(s[c] > x);
    } else if c > k {
        assert(s[k] <= x);
    }
}

/// The ascending sequence that holds the marks of `s` and `t`.
pub open spec fn inserted(s: Seq<u64>, t: u64) -> Seq<u64> {
    if s.contains(t) {
        s
    } else {
        s.insert(count_before(s, t) as int, t)
    }
}

/// Inserting keeps the order, adds the mark and nothing else.
pub proof fn lemma_inserted(s: Seq<u64>, t: u64)
    requires
        strictly_ascending(s),
    ensures
        strictly_ascending(inserted(s, t)),
        forall|u: u64| inserted(s, t).contains(u) <==> (u == t || s.contains(u)),
{
    lemma_count_before(s, t);
    let k = count_before(s, t) as int;
    let r = inserted(s, t);
    if !s.contains(t) {
        assert forall|i: int| k <= i < s.len() implies s[i] > t by {
            assert(s.contains(s[i]));
        }
        assert forall|i: int, j: int| 0 <= i < j < r.len() implies r[i] < r[j] by {
            if j < k {
            } else if j == k {
                assert(r[i] == s[i]);
            } else if i < k {
                assert(r[j] == s[j - 1]);
            } else if i == k {
                assert(r[j] == s[j - 1]);
            } else {
                assert(r[i] == s[i - 1] && r[j] == s[j - 1]);
            }
        }
        assert(r[k] == t);
        assert forall|u: u64| r.contains(u) <==> (u == t || s.contains(u)) by {
            if r.contains(u) {
                let i = choose|i: int| 0 <= i < r.len() && r[i] == u;
                if i < k {
                    assert(s[i] == u);
                } else if i > k {
                    assert(s[i - 1] == u);
                }
            }
            if s.contains(u) {
                let i = choose|i: int| 0 <= i < s.len() && s[i] == u;
                if i < k {
                    assert(r[i] == u);
                } else {
                    assert(r[i + 1] == u);
                }
            }
        }
    }
}

/// A set of timestamps in milliseconds, held in ascending order without repeats.
#[derive(Debug, Clone, PartialEq, Eq)]
pub struct Timeline {
    marks: Vec<u64>,
}

impl View for Timeline {
    type V = Seq<u64>;

    closed spec fn view(&self) -> Seq<u64> {
        self.marks@
    }
}

impl Timeline {
    /// The invariant of the type: the marks ascend strictly.
    pub open spec fn wf(&self) -> bool {
        strictly_ascending(self@)
    }

    /// A timeline without marks.
    pub fn new() -> (r: Timeline)
        ensures
            r.wf(),
            r@ == Seq::<u64>::empty(),
    {
        Timeline { marks: Vec::new() }
    }

    /// The number of marks.
    pub fn len(&self) -> (n: usize)
        ensures
            n == self@.len(),
    {
        self.marks.len()
    }

    /// Whether the timeline has no mark.
    pub fn is_empty(&self) -> (b: bool)
        ensures
            b == (self@.len() == 0),
    {
        self.marks.len() == 0
    }

    /// The marks in ascending order.
    pub fn to_vec(&self) -> (v: Vec<u64>)
        ensures
            v@ == self@,
    {
        self.marks.clone()
    }

    /// The position of the first mark that is not before `x`.
    fn position_before(&self, x: u64) -> (k: usize)
        requires
            self.wf(),
        ensures
            k == count_before(self@, x),
            k <= self@.len(),
    {
        let mut k: usize = 0;
        while k < self.marks.len() && self.marks[k] < x
            invariant
                k <= self.marks@.len(),
                forall|i: int| 0 <= i < k ==> self.marks@[i] < x,
            decreases self.marks@.len() - k,
        {
            k += 1;
        }
        proof {
            assert forall|i: int| k <= i < self@.len() implies self@[i] >= x by {
                if i > k {
                    assert(self@[k as int] < self@[i]);
                }
            }
            lemma_count_before_is(self@, x, k as int);
        }
        k
    }

    /// The position behind the last mark that is not after `x`.
    fn position_up_to(&self, x: u64) -> (k: usize)
        requires
            self.wf(),
        ensures
            k == count_up_to(self@, x),
            k <= self@.len(),
    {
        let mut k: usize = 0;
        while k < self.marks.len() && self.marks[k] <= x
            invariant
                k <= self.marks@.len(),
                forall|i: int| 0 <= i < k ==> self.marks@[i] <= x,
            decreases self.marks@.len() - k,
        {
            k += 1;
        }
        proof {
            assert forall|i: int| k <= i < self@.len() implies self@[i] > x by {
                if i > k {
                    assert(self@[k as int] < self@[i]);
                }
            }
            lemma_count_up_to_is(self@, x, k as int);
        }
        k
    }

    /// Adds the mark `t`; a mark that is already there stays once.
    pub fn insert(&mut self, t: u64)
        requires
            old(self).wf(),
        ensures
            final(self).wf(),
            final(self)@ == inserted(old(self)@, t),
            forall|u: u64| final(self)@.contains(u) <==> (u == t || old(self)@.contains(u)),
    {
        let k = self.position_before(t);
        proof {
            lemma_inserted(self@, t);
            lemma_count_before(self@, t);
        }
        if k < self.marks.len() && self.marks[k] == t {
            assert(self@.contains(t));
        } else {
            proof {
                if self@.contains(t) {
                    let i = choose|i: int| 0 <= i < self@.len() && self@[i] == t;
                    if i > k {
                        assert(self@[k as int] < self@[i]);
                    }
                }
            }
            self.marks.insert(k, t);
        }
    }

    /// The timeline that holds exactly the values of `values`.
    pub fn from_vec(values: &Vec<u64>) -> (r: Timeline)
        ensures
            r.wf(),
            forall|u: u64| r@.contains(u) <==> values@.contains(u),
    {
        let mut r = Timeline::new();
        let mut i: usize = 0;
        while i < values.len()
            invariant
                i <= values@.len(),
                r.wf(),
                forall|u: u64|
                    r@.contains(u) <==> exists|j: int| 0 <= j < i && values@[j] == u,
            decreases values@.len() - i,
        {
            r.insert(values[i]);
            i += 1;
        }
        r
    }

    /// The smallest mark at or after `x`.
    pub fn next_from(&self, x: u64) -> (r: Option<u64>)
        requires
            self.wf(),
        ensures
            r == next_mark(self@, x),
            r matches Some(t) ==> self@.contains(t) && t >= x && forall|u: u64|
                self@.contains(u) && u >= x ==> t <= u,
            r is None <==> forall|u: u64| self@.contains(u) ==> u < x,
    {
        let k = self.position_before(x);
        proof {
            lemma_next_mark(self@, x);
        }
        if k < self.marks.len() {
            Some(self.marks[k])
        } else {
            None
        }
    }

    /// The largest mark at or before `x`.
    pub fn current_from(&self, x: u64) -> (r: Option<u64>)
        requires
            self.wf(),
        ensures
            r == current_mark(self@, x),
            r matches Some(t) ==> self@.contains(t) && t <= x && forall|u: u64|
                self@.contains(u) && u <= x ==> u <= t,
            r is None <==> forall|u: u64| self@.contains(u) ==> u > x,
    {
        let k = self.position_up_to(x);
        proof {
            lemma_current_mark(self@, x);
        }
        if k > 0 {
            Some(self.marks[k - 1])
        } else {
            None
        }
    }

    /// The mark before the largest mark at or before `x`, or that largest mark where
    /// it is the first one.
    pub fn previous_from(&self, x: u64) -> (r: Option<u64>)
        requires
            self.wf(),
        ensures
            r == previous_mark(self@, x),
            r is None <==> current_mark(self@, x) is None,
            r matches Some(t) ==> self@.contains(t) && t <= current_mark(self@, x).unwrap()
                && forall|u: u64|
                self@.contains(u) && u < current_mark(self@, x).unwrap() ==> u <= t,
    {
        let k = self.position_up_to(x);
        proof {
            lemma_previous_mark(self@, x);
        }
        if k >= 2 {
            Some(self.marks[k - 2])
        } else if k == 1 {
            Some(self.marks[0])
        } else {
            None
        }
    }
}

/// `next_mark` gives the smallest mark at or after `x`, and nothing only where every
/// mark is before `x`.
pub proof fn lemma_next_mark(s: Seq<u64>, x: u64)
    requires
        strictly_ascending(s),
    ensures
        next_mark(s, x) matches Some(t) ==> s.contains(t) && t >= x && forall|u: u64|
            s.contains(u) && u >= x ==> t <= u,
        next_mark(s, x) is None <==> forall|u: u64| s.contains(u) ==> u < x,
{
    lemma_count_before(s, x);
    let k = count_before(s, x) as int;
    if k < s.len() {
        assert(s.contains(s[k]));
        assert forall|u: u64| s.contains(u) && u >= x implies s[k] <= u by {
            let i = choose|i: int| 0 <= i < s.len() && s[i] == u;
            if i > k {
                assert(s[k] < s[i]);
            }
        }
    } else {
        assert forall|u: u64| s.contains(u) implies u < x by {
            let i = choose|i: int| 0 <= i < s.len() && s[i] == u;
        }
    }
}

/// `current_mark` gives the largest mark at or before `x`, and nothing only where
/// every mark is after `x`.
pub proof fn lemma_current_mark(s: Seq<u64>, x: u64)
    requires
        strictly_ascending(s),
    ensures
        current_mark(s, x) matches Some(t) ==> s.contains(t) && t <= x && forall|u: u64|
            s.contains(u) && u <= x ==> u <= t,
        current_mark(s, x) is None <==> forall|u: u64| s.contains(u) ==> u > x,
{
    lemma_count_up_to(s, x);
    let k = count_up_to(s, x) as int;
    if k > 0 {
        assert(s.contains(s[k - 1]));
        assert forall|u: u64| s.contains(u) && u <= x implies u <= s[k - 1] by {
            let i = choose|i: int| 0 <= i < s.len() && s[i] == u;
            if i < k - 1 {
                assert(s[i] < s[k - 1]);
            }
        }
    } else {
        assert forall|u: u64| s.contains(u) implies u > x by {
            let i = choose|i: int| 0 <= i < s.len() && s[i] == u;
        }
    }
}

/// `previous_mark` gives the largest mark before the current one, or the current one
/// where it is the first, and nothing only where there is no current mark.
pub proof fn lemma_previous_mark(s: Seq<u64>, x: u64)
    requires
        strictly_ascending(s),
    ensures
        previous_mark(s, x) is None <==> current_mark(s, x) is None,
        previous_mark(s, x) matches Some(t) ==> s.contains(t) && t <= current_mark(
            s,
            x,
        ).unwrap() && forall|u: u64|
            s.contains(u) && u < current_mark(s, x).unwrap() ==> u <= t,
{
    lemma_count_up_to(s, x);
    let k = count_up_to(s, x) as int;
    if k >= 2 {
        assert(s.contains(s[k - 2]));
        assert(s[k - 2] < s[k - 1]);
        assert forall|u: u64| s.contains(u) && u < s[k - 1] implies u <= s[k - 2] by {
            let i = choose|i: int| 0 <= i < s.len() && s[i] == u;
            if i < k - 2 {
                assert(s[i] < s[k - 2]);
            } else if i > k - 1 {
                assert(s[k - 1] < s[i]);
            }
        }
    } else if k == 1 {
        assert(s.contains(s[0]));
        assert forall|u: u64| s.contains(u) && u < s[0] implies u <= s[0] by {}
    }
}

} // verus!
