//! Texts: letters without regard to case, the parts of a path, and numbers written
//! out.

use vstd::prelude::*;
use vstd::string::*;

verus! {

/// The code of `c`, with the letters `a` to `z` counted as `A` to `Z`.
pub open spec fn folded(c: char) -> u32 {
    if 'a' <= c && c <= 'z' {
        (c as u32 - 32) as u32
    } else {
        c as u32
    }
}

/// Whether `s` and `t` are the same text but for the case of the letters `a` to `z`.
pub open spec fn same_ignoring_case(s: Seq<char>, t: Seq<char>) -> bool {
    s.len() == t.len() && forall|i: int| 0 <= i < s.len() ==> folded(s[i]) == folded(t[i])
}

/// The code of `c`, with the letters `a` to `z` counted as `A` to `Z`.
pub fn fold_char(c: char) -> (r: u32)
    ensures
        r == folded(c),
{
    if 'a' <= c && c <= 'z' {
        c as u32 - 32
    } else {
        c as u32
    }
}

/// Whether `s` and `t` are the same text but for the case of the letters `a` to `z`.
pub fn eq_ignoring_case(s: &str, t: &str) -> (b: bool)
    ensures
        b == same_ignoring_case(s@, t@),
{
    let n = s.unicode_len();
    if n != t.unicode_len() {
        return false;
    }
    let mut i: usize = 0;
    while i < n
        invariant
            n == s@.len(),
            n == t@.len(),
            i <= n,
            forall|j: int| 0 <= j < i ==> folded(s@[j]) == folded(t@[j]),
        decreases n - i,
    {
        if fold_char(s.get_char(i)) != fold_char(t.get_char(i)) {
            return false;
        }
        i += 1;
    }
    true
}

/// Whether `c` parts the components of a path.
pub open spec fn is_separator(c: char) -> bool {
    c == '/' || c == '\\'
}

/// The position at which the last component of `path` starts: behind the last
/// separator, or 0 where there is none.
pub open spec fn name_start(path: Seq<char>) -> int
    decreases path.len(),
{
    if path.len() == 0 {
        0
    } else if is_separator(path.last()) {
        path.len() as int
    } else {
        name_start(path.drop_last())
    }
}

/// The last component of `path`.
pub open spec fn file_name_of(path: Seq<char>) -> Seq<char> {
    path.skip(name_start(path))
}

/// The position of the last dot of `name`, or -1 where it has none.
pub open spec fn last_dot(name: Seq<char>) -> int
    decreases name.len(),
{
    if name.len() == 0 {
        -1
    } else if name.last() == '.' {
        name.len() - 1
    } else {
        last_dot(name.drop_last())
    }
}

/// The extension of a file name: what follows its last dot, unless that dot is the
/// name's first character or the name has none.
pub open spec fn extension_of(name: Seq<char>) -> Seq<char> {
    if last_dot(name) > 0 {
        name.skip(last_dot(name) + 1)
    } else {
        Seq::<char>::empty()
    }
}

/// The stem of a file name: what stands before the dot of its extension, or the whole
/// name where it has no extension.
pub open spec fn stem_of(name: Seq<char>) -> Seq<char> {
    if last_dot(name) > 0 {
        name.take(last_dot(name))
    } else {
        name
    }
}

/// `name_start` lies in the path, behind a separator or at 0, and no separator follows.
pub proof fn lemma_name_start(path: Seq<char>)
    ensures
        0 <= name_start(path) <= path.len(),
        name_start(path) > 0 ==> is_separator(path[name_start(path) - 1]),
        forall|i: int| name_start(path) <= i < path.len() ==> !is_separator(path[i]),
    decreases path.len(),
{
    if path.len() > 0 && !is_separator(path.last()) {
        let head = path.drop_last();
        lemma_name_start(head);
        assert forall|i: int| name_start(path) <= i < path.len() implies !is_separator(
            path[i],
        ) by {
            if i < head.len() {
                assert(head[i] == path[i]);
            }
        }
        if name_start(path) > 0 {
            assert(head[name_start(path) - 1] == path[name_start(path) - 1]);
        }
    }
}

/// `last_dot` is the position of a dot that no dot follows, or -1 where there is none.
pub proof fn lemma_last_dot(name: Seq<char>)
    ensures
        -1 <= last_dot(name) < name.len(),
        last_dot(name) >= 0 ==> name[last_dot(name)] == '.',
        forall|i: int| last_dot(name) < i < name.len() ==> name[i] != '.',
    decreases name.len(),
{
    if name.len() > 0 && name.last() != '.' {
        let head = name.drop_last();
        lemma_last_dot(head);
        assert forall|i: int| last_dot(name) < i < name.len() implies name[i] != '.' by {
            if i < head.len() {
                assert(head[i] == name[i]);
            }
        }
        if last_dot(name) >= 0 {
            assert(head[last_dot(name)] == name[last_dot(name)]);
        }
    }
}

/// A position behind which no separator follows, itself behind a separator or at 0, is
/// where the last component starts.
pub proof fn lemma_name_start_is(path: Seq<char>, k: int)
    requires
        0 <= k <= path.len(),
        k > 0 ==> is_separator(path[k - 1]),
        forall|i: int| k <= i < path.len() ==> !is_separator(path[i]),
    ensures
        name_start(path) == k,
{
    lemma_name_start(path);
    let c = name_start(path);
    if c > k {
        assert(is_separator(path[c - 1]));
    } else if c < k {
        assert(!is_separator(path[k - 1]));
    }
}

/// A position of a dot that no dot follows, or -1 where there is no dot, is `last_dot`.
pub proof fn lemma_last_dot_is(name: Seq<char>, k: int)
    requires
        -1 <= k < name.len(),
        k >= 0 ==> name[k] == '.',
        forall|i: int| k < i < name.len() ==> name[i] != '.',
    ensures
        last_dot(name) == k,
{
    lemma_last_dot(name);
    let c = last_dot(name);
    if c > k {
        assert(name[c] == '.');
    } else if c < k {
        assert(name[k] == '.');
    }
}

/// The last component of `path`.
pub fn file_name(path: &str) -> (r: &str)
    ensures
        r@ == file_name_of(path@),
{
    let n = path.unicode_len();
    let mut k: usize = n;
    while k > 0 && !(path.get_char(k - 1) == '/' || path.get_char(k - 1) == '\\')
        invariant
            n == path@.len(),
            k <= n,
            forall|i: int| k <= i < n ==> !is_separator(path@[i]),
        decreases k,
    {
        k -= 1;
    }
    proof {
        lemma_name_start_is(path@, k as int);
    }
    path.substring_char(k, n)
}

/// The position of the last dot of `name`, if it has one.
fn find_last_dot(name: &str) -> (r: Option<usize>)
    ensures
        match r {
            Some(k) => k == last_dot(name@),
            None => last_dot(name@) == -1,
        },
{
    let n = name.unicode_len();
    let mut k: usize = n;
    while k > 0 && name.get_char(k - 1) != '.'
        invariant
            n == name@.len(),
            k <= n,
            forall|i: int| k <= i < n ==> name@[i] != '.',
        decreases k,
    {
        k -= 1;
    }
    proof {
        lemma_last_dot_is(name@, k - 1);
    }
    if k > 0 {
        Some(k - 1)
    } else {
        None
    }
}

/// The extension of the file name `name`, empty where it has none.
pub fn extension(name: &str) -> (r: &str)
    ensures
        r@ == extension_of(name@),
{
    let n = name.unicode_len();
    proof {
        lemma_last_dot(name@);
    }
    match find_last_dot(name) {
        Some(k) if k > 0 => name.substring_char(k + 1, n),
        _ => name.substring_char(0, 0),
    }
}

/// The stem of the file name `name`.
pub fn file_stem(name: &str) -> (r: &str)
    ensures
        r@ == stem_of(name@),
{
    let n = name.unicode_len();
    proof {
        lemma_last_dot(name@);
    }
    match find_last_dot(name) {
        Some(k) if k > 0 => name.substring_char(0, k),
        _ => name.substring_char(0, n),
    }
}

/// The character that writes the digit `d`.
pub open spec fn digit_char(d: int) -> char {
    if d == 0 {
        '0'
    } else if d == 1 {
        '1'
    } else if d == 2 {
        '2'
    } else if d == 3 {
        '3'
    } else if d == 4 {
        '4'
    } else if d == 5 {
        '5'
    } else if d == 6 {
        '6'
    } else if d == 7 {
        '7'
    } else if d == 8 {
        '8'
    } else {
        '9'
    }
}

/// The decimal digits of `n`, without leading zeros.
pub open spec fn decimal(n: nat) -> Seq<char>
    decreases n,
{
    if n < 10 {
        seq![digit_char(n as int)]
    } else {
        decimal(n / 10).push(digit_char((n % 10) as int))
    }
}

/// The decimal digits of `n`, behind a minus sign where `n` is negative.
pub open spec fn signed_decimal(n: int) -> Seq<char> {
    if n < 0 {
        seq!['-'] + decimal((-n) as nat)
    } else {
        decimal(n as nat)
    }
}

/// `k` times the digit zero.
pub open spec fn zeros(k: nat) -> Seq<char> {
    Seq::new(k, |i: int| '0')
}

/// The decimal digits of `n`, filled up with zeros in front to at least `width`
/// characters.
pub open spec fn zero_padded(n: nat, width: nat) -> Seq<char> {
    if decimal(n).len() >= width {
        decimal(n)
    } else {
        zeros((width - decimal(n).len()) as nat) + decimal(n)
    }
}

/// The text of one digit.
fn digit_str(d: u64) -> (r: &'static str)
    requires
        d < 10,
    ensures
        r@ == seq![digit_char(d as int)],
{
    proof {
        reveal_strlit("0");
        reveal_strlit("1");
        reveal_strlit("2");
        reveal_strlit("3");
        reveal_strlit("4");
        reveal_strlit("5");
        reveal_strlit("6");
        reveal_strlit("7");
        reveal_strlit("8");
        reveal_strlit("9");
    }
    let r = if d == 0 {
        "0"
    } else if d == 1 {
        "1"
    } else if d == 2 {
        "2"
    } else if d == 3 {
        "3"
    } else if d == 4 {
        "4"
    } else if d == 5 {
        "5"
    } else if d == 6 {
        "6"
    } else if d == 7 {
        "7"
    } else if d == 8 {
        "8"
    } else {
        "9"
    };
    assert(r@ =~= seq![digit_char(d as int)]);
    r
}

/// The decimal digits of `n`.
pub fn decimal_string(n: u64) -> (r: String)
    ensures
        r@ == decimal(n as nat),
    decreases n,
{
    if n < 10 {
        String::from_str(digit_str(n))
    } else {
        let mut s = decimal_string(n / 10);
        s.append(digit_str(n % 10));
        assert(s@ =~= decimal(n as nat));
        s
    }
}

/// The decimal digits of `n`, behind a minus sign where `n` is negative.
pub fn signed_decimal_string(n: i64) -> (r: String)
    ensures
        r@ == signed_decimal(n as int),
{
    if n < 0 {
        let magnitude: u64 = (-(n + 1)) as u64 + 1;
        let digits = decimal_string(magnitude);
        let mut s = String::from_str("-");
        s.append(digits.as_str());
        proof {
            reveal_strlit("-");
            assert(s@ =~= signed_decimal(n as int));
        }
        s
    } else {
        decimal_string(n as u64)
    }
}

/// The decimal digits of `n`, filled up with zeros in front to at least `width`
/// characters.
pub fn zero_padded_string(n: u64, width: usize) -> (r: String)
    ensures
        r@ == zero_padded(n as nat, width as nat),
{
    let digits = decimal_string(n);
    let len = digits.as_str().unicode_len();
    let mut out = String::new();
    let mut k: usize = len;
    while k < width
        invariant
            len <= k,
            k <= width || k == len,
            out@ == zeros((k - len) as nat),
        decreases width - k,
    {
        out.append("0");
        k += 1;
        proof {
            reveal_strlit("0");
            assert(out@ =~= zeros((k - len) as nat));
        }
    }
    out.append(digits.as_str());
    proof {
        if len >= width {
            assert(out@ =~= decimal(n as nat));
        } else {
            assert(out@ =~= zero_padded(n as nat, width as nat));
        }
    }
    out
}

} // verus!
