//! Character-sequence helpers shared by the session and routing logic.

use vstd::prelude::*;
use vstd::string::StrSliceExecFns;

verus! {

/// Appends one character to a string (std's `String::push`).
///
/// Claims of `String::push`: the new contents are the old ones followed by `c`.
#[verifier::external_body]
pub(crate) fn push_char(s: &mut String, c: char)
    ensures
        final(s)@ == old(s)@.push(c),
{
    s.push(c);
}

/// The character of a decimal digit `d` (`0 <= d < 10`).
pub open spec fn digit_char(d: nat) -> char {
    ((48 + d) as u32) as char
}

/// Decimal notation of `n`, most significant digit first, without leading zeros.
pub open spec fn decimal(n: nat) -> Seq<char>
    decreases n,
{
    if n < 10 {
        seq![digit_char(n)]
    } else {
        decimal(n / 10).push(digit_char(n % 10))
    }
}

fn digit(d: u32) -> (c: char)
    requires
        d < 10,
    ensures
        c == digit_char(d as nat),
{
    ((48u8 + d as u8) as char)
}

/// Writes `n` in decimal notation, as `format!("{}", n)` does.
pub fn decimal_string(n: u32) -> (s: String)
    ensures
        s@ == decimal(n as nat),
    decreases n,
{
    if n < 10 {
        let mut s = String::new();
        push_char(&mut s, digit(n));
        s
    } else {
        let mut s = decimal_string(n / 10);
        push_char(&mut s, digit(n % 10));
        s
    }
}

/// Position of the first `c` in `s`; the length of `s` where `c` does not occur.
pub open spec fn first_index(s: Seq<char>, c: char) -> nat
    decreases s.len(),
{
    if s.len() == 0 {
        0
    } else if s[0] == c {
        0
    } else {
        1 + first_index(s.drop_first(), c)
    }
}

/// What precedes the first `c` in `s` (all of `s` where `c` does not occur): the first
/// piece that `str::split(c)` yields.
pub open spec fn before_first(s: Seq<char>, c: char) -> Seq<char> {
    s.take(first_index(s, c) as int)
}

/// What follows the last `c` in `s` (all of `s` where `c` does not occur): the first
/// piece that `str::rsplit(c)` yields.
pub open spec fn last_segment(s: Seq<char>, c: char) -> Seq<char>
    decreases s.len(),
{
    if s.len() == 0 {
        s
    } else if s.last() == c {
        Seq::empty()
    } else {
        last_segment(s.drop_last(), c).push(s.last())
    }
}

/// `p` is a prefix of `s`.
pub open spec fn has_prefix(s: Seq<char>, p: Seq<char>) -> bool {
    p.len() <= s.len() && s.take(p.len() as int) == p
}

proof fn lemma_first_index(s: Seq<char>, c: char, i: int)
    requires
        0 <= i <= s.len(),
        forall|j: int| 0 <= j < i ==> s[j] != c,
        i == s.len() || s[i] == c,
    ensures
        first_index(s, c) == i,
    decreases i,
{
    if i > 0 {
        let t = s.drop_first();
        assert forall|j: int| 0 <= j < i - 1 implies t[j] != c by {
            assert(t[j] == s[j + 1]);
        }
        lemma_first_index(t, c, i - 1);
    }
}

proof fn lemma_last_segment(s: Seq<char>, c: char, j: int)
    requires
        0 <= j <= s.len(),
        forall|k: int| j <= k < s.len() ==> s[k] != c,
        j == 0 || s[j - 1] == c,
    ensures
        last_segment(s, c) == s.subrange(j, s.len() as int),
    decreases s.len() - j,
{
    if s.len() == 0 {
        assert(s.subrange(j, s.len() as int) =~= s);
    } else if j == s.len() {
        assert(s.last() == c);
        assert(s.subrange(j, s.len() as int) =~= Seq::<char>::empty());
    } else {
        let t = s.drop_last();
        assert(s.last() != c);
        assert forall|k: int| j <= k < t.len() implies t[k] != c by {
            assert(t[k] == s[k]);
        }
        if j > 0 {
            assert(t[j - 1] == s[j - 1]);
        }
        lemma_last_segment(t, c, j);
        assert(t.subrange(j, t.len() as int).push(s.last()) =~= s.subrange(j, s.len() as int));
    }
}

/// Position of the first `c` in `s`, or the length of `s` where there is none.
pub fn first_index_of(s: &str, c: char) -> (i: usize)
    ensures
        i == first_index(s@, c),
        i <= s@.len(),
        (i < s@.len()) == s@.contains(c),
{
    let n = s.unicode_len();
    let mut i: usize = 0;
    while i < n
        invariant
            n == s@.len(),
            i <= n,
            forall|j: int| 0 <= j < i ==> s@[j] != c,
        decreases n - i,
    {
        if s.get_char(i) == c {
            proof {
                lemma_first_index(s@, c, i as int);
            }
            return i;
        }
        i += 1;
    }
    proof {
        lemma_first_index(s@, c, i as int);
    }
    i
}

/// Where the piece after the last `c` in `s` begins (0 where `c` does not occur).
pub fn last_segment_start(s: &str, c: char) -> (j: usize)
    ensures
        j <= s@.len(),
        s@.subrange(j as int, s@.len() as int) == last_segment(s@, c),
{
    let n = s.unicode_len();
    let mut j: usize = n;
    while j > 0
        invariant
            n == s@.len(),
            j <= n,
            forall|k: int| j <= k < n ==> s@[k] != c,
        ensures
            j == 0 || s@[j - 1] == c,
        decreases j,
    {
        if s.get_char(j - 1) == c {
            break;
        }
        j -= 1;
    }
    proof {
        lemma_last_segment(s@, c, j as int);
    }
    j
}

/// The piece of `path` after its last backslash: the file name of a Windows path, as
/// `path.rsplit('\\').next()` gives it.
pub fn file_name_of(path: &str) -> (name: String)
    ensures
        name@ == last_segment(path@, '\\'),
{
    let j = last_segment_start(path, '\\');
    let n = path.unicode_len();
    let tail = path.substring_char(j, n);
    String::from_str(tail)
}

proof fn lemma_decimal_shape(n: nat)
    ensures
        decimal(n).len() >= 1,
        n < 10 <==> decimal(n).len() == 1,
        forall|i: int| 0 <= i < decimal(n).len() ==> #[trigger] decimal(n)[i] != '-',
    decreases n,
{
    if n >= 10 {
        lemma_decimal_shape(n / 10);
        let d = decimal(n / 10);
        assert forall|i: int| 0 <= i < decimal(n).len() implies #[trigger] decimal(n)[i] != '-' by {
            if i < d.len() {
                assert(decimal(n)[i] == d[i]);
            }
        }
    }
}

/// Different numbers have different decimal notations.
pub proof fn lemma_decimal_injective(a: nat, b: nat)
    requires
        decimal(a) == decimal(b),
    ensures
        a == b,
    decreases a,
{
    lemma_decimal_shape(a);
    lemma_decimal_shape(b);
    if a < 10 {
        assert(b < 10);
        assert(decimal(a) == seq![digit_char(a)]);
        assert(decimal(b) == seq![digit_char(b)]);
        assert(seq![digit_char(a)][0] == digit_char(a));
        assert(seq![digit_char(b)][0] == digit_char(b));
        assert(decimal(a)[0] == decimal(b)[0]);
    } else {
        let da = decimal(a);
        let db = decimal(b);
        assert(b >= 10);
        assert(da.last() == db.last());
        assert(da.last() == digit_char(a % 10));
        assert(db.last() == digit_char(b % 10));
        assert(a % 10 == b % 10);
        assert(da.drop_last() =~= decimal(a / 10));
        assert(db.drop_last() =~= decimal(b / 10));
        lemma_decimal_injective(a / 10, b / 10);
        assert(a == 10 * (a / 10) + a % 10);
        assert(b == 10 * (b / 10) + b % 10);
    }
}

/// The key `<pid>-<session id>` under which a pass over the sessions can tell sessions
/// apart.
pub open spec fn session_key(pid: u32, session_id: Seq<char>) -> Seq<char> {
    decimal(pid as nat) + seq!['-'] + session_id
}

/// Two sessions have the same key `<pid>-<session id>` only when they have the same
/// process id and the same session identifier: telling sessions apart by the pair is
/// telling them apart by the key.
pub proof fn lemma_session_key_injective(p1: u32, s1: Seq<char>, p2: u32, s2: Seq<char>)
    requires
        session_key(p1, s1) == session_key(p2, s2),
    ensures
        p1 == p2,
        s1 == s2,
{
    let d1 = decimal(p1 as nat);
    let d2 = decimal(p2 as nat);
    let k = session_key(p1, s1);
    lemma_decimal_shape(p1 as nat);
    lemma_decimal_shape(p2 as nat);
    if d1.len() < d2.len() {
        assert(k[d1.len() as int] == '-');
        assert(session_key(p2, s2)[d1.len() as int] == d2[d1.len() as int]);
        assert(false);
    } else if d2.len() < d1.len() {
        assert(session_key(p2, s2)[d2.len() as int] == '-');
        assert(k[d2.len() as int] == d1[d2.len() as int]);
        assert(false);
    }
    assert(d1 =~= k.take(d1.len() as int));
    assert(d2 =~= session_key(p2, s2).take(d2.len() as int));
    lemma_decimal_injective(p1 as nat, p2 as nat);
    assert(s1 =~= k.skip(d1.len() as int + 1));
    assert(s2 =~= session_key(p2, s2).skip(d2.len() as int + 1));
}

/// The number that a string of ASCII digits denotes in base 10.
pub open spec fn digits_value(s: Seq<char>) -> int
    decreases s.len(),
{
    if s.len() == 0 {
        0
    } else {
        digits_value(s.drop_last()) * 10 + ((s.last() as u32) as int - 48)
    }
}

/// `decimal(n)` is the base-10 notation of `n`: it consists of ASCII digits `'0'..='9'`,
/// begins with a non-zero digit unless `n` is 0, and its digits, read with their place
/// values, make `n`.
pub proof fn lemma_decimal_is_base_ten(n: nat)
    ensures
        decimal(n).len() >= 1,
        forall|i: int| 0 <= i < decimal(n).len() ==> '0' <= #[trigger] decimal(n)[i] <= '9',
        n > 0 ==> decimal(n)[0] != '0',
        digits_value(decimal(n)) == n,
    decreases n,
{
    if n >= 10 {
        lemma_decimal_is_base_ten(n / 10);
        let d = decimal(n / 10);
        let s = decimal(n);
        assert(s == d.push(digit_char(n % 10)));
        assert forall|i: int| 0 <= i < s.len() implies '0' <= #[trigger] s[i] <= '9' by {
            if i < d.len() {
                assert(s[i] == d[i]);
            }
        }
        assert(s[0] == d[0]);
        assert(s.drop_last() =~= d);
        assert(s.last() == digit_char(n % 10));
        assert((digit_char(n % 10) as u32) as int == 48 + n % 10);
        assert(digits_value(s) == digits_value(d) * 10 + ((s.last() as u32) as int - 48));
        assert(n == (n / 10) * 10 + n % 10);
        assert(digits_value(d) == n / 10);
        assert(digits_value(s) == n);
    } else {
        assert(decimal(n) == seq![digit_char(n)]);
        assert(seq![digit_char(n)][0] == digit_char(n));
        assert(decimal(n).drop_last() =~= Seq::<char>::empty());
        assert((digit_char(n) as u32) as int == 48 + n);
        assert(decimal(n).last() == digit_char(n));
        assert(digits_value(decimal(n).drop_last()) == 0);
        assert(digits_value(decimal(n)) == n);
    }
}

/// What precedes the first `c` is a prefix of `s` without `c`, and it is all of `s` or is
/// followed in `s` by a `c`.
pub proof fn lemma_before_first_shape(s: Seq<char>, c: char)
    ensures
        first_index(s, c) <= s.len(),
        before_first(s, c).len() <= s.len(),
        before_first(s, c) == s.take(before_first(s, c).len() as int),
        !before_first(s, c).contains(c),
        before_first(s, c).len() == s.len() || s[before_first(s, c).len() as int] == c,
    decreases s.len(),
{
    if s.len() > 0 && s[0] != c {
        let t = s.drop_first();
        lemma_before_first_shape(t, c);
        let k = first_index(t, c);
        assert(first_index(s, c) == 1 + k);
        let b = before_first(s, c);
        let bt = before_first(t, c);
        assert(k <= t.len());
        assert forall|i: int| 0 <= i < b.len() implies b[i] == (seq![s[0]] + bt)[i] by {
            if i > 0 {
                assert(bt[i - 1] == t[i - 1]);
                assert(t[i - 1] == s[i]);
            }
        }
        assert(b =~= seq![s[0]] + bt);
        if b.contains(c) {
            let i = choose|i: int| 0 <= i < b.len() && b[i] == c;
            if i > 0 {
                assert(bt[i - 1] == c);
            }
        }
        if k < t.len() {
            assert(s[b.len() as int] == t[k as int]);
        }
    } else if s.len() > 0 {
        assert(before_first(s, c) =~= Seq::<char>::empty());
    }
}

/// What follows the last `c` is a suffix of `s` without `c`, and it is all of `s` or is
/// preceded in `s` by a `c`.
pub proof fn lemma_last_segment_shape(s: Seq<char>, c: char)
    ensures
        last_segment(s, c).len() <= s.len(),
        last_segment(s, c) == s.skip(s.len() - last_segment(s, c).len()),
        !last_segment(s, c).contains(c),
        last_segment(s, c).len() == s.len() || s[s.len() - last_segment(s, c).len() - 1] == c,
    decreases s.len(),
{
    if s.len() > 0 {
        if s.last() == c {
            assert(s.skip(s.len() as int) =~= Seq::<char>::empty());
        } else {
            let t = s.drop_last();
            lemma_last_segment_shape(t, c);
            let lt = last_segment(t, c);
            let l = last_segment(s, c);
            assert(l == lt.push(s.last()));
            assert(l =~= s.skip(s.len() - l.len())) by {
                assert forall|i: int| 0 <= i < l.len() implies l[i] == s.skip(s.len() - l.len())[i] by {
                    if i < lt.len() {
                        assert(lt[i] == t.skip(t.len() - lt.len())[i]);
                    }
                }
            }
            if l.contains(c) {
                let i = choose|i: int| 0 <= i < l.len() && l[i] == c;
                assert(i < lt.len());
                assert(lt[i] == c);
            }
            if lt.len() < t.len() {
                assert(s[s.len() - l.len() - 1] == t[t.len() - lt.len() - 1]);
            }
        }
    }
}

} // verus!
