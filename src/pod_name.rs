//! Recovers the owning workload's name from a generated Kubernetes pod name.
use vstd::prelude::*;
use vstd::string::*;

verus! {

/// A character allowed in a generated suffix token: anything but `%` and `-`.
pub open spec fn is_token_char(c: char) -> bool {
    c != '%' && c != '-'
}

pub open spec fn is_digit(c: char) -> bool {
    '0' <= c && c <= '9'
}

/// The first `end` characters of `s` form a usable base name: at least one
/// character, none of them a line break.
pub open spec fn is_base_prefix(s: Seq<char>, end: int) -> bool {
    0 < end <= s.len() && forall|i: int| 0 <= i < end ==> s[i] != '\n'
}

/// Every character of `s` in `from..to` is a token character.
pub open spec fn is_token_range(s: Seq<char>, from: int, to: int) -> bool {
    forall|i: int| from <= i < to ==> is_token_char(#[trigger] s[i])
}

/// Number of decimal digits that end `s`.
pub open spec fn digit_run(s: Seq<char>) -> nat
    decreases s.len(),
{
    if s.len() > 0 && is_digit(s.last()) {
        digit_run(s.drop_last()) + 1
    } else {
        0
    }
}

/// `<base>-<10 token chars>-<5 token chars>`, as a Deployment's pods are named.
pub open spec fn has_replica_suffix(s: Seq<char>) -> bool {
    let n = s.len() as int;
    n >= 18 && is_base_prefix(s, n - 17) && s[n - 17] == '-' && is_token_range(s, n - 16, n - 6)
        && s[n - 6] == '-' && is_token_range(s, n - 5, n)
}

/// `<base>-<decimal integer>`, as a StatefulSet's pods are named.
pub open spec fn has_ordinal_suffix(s: Seq<char>) -> bool {
    let n = s.len() as int;
    let k = digit_run(s) as int;
    k >= 1 && n >= k + 2 && s[n - k - 1] == '-' && is_base_prefix(s, n - k - 1)
}

/// `<base>-<5 token chars>`, as the pods of a Job or a DaemonSet are named.
pub open spec fn has_short_suffix(s: Seq<char>) -> bool {
    let n = s.len() as int;
    n >= 7 && is_base_prefix(s, n - 6) && s[n - 6] == '-' && is_token_range(s, n - 5, n)
}

pub open spec fn has_generator_suffix(s: Seq<char>) -> bool {
    has_replica_suffix(s) || has_ordinal_suffix(s) || has_short_suffix(s)
}

/// The workload name of a pod: the first suffix shape that fits, in the order
/// replica, ordinal, short, is removed; a name that fits none is kept whole.
pub open spec fn normalized_pod_name(s: Seq<char>) -> Seq<char> {
    let n = s.len() as int;
    if has_replica_suffix(s) {
        s.take(n - 17)
    } else if has_ordinal_suffix(s) {
        s.take(n - digit_run(s) - 1)
    } else if has_short_suffix(s) {
        s.take(n - 6)
    } else {
        s
    }
}

fn no_line_break_before(s: &str, end: usize) -> (r: bool)
    requires
        end <= s@.len(),
    ensures
        r == (forall|i: int| 0 <= i < end ==> s@[i] != '\n'),
{
    let mut i: usize = 0;
    while i < end
        invariant
            i <= end <= s@.len(),
            forall|j: int| 0 <= j < i ==> s@[j] != '\n',
        decreases end - i,
    {
        if s.get_char(i) == '\n' {
            return false;
        }
        i = i + 1;
    }
    true
}

fn all_token_chars(s: &str, from: usize, to: usize) -> (r: bool)
    requires
        from <= to <= s@.len(),
    ensures
        r == is_token_range(s@, from as int, to as int),
{
    let mut i: usize = from;
    while i < to
        invariant
            from <= i <= to <= s@.len(),
            is_token_range(s@, from as int, i as int),
        decreases to - i,
    {
        let c = s.get_char(i);
        if c == '%' || c == '-' {
            return false;
        }
        i = i + 1;
    }
    true
}

fn trailing_digits(s: &str) -> (k: usize)
    ensures
        k == digit_run(s@),
        k <= s@.len(),
{
    let n = s.unicode_len();
    let mut i: usize = n;
    assert(s@.take(n as int) =~= s@);
    while i > 0
        invariant
            i <= n == s@.len(),
            digit_run(s@) == (n - i) + digit_run(s@.take(i as int)),
        ensures
            i <= n == s@.len(),
            digit_run(s@) == (n - i) + digit_run(s@.take(i as int)),
            i == 0 || !is_digit(s@[i - 1]),
        decreases i,
    {
        let c = s.get_char(i - 1);
        if !('0' <= c && c <= '9') {
            break;
        }
        assert(s@.take(i as int).drop_last() =~= s@.take(i - 1));
        i = i - 1;
    }
    assert(digit_run(s@.take(i as int)) == 0) by {
        if i > 0 {
            assert(s@.take(i as int).last() == s@[i - 1]);
        }
    }
    n - i
}

/// The name of the workload that owns the pod `full_pod_name`.
pub fn extract_pod_name(full_pod_name: &str) -> (r: String)
    ensures
        r@ == normalized_pod_name(full_pod_name@),
{
    let s = full_pod_name;
    let n = s.unicode_len();
    if n >= 18 && no_line_break_before(s, n - 17) && s.get_char(n - 17) == '-'
        && all_token_chars(s, n - 16, n - 6) && s.get_char(n - 6) == '-'
        && all_token_chars(s, n - 5, n) {
        return s.substring_char(0, n - 17).to_owned();
    }
    let k = trailing_digits(s);
    if k >= 1 && n - k >= 2 && s.get_char(n - k - 1) == '-' && no_line_break_before(s, n - k - 1) {
        return s.substring_char(0, n - k - 1).to_owned();
    }
    if n >= 7 && no_line_break_before(s, n - 6) && s.get_char(n - 6) == '-'
        && all_token_chars(s, n - 5, n) {
        return s.substring_char(0, n - 6).to_owned();
    }
    s.to_owned()
}

/// A name that carries no generator suffix is its own workload name, so
/// normalizing it a second time changes nothing.
pub proof fn lemma_normalize_idempotent_without_suffix(s: Seq<char>)
    requires
        !has_generator_suffix(s),
    ensures
        normalized_pod_name(s) == s,
        normalized_pod_name(normalized_pod_name(s)) == normalized_pod_name(s),
{
}

} // verus!
