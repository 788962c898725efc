//! A circular log of the last `N` keystrokes.
//!
//! The log is an array `buffer` of `N` characters together with a `head`
//! index: the next keystroke is written at `head`, which then moves one slot
//! forward, wrapping around at `N`.  Read from `head` onwards, the array holds
//! the keystrokes from the oldest to the most recent.

use vstd::prelude::*;
use vstd::arithmetic::div_mod::{lemma_add_mod_noop, lemma_fundamental_div_mod_converse_mod, lemma_small_mod};

use crate::text::ends_with;

verus! {

/// The contents of a circular log read oldest first: the `len` characters
/// that start at slot `head % len` and wrap around the end of `buf`.
pub open spec fn window(buf: Seq<char>, head: int) -> Seq<char> {
    Seq::new(buf.len(), |i: int| buf[(head + i) % (buf.len() as int)])
}

/// Two positions `k` and `N - 1` of a window that start at the same slot
/// coincide modulo `N` only when `k == N - 1`.
proof fn lemma_last_slot(h: int, k: int, n: int)
    requires
        n > 0,
        h >= 0,
        0 <= k < n,
        (h + k) % n == (h + n - 1) % n,
    ensures
        k == n - 1,
{
    let q1 = (h + k) / n;
    let q2 = (h + n - 1) / n;
    vstd::arithmetic::div_mod::lemma_fundamental_div_mod(h + k, n);
    vstd::arithmetic::div_mod::lemma_fundamental_div_mod(h + n - 1, n);
    assert(n * (q2 - q1) == n - 1 - k) by (nonlinear_arith)
        requires
            h + k == n * q1 + (h + k) % n,
            h + n - 1 == n * q2 + (h + n - 1) % n,
            (h + k) % n == (h + n - 1) % n,
    ;
    assert(q2 - q1 == 0) by (nonlinear_arith)
        requires
            n * (q2 - q1) == n - 1 - k,
            0 <= n - 1 - k < n,
    ;
}

/// Records the keystroke `c`: it is written at slot `head`, and `head`
/// moves to the next slot, wrapping around after the last one.
pub fn log_keystroke<const N: usize>(c: char, buffer: &mut [char; N], head: &mut usize)
    requires
        *old(head) < N,
    ensures
        final(buffer)@ == old(buffer)@.update(*old(head) as int, c),
        *final(head) == (*old(head) + 1) % (N as int),
        *final(head) < N,
{
    buffer[*head] = c;
    *head = (*head + 1) % N;
}

/// The content of the log as a string, oldest keystroke first: the `N`
/// characters that start at slot `head % N`.
pub fn buffer_to_string<const N: usize>(buffer: [char; N], head: usize) -> (s: String)
    requires
        N > 0,
        head + (N - 1) <= usize::MAX,
    ensures
        s@ == window(buffer@, head as int),
        s@.len() == N,
{
    let mut result = String::new();
    let mut index = head % N;
    let last = (head + (N - 1)) % N;
    let ghost w = window(buffer@, head as int);
    loop
        invariant_except_break
            index == (head + result@.len()) % (N as int),
            result@.len() < N,
            result@ == w.take(result@.len() as int),
        invariant
            N > 0,
            head + (N - 1) <= usize::MAX,
            last == (head + (N - 1)) % (N as int),
            w == window(buffer@, head as int),
            w.len() == N,
        ensures
            result@ == w,
        decreases N - result@.len(),
    {
        let ghost k = result@.len() as int;
        let c = buffer[index];
        result.push(c);
        assert(result@ == w.take(k + 1));
        if index == last {
            proof {
                lemma_last_slot(head as int, k, N as int);
            }
            assert(w.take(k + 1) == w);
            break;
        }
        proof {
            lemma_add_mod_noop(head + k, 1, N as int);
            lemma_small_mod(1, N as nat);
            lemma_small_mod(index as nat, N as nat);
        }
        index = (index + 1) % N;
    }
    result
}

/// Whether the log, read oldest first, ends with `alias`.
pub fn buffer_matches<const N: usize>(buffer: [char; N], head: usize, alias: String) -> (b: bool)
    requires
        N > 0,
        head + (N - 1) <= usize::MAX,
    ensures
        b == alias@.is_suffix_of(window(buffer@, head as int)),
{
    let buffer_str = buffer_to_string(buffer, head);
    ends_with(buffer_str.as_str(), alias.as_str())
}

/// A value in `[0, 2n)` reduced modulo `n`.
proof fn lemma_mod_wrap(x: int, n: int)
    requires
        n > 0,
        0 <= x < 2 * n,
    ensures
        x % n == if x < n { x } else { x - n },
{
    if x < n {
        lemma_fundamental_div_mod_converse_mod(x, n, 0, x);
    } else {
        lemma_fundamental_div_mod_converse_mod(x, n, 1, x - n);
    }
}

/// Logging one keystroke shifts the log by one place: read oldest first,
/// the oldest keystroke drops out and the new one comes in last.
pub proof fn lemma_log_shifts_window(buf: Seq<char>, head: int, c: char)
    requires
        0 <= head < buf.len(),
    ensures
        window(buf.update(head, c), (head + 1) % (buf.len() as int))
            == window(buf, head).drop_first().push(c),
{
    let n = buf.len() as int;
    let nb = buf.update(head, c);
    let nh = (head + 1) % n;
    let lhs = window(nb, nh);
    let rhs = window(buf, head).drop_first().push(c);
    lemma_mod_wrap(head + 1, n);
    assert forall|i: int| 0 <= i < n implies lhs[i] == rhs[i] by {
        lemma_mod_wrap(nh + i, n);
        lemma_mod_wrap(head + 1 + i, n);
        assert((nh + i) % n == (head + 1 + i) % n);
        if i < n - 1 {
            lemma_mod_wrap(head + (i + 1), n);
        }
    }
    assert(lhs =~= rhs);
}

/// The state of a log of `buf.len()` slots, written from slot `head`, after
/// the keystrokes `keys` were logged one after the other.
pub open spec fn log_all(buf: Seq<char>, head: int, keys: Seq<char>) -> (Seq<char>, int)
    decreases keys.len(),
{
    if keys.len() == 0 {
        (buf, head)
    } else {
        let (b, h) = log_all(buf, head, keys.drop_last());
        (b.update(h, keys.last()), (h + 1) % (buf.len() as int))
    }
}

/// Whatever the log held before, after the keystrokes `keys` it holds the
/// last `N` characters of its old content followed by `keys`; in particular,
/// once at least `N` keys were logged, it holds exactly the last `N` of them.
pub proof fn lemma_log_keeps_last_keys(buf: Seq<char>, head: int, keys: Seq<char>)
    requires
        0 <= head < buf.len(),
    ensures
        log_all(buf, head, keys).0.len() == buf.len(),
        0 <= log_all(buf, head, keys).1 < buf.len(),
        window(log_all(buf, head, keys).0, log_all(buf, head, keys).1)
            == (window(buf, head) + keys).subrange(
            keys.len() as int,
            (keys.len() + buf.len()) as int,
        ),
    decreases keys.len(),
{
    let n = buf.len() as int;
    if keys.len() == 0 {
        assert(window(buf, head) + keys =~= window(buf, head));
    } else {
        let prev = keys.drop_last();
        lemma_log_keeps_last_keys(buf, head, prev);
        let (b, h) = log_all(buf, head, prev);
        lemma_log_shifts_window(b, h, keys.last());
        lemma_mod_wrap(h + 1, n);
        let w0 = window(buf, head);
        let k = keys.len() as int;
        assert((w0 + prev).subrange(k - 1, k - 1 + n).drop_first().push(keys.last())
            =~= (w0 + keys).subrange(k, k + n));
    }
}

/// An abbreviation no longer than the log is recognised as soon as its last
/// character is logged: if the keystrokes `keys` end with `alias`, the log
/// read oldest first ends with `alias` too.
pub proof fn lemma_typed_alias_matches(buf: Seq<char>, head: int, keys: Seq<char>, alias: Seq<char>)
    requires
        0 <= head < buf.len(),
        alias.len() <= buf.len(),
        alias.is_suffix_of(keys),
    ensures
        alias.is_suffix_of(window(log_all(buf, head, keys).0, log_all(buf, head, keys).1)),
{
    lemma_log_keeps_last_keys(buf, head, keys);
    let n = buf.len() as int;
    let k = keys.len() as int;
    let a = alias.len() as int;
    let w = window(log_all(buf, head, keys).0, log_all(buf, head, keys).1);
    let full = window(buf, head) + keys;
    assert forall|i: int| 0 <= i < a implies alias[i] == w.subrange(n - a, n)[i] by {
        assert(w[n - a + i] == full[k + n - a + i]);
        assert(full[k + n - a + i] == keys[k - a + i]);
    }
    assert(alias =~= w.subrange(n - a, n));
}

} // verus!
