//! Account lines of `/etc/passwd`: `name:password:uid:gid:gecos:home:shell`.

use vstd::prelude::*;

use crate::text::chars_of;

verus! {

/// An account, as read from one line of `/etc/passwd`.
pub struct User {
    pub name: String,
    pub uid: u64,
    pub gid: u64,
    pub dir: String,
    pub shell: String,
}

/// The pieces of `s` between the occurrences of `sep`, in order: one more
/// piece than there are separators, empty pieces included.
pub open spec fn split_on(s: Seq<char>, sep: char) -> Seq<Seq<char>>
    decreases s.len(),
{
    if s.len() == 0 {
        seq![Seq::<char>::empty()]
    } else {
        let init = split_on(s.drop_last(), sep);
        if s.last() == sep {
            init.push(Seq::<char>::empty())
        } else {
            init.update(init.len() - 1, init.last().push(s.last()))
        }
    }
}

/// There is always at least one piece.
pub proof fn lemma_split_on_nonempty(s: Seq<char>, sep: char)
    ensures
        split_on(s, sep).len() >= 1,
    decreases s.len(),
{
    if s.len() > 0 {
        lemma_split_on_nonempty(s.drop_last(), sep);
    }
}

/// The pieces `parts` put back together with `sep` between each two.
pub open spec fn join_with(parts: Seq<Seq<char>>, sep: char) -> Seq<char>
    decreases parts.len(),
{
    if parts.len() == 0 {
        Seq::empty()
    } else if parts.len() == 1 {
        parts[0]
    } else {
        join_with(parts.drop_last(), sep) + seq![sep] + parts.last()
    }
}

/// Splitting cuts only at the separator: no piece holds `sep`, and putting
/// the pieces back together with `sep` between them gives `s` again.
pub proof fn lemma_split_on_rejoins(s: Seq<char>, sep: char)
    ensures
        split_on(s, sep).len() >= 1,
        forall|i: int|
            0 <= i < split_on(s, sep).len() ==> !(#[trigger] split_on(s, sep)[i]).contains(sep),
        join_with(split_on(s, sep), sep) == s,
    decreases s.len(),
{
    lemma_split_on_nonempty(s, sep);
    if s.len() == 0 {
        let parts = split_on(s, sep);
        assert(parts[0] =~= Seq::<char>::empty());
        assert(join_with(parts, sep) =~= s);
    } else {
        let init = s.drop_last();
        let c = s.last();
        lemma_split_on_rejoins(init, sep);
        let p = split_on(init, sep);
        let q = split_on(s, sep);
        if c == sep {
            assert(q == p.push(Seq::<char>::empty()));
            assert(q.drop_last() =~= p);
            assert forall|i: int| 0 <= i < q.len() implies !(#[trigger] q[i]).contains(sep) by {
                if i < p.len() {
                    assert(q[i] == p[i]);
                } else {
                    assert(q[i] =~= Seq::<char>::empty());
                }
            }
            assert(join_with(q, sep) =~= init + seq![sep] + Seq::<char>::empty());
            assert(init + seq![sep] + Seq::<char>::empty() =~= s);
        } else {
            let last = p.last().push(c);
            assert(q == p.update(p.len() - 1, last));
            assert forall|i: int| 0 <= i < q.len() implies !(#[trigger] q[i]).contains(sep) by {
                if i < p.len() - 1 {
                    assert(q[i] == p[i]);
                } else {
                    assert(q[i] == last);
                    assert(!p[p.len() - 1].contains(sep));
                    if last.contains(sep) {
                        let j = choose|j: int| 0 <= j < last.len() && last[j] == sep;
                        if j < p.last().len() {
                            assert(p.last()[j] == sep);
                        }
                    }
                }
            }
            if p.len() == 1 {
                assert(join_with(q, sep) == q[0]);
                assert(join_with(p, sep) == p[0]);
                assert(q[0] =~= init.push(c));
            } else {
                assert(q.drop_last() =~= p.drop_last());
                assert(join_with(q, sep) =~= join_with(p.drop_last(), sep) + seq![sep] + last);
                assert(join_with(p, sep) =~= join_with(p.drop_last(), sep) + seq![sep] + p.last());
                assert(join_with(q, sep) =~= join_with(p, sep).push(c));
            }
            assert(init.push(c) =~= s);
        }
    }
}

/// Text without the separator only lengthens the last piece.
proof fn lemma_split_on_append_plain(x: Seq<char>, y: Seq<char>, sep: char)
    requires
        !y.contains(sep),
    ensures
        split_on(x + y, sep) == split_on(x, sep).update(
            split_on(x, sep).len() - 1,
            split_on(x, sep).last() + y,
        ),
    decreases y.len(),
{
    lemma_split_on_nonempty(x, sep);
    let p = split_on(x, sep);
    if y.len() == 0 {
        assert(x + y =~= x);
        assert(p.last() + y =~= p.last());
        assert(p.update(p.len() - 1, p.last() + y) =~= p);
    } else {
        let y0 = y.drop_last();
        let c = y.last();
        assert(!y0.contains(sep)) by {
            if y0.contains(sep) {
                let j = choose|j: int| 0 <= j < y0.len() && y0[j] == sep;
                assert(y[j] == sep);
            }
        }
        assert(c != sep) by {
            assert(y[y.len() - 1] == c);
        }
        lemma_split_on_append_plain(x, y0, sep);
        assert((x + y).drop_last() =~= x + y0);
        assert((x + y).last() == c);
        let q = split_on(x + y0, sep);
        assert(q.last() =~= p.last() + y0);
        assert(q.len() == p.len());
        assert(q.last().push(c) =~= p.last() + y);
        assert(q.update(q.len() - 1, q.last().push(c)) =~= p.update(p.len() - 1, p.last() + y));
    }
}

/// Splitting undoes joining: pieces without the separator, put together
/// with `sep` between them, split back into the same pieces.  So a line
/// `name:pw:uid:gid:gecos:home:shell` whose fields hold no `:` splits into
/// exactly those seven fields, whatever else (commas, spaces) they hold.
pub proof fn lemma_split_on_join(parts: Seq<Seq<char>>, sep: char)
    requires
        parts.len() >= 1,
        forall|i: int| 0 <= i < parts.len() ==> !(#[trigger] parts[i]).contains(sep),
    ensures
        split_on(join_with(parts, sep), sep) == parts,
    decreases parts.len(),
{
    let e = Seq::<char>::empty();
    if parts.len() == 1 {
        assert(!parts[0].contains(sep));
        lemma_split_on_append_plain(e, parts[0], sep);
        assert(e + parts[0] =~= parts[0]);
        assert(split_on(e, sep) =~= seq![e]);
        assert(e + parts[0] =~= parts[0]);
        assert(seq![e].update(0, e + parts[0]) =~= parts);
    } else {
        let init = parts.drop_last();
        let last = parts.last();
        assert forall|i: int| 0 <= i < init.len() implies !(#[trigger] init[i]).contains(sep) by {
            assert(init[i] == parts[i]);
        }
        assert(!last.contains(sep)) by {
            assert(parts[parts.len() - 1] == last);
        }
        lemma_split_on_join(init, sep);
        let j = join_with(init, sep);
        let js = j + seq![sep];
        assert(js.drop_last() =~= j);
        assert(js.last() == sep);
        assert(split_on(js, sep) == init.push(e));
        lemma_split_on_append_plain(js, last, sep);
        assert(join_with(parts, sep) == js + last);
        assert(e + last =~= last);
        assert(init.push(e).update(init.len() as int, e + last) =~= parts);
    }
}

/// Whether `c` is an ASCII decimal digit.
pub open spec fn is_digit(c: char) -> bool {
    '0' <= c && c <= '9'
}

/// The number that the decimal digits `s` denote (most significant first).
pub open spec fn digits_value(s: Seq<char>) -> nat
    decreases s.len(),
{
    if s.len() == 0 {
        0
    } else {
        digits_value(s.drop_last()) * 10 + ((s.last() as int) - ('0' as int)) as nat
    }
}

/// The digits of a decimal number: the text after a leading `+`, if there is
/// one and something follows it.
pub open spec fn unsigned_digits(s: Seq<char>) -> Seq<char> {
    if s.len() > 1 && s[0] == '+' {
        s.drop_first()
    } else {
        s
    }
}

/// The `u64` that `s` denotes as a decimal number, the way `str::parse`
/// reads one: an optional `+`, then one or more ASCII digits, and a value
/// that fits in 64 bits.  `None` for any other text.
pub open spec fn decimal_u64(s: Seq<char>) -> Option<u64> {
    let digits = unsigned_digits(s);
    if digits.len() > 0 && (forall|i: int| 0 <= i < digits.len() ==> is_digit(#[trigger] digits[i]))
        && digits_value(digits) <= u64::MAX {
        Some(digits_value(digits) as u64)
    } else {
        None
    }
}

/// A longer run of digits denotes at least as large a number as any of its
/// prefixes.
proof fn lemma_digits_value_grows(s: Seq<char>, k: int)
    requires
        0 <= k <= s.len(),
        forall|i: int| 0 <= i < s.len() ==> is_digit(#[trigger] s[i]),
    ensures
        digits_value(s.take(k)) <= digits_value(s),
    decreases s.len(),
{
    if k < s.len() {
        let init = s.drop_last();
        assert(init.take(k) =~= s.take(k));
        assert forall|i: int| 0 <= i < init.len() implies is_digit(#[trigger] init[i]) by {
            assert(init[i] == s[i]);
        }
        lemma_digits_value_grows(init, k);
    } else {
        assert(s.take(k) =~= s);
    }
}

/// Reads a decimal `u64` the way `str::parse::<u64>` does.
pub fn parse_decimal_u64(s: &str) -> (r: Option<u64>)
    ensures
        r == decimal_u64(s@),
{
    let v = chars_of(s);
    let start: usize = if v.len() > 1 && v[0] == '+' { 1 } else { 0 };
    let ghost digits = unsigned_digits(s@);
    assert(digits =~= v@.skip(start as int));
    if start == v.len() {
        return None;
    }
    let mut i: usize = start;
    while i < v.len()
        invariant
            v@ == s@,
            digits == v@.skip(start as int),
            digits == unsigned_digits(s@),
            start <= i <= v.len(),
            forall|j: int| 0 <= j < i - start ==> is_digit(#[trigger] digits[j]),
        decreases v.len() - i,
    {
        if !('0' <= v[i] && v[i] <= '9') {
            assert(!is_digit(digits[i - start]));
            return None;
        }
        i = i + 1;
    }
    let mut value: u64 = 0;
    let mut i: usize = start;
    while i < v.len()
        invariant
            v@ == s@,
            digits == v@.skip(start as int),
            digits == unsigned_digits(s@),
            digits.len() == v.len() - start,
            start <= i <= v.len(),
            forall|j: int| 0 <= j < digits.len() ==> is_digit(#[trigger] digits[j]),
            value == digits_value(digits.take(i - start)),
        decreases v.len() - i,
    {
        let ghost j = i - start;
        assert(digits.take(j + 1).drop_last() =~= digits.take(j));
        assert(digits[j] == v@[i as int]);
        assert(is_digit(digits[j]));
        let d = (v[i] as u32 - '0' as u32) as u64;
        match value.checked_mul(10) {
            Some(m) => match m.checked_add(d) {
                Some(next) => {
                    value = next;
                },
                None => {
                    proof {
                        lemma_digits_value_grows(digits, j + 1);
                    }
                    return None;
                },
            },
            None => {
                proof {
                    lemma_digits_value_grows(digits, j + 1);
                }
                return None;
            },
        }
        i = i + 1;
    }
    assert(digits.take(digits.len() as int) =~= digits);
    Some(value)
}

/// Splits `line` at every `sep`.
fn split_line(line: &str, sep: char) -> (parts: Vec<String>)
    ensures
        parts@.map_values(|p: String| p@) == split_on(line@, sep),
{
    let mut parts: Vec<String> = Vec::new();
    let mut current = String::new();
    for c in it: line.chars()
        invariant
            it.seq() == line@,
            parts@.map_values(|p: String| p@).push(current@) == split_on(
                it.seq().take(it.index() as int),
                sep,
            ),
    {
        let ghost before = it.seq().take(it.index() as int);
        let ghost after = it.seq().take(it.index() + 1);
        assert(after.drop_last() =~= before);
        let ghost old_parts = parts@.map_values(|p: String| p@);
        if c == sep {
            parts.push(current);
            current = String::new();
            assert(parts@.map_values(|p: String| p@) =~= old_parts.push(
                split_on(before, sep).last(),
            ));
        } else {
            current.push(c);
            assert(parts@.map_values(|p: String| p@) =~= old_parts);
        }
        assert(parts@.map_values(|p: String| p@).push(current@) =~= split_on(after, sep));
    }
    assert(line@.take(line@.len() as int) =~= line@);
    let ghost old_parts = parts@.map_values(|p: String| p@);
    parts.push(current);
    assert(parts@.map_values(|p: String| p@) =~= old_parts.push(current@));
    parts
}

/// What `parse_user` reads from a line: the pieces of the line between the
/// colons, when there are at least seven and the third and fourth are
/// decimal `u64`s.
pub open spec fn user_fields_ok(line: Seq<char>) -> bool {
    let parts = split_on(line, ':');
    &&& parts.len() >= 7
    &&& decimal_u64(parts[2]) is Some
    &&& decimal_u64(parts[3]) is Some
}

/// Reads one line of `/etc/passwd` into a [`User`]: the name is the first
/// field, the uid and gid the third and fourth, the home directory and the
/// shell the sixth and seventh.  `None` when the line has fewer than seven
/// colon-separated fields or the uid or gid is not a decimal `u64`.
pub fn parse_user(line: &str) -> (r: Option<User>)
    ensures
        r is Some <==> user_fields_ok(line@),
        r matches Some(u) ==> {
            let parts = split_on(line@, ':');
            &&& u.name@ == parts[0]
            &&& Some(u.uid) == decimal_u64(parts[2])
            &&& Some(u.gid) == decimal_u64(parts[3])
            &&& u.dir@ == parts[5]
            &&& u.shell@ == parts[6]
        },
{
    let parts = split_line(line, ':');
    let ghost pieces = split_on(line@, ':');
    assert(parts@.len() == pieces.len());
    if parts.len() >= 7 {
        assert(parts@[2]@ == pieces[2]);
        assert(parts@[3]@ == pieces[3]);
        let uid = match parse_decimal_u64(parts[2].as_str()) {
            Some(v) => v,
            None => {
                return None;
            },
        };
        let gid = match parse_decimal_u64(parts[3].as_str()) {
            Some(v) => v,
            None => {
                return None;
            },
        };
        assert(parts@[0]@ == pieces[0]);
        assert(parts@[5]@ == pieces[5]);
        assert(parts@[6]@ == pieces[6]);
        Some(
            User {
                name: parts[0].clone(),
                uid: uid,
                gid: gid,
                dir: parts[5].clone(),
                shell: parts[6].clone(),
            },
        )
    } else {
        None
    }
}

} // verus!
