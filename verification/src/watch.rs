//! The watch set: the paths read at startup and the all-or-nothing
//! registration rule.

use vstd::prelude::*;

verus! {

/// The input split at every newline; a leading, trailing or doubled newline
/// contributes an empty segment.
pub open spec fn split_on_newlines(s: Seq<char>) -> Seq<Seq<char>>
    decreases s.len(),
{
    if s.len() == 0 {
        seq![Seq::<char>::empty()]
    } else if s[0] == '\n' {
        seq![Seq::<char>::empty()] + split_on_newlines(s.skip(1))
    } else {
        let rest = split_on_newlines(s.skip(1));
        seq![seq![s[0]] + rest[0]] + rest.skip(1)
    }
}

/// The segments that are not blank, in order.
pub open spec fn keep_nonempty(ls: Seq<Seq<char>>) -> Seq<Seq<char>>
    decreases ls.len(),
{
    if ls.len() == 0 {
        Seq::<Seq<char>>::empty()
    } else {
        (if ls[0].len() != 0 {
            seq![ls[0]]
        } else {
            Seq::<Seq<char>>::empty()
        }) + keep_nonempty(ls.skip(1))
    }
}

/// The watch paths contained in raw newline-separated input: its nonempty
/// lines, in order, with blank lines skipped.
pub open spec fn nonempty_lines(s: Seq<char>) -> Seq<Seq<char>> {
    keep_nonempty(split_on_newlines(s))
}

pub open spec fn has_no_newline(s: Seq<char>) -> bool {
    forall|k: int| 0 <= k < s.len() ==> s[k] != '\n'
}

proof fn lemma_split_no_newline(a: Seq<char>)
    requires
        has_no_newline(a),
    ensures
        split_on_newlines(a) == seq![a],
    decreases a.len(),
{
    if a.len() == 0 {
        assert(a =~= Seq::<char>::empty());
        assert(seq![Seq::<char>::empty()] =~= seq![a]);
    } else {
        lemma_split_no_newline(a.skip(1));
        assert(seq![a[0]] + a.skip(1) =~= a);
        assert(seq![a.skip(1)].skip(1) =~= Seq::<Seq<char>>::empty());
        assert(split_on_newlines(a) =~= seq![a]);
    }
}

proof fn lemma_split_chunk(a: Seq<char>, b: Seq<char>)
    requires
        has_no_newline(a),
    ensures
        split_on_newlines(a + seq!['\n'] + b) == seq![a] + split_on_newlines(b),
    decreases a.len(),
{
    let s = a + seq!['\n'] + b;
    if a.len() == 0 {
        assert(a =~= Seq::<char>::empty());
        assert(s[0] == '\n');
        assert(s.skip(1) =~= b);
        assert(split_on_newlines(s) =~= seq![a] + split_on_newlines(b));
    } else {
        assert(s[0] == a[0]);
        assert(s.skip(1) =~= a.skip(1) + seq!['\n'] + b);
        lemma_split_chunk(a.skip(1), b);
        let rest = split_on_newlines(s.skip(1));
        assert(rest[0] == a.skip(1));
        assert(rest.skip(1) =~= split_on_newlines(b));
        assert(seq![s[0]] + rest[0] =~= a);
        assert(split_on_newlines(s) =~= seq![a] + split_on_newlines(b));
    }
}

proof fn lemma_keep_nonempty_add(x: Seq<Seq<char>>, y: Seq<Seq<char>>)
    ensures
        keep_nonempty(x + y) == keep_nonempty(x) + keep_nonempty(y),
    decreases x.len(),
{
    if x.len() == 0 {
        assert(x + y =~= y);
        assert(keep_nonempty(x) + keep_nonempty(y) =~= keep_nonempty(y));
    } else {
        assert((x + y)[0] == x[0]);
        assert((x + y).skip(1) =~= x.skip(1) + y);
        lemma_keep_nonempty_add(x.skip(1), y);
        assert(keep_nonempty(x + y) =~= keep_nonempty(x) + keep_nonempty(y));
    }
}

proof fn lemma_keep_singleton(a: Seq<char>)
    ensures
        keep_nonempty(seq![a]) == (if a.len() == 0 {
            Seq::<Seq<char>>::empty()
        } else {
            seq![a]
        }),
{
    reveal_with_fuel(keep_nonempty, 2);
    assert(seq![a].skip(1) =~= Seq::<Seq<char>>::empty());
    if a.len() == 0 {
        assert(keep_nonempty(seq![a]) =~= Seq::<Seq<char>>::empty());
    } else {
        assert(keep_nonempty(seq![a]) =~= seq![a]);
    }
}

/// Splitting off one complete line: the nonempty lines of
/// `a` + newline + `b`, where `a` holds no newline, are `a` itself (unless
/// blank) followed by the nonempty lines of `b`.
proof fn lemma_nonempty_lines_chunk(a: Seq<char>, b: Seq<char>)
    requires
        has_no_newline(a),
    ensures
        nonempty_lines(a + seq!['\n'] + b) == (if a.len() == 0 {
            Seq::<Seq<char>>::empty()
        } else {
            seq![a]
        }) + nonempty_lines(b),
{
    lemma_split_chunk(a, b);
    lemma_keep_nonempty_add(seq![a], split_on_newlines(b));
    lemma_keep_singleton(a);
    if a.len() == 0 {
        assert(Seq::<Seq<char>>::empty() + nonempty_lines(b) =~= keep_nonempty(seq![a])
            + nonempty_lines(b));
    }
}

/// An unterminated remainder without newlines is one final line (unless
/// blank).
proof fn lemma_nonempty_lines_last(a: Seq<char>)
    requires
        has_no_newline(a),
    ensures
        nonempty_lines(a) == (if a.len() == 0 {
            Seq::<Seq<char>>::empty()
        } else {
            seq![a]
        }),
{
    lemma_split_no_newline(a);
    lemma_keep_singleton(a);
}

/// Extract the watch paths from newline-separated input, as read from
/// standard input at startup: one path per line, blank lines skipped,
/// in order.
pub fn parse_watch_paths(input: &str) -> (paths: Vec<String>)
    ensures
        paths.deep_view() == nonempty_lines(input@),
{
    let mut paths: Vec<String> = Vec::new();
    let ghost mut acc: Seq<Seq<char>> = Seq::<Seq<char>>::empty();
    let n = input.unicode_len();
    let mut start: usize = 0;
    let mut i: usize = 0;
    proof {
        assert(input@.skip(0) =~= input@);
        assert(acc + nonempty_lines(input@) =~= nonempty_lines(input@));
    }
    while i < n
        invariant
            start <= i <= n,
            n == input@.len(),
            paths@.len() == acc.len(),
            forall|k: int| 0 <= k < acc.len() ==> paths@[k]@ == acc[k],
            has_no_newline(input@.subrange(start as int, i as int)),
            nonempty_lines(input@) == acc + nonempty_lines(input@.skip(start as int)),
        decreases n - i,
    {
        let c = input.get_char(i);
        if c == '\n' {
            proof {
                let a = input@.subrange(start as int, i as int);
                let b = input@.skip(i as int + 1);
                assert(input@.skip(start as int) =~= a + seq!['\n'] + b);
                lemma_nonempty_lines_chunk(a, b);
            }
            if i > start {
                let line = input.substring_char(start, i);
                let owned = String::from_str(line);
                paths.push(owned);
                proof {
                    let a = input@.subrange(start as int, i as int);
                    let b = input@.skip(i as int + 1);
                    acc = acc.push(a);
                    assert(acc + nonempty_lines(b) =~= nonempty_lines(input@));
                }
            } else {
                proof {
                    let a = input@.subrange(start as int, i as int);
                    let b = input@.skip(i as int + 1);
                    assert(a.len() == 0);
                    assert(Seq::<Seq<char>>::empty() + nonempty_lines(b) =~= nonempty_lines(b));
                    assert(acc + nonempty_lines(b) =~= nonempty_lines(input@));
                }
            }
            start = i + 1;
            proof {
                assert(input@.subrange(start as int, start as int) =~= Seq::<char>::empty());
            }
        } else {
            proof {
                assert(input@.subrange(start as int, i as int + 1) =~= input@.subrange(
                    start as int,
                    i as int,
                ).push(input@[i as int]));
            }
        }
        i += 1;
    }
    proof {
        assert(input@.skip(start as int) =~= input@.subrange(start as int, n as int));
        lemma_nonempty_lines_last(input@.skip(start as int));
    }
    if start < n {
        let line = input.substring_char(start, n);
        let owned = String::from_str(line);
        paths.push(owned);
        proof {
            acc = acc.push(input@.subrange(start as int, n as int));
            assert(acc =~= nonempty_lines(input@));
        }
    } else {
        proof {
            assert(acc + Seq::<Seq<char>>::empty() =~= acc);
        }
    }
    proof {
        assert(paths.deep_view() =~= acc);
    }
    paths
}

/// The first watch registration that failed, if any.
///
/// `results[i]` reports whether registering the `i`-th path succeeded.
/// Startup is all-or-nothing: any failure is fatal, and the program aborts
/// on the first one before any process is spawned.
pub fn first_registration_failure(results: &Vec<bool>) -> (r: Option<usize>)
    ensures
        match r {
            Some(i) => i < results@.len() && !results@[i as int] && forall|j: int|
                0 <= j < i ==> results@[j],
            None => forall|j: int| 0 <= j < results@.len() ==> results@[j],
        },
{
    let n = results.len();
    let mut i: usize = 0;
    while i < n
        invariant
            i <= n,
            n == results@.len(),
            forall|j: int| 0 <= j < i ==> results@[j],
        decreases n - i,
    {
        if !results[i] {
            return Some(i);
        }
        i += 1;
    }
    None
}

} // verus!
