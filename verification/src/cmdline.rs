//! How the target splits a parameter string into arguments, and the proof
//! that the string built by [`crate::windows::build_parameters`] is split
//! into the arguments it was built from.
//!
//! The splitting follows the documented rules of the C runtime on that
//! platform: arguments are separated by spaces and tabs; a quote opens or
//! closes a quoted part, in which separators are ordinary characters; a run
//! of backslashes is taken literally unless a quote follows it, in which case
//! every two backslashes give one and an odd one makes the quote literal;
//! inside a quoted part two quotes in a row give one literal quote.

use vstd::prelude::*;
use crate::windows::{escaped, escaped_char, is_special, needs_quotes, parameters, quoted_arg};

verus! {

/// The state of the splitter between two characters.
pub struct Scan {
    /// Inside a quoted part.
    pub quoted: bool,
    /// An argument has begun, though it may still be empty.
    pub started: bool,
    /// The characters of the current argument that are settled.
    pub word: Seq<char>,
    /// The backslashes read since the last other character.
    pub pending: nat,
}

/// The state before the first character and after each separator.
pub open spec fn fresh() -> Scan {
    Scan { quoted: false, started: false, word: Seq::empty(), pending: 0 }
}

/// A run of `n` backslashes.
pub open spec fn backslashes(n: nat) -> Seq<char> {
    Seq::new(n, |i: int| '\\')
}

/// The arguments that the splitter gives for `s` from position `i` on, when
/// it stands there in state `st`.
pub open spec fn split_from(s: Seq<char>, i: int, st: Scan) -> Seq<Seq<char>>
    decreases s.len() - i,
{
    if i < 0 || i >= s.len() {
        if st.started {
            seq![st.word + backslashes(st.pending)]
        } else {
            Seq::empty()
        }
    } else if s[i] == '\\' {
        split_from(s, i + 1, Scan { started: true, pending: st.pending + 1, ..st })
    } else if s[i] == '"' {
        let word = st.word + backslashes(st.pending / 2);
        if st.pending % 2 == 1 {
            split_from(
                s,
                i + 1,
                Scan { quoted: st.quoted, started: true, word: word.push('"'), pending: 0 },
            )
        } else if st.quoted && i + 1 < s.len() && s[i + 1] == '"' {
            split_from(
                s,
                i + 2,
                Scan { quoted: true, started: true, word: word.push('"'), pending: 0 },
            )
        } else {
            split_from(s, i + 1, Scan { quoted: !st.quoted, started: true, word, pending: 0 })
        }
    } else {
        let word = st.word + backslashes(st.pending);
        if !st.quoted && (s[i] == ' ' || s[i] == '\t') {
            if st.started {
                seq![word] + split_from(s, i + 1, fresh())
            } else {
                split_from(s, i + 1, fresh())
            }
        } else {
            split_from(
                s,
                i + 1,
                Scan { quoted: st.quoted, started: true, word: word.push(s[i]), pending: 0 },
            )
        }
    }
}

/// The arguments that the target reads from the parameter string `s`.
pub open spec fn split_parameters(s: Seq<char>) -> Seq<Seq<char>> {
    split_from(s, 0, fresh())
}

/// Whether an argument comes back unchanged. One that is written without
/// quotes always does. Between quotes every backslash is doubled, and the
/// target halves a run of backslashes only in front of a quote: so a quoted
/// argument comes back unchanged when each of its backslashes is followed by
/// another backslash, by a quote, or by nothing.
pub open spec fn survives(arg: Seq<char>) -> bool {
    needs_quotes(arg) ==> forall|i: int|
        0 <= i < arg.len() - 1 && #[trigger] arg[i] == '\\' ==> arg[i + 1] == '\\' || arg[i + 1]
            == '"'
}

/// What the splitter has made of an argument that stands between quotes,
/// before the closing quote: the characters that are settled, and the
/// number of backslashes the argument ends in, which are still open. A quote
/// settles the backslashes before it as they are. Any other character
/// settles them doubled, as they were written.
pub open spec fn settle(arg: Seq<char>) -> (Seq<char>, nat)
    decreases arg.len(),
{
    if arg.len() == 0 {
        (Seq::empty(), 0)
    } else {
        let (word, run) = settle(arg.drop_last());
        let c = arg.last();
        if c == '\\' {
            (word, run + 1)
        } else if c == '"' {
            ((word + backslashes(run)).push('"'), 0)
        } else {
            ((word + backslashes(2 * run)).push(c), 0)
        }
    }
}

/// The argument that the target reads where `arg` was written into the
/// parameter string.
pub open spec fn read_back(arg: Seq<char>) -> Seq<char> {
    if arg.len() == 0 || !needs_quotes(arg) {
        arg
    } else {
        settle(arg).0 + backslashes(settle(arg).1)
    }
}

/// The arguments that the target reads where `args` were written into the
/// parameter string.
pub open spec fn read_back_all(args: Seq<Seq<char>>) -> Seq<Seq<char>> {
    Seq::new(args.len(), |i: int| read_back(args[i]))
}

/// `s` holds `part` from position `at` on.
pub open spec fn holds_at(s: Seq<char>, at: int, part: Seq<char>) -> bool {
    &&& 0 <= at
    &&& at + part.len() <= s.len()
    &&& forall|j: int| 0 <= j < part.len() ==> s[at + j] == #[trigger] part[j]
}

/// Position `at` is the end of `s` or holds a space.
pub open spec fn at_gap(s: Seq<char>, at: int) -> bool {
    at == s.len() || (0 <= at < s.len() && s[at] == ' ')
}

proof fn lemma_backslashes_push(n: nat)
    ensures
        backslashes(n + 1) == backslashes(n).push('\\'),
        backslashes(0) == Seq::<char>::empty(),
{
    assert(backslashes(n + 1) =~= backslashes(n).push('\\'));
    assert(backslashes(0) =~= Seq::<char>::empty());
}

/// At a gap an argument that has begun ends, and the splitter goes on from
/// its first state.
proof fn lemma_word_ends(s: Seq<char>, at: int, st: Scan)
    requires
        at_gap(s, at),
        !st.quoted,
        st.started,
    ensures
        split_from(s, at, st) == seq![st.word + backslashes(st.pending)] + split_from(
            s,
            at,
            fresh(),
        ),
{
    let word = st.word + backslashes(st.pending);
    if at == s.len() {
        assert(split_from(s, at, fresh()) == Seq::<Seq<char>>::empty());
        assert(seq![word] + Seq::<Seq<char>>::empty() =~= seq![word]);
    } else {
        assert(split_from(s, at, fresh()) == split_from(s, at + 1, fresh()));
    }
}

/// An argument without a space, a tab or a quote, written as it is, is
/// read back as it is.
proof fn lemma_plain(s: Seq<char>, at: int, arg: Seq<char>, k: int, st: Scan)
    requires
        holds_at(s, at, arg),
        at_gap(s, at + arg.len()),
        !needs_quotes(arg),
        arg.len() > 0,
        0 <= k <= arg.len(),
        !st.quoted,
        st.started == (k > 0),
        st.word + backslashes(st.pending) == arg.take(k),
    ensures
        split_from(s, at + k, st) == seq![arg] + split_from(s, at + arg.len(), fresh()),
    decreases arg.len() - k,
{
    if k == arg.len() {
        assert(arg.take(k) =~= arg);
        lemma_word_ends(s, at + k, st);
    } else {
        let c = arg[k];
        assert(s[at + k] == c);
        assert(!is_special(c));
        if c == '\\' {
            let next = Scan { started: true, pending: st.pending + 1, ..st };
            lemma_backslashes_push(st.pending);
            assert(arg.take(k + 1) =~= arg.take(k).push(c));
            assert(next.word + backslashes(next.pending) =~= (st.word + backslashes(
                st.pending,
            )).push(c));
            lemma_plain(s, at, arg, k + 1, next);
        } else {
            let word = st.word + backslashes(st.pending);
            let next = Scan { quoted: false, started: true, word: word.push(c), pending: 0 };
            lemma_backslashes_push(0);
            assert(next.word + backslashes(next.pending) =~= arg.take(k + 1));
            lemma_plain(s, at, arg, k + 1, next);
        }
    }
}

/// What stands between quotes for the first `k` characters of an argument
/// is the beginning of what stands there for all of it.
proof fn lemma_escaped_prefix(arg: Seq<char>, k: int)
    requires
        0 <= k <= arg.len(),
    ensures
        escaped(arg.take(k)).len() <= escaped(arg).len(),
        forall|j: int|
            0 <= j < escaped(arg.take(k)).len() ==> escaped(arg)[j] == #[trigger] escaped(
                arg.take(k),
            )[j],
    decreases arg.len(),
{
    if k == arg.len() {
        assert(arg.take(k) =~= arg);
    } else {
        assert(arg.drop_last().take(k) =~= arg.take(k));
        lemma_escaped_prefix(arg.drop_last(), k);
    }
}

/// One more character of an argument adds its escaped form.
proof fn lemma_escaped_step(arg: Seq<char>, k: int)
    requires
        0 <= k < arg.len(),
    ensures
        escaped(arg.take(k + 1)) == escaped(arg.take(k)) + escaped_char(arg[k]),
{
    assert(arg.take(k + 1).drop_last() =~= arg.take(k));
    assert(arg.take(k + 1).last() == arg[k]);
}

/// One more character of an argument settles as [`settle`] says.
proof fn lemma_settle_step(arg: Seq<char>, k: int)
    requires
        0 <= k < arg.len(),
    ensures
        settle(arg.take(k + 1)) == (if arg[k] == '\\' {
            (settle(arg.take(k)).0, settle(arg.take(k)).1 + 1)
        } else if arg[k] == '"' {
            ((settle(arg.take(k)).0 + backslashes(settle(arg.take(k)).1)).push('"'), 0nat)
        } else {
            (
                (settle(arg.take(k)).0 + backslashes(2 * settle(arg.take(k)).1)).push(arg[k]),
                0nat,
            )
        }),
{
    assert(arg.take(k + 1).drop_last() =~= arg.take(k));
    assert(arg.take(k + 1).last() == arg[k]);
}

/// The inside of a quoted argument is read as [`settle`] says, and the
/// closing quote ends the argument.
proof fn lemma_inside_quotes(s: Seq<char>, at: int, arg: Seq<char>, k: int, st: Scan)
    requires
        holds_at(s, at, escaped(arg)),
        at + escaped(arg).len() < s.len(),
        s[at + escaped(arg).len()] == '"',
        at_gap(s, at + escaped(arg).len() + 1),
        0 <= k <= arg.len(),
        st.quoted,
        st.started,
        st.word == settle(arg.take(k)).0,
        st.pending == 2 * settle(arg.take(k)).1,
    ensures
        split_from(s, at + escaped(arg.take(k)).len(), st) == seq![
            settle(arg).0 + backslashes(settle(arg).1),
        ] + split_from(s, at + escaped(arg).len() + 1, fresh()),
    decreases arg.len() - k,
{
    let pos = at + escaped(arg.take(k)).len();
    let run = settle(arg.take(k)).1;
    if k == arg.len() {
        assert(arg.take(k) =~= arg);
        let closed = Scan {
            quoted: false,
            started: true,
            word: st.word + backslashes(st.pending / 2),
            pending: 0,
        };
        assert(st.pending / 2 == run);
        assert(split_from(s, pos, st) == split_from(s, pos + 1, closed));
        lemma_backslashes_push(0);
        assert(closed.word + backslashes(closed.pending) =~= settle(arg).0 + backslashes(
            settle(arg).1,
        ));
        lemma_word_ends(s, pos + 1, closed);
    } else {
        let c = arg[k];
        lemma_escaped_step(arg, k);
        lemma_escaped_prefix(arg, k + 1);
        lemma_settle_step(arg, k);
        let before = escaped(arg.take(k)).len() as int;
        let longer = escaped(arg.take(k + 1));
        assert forall|j: int| 0 <= j < escaped_char(c).len() implies s[pos + j] == escaped_char(
            c,
        )[j] by {
            assert(longer[before + j] == escaped_char(c)[j]);
            assert(escaped(arg)[before + j] == longer[before + j]);
            assert(s[at + (before + j)] == escaped(arg)[before + j]);
        }
        if c == '\\' {
            assert(s[pos] == '\\');
            assert(s[pos + 1] == '\\');
            let one = Scan { started: true, pending: st.pending + 1, ..st };
            let two = Scan { started: true, pending: st.pending + 2, ..st };
            assert(split_from(s, pos, st) == split_from(s, pos + 1, one));
            assert(split_from(s, pos + 1, one) == split_from(s, pos + 2, two));
            lemma_inside_quotes(s, at, arg, k + 1, two);
        } else if c == '"' {
            assert(s[pos] == '\\');
            assert(s[pos + 1] == '"');
            let one = Scan { started: true, pending: st.pending + 1, ..st };
            let word = st.word + backslashes(one.pending / 2);
            let two = Scan { quoted: true, started: true, word: word.push('"'), pending: 0 };
            assert(split_from(s, pos, st) == split_from(s, pos + 1, one));
            assert(one.pending % 2 == 1);
            assert(one.pending / 2 == run);
            assert(split_from(s, pos + 1, one) == split_from(s, pos + 2, two));
            lemma_inside_quotes(s, at, arg, k + 1, two);
        } else {
            assert(escaped_char(c) =~= seq![c]);
            assert(s[pos + 0] == escaped_char(c)[0]);
            let word = st.word + backslashes(st.pending);
            let next = Scan { quoted: true, started: true, word: word.push(c), pending: 0 };
            assert(split_from(s, pos, st) == split_from(s, pos + 1, next));
            lemma_inside_quotes(s, at, arg, k + 1, next);
        }
    }
}

/// One argument, written as the parameter string holds it and followed by
/// a gap, is read as [`read_back`] says.
pub proof fn lemma_argument_read_back(s: Seq<char>, at: int, arg: Seq<char>)
    requires
        holds_at(s, at, quoted_arg(arg)),
        at_gap(s, at + quoted_arg(arg).len()),
    ensures
        split_from(s, at, fresh()) == seq![read_back(arg)] + split_from(
            s,
            at + quoted_arg(arg).len(),
            fresh(),
        ),
{
    let q = quoted_arg(arg);
    let open = Scan { quoted: true, started: true, word: Seq::empty(), pending: 0 };
    lemma_backslashes_push(0);
    if arg.len() == 0 {
        assert(s[at + 0] == q[0]);
        assert(s[at + 1] == q[1]);
        let closed = Scan { quoted: false, started: true, word: Seq::empty(), pending: 0 };
        assert(fresh().word + backslashes(0) =~= Seq::<char>::empty());
        assert(split_from(s, at, fresh()) == split_from(s, at + 1, open));
        assert(open.word + backslashes(0) =~= Seq::<char>::empty());
        assert(split_from(s, at + 1, open) == split_from(s, at + 2, closed));
        lemma_word_ends(s, at + 2, closed);
        assert(closed.word + backslashes(closed.pending) =~= arg);
    } else if !needs_quotes(arg) {
        assert(fresh().word + backslashes(0) =~= arg.take(0));
        lemma_plain(s, at, arg, 0, fresh());
    } else {
        let inner = escaped(arg);
        let n = inner.len() as int;
        assert(q.len() == n + 2);
        assert(s[at + 0] == q[0]);
        assert(s[at + (n + 1)] == q[n + 1]);
        assert forall|j: int| 0 <= j < inner.len() implies s[at + 1 + j] == #[trigger] inner[j] by {
            assert(s[at + (j + 1)] == q[j + 1]);
        }
        assert(fresh().word + backslashes(0) =~= Seq::<char>::empty());
        assert(split_from(s, at, fresh()) == split_from(s, at + 1, open));
        assert(arg.take(0) =~= Seq::<char>::empty());
        assert(escaped(arg.take(0)) =~= Seq::<char>::empty());
        lemma_inside_quotes(s, at + 1, arg, 0, open);
    }
}

/// Of an argument in which every backslash is followed by a backslash, by a
/// quote or by nothing, the settled characters and the open backslashes are
/// together the argument.
proof fn lemma_settle_keeps(arg: Seq<char>, k: int)
    requires
        forall|i: int|
            0 <= i < arg.len() - 1 && #[trigger] arg[i] == '\\' ==> arg[i + 1] == '\\' || arg[i
                + 1] == '"',
        0 <= k <= arg.len(),
    ensures
        settle(arg.take(k)).0 + backslashes(settle(arg.take(k)).1) == arg.take(k),
        settle(arg.take(k)).1 > 0 ==> k > 0 && arg[k - 1] == '\\',
    decreases k,
{
    lemma_backslashes_push(0);
    if k == 0 {
        assert(arg.take(0) =~= Seq::<char>::empty());
        assert(settle(arg.take(0)).0 + backslashes(0) =~= arg.take(0));
    } else {
        lemma_settle_keeps(arg, k - 1);
        lemma_settle_step(arg, k - 1);
        let (word, run) = settle(arg.take(k - 1));
        let c = arg[k - 1];
        assert(arg.take(k) =~= arg.take(k - 1).push(c));
        if c == '\\' {
            lemma_backslashes_push(run);
            assert(word + backslashes(run + 1) =~= (word + backslashes(run)).push(c));
        } else if c == '"' {
            assert((word + backslashes(run)).push(c) + backslashes(0) =~= (word + backslashes(
                run,
            )).push(c));
        } else {
            if run > 0 {
                assert(arg[k - 2] == '\\');
                assert(false);
            }
            assert((word + backslashes(0)).push(c) + backslashes(0) =~= (word + backslashes(
                run,
            )).push(c));
        }
    }
}

/// What is settled of an argument and what is open are together never
/// shorter than the argument, and longer once a backslash was followed by a
/// character that is neither a backslash nor a quote.
proof fn lemma_settle_grows(arg: Seq<char>, k: int)
    requires
        0 <= k <= arg.len(),
    ensures
        settle(arg.take(k)).0.len() + settle(arg.take(k)).1 >= k,
        settle(arg.take(k)).1 > 0 <==> k > 0 && arg[k - 1] == '\\',
        forall|i: int|
            0 <= i < k - 1 && #[trigger] arg[i] == '\\' && arg[i + 1] != '\\' && arg[i + 1]
                != '"' ==> settle(arg.take(k)).0.len() + settle(arg.take(k)).1 > k,
    decreases k,
{
    if k == 0 {
        assert(arg.take(0) =~= Seq::<char>::empty());
    } else {
        lemma_settle_grows(arg, k - 1);
        lemma_settle_step(arg, k - 1);
    }
}

/// An argument is read back unchanged exactly when it is one that
/// [`survives`].
pub proof fn lemma_read_back_unchanged(arg: Seq<char>)
    ensures
        survives(arg) <==> read_back(arg) == arg,
{
    if arg.len() > 0 && needs_quotes(arg) {
        let n = arg.len() as int;
        assert(arg.take(n) =~= arg);
        if survives(arg) {
            lemma_settle_keeps(arg, n);
        } else {
            lemma_settle_grows(arg, n);
            let i = choose|i: int|
                0 <= i < arg.len() - 1 && #[trigger] arg[i] == '\\' && !(arg[i + 1] == '\\'
                    || arg[i + 1] == '"');
            assert(arg[i] == '\\');
            assert(read_back(arg).len() > arg.len());
        }
    }
}

/// The parameter string of the first `k` arguments is the beginning of the
/// parameter string of all of them.
proof fn lemma_parameters_prefix(args: Seq<Seq<char>>, k: int)
    requires
        0 <= k <= args.len(),
    ensures
        parameters(args.take(k)).len() <= parameters(args).len(),
        forall|j: int|
            0 <= j < parameters(args.take(k)).len() ==> parameters(args)[j]
                == #[trigger] parameters(args.take(k))[j],
    decreases args.len(),
{
    if k == args.len() {
        assert(args.take(k) =~= args);
    } else if args.len() == 1 {
        assert(args.take(0) =~= Seq::<Seq<char>>::empty());
    } else {
        assert(args.drop_last().take(k) =~= args.take(k));
        lemma_parameters_prefix(args.drop_last(), k);
    }
}

/// The first argument stands as it is written; every further one adds a
/// space and the argument as it is written.
proof fn lemma_parameters_step(args: Seq<Seq<char>>, k: int)
    requires
        0 <= k < args.len(),
    ensures
        parameters(args.take(k + 1)) == (if k == 0 {
            quoted_arg(args[0])
        } else {
            parameters(args.take(k)) + seq![' '] + quoted_arg(args[k])
        }),
{
    assert(args.take(k + 1).drop_last() =~= args.take(k));
    assert(args.take(k + 1).last() == args[k]);
    assert(args.take(k + 1)[0] == args[0]);
}

/// From the end of the first `k` arguments on, the parameter string is read
/// as the arguments that follow are read back.
proof fn lemma_rest_read_back(args: Seq<Seq<char>>, k: int)
    requires
        0 <= k <= args.len(),
    ensures
        split_from(parameters(args), parameters(args.take(k)).len() as int, fresh())
            == read_back_all(args).skip(k),
    decreases args.len() - k,
{
    let s = parameters(args);
    let here = parameters(args.take(k)).len() as int;
    if k == args.len() {
        assert(args.take(k) =~= args);
        assert(read_back_all(args).skip(k) =~= Seq::<Seq<char>>::empty());
    } else {
        let arg = args[k];
        let q = quoted_arg(arg);
        let longer = parameters(args.take(k + 1));
        let there = longer.len() as int;
        // Where the argument itself begins: at once, or after the space.
        let start = if k == 0 {
            0
        } else {
            here + 1
        };
        lemma_parameters_step(args, k);
        lemma_parameters_prefix(args, k + 1);
        assert(args.take(0) =~= Seq::<Seq<char>>::empty());
        assert(there == start + q.len());
        assert forall|j: int| 0 <= j < q.len() implies s[start + j] == #[trigger] q[j] by {
            assert(longer[start + j] == q[j]);
        }
        assert(at_gap(s, there)) by {
            if k + 1 < args.len() {
                lemma_parameters_step(args, k + 1);
                lemma_parameters_prefix(args, k + 2);
                let further = parameters(args.take(k + 2));
                assert(further[there] == ' ');
                assert(s[there] == further[there]);
            } else {
                assert(args.take(k + 1) =~= args);
            }
        }
        if k > 0 {
            assert(s[here] == ' ') by {
                assert(longer[here] == ' ');
            }
            assert(split_from(s, here, fresh()) == split_from(s, here + 1, fresh()));
        }
        lemma_argument_read_back(s, start, arg);
        lemma_rest_read_back(args, k + 1);
        assert(seq![read_back(arg)] + read_back_all(args).skip(k + 1) =~= read_back_all(
            args,
        ).skip(k));
    }
}

/// Splitting the parameter string that was built from `args` gives each
/// argument as it is read back.
pub proof fn lemma_parameters_read_back(args: Seq<Seq<char>>)
    ensures
        split_parameters(parameters(args)) == read_back_all(args),
{
    assert(args.take(0) =~= Seq::<Seq<char>>::empty());
    lemma_rest_read_back(args, 0);
    assert(read_back_all(args).skip(0) =~= read_back_all(args));
}

/// Splitting the parameter string that was built from `args` gives `args`
/// back exactly when every argument is one that [`survives`].
pub proof fn lemma_parameters_round_trip(args: Seq<Seq<char>>)
    ensures
        (forall|i: int| 0 <= i < args.len() ==> survives(#[trigger] args[i]))
            <==> split_parameters(parameters(args)) == args,
{
    lemma_parameters_read_back(args);
    assert forall|i: int| 0 <= i < args.len() implies (survives(#[trigger] args[i])
        <==> read_back_all(args)[i] == args[i]) by {
        lemma_read_back_unchanged(args[i]);
    }
    if forall|i: int| 0 <= i < args.len() ==> survives(#[trigger] args[i]) {
        assert(read_back_all(args) =~= args);
    }
}

} // verus!
