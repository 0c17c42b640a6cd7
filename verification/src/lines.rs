use vstd::prelude::*;

verus! {

/// Index of the first `\n` in `s`, or `s.len()` when there is none.
pub open spec fn first_newline(s: Seq<char>) -> int
    decreases s.len(),
{
    if s.len() == 0 {
        0
    } else if s[0] == '\n' {
        0
    } else {
        1 + first_newline(s.drop_first())
    }
}

/// `first_newline` is in range, lands on a `\n` when one exists, and
/// nothing before it is a `\n`.
pub proof fn lemma_first_newline_bounds(s: Seq<char>)
    ensures
        0 <= first_newline(s) <= s.len(),
        first_newline(s) < s.len() ==> s[first_newline(s)] == '\n',
        forall|j: int| 0 <= j < first_newline(s) ==> s[j] != '\n',
    decreases s.len(),
{
    if s.len() == 0 {
    } else if s[0] == '\n' {
    } else {
        lemma_first_newline_bounds(s.drop_first());
        assert forall|j: int| 0 <= j < first_newline(s) implies s[j] != '\n' by {
            if j > 0 {
                assert(s.drop_first()[j - 1] == s[j]);
            }
        }
    }
}

/// A position before which no `\n` stands, and which holds a `\n` unless it
/// is the end, is the first newline.
pub proof fn lemma_first_newline_is(s: Seq<char>, k: int)
    requires
        0 <= k <= s.len(),
        forall|j: int| 0 <= j < k ==> s[j] != '\n',
        k < s.len() ==> s[k] == '\n',
    ensures
        first_newline(s) == k,
    decreases s.len(),
{
    if s.len() == 0 {
    } else if s[0] == '\n' {
        assert(k == 0);
    } else {
        assert(k >= 1);
        let t = s.drop_first();
        assert forall|j: int| 0 <= j < k - 1 implies t[j] != '\n' by {
            assert(t[j] == s[j + 1]);
        }
        lemma_first_newline_is(t, k - 1);
    }
}

/// A carriage return just before the terminator is not part of the line.
pub open spec fn strip_cr(line: Seq<char>) -> Seq<char> {
    if line.len() > 0 && line.last() == '\r' {
        line.drop_last()
    } else {
        line
    }
}

/// The lines of `s`: content between `\n` terminators, a `\r` directly
/// before a terminator removed, and no empty final line after a trailing
/// terminator.
pub open spec fn line_seq(s: Seq<char>) -> Seq<Seq<char>>
    decreases s.len(),
    via line_seq_decreases
{
    if s.len() == 0 {
        Seq::empty()
    } else {
        let i = first_newline(s);
        if i == s.len() {
            seq![s]
        } else {
            seq![strip_cr(s.take(i))] + line_seq(s.skip(i + 1))
        }
    }
}

#[via_fn]
proof fn line_seq_decreases(s: Seq<char>) {
    lemma_first_newline_bounds(s);
}

/// Appending a terminator to a text that does not end in one leaves its
/// lines unchanged: the final line never needs a trailing `\n`.
pub proof fn lemma_trailing_terminator_irrelevant(s: Seq<char>)
    requires
        s.len() > 0,
        s.last() != '\n',
        s.last() != '\r',
    ensures
        line_seq(s.push('\n')) == line_seq(s),
    decreases s.len(),
{
    let t = s.push('\n');
    lemma_first_newline_bounds(s);
    let i = first_newline(s);
    assert forall|j: int| 0 <= j < i implies t[j] != '\n' by {
        assert(t[j] == s[j]);
    }
    lemma_first_newline_is(t, i);
    if i == s.len() {
        assert(t.take(i) =~= s);
        assert(strip_cr(t.take(i)) == s);
        assert(t.skip(i + 1) =~= Seq::<char>::empty());
        assert(line_seq(t) == seq![s] + line_seq(Seq::<char>::empty()));
        assert(seq![s] + Seq::<Seq<char>>::empty() =~= seq![s]);
        assert(line_seq(s) == seq![s]);
    } else {
        assert(s[i] == '\n');
        assert(i < s.len() - 1);
        let rest = s.skip(i + 1);
        assert(rest.len() > 0);
        assert(rest.last() == s.last());
        lemma_trailing_terminator_irrelevant(rest);
        assert(t.take(i) =~= s.take(i));
        assert(t.skip(i + 1) =~= rest.push('\n'));
        assert(line_seq(t) == seq![strip_cr(t.take(i))] + line_seq(t.skip(i + 1)));
        assert(line_seq(s) == seq![strip_cr(s.take(i))] + line_seq(rest));
    }
}

/// Split `contents` into its lines, each a slice of the original buffer.
pub fn lines_of<'a>(contents: &'a str) -> (lines: Vec<&'a str>)
    ensures
        lines.deep_view() == line_seq(contents@),
{
    let n: usize = contents.unicode_len();
    let mut lines: Vec<&'a str> = Vec::new();
    let mut pos: usize = 0;
    proof {
        assert(contents@.skip(0) =~= contents@);
    }
    while pos < n
        invariant
            n == contents@.len(),
            0 <= pos <= n,
            lines.deep_view() + line_seq(contents@.skip(pos as int)) == line_seq(contents@),
        decreases n - pos,
    {
        let ghost old_lines = lines.deep_view();
        let ghost suffix = contents@.skip(pos as int);
        let mut k: usize = pos;
        while k < n && contents.get_char(k) != '\n'
            invariant
                n == contents@.len(),
                pos <= k <= n,
                forall|j: int| pos <= j < k ==> contents@[j] != '\n',
            decreases n - k,
        {
            k += 1;
        }
        proof {
            assert forall|j: int| 0 <= j < k - pos implies suffix[j] != '\n' by {
                assert(suffix[j] == contents@[pos + j]);
            }
            if k < n {
                assert(suffix[k - pos] == contents@[k as int]);
            }
            lemma_first_newline_is(suffix, k - pos);
        }
        let line: &'a str;
        if k < n {
            let end: usize = if k > pos && contents.get_char(k - 1) == '\r' {
                k - 1
            } else {
                k
            };
            line = contents.substring_char(pos, end);
            proof {
                assert(suffix.take(k - pos) =~= contents@.subrange(pos as int, k as int));
                if k > pos && contents@[k - 1] == '\r' {
                    assert(suffix.take(k - pos).last() == contents@[k - 1]);
                    assert(strip_cr(suffix.take(k - pos)) =~= contents@.subrange(
                        pos as int,
                        k - 1,
                    ));
                } else {
                    assert(strip_cr(suffix.take(k - pos)) == suffix.take(k - pos));
                }
                assert(line@ == strip_cr(suffix.take(k - pos)));
                assert(suffix.skip(k - pos + 1) =~= contents@.skip(k + 1));
                assert(line_seq(suffix) == seq![line@] + line_seq(contents@.skip(k + 1)));
            }
            lines.push(line);
            pos = k + 1;
        } else {
            line = contents.substring_char(pos, n);
            proof {
                assert(suffix =~= contents@.subrange(pos as int, n as int));
                assert(line_seq(suffix) == seq![line@]);
                assert(contents@.skip(n as int) =~= Seq::<char>::empty());
                assert(line_seq(suffix) == seq![line@] + line_seq(contents@.skip(n as int)));
            }
            lines.push(line);
            pos = n;
        }
        proof {
            assert(lines.deep_view() =~= old_lines.push(line@));
            assert(old_lines.push(line@) =~= old_lines + seq![line@]);
            assert(lines.deep_view() + line_seq(contents@.skip(pos as int)) =~= line_seq(
                contents@,
            ));
        }
    }
    proof {
        assert(contents@.skip(pos as int) =~= Seq::<char>::empty());
        assert(lines.deep_view() + line_seq(contents@.skip(pos as int)) =~= lines.deep_view());
    }
    lines
}

} // verus!
