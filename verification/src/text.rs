//! The line-oriented text format of topic files: one topic per line, each
//! line trimmed of surrounding whitespace, blank lines skipped.

use vstd::prelude::*;

verus! {

/// The whitespace characters stripped from the ends of a topic line: the
/// Unicode White_Space set.
pub open spec fn spec_is_space(c: char) -> bool {
    ||| ('\u{9}' <= c && c <= '\u{d}')
    ||| c == ' '
    ||| c == '\u{85}'
    ||| c == '\u{a0}'
    ||| c == '\u{1680}'
    ||| ('\u{2000}' <= c && c <= '\u{200a}')
    ||| c == '\u{2028}'
    ||| c == '\u{2029}'
    ||| c == '\u{202f}'
    ||| c == '\u{205f}'
    ||| c == '\u{3000}'
}

/// Whether `c` counts as whitespace when a topic line is trimmed.
#[verifier::when_used_as_spec(spec_is_space)]
pub fn is_space(c: char) -> (r: bool)
    ensures
        r == spec_is_space(c),
{
    ('\u{9}' <= c && c <= '\u{d}') || c == ' ' || c == '\u{85}' || c == '\u{a0}' || c == '\u{1680}'
        || ('\u{2000}' <= c && c <= '\u{200a}') || c == '\u{2028}' || c == '\u{2029}'
        || c == '\u{202f}' || c == '\u{205f}' || c == '\u{3000}'
}

/// `s` without its leading whitespace.
pub open spec fn trim_front(s: Seq<char>) -> Seq<char>
    decreases s.len(),
{
    if s.len() > 0 && spec_is_space(s[0]) {
        trim_front(s.skip(1))
    } else {
        s
    }
}

/// `s` without its trailing whitespace.
pub open spec fn trim_back(s: Seq<char>) -> Seq<char>
    decreases s.len(),
{
    if s.len() > 0 && spec_is_space(s[s.len() - 1]) {
        trim_back(s.drop_last())
    } else {
        s
    }
}

/// `s` without leading and trailing whitespace.
pub open spec fn trim(s: Seq<char>) -> Seq<char> {
    trim_front(trim_back(s))
}

/// The topics contributed by one raw line: its trimmed text, unless blank.
pub open spec fn emit_line(s: Seq<char>) -> Seq<Seq<char>> {
    if trim(s).len() == 0 {
        seq![]
    } else {
        seq![trim(s)]
    }
}

/// Splits `s` at each newline, with `cur` the part of the current line read
/// so far, and gathers the trimmed non-blank lines in order.
pub open spec fn parse_rec(s: Seq<char>, cur: Seq<char>) -> Seq<Seq<char>>
    decreases s.len(),
{
    if s.len() == 0 {
        emit_line(cur)
    } else if s[0] == '\n' {
        emit_line(cur) + parse_rec(s.skip(1), seq![])
    } else {
        parse_rec(s.skip(1), cur.push(s[0]))
    }
}

/// The topic list encoded by a text file: its lines in order, each trimmed,
/// blank lines left out.
pub open spec fn parse_topics(s: Seq<char>) -> Seq<Seq<char>> {
    parse_rec(s, seq![])
}

/// Trimming removes exactly the whitespace suffix: if everything from `b` on
/// is whitespace and the character just before `b` (if any) is not,
/// `trim_back` keeps precisely the first `b` characters.
proof fn lemma_trim_back_take(s: Seq<char>, b: int)
    requires
        0 <= b <= s.len(),
        forall|k: int| b <= k < s.len() ==> spec_is_space(s[k]),
        b == 0 || !spec_is_space(s[b - 1]),
    ensures
        trim_back(s) == s.take(b),
    decreases s.len(),
{
    if b == s.len() {
        if s.len() == 0 {
            assert(trim_back(s) =~= s.take(b));
        } else {
            assert(!spec_is_space(s[s.len() - 1]));
            assert(trim_back(s) =~= s.take(b));
        }
    } else {
        assert(spec_is_space(s[s.len() - 1]));
        assert(s.drop_last() =~= s.take(s.len() - 1));
        lemma_trim_back_take(s.drop_last(), b);
        assert(s.drop_last().take(b) =~= s.take(b));
    }
}

/// Trimming removes exactly the whitespace prefix: if everything before `a`
/// is whitespace and the character at `a` (if any) is not, `trim_front`
/// drops precisely the first `a` characters.
proof fn lemma_trim_front_skip(s: Seq<char>, a: int)
    requires
        0 <= a <= s.len(),
        forall|k: int| 0 <= k < a ==> spec_is_space(s[k]),
        a == s.len() || !spec_is_space(s[a]),
    ensures
        trim_front(s) == s.skip(a),
    decreases a,
{
    if a == 0 {
        if s.len() == 0 || !spec_is_space(s[0]) {
            assert(trim_front(s) =~= s.skip(0));
        }
    } else {
        assert(spec_is_space(s[0]));
        lemma_trim_front_skip(s.skip(1), a - 1);
        assert(s.skip(1).skip(a - 1) =~= s.skip(a));
    }
}

/// The trimmed text of the line `s[ls..i]` is exactly `s[a..b]`, where `a`
/// and `b` bound its non-whitespace core.
pub proof fn lemma_trim_subrange(s: Seq<char>, ls: int, i: int, a: int, b: int)
    requires
        0 <= ls <= a <= b <= i <= s.len(),
        forall|k: int| ls <= k < a ==> spec_is_space(s[k]),
        forall|k: int| b <= k < i ==> spec_is_space(s[k]),
        a < b ==> !spec_is_space(s[a]) && !spec_is_space(s[b - 1]),
    ensures
        trim(s.subrange(ls, i)) == s.subrange(a, b),
{
    let line = s.subrange(ls, i);
    if a == b {
        assert(forall|k: int| 0 <= k < line.len() ==> spec_is_space(line[k]));
        lemma_trim_back_take(line, 0);
        assert(trim_back(line) =~= Seq::<char>::empty());
        lemma_trim_front_skip(trim_back(line), 0);
        assert(trim(line) =~= s.subrange(a, b));
    } else {
        lemma_trim_back_take(line, b - ls);
        let kept = line.take(b - ls);
        lemma_trim_front_skip(kept, a - ls);
        assert(kept.skip(a - ls) =~= s.subrange(a, b));
    }
}

} // verus!
