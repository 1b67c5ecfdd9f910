use vstd::prelude::*;

use vstd::string::StrSliceExecFns;
use vstd::string::StringExecFns;

verus! {

/// ASCII whitespace.  The protocols are ASCII at the framing level, so the
/// engines split commands and trim text on these characters.
pub open spec fn is_space(c: char) -> bool {
    c == ' ' || c == '\t' || c == '\r' || c == '\n'
}

/// Executable twin of [`is_space`].
pub fn is_space_char(c: char) -> (b: bool)
    ensures
        b == is_space(c),
{
    c == ' ' || c == '\t' || c == '\r' || c == '\n'
}

/// Index of the first occurrence of `c` in `s`, if any.
pub open spec fn find_char(s: Seq<char>, c: char) -> Option<int>
    decreases s.len(),
{
    if s.len() == 0 {
        None
    } else if s[0] == c {
        Some(0int)
    } else {
        match find_char(s.drop_first(), c) {
            Some(i) => Some(i + 1),
            None => None,
        }
    }
}

/// What [`find_char`] returns: the first occurrence, or none at all.
pub proof fn lemma_find_char(s: Seq<char>, c: char)
    ensures
        match find_char(s, c) {
            Some(i) => 0 <= i < s.len() && s[i] == c && forall|j: int|
                0 <= j < i ==> s[j] != c,
            None => forall|j: int| 0 <= j < s.len() ==> s[j] != c,
        },
    decreases s.len(),
{
    if s.len() > 0 && s[0] != c {
        lemma_find_char(s.drop_first(), c);
        match find_char(s.drop_first(), c) {
            Some(i) => {
                assert(s[i + 1] == s.drop_first()[i]);
                assert forall|j: int| 0 <= j < i + 1 implies s[j] != c by {
                    if j > 0 {
                        assert(s.drop_first()[j - 1] != c);
                    }
                }
            },
            None => {
                assert forall|j: int| 0 <= j < s.len() implies s[j] != c by {
                    if j > 0 {
                        assert(s.drop_first()[j - 1] != c);
                    }
                }
            },
        }
    }
}

/// A first occurrence pins down [`find_char`].
pub proof fn lemma_find_char_is(s: Seq<char>, c: char, i: int)
    requires
        0 <= i < s.len(),
        s[i] == c,
        forall|j: int| 0 <= j < i ==> s[j] != c,
    ensures
        find_char(s, c) == Some(i),
    decreases i,
{
    if i > 0 {
        lemma_find_char_is(s.drop_first(), c, i - 1);
    }
}

/// No occurrence at all pins down [`find_char`].
pub proof fn lemma_find_char_none(s: Seq<char>, c: char)
    requires
        forall|j: int| 0 <= j < s.len() ==> s[j] != c,
    ensures
        find_char(s, c) is None,
    decreases s.len(),
{
    if s.len() > 0 {
        lemma_find_char_none(s.drop_first(), c);
    }
}

/// Finds the first occurrence of `c` in `s` at or after position `from`.
pub fn find_char_in(s: &str, from: usize, c: char) -> (r: Option<usize>)
    requires
        from <= s@.len(),
    ensures
        match r {
            Some(i) => from <= i < s@.len() && s@[i as int] == c && (forall|j: int|
                from <= j < i ==> s@[j] != c) && find_char(
                s@.subrange(from as int, s@.len() as int),
                c,
            ) == Some(i - from),
            None => (forall|j: int| from <= j < s@.len() ==> s@[j] != c) && find_char(
                s@.subrange(from as int, s@.len() as int),
                c,
            ) is None,
        },
{
    let n = s.unicode_len();
    let mut i: usize = from;
    while i < n
        invariant
            from <= i <= n == s@.len(),
            forall|j: int| from <= j < i ==> s@[j] != c,
        decreases n - i,
    {
        if s.get_char(i) == c {
            proof {
                let t = s@.subrange(from as int, s@.len() as int);
                lemma_find_char_is(t, c, i - from);
            }
            return Some(i);
        }
        i = i + 1;
    }
    proof {
        let t = s@.subrange(from as int, s@.len() as int);
        lemma_find_char_none(t, c);
    }
    None
}

/// Character-exact string equality.
pub fn str_eq(a: &str, b: &str) -> (r: bool)
    ensures
        r == (a@ == b@),
{
    let n = a.unicode_len();
    if n != b.unicode_len() {
        return false;
    }
    let mut i: usize = 0;
    while i < n
        invariant
            0 <= i <= n == a@.len(),
            b@.len() == n,
            forall|j: int| 0 <= j < i ==> a@[j] == b@[j],
        decreases n - i,
    {
        if a.get_char(i) != b.get_char(i) {
            return false;
        }
        i = i + 1;
    }
    proof {
        assert(a@ =~= b@);
    }
    true
}

/// Whether `p` occurs in `s` starting exactly at position `i`.
pub open spec fn prefix_at(s: Seq<char>, i: int, p: Seq<char>) -> bool {
    i + p.len() <= s.len() && s.subrange(i, i + p.len()) == p
}

/// Executable twin of [`prefix_at`].
pub fn has_prefix_at(s: &str, i: usize, p: &str) -> (r: bool)
    requires
        i <= s@.len(),
    ensures
        r == prefix_at(s@, i as int, p@),
{
    let n = s.unicode_len();
    let m = p.unicode_len();
    if m > n - i {
        return false;
    }
    let mut j: usize = 0;
    while j < m
        invariant
            0 <= j <= m == p@.len(),
            i + m <= n == s@.len(),
            forall|k: int| 0 <= k < j ==> s@[i + k] == p@[k],
        decreases m - j,
    {
        if s.get_char(i + j) != p.get_char(j) {
            proof {
                assert(s@.subrange(i as int, i + p@.len())[j as int] != p@[j as int]);
            }
            return false;
        }
        j = j + 1;
    }
    proof {
        assert(s@.subrange(i as int, i + p@.len()) =~= p@);
    }
    true
}

/// `s` with its leading whitespace removed.
pub open spec fn skip_spaces(s: Seq<char>) -> Seq<char>
    decreases s.len(),
{
    if s.len() > 0 && is_space(s[0]) {
        skip_spaces(s.drop_first())
    } else {
        s
    }
}

/// The leading run of non-whitespace characters of `s`.
pub open spec fn take_nonspace(s: Seq<char>) -> Seq<char>
    decreases s.len(),
{
    if s.len() > 0 && !is_space(s[0]) {
        seq![s[0]] + take_nonspace(s.drop_first())
    } else {
        Seq::empty()
    }
}

/// `s` without its leading run of non-whitespace characters.
pub open spec fn drop_nonspace(s: Seq<char>) -> Seq<char>
    decreases s.len(),
{
    if s.len() > 0 && !is_space(s[0]) {
        drop_nonspace(s.drop_first())
    } else {
        s
    }
}

/// The first whitespace-separated word of `s` (empty if there is none).
pub open spec fn first_token(s: Seq<char>) -> Seq<char> {
    take_nonspace(skip_spaces(s))
}

/// What follows the first word of `s`, whitespace at the split kept.
pub open spec fn rest_after_token(s: Seq<char>) -> Seq<char> {
    drop_nonspace(skip_spaces(s))
}

/// A run of leading spaces that ends at a non-space pins down [`skip_spaces`].
pub proof fn lemma_skip_spaces_at(s: Seq<char>, a: int)
    requires
        0 <= a <= s.len(),
        forall|j: int| 0 <= j < a ==> is_space(s[j]),
        a == s.len() || !is_space(s[a]),
    ensures
        skip_spaces(s) == s.subrange(a, s.len() as int),
    decreases a,
{
    if a == 0 {
        assert(s.subrange(0, s.len() as int) =~= s);
    } else {
        lemma_skip_spaces_at(s.drop_first(), a - 1);
        assert(s.drop_first().subrange(a - 1, s.drop_first().len() as int) =~= s.subrange(
            a,
            s.len() as int,
        ));
    }
}

/// A run of non-spaces that ends at a space pins down [`take_nonspace`] and
/// [`drop_nonspace`].
proof fn lemma_token_run(s: Seq<char>, b: int)
    requires
        0 <= b <= s.len(),
        forall|j: int| 0 <= j < b ==> !is_space(s[j]),
        b == s.len() || is_space(s[b]),
    ensures
        take_nonspace(s) == s.subrange(0, b),
        drop_nonspace(s) == s.subrange(b, s.len() as int),
    decreases b,
{
    if b == 0 {
        assert(s.subrange(0, 0) =~= Seq::<char>::empty());
        assert(s.subrange(0, s.len() as int) =~= s);
    } else {
        lemma_token_run(s.drop_first(), b - 1);
        assert(s.drop_first().subrange(0, b - 1) =~= s.subrange(1, b));
        assert(seq![s[0]] + s.subrange(1, b) =~= s.subrange(0, b));
        assert(s.drop_first().subrange(b - 1, s.drop_first().len() as int) =~= s.subrange(
            b,
            s.len() as int,
        ));
    }
}

/// Splits `s` into its first whitespace-separated word and everything after
/// that word.
pub fn split_first_token(s: &str) -> (r: (String, String))
    ensures
        r.0@ == first_token(s@),
        r.1@ == rest_after_token(s@),
{
    let n = s.unicode_len();
    let mut a: usize = 0;
    while a < n && is_space_char(s.get_char(a))
        invariant
            0 <= a <= n == s@.len(),
            forall|j: int| 0 <= j < a ==> is_space(s@[j]),
        decreases n - a,
    {
        a = a + 1;
    }
    let mut b: usize = a;
    while b < n && !is_space_char(s.get_char(b))
        invariant
            a <= b <= n == s@.len(),
            forall|j: int| a <= j < b ==> !is_space(s@[j]),
        decreases n - b,
    {
        b = b + 1;
    }
    proof {
        lemma_skip_spaces_at(s@, a as int);
        let t = s@.subrange(a as int, s@.len() as int);
        assert forall|j: int| 0 <= j < b - a implies !is_space(t[j]) by {}
        lemma_token_run(t, b - a);
        assert(t.subrange(0, b - a) =~= s@.subrange(a as int, b as int));
        assert(t.subrange(b - a, t.len() as int) =~= s@.subrange(b as int, s@.len() as int));
    }
    let tok = s.substring_char(a, b).to_owned();
    let rest = s.substring_char(b, n).to_owned();
    (tok, rest)
}


/// One word with nothing after it: the word is the first token and nothing
/// follows.
pub proof fn lemma_token_single(cmd: Seq<char>)
    requires
        cmd.len() > 0,
        forall|i: int| 0 <= i < cmd.len() ==> !is_space(cmd[i]),
    ensures
        first_token(cmd) == cmd,
        rest_after_token(cmd) == Seq::<char>::empty(),
        first_token(rest_after_token(cmd)) == Seq::<char>::empty(),
{
    lemma_skip_spaces_at(cmd, 0);
    assert(cmd.subrange(0, cmd.len() as int) =~= cmd);
    lemma_token_run(cmd, cmd.len() as int);
    assert(cmd.subrange(cmd.len() as int, cmd.len() as int) =~= Seq::<char>::empty());
}

/// A command word, one space, and an argument word: the tokens come out one
/// by one, and nothing follows them.
pub proof fn lemma_tokens_cmd_arg(cmd: Seq<char>, arg: Seq<char>)
    requires
        cmd.len() > 0,
        forall|i: int| 0 <= i < cmd.len() ==> !is_space(cmd[i]),
        arg.len() > 0,
        forall|i: int| 0 <= i < arg.len() ==> !is_space(arg[i]),
    ensures
        first_token(cmd + " "@ + arg) == cmd,
        first_token(rest_after_token(cmd + " "@ + arg)) == arg,
        rest_after_token(rest_after_token(cmd + " "@ + arg)) == Seq::<char>::empty(),
        first_token(rest_after_token(rest_after_token(cmd + " "@ + arg))) == Seq::<char>::empty(),
{
    reveal_strlit(" ");
    let line = cmd + " "@ + arg;
    assert(" "@ =~= seq![' ']);
    assert(line.len() == cmd.len() + 1 + arg.len());
    assert forall|i: int| 0 <= i < cmd.len() implies line[i] == cmd[i] by {}
    assert(line[cmd.len() as int] == ' ');
    assert forall|k: int| 0 <= k < arg.len() implies line[cmd.len() + 1 + k] == arg[k] by {}
    lemma_skip_spaces_at(line, 0);
    assert(line.subrange(0, line.len() as int) =~= line);
    lemma_token_run(line, cmd.len() as int);
    assert(line.subrange(0, cmd.len() as int) =~= cmd);
    let rest0 = line.subrange(cmd.len() as int, line.len() as int);
    assert(rest_after_token(line) == rest0);
    assert(rest0.len() == 1 + arg.len());
    assert(rest0[0] == ' ');
    assert forall|k: int| 0 <= k < arg.len() implies rest0[1 + k] == arg[k] by {}
    lemma_skip_spaces_at(rest0, 1);
    let a = rest0.subrange(1, rest0.len() as int);
    assert(a =~= arg);
    lemma_token_run(arg, arg.len() as int);
    assert(arg.subrange(0, arg.len() as int) =~= arg);
    assert(arg.subrange(arg.len() as int, arg.len() as int) =~= Seq::<char>::empty());
    assert(first_token(rest0) == arg);
    assert(rest_after_token(rest0) == Seq::<char>::empty());
    assert(take_nonspace(Seq::<char>::empty()) == Seq::<char>::empty());
}

} // verus!

