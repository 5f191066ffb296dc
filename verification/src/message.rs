use crate::command::{is_space, is_space_char};
use crate::strings::push_char;
use vstd::prelude::*;

verus! {

/// `s` with leading whitespace removed.
pub open spec fn trim_front(s: Seq<char>) -> Seq<char>
    decreases s.len(),
{
    if s.len() > 0 && is_space(s[0]) {
        trim_front(s.skip(1))
    } else {
        s
    }
}

/// `s` with trailing whitespace removed.
pub open spec fn trim_back(s: Seq<char>) -> Seq<char>
    decreases s.len(),
{
    if s.len() > 0 && is_space(s.last()) {
        trim_back(s.drop_last())
    } else {
        s
    }
}

/// `s` with whitespace removed from both ends.
pub open spec fn trimmed(s: Seq<char>) -> Seq<char> {
    trim_back(trim_front(s))
}

/// `n` spaces.
pub open spec fn spaces(n: nat) -> Seq<char> {
    Seq::new(n, |i: int| ' ')
}

/// Width of the fixed column a commit message is formatted into.
pub const MESSAGE_COLUMN: usize = 23;

/// Messages longer than this are truncated and marked with an ellipsis.
pub const MESSAGE_LIMIT: usize = 20;

/// The display form of a commit message: trimmed, then either dropped when
/// nothing is left, padded with spaces into a fixed-width column when short,
/// or cut to the limit and marked with an ellipsis when long.
pub open spec fn formatted_message(m: Seq<char>) -> Option<Seq<char>> {
    let t = trimmed(m);
    if t.len() == 0 {
        None
    } else if t.len() < MESSAGE_LIMIT {
        Some(t + spaces((MESSAGE_COLUMN - t.len()) as nat))
    } else {
        Some(t.take(MESSAGE_LIMIT as int) + seq!['.', '.', '.'])
    }
}

/// `trim_front` drops exactly the leading run of spaces.
proof fn lemma_trim_front_at(s: Seq<char>, a: int)
    requires
        0 <= a <= s.len(),
        forall|k: int| 0 <= k < a ==> is_space(s[k]),
        a == s.len() || !is_space(s[a]),
    ensures
        trim_front(s) == s.skip(a),
    decreases a,
{
    if a == 0 {
        assert(s.skip(0) =~= s);
    } else {
        let t = s.skip(1);
        assert forall|k: int| 0 <= k < a - 1 implies is_space(t[k]) by {
            assert(t[k] == s[k + 1]);
        }
        lemma_trim_front_at(t, a - 1);
        assert(t.skip(a - 1) =~= s.skip(a));
    }
}

/// `trim_back` drops exactly the trailing run of spaces.
proof fn lemma_trim_back_at(s: Seq<char>, e: int)
    requires
        0 <= e <= s.len(),
        forall|k: int| e <= k < s.len() ==> is_space(s[k]),
        e == 0 || !is_space(s[e - 1]),
    ensures
        trim_back(s) == s.take(e),
    decreases s.len() - e,
{
    if e == s.len() {
        assert(s.take(e) =~= s);
    } else {
        let t = s.drop_last();
        assert forall|k: int| e <= k < t.len() implies is_space(t[k]) by {
            assert(t[k] == s[k]);
        }
        lemma_trim_back_at(t, e);
        assert(t.take(e) =~= s.take(e));
    }
}

/// Renders a raw commit message for the per-commit report line, or `None`
/// when the message is blank.
pub fn format_commit_message(message: &str) -> (r: Option<String>)
    ensures
        match formatted_message(message@) {
            Some(f) => r matches Some(s) && s@ == f,
            None => r is None,
        },
{
    let n = message.unicode_len();
    let mut start: usize = 0;
    loop
        invariant
            start <= n,
            n == message@.len(),
            forall|k: int| 0 <= k < start ==> is_space(message@[k]),
        ensures
            start <= n,
            forall|k: int| 0 <= k < start ==> is_space(message@[k]),
            start == n || !is_space(message@[start as int]),
        decreases n - start,
    {
        if start == n {
            break ;
        }
        if !is_space_char(message.get_char(start)) {
            break ;
        }
        start += 1;
    }
    if start == n {
        proof {
            lemma_trim_front_at(message@, n as int);
            assert(message@.skip(n as int) =~= Seq::<char>::empty());
        }
        return None;
    }
    let mut end: usize = n;
    loop
        invariant
            start < end <= n,
            n == message@.len(),
            !is_space(message@[start as int]),
            forall|k: int| end <= k < n ==> is_space(message@[k]),
        ensures
            start < end <= n,
            forall|k: int| end <= k < n ==> is_space(message@[k]),
            !is_space(message@[end - 1]),
        decreases end,
    {
        if !is_space_char(message.get_char(end - 1)) {
            break ;
        }
        end -= 1;
    }
    proof {
        lemma_trim_front_at(message@, start as int);
        let rest = message@.skip(start as int);
        assert forall|k: int| end - start <= k < rest.len() implies is_space(rest[k]) by {
            assert(rest[k] == message@[start + k]);
        }
        assert(rest[end - start - 1] == message@[end - 1]);
        lemma_trim_back_at(rest, end - start);
        assert(trimmed(message@) =~= message@.subrange(start as int, end as int));
    }
    let len = end - start;
    if len < MESSAGE_LIMIT {
        let mut out = message.substring_char(start, end).to_owned();
        let mut pad: usize = len;
        while pad < MESSAGE_COLUMN
            invariant
                len <= pad <= MESSAGE_COLUMN,
                out@ == trimmed(message@) + spaces((pad - len) as nat),
            decreases MESSAGE_COLUMN - pad,
        {
            push_char(&mut out, ' ');
            proof {
                assert(out@ =~= trimmed(message@) + spaces((pad + 1 - len) as nat));
            }
            pad += 1;
        }
        proof {
            assert(spaces(0) =~= Seq::<char>::empty());
            assert(trimmed(message@) + spaces(0) =~= trimmed(message@));
        }
        Some(out)
    } else {
        let mut out = message.substring_char(start, start + MESSAGE_LIMIT).to_owned();
        proof {
            assert(message@.subrange(start as int, start + MESSAGE_LIMIT as int) =~= trimmed(
                message@,
            ).take(MESSAGE_LIMIT as int));
        }
        push_char(&mut out, '.');
        push_char(&mut out, '.');
        push_char(&mut out, '.');
        proof {
            assert(out@ =~= trimmed(message@).take(MESSAGE_LIMIT as int) + seq!['.', '.', '.']);
        }
        Some(out)
    }
}

} // verus!
