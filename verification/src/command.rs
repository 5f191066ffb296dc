use vstd::prelude::*;

verus! {

/// The characters on which a command line is split and a message is
/// trimmed: the Unicode white-space code points (the White_Space set).
pub open spec fn is_space(c: char) -> bool {
    let n = c as u32;
    n == 0x20 || n == 0x09 || n == 0x0a || n == 0x0b || n == 0x0c || n == 0x0d || n == 0x85
        || n == 0xa0 || n == 0x1680 || (0x2000 <= n && n <= 0x200a) || n == 0x2028 || n == 0x2029
        || n == 0x202f || n == 0x205f || n == 0x3000
}

/// Length of the run of non-space characters at the front of `s`.
pub open spec fn word_len(s: Seq<char>) -> nat
    decreases s.len(),
{
    if s.len() == 0 || is_space(s[0]) {
        0
    } else {
        word_len(s.skip(1)) + 1
    }
}

pub proof fn lemma_word_len_le(s: Seq<char>)
    ensures
        word_len(s) <= s.len(),
    decreases s.len(),
{
    if s.len() == 0 || is_space(s[0]) {
    } else {
        lemma_word_len_le(s.skip(1));
    }
}

/// The words of `s`: the maximal runs of non-space characters, in order.
pub open spec fn split_words(s: Seq<char>) -> Seq<Seq<char>>
    decreases s.len(),
    via split_words_decreases
{
    if s.len() == 0 {
        Seq::empty()
    } else if is_space(s[0]) {
        split_words(s.skip(1))
    } else {
        seq![s.take(word_len(s) as int)] + split_words(s.skip(word_len(s) as int))
    }
}

#[via_fn]
proof fn split_words_decreases(s: Seq<char>) {
    if s.len() > 0 && !is_space(s[0]) {
        lemma_word_len_le(s);
    }
}

/// `word_len(s)` is the position of the first space, or the whole length.
proof fn lemma_word_len_at(s: Seq<char>, w: int)
    requires
        0 <= w <= s.len(),
        forall|k: int| 0 <= k < w ==> !is_space(s[k]),
        w == s.len() || is_space(s[w]),
    ensures
        word_len(s) == w,
    decreases w,
{
    if w == 0 {
    } else {
        assert(!is_space(s[0]));
        let t = s.skip(1);
        assert forall|k: int| 0 <= k < w - 1 implies !is_space(t[k]) by {
            assert(t[k] == s[k + 1]);
        }
        if w < s.len() {
            assert(t[w - 1] == s[w]);
        }
        lemma_word_len_at(t, w - 1);
    }
}

pub(crate) fn is_space_char(c: char) -> (r: bool)
    ensures
        r == is_space(c),
{
    let n = c as u32;
    n == 0x20 || n == 0x09 || n == 0x0a || n == 0x0b || n == 0x0c || n == 0x0d || n == 0x85
        || n == 0xa0 || n == 0x1680 || (0x2000 <= n && n <= 0x200a) || n == 0x2028 || n == 0x2029
        || n == 0x202f || n == 0x205f || n == 0x3000
}

/// Splits `s` at whitespace into its words.
pub fn split_whitespace_strings(s: &str) -> (r: Vec<String>)
    ensures
        r.deep_view() == split_words(s@),
{
    let n = s.unicode_len();
    let mut words: Vec<String> = Vec::new();
    let mut i: usize = 0;
    proof {
        assert(s@.skip(0) =~= s@);
        assert(words.deep_view() + split_words(s@) =~= split_words(s@));
    }
    while i < n
        invariant
            i <= n,
            n == s@.len(),
            split_words(s@) == words.deep_view() + split_words(s@.skip(i as int)),
        decreases n - i,
    {
        let ghost pre = s@.skip(i as int);
        let c = s.get_char(i);
        if is_space_char(c) {
            proof {
                assert(pre[0] == s@[i as int]);
                assert(pre.skip(1) =~= s@.skip(i + 1));
            }
            i += 1;
        } else {
            let mut j: usize = i + 1;
            loop
                invariant
                    i < j <= n,
                    n == s@.len(),
                    forall|k: int| i <= k < j ==> !is_space(s@[k]),
                ensures
                    i < j <= n,
                    forall|k: int| i <= k < j ==> !is_space(s@[k]),
                    j == n || is_space(s@[j as int]),
                decreases n - j,
            {
                if j == n {
                    break ;
                }
                let d = s.get_char(j);
                if is_space_char(d) {
                    break ;
                }
                j += 1;
            }
            let word = s.substring_char(i, j).to_owned();
            proof {
                assert forall|k: int| 0 <= k < j - i implies !is_space(pre[k]) by {
                    assert(pre[k] == s@[i + k]);
                }
                if j < n {
                    assert(pre[j - i] == s@[j as int]);
                }
                lemma_word_len_at(pre, j - i);
                assert(pre.take(j - i) =~= s@.subrange(i as int, j as int));
                assert(pre.skip(j - i) =~= s@.skip(j as int));
                assert(split_words(pre) == seq![word@] + split_words(s@.skip(j as int)));
            }
            let ghost old_words = words.deep_view();
            words.push(word);
            proof {
                assert(words.deep_view() =~= old_words.push(word@));
                assert(old_words + split_words(pre) =~= words.deep_view() + split_words(
                    s@.skip(j as int),
                ));
            }
            i = j;
        }
    }
    proof {
        assert(s@.skip(n as int) =~= Seq::<char>::empty());
        assert(words.deep_view() + split_words(s@.skip(n as int)) =~= words.deep_view());
    }
    words
}

/// Splits a command line at whitespace into the command word and its
/// arguments; an all-whitespace line is rejected.
pub fn parse_command(command: &str) -> (r: Result<(String, Vec<String>), String>)
    ensures
        split_words(command@).len() == 0 ==> (r matches Err(m) && m@ == "empty command"@),
        split_words(command@).len() > 0 ==> (r matches Ok(p) && p.0@ == split_words(command@)[0]
            && p.1.deep_view() == split_words(command@).skip(1)),
{
    let mut words = split_whitespace_strings(command);
    if words.len() == 0 {
        Err("empty command".to_owned())
    } else {
        let ghost all = words.deep_view();
        let first = words.remove(0);
        proof {
            assert(words.deep_view() =~= all.skip(1));
        }
        Ok((first, words))
    }
}

/// A validation command: the program to run, its arguments, and whether its
/// output is shown while it runs.
#[derive(Debug)]
pub struct Command {
    pub command: String,
    pub args: Vec<String>,
    pub verbose: bool,
}

impl Command {
    /// Parses a whitespace-separated command line; the command starts quiet.
    pub fn parse(value: &str) -> (r: Result<Command, String>)
        ensures
            split_words(value@).len() == 0 ==> (r matches Err(m) && m@ == "empty command"@),
            split_words(value@).len() > 0 ==> (r matches Ok(c) && c.command@ == split_words(
                value@,
            )[0] && c.args.deep_view() == split_words(value@).skip(1) && !c.verbose),
    {
        match parse_command(value) {
            Ok((command, args)) => Ok(Command { command, args, verbose: false }),
            Err(m) => Err(m),
        }
    }

    /// The same command with its output shown.
    pub fn as_verbose(&self) -> (r: Command)
        ensures
            r.command@ == self.command@,
            r.args.deep_view() == self.args.deep_view(),
            r.verbose,
    {
        let args = self.args.clone();
        proof {
            assert forall|k: int| 0 <= k < self.args@.len() implies args@[k]@ == self.args@[k]@ by {
                assert(cloned::<String>(self.args@[k], args@[k]));
            }
            assert(args.deep_view() =~= self.args.deep_view());
        }
        Command { command: self.command.clone(), args, verbose: true }
    }
}

} // verus!
