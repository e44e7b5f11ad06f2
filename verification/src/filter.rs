//! The decision whether a command's output is worth recording.

use vstd::prelude::*;
use crate::config::Config;
use crate::files::Files;
use crate::skip_list::texts;
use crate::text::{
    chars_of, first_word, is_blank, is_space, lemma_first_word, lemma_spaces_end, range_equals,
    range_starts_with, skip_spaces, skip_word,
};

verus! {

/// Whether `pattern` matches the command word `word`: a pattern that ends
/// with `*` matches every word that begins with the rest of the pattern, any
/// other pattern matches itself only.
pub open spec fn pattern_matches(pattern: Seq<char>, word: Seq<char>) -> bool {
    if pattern.len() > 0 && pattern.last() == '*' {
        pattern.drop_last().is_prefix_of(word)
    } else {
        word == pattern
    }
}

/// Whether some pattern of `patterns` matches `word`.
pub open spec fn is_skipped(patterns: Seq<Seq<char>>, word: Seq<char>) -> bool {
    exists|i: int| 0 <= i < patterns.len() && pattern_matches(#[trigger] patterns[i], word)
}

/// Whether the output of `command` is recorded under the skip list
/// `patterns`: the command is not blank and no pattern matches its first word.
pub open spec fn should_capture_spec(patterns: Seq<Seq<char>>, command: Seq<char>) -> bool {
    !is_blank(command) && !is_skipped(patterns, first_word(command))
}

/// The three cases of the decision: a blank command is never recorded; a
/// command whose first word some pattern matches is not recorded; every
/// other command is.
pub proof fn lemma_should_capture(patterns: Seq<Seq<char>>, command: Seq<char>, i: int)
    ensures
        is_blank(command) ==> !should_capture_spec(patterns, command),
        0 <= i < patterns.len() && pattern_matches(patterns[i], first_word(command))
            ==> !should_capture_spec(patterns, command),
        !is_blank(command) && (forall|k: int|
            0 <= k < patterns.len() ==> !pattern_matches(
                #[trigger] patterns[k],
                first_word(command),
            )) ==> should_capture_spec(patterns, command),
        !is_blank(command) ==> first_word(command).len() > 0,
{
    lemma_first_word(command);
}

/// A skip list ready to judge commands.
#[derive(Debug, Clone)]
pub struct CommandFilter {
    skip_commands: Vec<String>,
}

impl CommandFilter {
    /// The patterns of this filter.
    pub closed spec fn patterns(&self) -> Seq<Seq<char>> {
        texts(self.skip_commands@)
    }

    /// A filter with the skip list that `config` finds in `files`.
    pub fn new(config: &Config, files: &Files) -> (r: CommandFilter)
        ensures
            r.patterns() == config@.skip_commands(files@),
    {
        CommandFilter { skip_commands: config.skip_commands(files) }
    }

    /// Whether the output of `command` should be recorded.
    pub fn should_capture(&self, command: &str) -> (r: bool)
        ensures
            r == should_capture_spec(self.patterns(), command@),
    {
        let v = chars_of(command);
        let a = skip_spaces(&v, 0);
        proof {
            lemma_spaces_end(v@, 0);
        }
        if a == v.len() {
            return false;
        }
        assert(!is_blank(v@)) by {
            assert(!is_space(v@[a as int]));
        }
        let b = skip_word(&v, a);
        let ghost word = first_word(command@);
        let mut i: usize = 0;
        while i < self.skip_commands.len()
            invariant
                v@ == command@,
                a <= b <= v.len(),
                word == v@.subrange(a as int, b as int),
                word == first_word(command@),
                !is_blank(command@),
                i <= self.skip_commands@.len(),
                forall|k: int| 0 <= k < i ==> !pattern_matches(#[trigger] self.patterns()[k], word),
            decreases self.skip_commands.len() - i,
        {
            let pattern = chars_of(self.skip_commands[i].as_str());
            assert(pattern@ == self.patterns()[i as int]);
            let n: usize = pattern.len();
            let hit = if n > 0 && pattern[n - 1] == '*' {
                assert(pattern@.drop_last() =~= pattern@.subrange(0, n - 1));
                range_starts_with(&v, a, b, &pattern, n - 1)
            } else {
                range_equals(&v, a, b, &pattern)
            };
            if hit {
                assert(pattern_matches(self.patterns()[i as int], word));
                return false;
            }
            i += 1;
        }
        true
    }
}

} // verus!
