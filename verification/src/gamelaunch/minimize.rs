use vstd::prelude::*;
use vstd::string::StrSliceExecFns;

verus! {

/// Whether `pattern` occurs in `text` as a run of consecutive characters.
pub open spec fn spec_contains(text: Seq<char>, pattern: Seq<char>) -> bool {
    exists|i: int|
        0 <= i && i + pattern.len() <= text.len() && #[trigger] text.subrange(i, i + pattern.len())
            == pattern
}

/// The characters of a string, in order.
fn chars_of(s: &str) -> (cs: Vec<char>)
    ensures
        cs@ == s@,
{
    let n = s.unicode_len();
    let mut cs: Vec<char> = Vec::new();
    let mut i: usize = 0;
    while i < n
        invariant
            n == s@.len(),
            i <= n,
            cs@ == s@.take(i as int),
        decreases n - i,
    {
        cs.push(s.get_char(i));
        proof {
            assert(s@.take(i + 1) =~= s@.take(i as int).push(s@[i as int]));
        }
        i = i + 1;
    }
    proof {
        assert(s@.take(n as int) =~= s@);
    }
    cs
}

/// Whether `pattern` occurs at position `i` of `text`.
fn occurs_at(text: &Vec<char>, pattern: &Vec<char>, i: usize) -> (r: bool)
    requires
        i + pattern@.len() <= text@.len(),
    ensures
        r == (text@.subrange(i as int, i + pattern@.len()) == pattern@),
{
    let text_len = text.len();
    let mut j: usize = 0;
    while j < pattern.len()
        invariant
            i + pattern@.len() <= text@.len(),
            text_len == text@.len(),
            j <= pattern@.len(),
            forall|k: int| 0 <= k < j ==> text@[i + k] == pattern@[k],
        decreases pattern@.len() - j,
    {
        if text[i + j] != pattern[j] {
            proof {
                assert(text@.subrange(i as int, i + pattern@.len())[j as int] != pattern@[j as int]);
            }
            return false;
        }
        j = j + 1;
    }
    proof {
        assert(text@.subrange(i as int, i + pattern@.len()) =~= pattern@);
    }
    true
}

/// Whether a window with this title is one of the game's: the title
/// contains `Rocket League`.
pub fn is_game_window(title: &str) -> (r: bool)
    ensures
        r == spec_contains(title@, "Rocket League"@),
{
    let text = chars_of(title);
    let pattern = chars_of("Rocket League");
    let mut i: usize = 0;
    if text.len() < pattern.len() {
        proof {
            assert forall|k: int|
                0 <= k && k + pattern@.len() <= text@.len() implies #[trigger] title@.subrange(
                k,
                k + pattern@.len(),
            ) != "Rocket League"@ by {}
        }
        return false;
    }
    let last = text.len() - pattern.len();
    proof {
        reveal_strlit("Rocket League");
    }
    while i <= last
        invariant
            text@ == title@,
            text@.len() <= usize::MAX,
            pattern@.len() == 13,
            pattern@ == "Rocket League"@,
            last + pattern@.len() == text@.len(),
            i <= last + 1,
            forall|k: int|
                0 <= k < i ==> #[trigger] text@.subrange(k, k + pattern@.len()) != pattern@,
        decreases last + 1 - i,
    {
        if occurs_at(&text, &pattern, i) {
            return true;
        }
        i = i + 1;
    }
    false
}

} // verus!
